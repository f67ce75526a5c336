# buffy_narrator

A Discord bot that runs a multiplayer text adventure set in the world of *Buffy the
Vampire Slayer*: a language model (Gemini or Mistral) narrates, the players act through
the characters they declare, a twenty-sided die settles risky actions.

The crate is in two parts.

- `src/` is the library, verified with Verus: the rules of the game and of the bot,
  each with its contract.
  - `text` — characters, trimming, words, decimal numbers, parsing.
  - `options` — the follow-ups a model proposes, turned into button labels.
  - `dice` — the d20 and the outcome of a roll.
  - `state` — the state of an adventure: providers, keys, characters, history.
  - `prompts` — the instructions given to the model, and how player text is fenced.
  - `turn` — a turn as a state machine: summary, turn plan, roll, narration.
  - `json`, `gemini`, `mistral` — reading the providers' replies; the chat for Mistral.
  - `discord` — splitting long texts, button ids and labels, the note of a choice.
  - `commands` — what a message typed in a channel asks.
  - `characters` — declaring a character, and the menu of characters.
  - `replies` — the answers to commands and clicks; what a new adventure keeps.
  - `catchup` — which missed messages are replayed after a downtime.
  - `deploy` — the steps of `/deploy` and what the requester is told.
  - `slash` — the slash commands declared, and how their options are read.
  - `store` — the file name of each channel's adventure.
  - `image` — reading a reply of the image model: where its image is, and how an
    image address is read.
- `app/` is the program around it: the Discord client (serenity), the HTTP calls
  (reqwest), the sending of replies, the files of the sessions, the processes of `/deploy`, and the copies of
  the library's types that carry serde's derives.

`tests/` runs the library on concrete cases.
