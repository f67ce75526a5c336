//! Scene images: where the image is in a reply of the image model, and how an image
//! address is read (an inline `data:` URI is decoded, only `https` addresses are
//! fetched).
use vstd::prelude::*;

use base64::Engine;
use serde_json::Value;

use crate::text::{
    chars_of, chars_start_with, copy_range, field_len, lemma_field_len_is, starts_with,
    string_from_chars, string_of,
};

verus! {

/// `base64::DecodeError`, carried through as it is.
#[verifier::external_type_specification]
#[verifier::external_body]
pub struct ExDecodeError(base64::DecodeError);

/// The bytes that standard base64 (with padding) decodes `text` to, `None` when it is
/// not valid base64.
pub uninterp spec fn base64_decoded(text: Seq<char>) -> Option<Seq<u8>>;

/// Calls `base64::engine::general_purpose::STANDARD.decode`. Trusted: the outcome is
/// a fixed function of the text, named `base64_decoded`; the base64 alphabet and
/// padding rules are not stated.
#[verifier::external_body]
fn decode_base64(text: &str) -> (r: Result<Vec<u8>, base64::DecodeError>)
    ensures
        match r {
            Ok(bytes) => base64_decoded(text@) == Some(bytes@),
            Err(_) => base64_decoded(text@) is None,
        },
{
    base64::engine::general_purpose::STANDARD.decode(text)
}

/// What an image address designates.
pub enum SourceView {
    /// A `data:image/…` URI, with its base64 payload.
    Inline(Seq<char>),
    /// A `data:image/…` URI without a payload.
    Malformed,
    /// An `https` address, to fetch.
    Fetch,
    /// Any other address: not fetched, against requests forged to inner services.
    Rejected,
}

/// How an image address is read: the payload of a `data:image/` URI is what follows its
/// first comma.
pub open spec fn image_source(url: Seq<char>) -> SourceView {
    if starts_with(url, "data:image/"@) {
        let rest = url.skip(11);
        let k = field_len(rest, ',');
        if k < rest.len() {
            SourceView::Inline(rest.skip(k + 1int))
        } else {
            SourceView::Malformed
        }
    } else if starts_with(url, "https://"@) {
        SourceView::Fetch
    } else {
        SourceView::Rejected
    }
}

/// Why no image came of a reply.
#[derive(Debug)]
pub enum ImageError {
    /// The reply is not JSON.
    Json(serde_json::Error),
    Decode(base64::DecodeError),
    Message(String),
}

/// What a reply of the image model leads to.
#[derive(Debug)]
pub enum ImageOutcome {
    Bytes(Vec<u8>),
    /// Download the image at this `https` address.
    Fetch(String),
    Failed(ImageError),
    /// The reply holds no image in a known place.
    Unrecognized,
}

/// An `ImageOutcome` with its contents as sequences.
pub enum OutcomeView {
    Bytes(Seq<u8>),
    Fetch(Seq<char>),
    JsonFailed,
    DecodeFailed,
    Message(Seq<char>),
    Unrecognized,
}

impl View for ImageOutcome {
    type V = OutcomeView;

    open spec fn view(&self) -> OutcomeView {
        match self {
            ImageOutcome::Bytes(b) => OutcomeView::Bytes(b@),
            ImageOutcome::Fetch(u) => OutcomeView::Fetch(u@),
            ImageOutcome::Failed(ImageError::Json(_)) => OutcomeView::JsonFailed,
            ImageOutcome::Failed(ImageError::Decode(_)) => OutcomeView::DecodeFailed,
            ImageOutcome::Failed(ImageError::Message(m)) => OutcomeView::Message(m@),
            ImageOutcome::Unrecognized => OutcomeView::Unrecognized,
        }
    }
}

/// `o` is what decoding the base64 text `b` gives.
pub open spec fn decoded(b: Seq<char>, o: OutcomeView) -> bool {
    match base64_decoded(b) {
        Some(bytes) => o == OutcomeView::Bytes(bytes),
        None => o == OutcomeView::DecodeFailed,
    }
}

/// `o` is what the image address `url` leads to.
pub open spec fn resolved(url: Seq<char>, o: OutcomeView) -> bool {
    match image_source(url) {
        SourceView::Inline(b) => decoded(b, o),
        SourceView::Malformed => o == OutcomeView::Message("Data URI malformée : payload base64 absent"@),
        SourceView::Fetch => o == OutcomeView::Fetch(url),
        SourceView::Rejected => o == OutcomeView::Message(
            "URL image rejetée (schéma non autorisé) : "@ + url,
        ),
    }
}

fn decode_outcome(b: &str) -> (o: ImageOutcome)
    ensures
        decoded(b@, o@),
{
    match decode_base64(b) {
        Ok(bytes) => ImageOutcome::Bytes(bytes),
        Err(e) => ImageOutcome::Failed(ImageError::Decode(e)),
    }
}

/// Reads an image address.
pub fn resolve_image(url: &str) -> (o: ImageOutcome)
    ensures
        resolved(url@, o@),
{
    let c = chars_of(url);
    if chars_start_with(&c, "data:image/") {
        proof {
            reveal_strlit("data:image/");
        }
        let n = c.len();
        let mut k: usize = 11;
        while k < n && c[k] != ','
            invariant
                11 <= k <= n == c.len(),
                c@ == url@,
                forall|j: int| 11 <= j < k ==> c@[j] != ',',
            decreases n - k,
        {
            k = k + 1;
        }
        let ghost rest = url@.skip(11);
        proof {
            assert forall|j: int| 0 <= j < k - 11 implies #[trigger] rest[j] != ',' by {
                assert(rest[j] == c@[j + 11]);
            }
            if k < n {
                assert(rest[k - 11] == c@[k as int]);
            }
            lemma_field_len_is(rest, ',', k - 11);
        }
        if k == n {
            return ImageOutcome::Failed(
                ImageError::Message(string_of("Data URI malformée : payload base64 absent")),
            );
        }
        let payload = string_from_chars(&copy_range(&c, k + 1, n));
        assert(payload@ =~= rest.skip(k - 11 + 1));
        return decode_outcome(payload.as_str());
    }
    if !chars_start_with(&c, "https://") {
        let mut m = string_of("URL image rejetée (schéma non autorisé) : ");
        m.append(url);
        return ImageOutcome::Failed(ImageError::Message(m));
    }
    ImageOutcome::Fetch(string_of(url))
}

/// A part of the content of a reply: an image address, inline image data, or neither.
#[derive(Clone, Debug)]
pub struct ImagePart {
    /// `image_url.url`.
    pub image_url: Option<String>,
    /// `inlineData.data`, in base64.
    pub inline_data: Option<String>,
}

/// The content of a reply.
#[derive(Clone, Debug)]
pub enum ImageContent {
    Parts(Vec<ImagePart>),
    Text(String),
    Other,
}

/// The message of a reply of the image model, as far as images go.
#[derive(Clone, Debug)]
pub struct ImageMessage {
    /// `images[i].image_url.url`, for each entry of `images`.
    pub images: Vec<Option<String>>,
    pub content: ImageContent,
}

/// An `ImagePart` with its texts as sequences.
pub struct PartView {
    pub image_url: Option<Seq<char>>,
    pub inline_data: Option<Seq<char>>,
}

/// An `ImageContent` with its texts as sequences.
pub enum ContentView {
    Parts(Seq<PartView>),
    Text(Seq<char>),
    Other,
}

/// An `ImageMessage` with its texts as sequences.
pub struct ImageMessageView {
    pub images: Seq<Option<Seq<char>>>,
    pub content: ContentView,
}

pub open spec fn opt_text(o: Option<String>) -> Option<Seq<char>> {
    match o {
        Some(t) => Some(t@),
        None => None,
    }
}

impl View for ImagePart {
    type V = PartView;

    open spec fn view(&self) -> PartView {
        PartView { image_url: opt_text(self.image_url), inline_data: opt_text(self.inline_data) }
    }
}

impl View for ImageContent {
    type V = ContentView;

    open spec fn view(&self) -> ContentView {
        match self {
            ImageContent::Parts(ps) => ContentView::Parts(ps@.map_values(|p: ImagePart| p@)),
            ImageContent::Text(t) => ContentView::Text(t@),
            ImageContent::Other => ContentView::Other,
        }
    }
}

impl View for ImageMessage {
    type V = ImageMessageView;

    open spec fn view(&self) -> ImageMessageView {
        ImageMessageView {
            images: self.images@.map_values(|o: Option<String>| opt_text(o)),
            content: self.content@,
        }
    }
}

/// `i` is the first entry of `images` with an address.
pub open spec fn first_image_at(images: Seq<Option<Seq<char>>>, i: int) -> bool {
    &&& 0 <= i < images.len()
    &&& images[i] is Some
    &&& forall|j: int| 0 <= j < i ==> (#[trigger] images[j]) is None
}

pub open spec fn has_image(p: PartView) -> bool {
    p.image_url is Some || p.inline_data is Some
}

/// `i` is the first part with an address or inline data.
pub open spec fn first_part_at(parts: Seq<PartView>, i: int) -> bool {
    &&& 0 <= i < parts.len()
    &&& has_image(parts[i])
    &&& forall|j: int| 0 <= j < i ==> !has_image(#[trigger] parts[j])
}

/// What the image of a part leads to: its address first, its inline data otherwise.
pub open spec fn part_outcome(p: PartView, o: OutcomeView) -> bool {
    match p.image_url {
        Some(u) => resolved(u, o),
        None => match p.inline_data {
            Some(b) => decoded(b, o),
            None => o == OutcomeView::Unrecognized,
        },
    }
}

/// What a reply leads to when its `images` hold no address: the first part with an
/// image, or a text that is a `data:image/` URI.
pub open spec fn content_outcome(content: ContentView, o: OutcomeView) -> bool {
    match content {
        ContentView::Parts(ps) => if exists|i: int| first_part_at(ps, i) {
            forall|i: int| #[trigger] first_part_at(ps, i) ==> part_outcome(ps[i], o)
        } else {
            o == OutcomeView::Unrecognized
        },
        ContentView::Text(t) => if starts_with(t, "data:image/"@) {
            resolved(t, o)
        } else {
            o == OutcomeView::Unrecognized
        },
        ContentView::Other => o == OutcomeView::Unrecognized,
    }
}

/// What a reply leads to: the first address of `images`, then the first part of the
/// content with an address or inline data, then a content that is a `data:image/` URI.
pub open spec fn scene_outcome(m: ImageMessageView, o: OutcomeView) -> bool {
    if exists|i: int| first_image_at(m.images, i) {
        forall|i: int| #[trigger] first_image_at(m.images, i) ==> resolved(m.images[i]->0, o)
    } else {
        content_outcome(m.content, o)
    }
}

/// A reply leads to one outcome.
proof fn lemma_scene_outcome_unique(m: ImageMessageView, a: OutcomeView, b: OutcomeView)
    requires
        scene_outcome(m, a),
        scene_outcome(m, b),
    ensures
        a == b,
{
    if exists|i: int| first_image_at(m.images, i) {
        let i = choose|i: int| first_image_at(m.images, i);
        assert(resolved(m.images[i]->0, a) && resolved(m.images[i]->0, b));
    } else {
        match m.content {
            ContentView::Parts(ps) => {
                if exists|i: int| first_part_at(ps, i) {
                    let i = choose|i: int| first_part_at(ps, i);
                    assert(part_outcome(ps[i], a) && part_outcome(ps[i], b));
                }
            },
            _ => {},
        }
    }
}

fn part_image(p: &ImagePart) -> (o: ImageOutcome)
    ensures
        part_outcome(p@, o@),
{
    match &p.image_url {
        Some(u) => resolve_image(u.as_str()),
        None => match &p.inline_data {
            Some(b) => decode_outcome(b.as_str()),
            None => ImageOutcome::Unrecognized,
        },
    }
}

/// Finds the image of a reply: the first address of `images`, then the first part of
/// the content with an address or inline data, then a content that is a `data:image/`
/// URI.
pub fn scene_image(msg: &ImageMessage) -> (o: ImageOutcome)
    ensures
        scene_outcome(msg@, o@),
{
    let ghost v = msg@;
    let mut i: usize = 0;
    while i < msg.images.len()
        invariant
            i <= msg.images.len(),
            v == msg@,
            forall|j: int| 0 <= j < i ==> (#[trigger] v.images[j]) is None,
        decreases msg.images.len() - i,
    {
        if let Some(url) = &msg.images[i] {
            assert(v.images[i as int] == Some(url@));
            assert(first_image_at(v.images, i as int));
            let o = resolve_image(url.as_str());
            assert forall|k: int| #[trigger] first_image_at(v.images, k) implies resolved(
                v.images[k]->0,
                o@,
            ) by {
                if k > i {
                    assert(v.images[i as int] is Some);
                }
            }
            return o;
        }
        assert(v.images[i as int] is None);
        i = i + 1;
    }
    assert(!exists|k: int| first_image_at(v.images, k));
    match &msg.content {
        ImageContent::Parts(ps) => {
            let ghost pv = ps@.map_values(|p: ImagePart| p@);
            assert(v.content == ContentView::Parts(pv));
            let mut k: usize = 0;
            while k < ps.len()
                invariant
                    k <= ps.len(),
                    v == msg@,
                    v.content == ContentView::Parts(pv),
                    !exists|q: int| first_image_at(v.images, q),
                    pv == ps@.map_values(|p: ImagePart| p@),
                    forall|j: int| 0 <= j < k ==> !has_image(#[trigger] pv[j]),
                decreases ps.len() - k,
            {
                assert(pv[k as int] == ps@[k as int]@);
                if ps[k].image_url.is_some() || ps[k].inline_data.is_some() {
                    assert(first_part_at(pv, k as int));
                    let o = part_image(&ps[k]);
                    assert forall|i: int| #[trigger] first_part_at(pv, i) implies part_outcome(pv[i], o@) by {
                        if i < k {
                            assert(!has_image(pv[i]));
                        } else if i > k {
                            assert(!has_image(pv[k as int]));
                        }
                    }
                    assert(v.content matches ContentView::Parts(q) && q == pv);
                    return o;
                }
                k = k + 1;
            }
            ImageOutcome::Unrecognized
        },
        ImageContent::Text(t) => {
            if chars_start_with(&chars_of(t.as_str()), "data:image/") {
                resolve_image(t.as_str())
            } else {
                ImageOutcome::Unrecognized
            }
        },
        ImageContent::Other => ImageOutcome::Unrecognized,
    }
}

/// The image-related parts of `choices[0].message` in a reply of the image model:
/// `None` when the reply is not JSON.
pub uninterp spec fn image_message_json(raw: Seq<char>) -> Option<ImageMessageView>;

/// `choices[0].message` of a reply, pretty-printed by `serde_json::to_string_pretty`.
pub uninterp spec fn image_message_pretty(raw: Seq<char>) -> Seq<char>;

/// Parses `raw` with `serde_json::from_str::<serde_json::Value>` and reads, in
/// `choices[0].message`, `images[i].image_url.url` for each entry of an `images` array,
/// and `content` as an array of parts (`image_url.url`, `inlineData.data`), as a
/// string, or as neither. Trusted: the outcome is a fixed function of the text, named
/// `image_message_json`; the JSON grammar is not stated.
#[verifier::external_body]
fn image_message_of(raw: &str) -> (r: Result<ImageMessage, serde_json::Error>)
    ensures
        match r {
            Ok(m) => image_message_json(raw@) == Some(m@),
            Err(_) => image_message_json(raw@) is None,
        },
{
    let v: Value = serde_json::from_str(raw)?;
    let m = &v["choices"][0]["message"];
    let t = |x: &Value| x.as_str().map(String::from);
    let images = match &m["images"] {
        Value::Array(a) => a.iter().map(|i| t(&i["image_url"]["url"])).collect(),
        _ => Vec::new(),
    };
    let content = match &m["content"] {
        Value::Array(ps) => ImageContent::Parts(ps.iter().map(|p| ImagePart { image_url: t(&p["image_url"]["url"]), inline_data: t(&p["inlineData"]["data"]) }).collect()),
        Value::String(s) => ImageContent::Text(s.clone()),
        _ => ImageContent::Other,
    };
    Ok(ImageMessage { images, content })
}

/// Parses `raw` and pretty-prints its `choices[0].message` with
/// `serde_json::to_string_pretty` (or its `Debug` form should that fail). Trusted: the
/// text is a fixed function of `raw`, named `image_message_pretty`, and it comes exactly
/// when `raw` parses, which is when `image_message_json(raw)` is `Some`.
#[verifier::external_body]
fn image_message_text(raw: &str) -> (r: Option<String>)
    ensures
        match r {
            Some(t) => t@ == image_message_pretty(raw@) && image_message_json(raw@) is Some,
            None => image_message_json(raw@) is None,
        },
{
    let value: Value = serde_json::from_str(raw).ok()?;
    let message = &value["choices"][0]["message"];
    Some(serde_json::to_string_pretty(message).unwrap_or_else(|_| format!("{:?}", message)))
}

/// What a successful reply of the image model leads to: a reply that is not JSON fails;
/// otherwise its image, as `scene_outcome` finds it; and when it holds none, a message
/// that shows what it holds.
pub open spec fn image_reply_spec(raw: Seq<char>, o: OutcomeView) -> bool {
    match image_message_json(raw) {
        None => o == OutcomeView::JsonFailed,
        Some(m) => if scene_outcome(m, OutcomeView::Unrecognized) {
            o == OutcomeView::Message(
                "Format de réponse image inattendu. Message: "@ + image_message_pretty(raw),
            )
        } else {
            scene_outcome(m, o)
        },
    }
}

/// Reads the body of a successful reply of the image model.
pub fn image_reply(body: &str) -> (o: ImageOutcome)
    ensures
        image_reply_spec(body@, o@),
{
    match image_message_of(body) {
        Err(e) => ImageOutcome::Failed(ImageError::Json(e)),
        Ok(m) => {
            let o = scene_image(&m);
            match o {
                ImageOutcome::Unrecognized => {
                    let mut text = string_of("Format de réponse image inattendu. Message: ");
                    match image_message_text(body) {
                        Some(t) => text.append(t.as_str()),
                        None => {},
                    }
                    ImageOutcome::Failed(ImageError::Message(text))
                },
                other => {
                    proof {
                        if scene_outcome(m@, OutcomeView::Unrecognized) {
                            lemma_scene_outcome_unique(m@, other@, OutcomeView::Unrecognized);
                        }
                    }
                    other
                },
            }
        },
    }
}

} // verus!
