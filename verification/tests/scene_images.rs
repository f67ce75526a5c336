use buffy_narrator::image::{image_reply, resolve_image, scene_image, ImageContent, ImageError, ImageMessage, ImageOutcome, ImagePart};

fn describe(o: ImageOutcome) -> String {
    match o {
        ImageOutcome::Bytes(b) => format!("bytes:{:?}", b),
        ImageOutcome::Fetch(u) => format!("fetch:{}", u),
        ImageOutcome::Failed(ImageError::Json(_)) => "json".to_string(),
        ImageOutcome::Failed(ImageError::Decode(_)) => "decode".to_string(),
        ImageOutcome::Failed(ImageError::Message(m)) => format!("message:{}", m),
        ImageOutcome::Unrecognized => "none".to_string(),
    }
}

#[test]
fn image_addresses_are_read_safely() {
    assert_eq!(describe(resolve_image("data:image/png;base64,aGk=")), "bytes:[104, 105]");
    assert_eq!(describe(resolve_image("data:image/png;base64,a,b")), "decode");
    assert_eq!(describe(resolve_image("data:image/png")), "message:Data URI malformée : payload base64 absent");
    assert_eq!(describe(resolve_image("https://cdn.example/x.png")), "fetch:https://cdn.example/x.png");
    assert_eq!(
        describe(resolve_image("http://169.254.169.254/")),
        "message:URL image rejetée (schéma non autorisé) : http://169.254.169.254/"
    );
}

#[test]
fn the_image_is_looked_for_in_order() {
    let part = |url: Option<&str>, data: Option<&str>| ImagePart {
        image_url: url.map(|s| s.to_string()),
        inline_data: data.map(|s| s.to_string()),
    };
    let first = ImageMessage {
        images: vec![None, Some("https://a/1.png".to_string())],
        content: ImageContent::Parts(vec![part(Some("https://b/2.png"), None)]),
    };
    assert_eq!(describe(scene_image(&first)), "fetch:https://a/1.png");
    let parts = ImageMessage {
        images: vec![None],
        content: ImageContent::Parts(vec![part(None, None), part(None, Some("aGk=")), part(Some("https://c"), None)]),
    };
    assert_eq!(describe(scene_image(&parts)), "bytes:[104, 105]");
    let text = ImageMessage { images: vec![], content: ImageContent::Text("data:image/png;base64,aGk=".to_string()) };
    assert_eq!(describe(scene_image(&text)), "bytes:[104, 105]");
    let plain = ImageMessage { images: vec![], content: ImageContent::Text("Voici l'image".to_string()) };
    assert_eq!(describe(scene_image(&plain)), "none");
    let other = ImageMessage { images: vec![], content: ImageContent::Other };
    assert_eq!(describe(scene_image(&other)), "none");
}

#[test]
fn image_replies_are_read_in_the_library() {
    let images = r#"{"choices":[{"message":{"images":[{"image_url":{"url":"data:image/png;base64,aGk="}}]}}]}"#;
    assert_eq!(describe(image_reply(images)), "bytes:[104, 105]");
    let parts = r#"{"choices":[{"message":{"content":[{"text":"x"},{"inlineData":{"data":"aGk="}}]}}]}"#;
    assert_eq!(describe(image_reply(parts)), "bytes:[104, 105]");
    let fetch = r#"{"choices":[{"message":{"content":"https://img/1.png","images":[{"image_url":{"url":"https://img/2.png"}}]}}]}"#;
    assert_eq!(describe(image_reply(fetch)), "fetch:https://img/2.png");
    assert_eq!(describe(image_reply("pas du JSON")), "json");
    let none = r#"{"choices":[{"message":{"content":"Voici"}}]}"#;
    assert_eq!(
        describe(image_reply(none)),
        "message:Format de réponse image inattendu. Message: {\n  \"content\": \"Voici\"\n}"
    );
}
