use buffy_narrator::slash::{bool_option, slash_commands, string_option, ArgValue, CommandArg, OptionKind};

#[test]
fn six_commands_are_declared() {
    let cs = slash_commands();
    let names: Vec<&str> = cs.iter().map(|c| c.name).collect();
    assert_eq!(names, vec!["start", "help", "summary", "model", "personnage", "deploy"]);
    assert_eq!(cs[3].options[0].name, "modele");
    assert!(cs[3].options[0].required);
    assert_eq!(cs[3].options[0].choices, vec!["gemini", "mistral"]);
    assert_eq!(cs[5].options[0].kind, OptionKind::Flag);
    assert_eq!(cs[0].description, "Commencer une nouvelle aventure à Sunnydale.");
}

#[test]
fn options_are_read_by_name() {
    let args = vec![
        CommandArg { name: "force".to_string(), value: ArgValue::Flag(true) },
        CommandArg { name: "nom".to_string(), value: ArgValue::Text("Buffy".to_string()) },
        CommandArg { name: "nom".to_string(), value: ArgValue::Text("Giles".to_string()) },
        CommandArg { name: "etat".to_string(), value: ArgValue::Other },
    ];
    assert_eq!(string_option(&args, "nom"), Some("Buffy"));
    assert_eq!(string_option(&args, "force"), None);
    assert_eq!(string_option(&args, "etat"), None);
    assert_eq!(string_option(&args, "modele"), None);
    assert_eq!(bool_option(&args, "force"), Some(true));
    assert_eq!(bool_option(&args, "nom"), None);
}
