use turto::models::declare::{declare_command, ArgValue, DeclArg, DeclError, ParamDecl};

fn arg(key: &str, value: ArgValue) -> DeclArg {
    DeclArg { key: key.to_string(), value }
}

fn text(s: &str) -> ArgValue {
    ArgValue::Text(s.to_string())
}

fn ctx() -> ParamDecl {
    ParamDecl { is_self: false, rename: None, binding: Some("ctx".to_string()), description: None }
}

fn param(rename: Option<&str>, binding: Option<&str>, description: Option<&str>) -> ParamDecl {
    ParamDecl {
        is_self: false,
        rename: rename.map(str::to_string),
        binding: binding.map(str::to_string),
        description: description.map(str::to_string),
    }
}

#[test]
fn a_declaration_registers_its_command() {
    let args = vec![arg("short", text("Start playback.")), arg("long", text("Start playback, in full.")), arg("hide_in_help", ArgValue::Flag)];
    let params = vec![ctx(), param(Some("url"), Some("query"), Some("The link")), param(None, Some("r#type"), Some("Kind"))];
    let entry = declare_command(&args, "r#play", &params).unwrap();
    assert_eq!(entry.name, "play");
    assert_eq!(entry.short_description, "Start playback.");
    assert_eq!(entry.description, "Start playback, in full.");
    assert!(entry.hide_in_help);
    let names: Vec<&str> = entry.parameters.iter().map(|p| p.name.as_str()).collect();
    assert_eq!(names, vec!["url", "type"]);
    assert_eq!(entry.parameters[0].description, "The link");

    let unflagged = vec![arg("short", text("Skip.")), arg("long", text("Skip the track."))];
    let plain = declare_command(&unflagged, "skip", &vec![ctx()]).unwrap();
    assert!(!plain.hide_in_help);
    assert!(plain.parameters.is_empty());
}

#[test]
fn a_faulty_declaration_is_refused_with_its_first_fault() {
    let good = |short: &str| vec![arg("short", text(short)), arg("long", text("Long."))];
    let err = declare_command(&vec![arg("shrot", text("x"))], "play", &vec![ctx()]).err().expect("refused");
    assert!(matches!(err, DeclError::UnknownArgument(ref k) if k == "shrot"));
    assert_eq!(err.message(), "unknown #[turto_command] argument, expected one of [\"short\", \"long\", \"hide_in_help\"]");

    let err = declare_command(&vec![arg("long", text("Long."))], "play", &vec![ctx()]).err().expect("refused");
    assert_eq!(err, DeclError::Missing("short"));
    assert_eq!(err.message(), "#[turto_command] requires a string `short = \"...\"` argument");

    let err = declare_command(&vec![arg("short", ArgValue::Other), arg("long", text("L"))], "play", &vec![ctx()]).err().expect("refused");
    assert_eq!(err, DeclError::NotText("short"));
    assert_eq!(err.message(), "`short` must be a string literal, `short = \"...\"`");

    let mut flagged = good("S");
    flagged.push(arg("hide_in_help", text("yes")));
    let err = declare_command(&flagged, "play", &vec![ctx()]).err().expect("refused");
    assert_eq!(err, DeclError::NotFlag("hide_in_help"));
    assert_eq!(err.message(), "`hide_in_help` is a flag, write it as a bare `hide_in_help` with no value");

    let long_short = "é".repeat(101);
    let err = declare_command(&good(&long_short), "play", &vec![ctx()]).err().expect("refused");
    assert_eq!(err, DeclError::ShortTooLong(101));
    assert_eq!(err.message(), "`short` is 101 characters, but Discord allows at most 100 for a slash command description");
    assert!(declare_command(&good(&"é".repeat(100)), "play", &vec![ctx()]).is_ok());

    let with_self = vec![ctx(), ParamDecl { is_self: true, rename: None, binding: None, description: None }];
    assert_eq!(declare_command(&good("S"), "play", &with_self).err().expect("refused"), DeclError::SelfParameter);

    let pattern = vec![ctx(), param(None, None, Some("d"))];
    let err = declare_command(&good("S"), "play", &pattern).err().expect("refused");
    assert_eq!(err, DeclError::NeedsRename);
    assert_eq!(err.message(), "pattern parameters require an explicit `#[rename = \"...\"]`");

    let undescribed = vec![ctx(), param(None, Some("url"), None), param(None, None, None)];
    let err = declare_command(&good("S"), "play", &undescribed).err().expect("refused");
    assert_eq!(err, DeclError::NoDescription, "the first parameter's fault comes first");
    assert_eq!(err.message(), "every parameter must have a `#[description = \"...\"]` for #[turto_command]");
}
