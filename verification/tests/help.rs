use turto::models::command::{
    choice_from_name, find_command, help_choices, CommandEntry, CommandKind, ParamMeta, UnknownCommand,
};
use turto::models::help::{is_discord_locale, HelpConfig, RawCommandHelp, RawHelpConfig, SHORT_DESCRIPTION_LIMIT};

fn entry(name: &str, short: &str, hide: bool, params: &[(&str, &str)]) -> CommandEntry {
    CommandEntry {
        name: name.to_string(),
        short_description: short.to_string(),
        description: format!("{name} in full"),
        hide_in_help: hide,
        parameters: params
            .iter()
            .map(|(n, d)| ParamMeta { name: n.to_string(), description: d.to_string() })
            .collect(),
    }
}

fn registry() -> Vec<CommandEntry> {
    vec![
        entry("help", "Show how a command is used.", true, &[("command", "The command")]),
        entry("play", "Start playback.", false, &[("url", "A link to play"), ("bitrate", "Quality")]),
        entry("skip", "Skip the track.", false, &[]),
    ]
}

fn raw(short: Option<&str>, description: Option<&str>, params: &[(&str, &str)]) -> RawCommandHelp {
    RawCommandHelp {
        short_description: short.map(str::to_string),
        description: description.map(str::to_string),
        parameters: params.iter().map(|(n, d)| (n.to_string(), d.to_string())).collect(),
    }
}

fn kind<'a>(registry: &'a Vec<CommandEntry>, name: &str) -> CommandKind<'a> {
    CommandKind::from_str(registry, name).expect("should be a registered command")
}

#[test]
fn unknown_locale_is_dropped() {
    let reg = registry();
    let raw_config = RawHelpConfig {
        default: vec![],
        locales: vec![
            ("defualt".to_string(), vec![("play".to_string(), raw(Some("typo'd `default`"), None, &[]))]),
            ("zh-TW".to_string(), vec![("play".to_string(), raw(Some("real locale"), None, &[]))]),
        ],
    };
    let config = HelpConfig::from_raw(&reg, raw_config);

    let locales: Vec<&str> = config.locale_overrides("play").iter().map(|o| o.locale).collect();
    assert_eq!(locales, vec!["zh-TW"]);

    let play = kind(&reg, "play");
    assert_eq!(
        config.resolve(Some("defualt"), play.entry()).short_description,
        play.entry().short_description
    );
    assert_eq!(config.resolve(Some("zh-TW"), play.entry()).short_description, "real locale");
}

#[test]
fn oversized_short_description_falls_back() {
    let reg = registry();
    let long = "a".repeat(SHORT_DESCRIPTION_LIMIT + 1);
    let raw_config = RawHelpConfig {
        default: vec![("play".to_string(), raw(Some(&long), Some("kept"), &[]))],
        locales: vec![],
    };
    let config = HelpConfig::from_raw(&reg, raw_config);
    let play = kind(&reg, "play");
    let resolved = config.resolve(None, play.entry());

    assert_eq!(resolved.short_description, play.entry().short_description);
    assert_eq!(resolved.description, "kept");
}

#[test]
fn a_short_description_at_the_limit_is_kept() {
    let reg = registry();
    let exact = "é".repeat(SHORT_DESCRIPTION_LIMIT);
    let raw_config = RawHelpConfig {
        default: vec![("play".to_string(), raw(Some(&exact), None, &[]))],
        locales: vec![],
    };
    let config = HelpConfig::from_raw(&reg, raw_config);
    assert_eq!(config.resolve(None, kind(&reg, "play").entry()).short_description, exact);
}

#[test]
fn missing_locale_falls_back() {
    let reg = registry();
    let config = HelpConfig::default();
    let play = kind(&reg, "play");
    let resolved = config.resolve(Some("zh-TW"), play.entry());
    assert_eq!(resolved.short_description, play.entry().short_description);
}

#[test]
fn command_hidden_from_help_still_resolves() {
    let reg = registry();
    let help = kind(&reg, "help");
    assert!(help.entry().hide_in_help);

    let raw_config = RawHelpConfig {
        default: vec![],
        locales: vec![("zh-TW".to_string(), vec![("help".to_string(), raw(Some("查詢指令的詳細用法"), None, &[]))])],
    };
    let config = HelpConfig::from_raw(&reg, raw_config);
    let zh = config.resolve(Some("zh-TW"), help.entry());
    assert_eq!(zh.short_description, "查詢指令的詳細用法");
    assert_eq!(zh.description, help.entry().description);
}

#[test]
fn each_field_falls_back_on_its_own() {
    let reg = registry();
    let raw_config = RawHelpConfig {
        default: vec![("play".to_string(), raw(Some("Play it."), Some("Default body"), &[("url", "Default url")]))],
        locales: vec![(
            "zh-TW".to_string(),
            vec![
                ("play".to_string(), raw(None, Some("本地說明"), &[("bitrate", "音質")])),
                ("nosuch".to_string(), raw(Some("dropped"), None, &[])),
            ],
        )],
    };
    let config = HelpConfig::from_raw(&reg, raw_config);
    let play = kind(&reg, "play");
    let zh = config.resolve(Some("zh-TW"), play.entry());
    assert_eq!(zh.name, "play");
    assert_eq!(zh.short_description, "Play it.");
    assert_eq!(zh.description, "本地說明");
    assert_eq!(zh.parameters, vec![("bitrate", "音質"), ("url", "Default url")], "sorted by name");
    let en = config.resolve(None, play.entry());
    assert_eq!(en.parameters, vec![("bitrate", "Quality"), ("url", "Default url")]);

    let overrides = config.locale_overrides("play");
    assert_eq!(overrides.len(), 1);
    assert_eq!(overrides[0].short_description(), None);
    assert_eq!(overrides[0].parameter("bitrate"), Some("音質"));
    assert_eq!(overrides[0].parameter("url"), None);
    assert!(config.locale_overrides("nosuch").is_empty());
}

#[test]
fn commands_are_found_by_name() {
    let reg = registry();
    assert_eq!(find_command(&reg, "skip").map(|e| e.name.as_str()).ok(), Some("skip"));
    let err: UnknownCommand = find_command(&reg, "dance").err().expect("not a command");
    assert_eq!(err.message(), "`dance` is not a command");
    assert_eq!(kind(&reg, "play").name(), "play");
    assert!(CommandKind::from_str(&reg, "Play").is_err());
    assert!(reg[1].has_param("url"));
    assert!(!reg[1].has_param("URL"));
}

#[test]
fn hidden_commands_are_not_offered_in_help() {
    let reg = registry();
    let names: Vec<&str> = help_choices(&reg).iter().map(|e| e.name.as_str()).collect();
    assert_eq!(names, vec!["play", "skip"]);
    assert_eq!(choice_from_name(&reg, "PLAY").map(|e| e.name.as_str()), Some("play"));
    assert!(choice_from_name(&reg, "help").is_none());
}

#[test]
fn discord_locales() {
    assert!(is_discord_locale("zh-TW"));
    assert!(is_discord_locale("es-419"));
    assert!(!is_discord_locale("zh-tw"));
    assert!(!is_discord_locale("default"));
}

#[test]
fn the_registry_is_ordered_by_name() {
    let collected = vec![
        entry("skip", "Skip the track.", false, &[]),
        entry("help", "Show how a command is used.", true, &[]),
        entry("play", "Start playback.", false, &[]),
    ];
    let ordered = turto::models::command::registry(collected);
    let names: Vec<&str> = ordered.iter().map(|e| e.name.as_str()).collect();
    assert_eq!(names, vec!["help", "play", "skip"]);
    assert!(names.contains(&"play"));
}

#[test]
fn locale_overrides_come_in_ascending_locale_order() {
    let reg = registry();
    let raw_config = RawHelpConfig {
        default: vec![],
        locales: vec![
            ("de".to_string(), vec![("play".to_string(), raw(Some("Abspielen."), None, &[]))]),
            ("fr".to_string(), vec![("skip".to_string(), raw(Some("Passer."), None, &[]))]),
            ("ja".to_string(), vec![("play".to_string(), raw(Some("再生"), None, &[]))]),
        ],
    };
    let config = HelpConfig::from_raw(&reg, raw_config);
    let locales: Vec<&str> = config.locale_overrides("play").iter().map(|o| o.locale).collect();
    assert_eq!(locales, vec!["de", "ja"]);
}

#[test]
fn the_registry_does_not_depend_on_collection_order() {
    let one = turto::models::command::registry(registry());
    let mut reversed = registry();
    reversed.reverse();
    let other = turto::models::command::registry(reversed);
    let names = |r: &Vec<CommandEntry>| r.iter().map(|e| e.name.clone()).collect::<Vec<_>>();
    assert_eq!(names(&one), names(&other));
    assert_eq!(names(&one), vec!["help", "play", "skip"]);
}
