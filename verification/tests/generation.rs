use gsettings_gen::aux::AuxType;
use gsettings_gen::generate::{generate_unit, GenError};
use gsettings_gen::generators::{Directive, OverrideError, OverrideType};
use gsettings_gen::schema::{
    select_schema, Choice, Choices, Enum, EnumValues, Flag, FlagValues, Key, Schema, SchemaList,
    SchemaSelectError,
};

fn key(name: &str, type_: &str, default: &str) -> Key {
    Key {
        name: name.to_string(),
        type_: Some(type_.to_string()),
        enum_id: None,
        flag_id: None,
        default: default.to_string(),
        summary: None,
        description: None,
        choices: None,
        range: None,
    }
}

fn schema(id: &str, keys: Vec<Key>) -> Schema {
    Schema { id: id.to_string(), keys }
}

fn slist(schemas: Vec<Schema>) -> SchemaList {
    SchemaList { enums: Vec::new(), flags: Vec::new(), schemas }
}

fn define_sig(sig: &str, arg: &str, ret: &str) -> Directive {
    Directive {
        signature: Some(sig.to_string()),
        key_name: None,
        action: OverrideType::Define { arg_type: arg.to_string(), ret_type: ret.to_string() },
    }
}

fn define_name(name: &str, arg: &str, ret: &str) -> Directive {
    Directive {
        signature: None,
        key_name: Some(name.to_string()),
        action: OverrideType::Define { arg_type: arg.to_string(), ret_type: ret.to_string() },
    }
}

fn skip_sig(sig: &str) -> Directive {
    Directive { signature: Some(sig.to_string()), key_name: None, action: OverrideType::Skip }
}

fn skip_name(name: &str) -> Directive {
    Directive { signature: None, key_name: Some(name.to_string()), action: OverrideType::Skip }
}

fn key_with_choices(name: &str, default: &str, choices: Vec<&str>) -> Key {
    let mut k = key(name, "s", default);
    k.choices = Some(Choices {
        choices: choices.into_iter().map(|c| Choice { value: c.to_string() }).collect(),
    });
    k
}

fn enum_key(name: &str, enum_id: &str, default: &str) -> Key {
    let mut k = key(name, "", default);
    k.type_ = None;
    k.enum_id = Some(enum_id.to_string());
    k
}

fn flag_key(name: &str, flag_id: &str, default: &str) -> Key {
    let mut k = key(name, "", default);
    k.type_ = None;
    k.flag_id = Some(flag_id.to_string());
    k
}

/// The full schema the adapted generation tests run against.
fn test_schema_list() -> SchemaList {
    SchemaList {
        enums: vec![Enum {
            id: "io.github.seadve.test.AlertSound".to_string(),
            values: vec![
                EnumValues { nick: "bark".to_string(), value: 0 },
                EnumValues { nick: "drip".to_string(), value: 1 },
                EnumValues { nick: "glass".to_string(), value: 2 },
            ],
        }],
        flags: vec![Flag {
            id: "io.github.seadve.test.SpaceStyle".to_string(),
            values: vec![
                FlagValues { nick: "before-colon".to_string(), value: 1 },
                FlagValues { nick: "before-comma".to_string(), value: 2 },
                FlagValues { nick: "before-semicolon".to_string(), value: 4 },
            ],
        }],
        schemas: vec![schema(
            "io.github.seadve.test",
            vec![
                key("is-maximized", "b", "false"),
                key("theme", "s", "light"),
                key("invalid-words", "as", "[]"),
                key("window-width", "i", "600"),
                key("window-height", "u", "400"),
                key("window-width-64", "x", "600"),
                key("window-height-64", "t", "400"),
                key("volume", "d", "6.3"),
                key_with_choices(
                    "preferred-audio-source",
                    "microphone",
                    vec!["desktop-audio", "microphone"],
                ),
                key("dimensions", "(ii)", "(10,10)"),
                key("string-tuple", "(ss)", "('string', 'another one')"),
                key("cache-dir", "ay", "/tmp/cache_dir/"),
                enum_key("alert-sound", "io.github.seadve.test.AlertSound", "bark"),
                flag_key("space-style", "io.github.seadve.test.SpaceStyle", "[]"),
            ],
        )],
    }
}

fn test_directives() -> Vec<Directive> {
    vec![
        define_sig("(ss)", "(&str, &str)", "(String, String)"),
        define_name("cache-dir", "&Path", "PathBuf"),
    ]
}

#[test]
fn create_action_func() {
    let unit = generate_unit(test_schema_list(), None, &test_directives(), true).unwrap();
    let names: Vec<String> = unit
        .records
        .iter()
        .map(|r| r.accessor_names().create_action)
        .collect();
    assert_eq!(
        names,
        vec![
            "create_is_maximized_action",
            "create_theme_action",
            "create_invalid_words_action",
            "create_window_width_action",
            "create_window_height_action",
            "create_window_width_64_action",
            "create_window_height_64_action",
            "create_volume_action",
            "create_preferred_audio_source_action",
            "create_dimensions_action",
            "create_string_tuple_action",
            "create_cache_dir_action",
            "create_alert_sound_action",
            "create_space_style_action",
        ]
    );
}

#[test]
fn default_value_func() {
    let unit = generate_unit(test_schema_list(), None, &test_directives(), true).unwrap();
    let by_name = |name: &str| {
        unit.records
            .iter()
            .find(|r| r.name == name)
            .unwrap_or_else(|| panic!("no record for `{}`", name))
    };
    assert_eq!(by_name("is-maximized").doc_default, "false");
    assert_eq!(by_name("theme").doc_default, "light");
    assert_eq!(by_name("invalid-words").doc_default, "[]");
    assert_eq!(by_name("window-width").doc_default, "600");
    assert_eq!(by_name("window-height").doc_default, "400");
    assert_eq!(by_name("window-width-64").doc_default, "600");
    assert_eq!(by_name("window-height-64").doc_default, "400");
    assert_eq!(by_name("volume").doc_default, "6.3");
    assert_eq!(by_name("preferred-audio-source").doc_default, "microphone");
    assert_eq!(by_name("dimensions").doc_default, "(10,10)");
    assert_eq!(by_name("string-tuple").doc_default, "('string', 'another one')");
    assert_eq!(by_name("cache-dir").doc_default, "/tmp/cache_dir/");

    assert_eq!(by_name("volume").arg_type, "f64");
    assert_eq!(by_name("cache-dir").ret_type, "PathBuf");
    assert_eq!(by_name("string-tuple").ret_type, "(String, String)");
    assert_eq!(by_name("alert-sound").ret_type, "AlertSound");
    assert_eq!(by_name("space-style").ret_type, "SpaceStyle");

    // the global pass synthesized the enum, the flags, and the choice
    // enum of `preferred-audio-source`
    assert_eq!(unit.aux_types.len(), 3);
}

#[test]
fn scenario_two_keys() {
    let sl = slist(vec![schema(
        "io.example.test",
        vec![key("window-width", "i", "600"), key("is-maximized", "b", "false")],
    )]);
    let unit = generate_unit(sl, None, &Vec::new(), true).unwrap();
    assert_eq!(unit.records.len(), 2);
    assert_eq!(unit.records[0].name, "window-width");
    assert_eq!(unit.records[0].arg_type, "i32");
    assert_eq!(unit.records[0].ret_type, "i32");
    assert_eq!(unit.records[0].doc_default, "600");
    assert_eq!(unit.records[1].name, "is-maximized");
    assert_eq!(unit.records[1].arg_type, "bool");
    assert_eq!(unit.records[1].ret_type, "bool");
    assert_eq!(unit.records[1].doc_default, "false");
    assert!(unit.aux_types.is_empty());
    assert!(unit.records[0].auxiliary.is_none());
    assert!(unit.records[1].auxiliary.is_none());
}

#[test]
fn builtin_type_table() {
    let sl = slist(vec![schema(
        "io.example.builtins",
        vec![
            key("a-bool", "b", "false"),
            key("an-int", "i", "0"),
            key("a-uint", "u", "0"),
            key("an-int64", "x", "0"),
            key("a-uint64", "t", "0"),
            key("a-double", "d", "0.5"),
            key("a-pair", "(ii)", "(1,2)"),
            key("words", "as", "[]"),
            key("theme", "s", "'light'"),
        ],
    )]);
    let unit = generate_unit(sl, None, &Vec::new(), true).unwrap();
    let pairs: Vec<(&str, &str)> = unit
        .records
        .iter()
        .map(|r| (r.arg_type.as_str(), r.ret_type.as_str()))
        .collect();
    assert_eq!(
        pairs,
        vec![
            ("bool", "bool"),
            ("i32", "i32"),
            ("u32", "u32"),
            ("i64", "i64"),
            ("u64", "u64"),
            ("f64", "f64"),
            ("(i32, i32)", "(i32, i32)"),
            ("&[&str]", "Vec<String>"),
            ("&str", "String"),
        ]
    );
}

#[test]
fn custom_define_signature() {
    let sl = slist(vec![schema(
        "io.github.seadve.test",
        vec![
            key("string-tuple", "(ss)", "('string', 'another one')"),
            key("two-strings", "(ss)", "('a string', 'another string')"),
        ],
    )]);
    let directives = vec![define_sig("(ss)", "(&str, &str)", "(String, String)")];
    let unit = generate_unit(sl, None, &directives, true).unwrap();
    assert_eq!(unit.records.len(), 2);
    for r in &unit.records {
        assert_eq!(r.arg_type, "(&str, &str)");
        assert_eq!(r.ret_type, "(String, String)");
        assert!(r.auxiliary.is_none());
    }
}

#[test]
fn custom_define_key_name() {
    let sl = slist(vec![schema(
        "io.github.seadve.test",
        vec![
            key("cache-dir", "ay", "'/tmp/cache_dir/'"),
            key("string-tuple", "(ss)", "('string', 'another one')"),
        ],
    )]);
    let directives = vec![define_name("cache-dir", "&Path", "PathBuf"), skip_sig("(ss)")];
    let unit = generate_unit(sl, None, &directives, true).unwrap();
    assert_eq!(unit.records.len(), 1);
    assert_eq!(unit.records[0].name, "cache-dir");
    assert_eq!(unit.records[0].arg_type, "&Path");
    assert_eq!(unit.records[0].ret_type, "PathBuf");
}

#[test]
fn overlapping_define() {
    let sl = slist(vec![schema(
        "io.github.seadve.test",
        vec![key("cache-dir", "ay", "'/tmp/cache_dir/'")],
    )]);
    let directives = vec![
        define_sig("ay", "&OsStr", "OsString"),
        define_name("cache-dir", "&Path", "PathBuf"),
    ];
    let unit = generate_unit(sl, None, &directives, true).unwrap();
    assert_eq!(unit.records.len(), 1);
    assert_eq!(unit.records[0].arg_type, "&Path");
    assert_eq!(unit.records[0].ret_type, "PathBuf");
}

#[test]
fn override_precedence() {
    // a key-name override beats a signature override for the same key,
    // while every other key with that signature still takes the
    // signature override
    let sl = slist(vec![schema(
        "io.example.app",
        vec![key("cache-dir", "s", "''"), key("theme", "s", "'light'")],
    )]);
    let directives = vec![
        define_sig("s", "&str", "String"),
        define_name("cache-dir", "&Path", "PathBuf"),
    ];
    let unit = generate_unit(sl, None, &directives, true).unwrap();
    assert_eq!(unit.records[0].name, "cache-dir");
    assert_eq!(unit.records[0].arg_type, "&Path");
    assert_eq!(unit.records[0].ret_type, "PathBuf");
    assert_eq!(unit.records[1].name, "theme");
    assert_eq!(unit.records[1].arg_type, "&str");
    assert_eq!(unit.records[1].ret_type, "String");
}

#[test]
fn skip_exclusion() {
    // a skipped key yields no record, no auxiliary type, and no
    // unknown-signature error, even though `(ss)` has no default
    // mapping
    let sl = slist(vec![schema(
        "io.example.app",
        vec![key("string-tuple", "(ss)", "('a', 'b')"), key("window-width", "i", "600")],
    )]);
    let directives = vec![skip_sig("(ss)")];
    let unit = generate_unit(sl, None, &directives, true).unwrap();
    assert_eq!(unit.records.len(), 1);
    assert_eq!(unit.records[0].name, "window-width");
    assert!(unit.aux_types.is_empty());

    let sl2 = slist(vec![schema(
        "io.example.app",
        vec![key("string-tuple", "(ss)", "('a', 'b')"), key("window-width", "i", "600")],
    )]);
    let unit2 = generate_unit(sl2, None, &vec![skip_name("string-tuple")], true).unwrap();
    assert_eq!(unit2.records.len(), 1);
    assert_eq!(unit2.records[0].name, "window-width");
}

#[test]
fn unknown_detection() {
    let sl = slist(vec![schema(
        "io.example.app",
        vec![key("window-width", "i", "600"), key("string-tuple", "(ss)", "('a', 'b')")],
    )]);
    let err = generate_unit(sl, None, &Vec::new(), true).unwrap_err();
    match &err {
        GenError::UnknownSignature { key_name, signature } => {
            assert_eq!(key_name, "string-tuple");
            assert_eq!(signature.describe(), "`(ss)` type");
        },
        other => panic!("expected an unknown-signature error, got {:?}", other),
    }
    assert_eq!(err.message(), "unsupported `(ss)` type signature used by key `string-tuple`");
}

#[test]
fn duplicate_override_signature() {
    let sl = slist(vec![schema(
        "io.example.app",
        vec![key("string-tuple", "(ss)", "('a', 'b')")],
    )]);
    let directives = vec![
        define_sig("(ss)", "(&str, &str)", "(String, String)"),
        define_sig("(ss)", "&OsStr", "OsString"),
    ];
    let err = generate_unit(sl, None, &directives, true).unwrap_err();
    assert!(matches!(
        err,
        GenError::Override(OverrideError::DuplicateSignature { index: 1 })
    ));
}

#[test]
fn duplicate_override_key_name() {
    let sl = slist(vec![schema(
        "io.example.app",
        vec![key("cache-dir", "ay", "''")],
    )]);
    let directives = vec![
        define_name("cache-dir", "&Path", "PathBuf"),
        skip_name("cache-dir"),
    ];
    let err = generate_unit(sl, None, &directives, true).unwrap_err();
    assert!(matches!(
        err,
        GenError::Override(OverrideError::DuplicateKeyName { index: 1 })
    ));
}

#[test]
fn useless_signature_override() {
    let sl = slist(vec![schema("io.example.app", vec![key("window-width", "i", "600")])]);
    let directives = vec![define_sig("(ss)", "&str", "String")];
    let err = generate_unit(sl, None, &directives, true).unwrap_err();
    assert!(matches!(
        err,
        GenError::Override(OverrideError::UselessSignature { index: 0 })
    ));
}

#[test]
fn override_key_name_not_found() {
    let sl = slist(vec![schema("io.example.app", vec![key("window-width", "i", "600")])]);
    let directives = vec![skip_name("no-such-key")];
    let err = generate_unit(sl, None, &directives, true).unwrap_err();
    assert!(matches!(
        err,
        GenError::Override(OverrideError::KeyNameNotFound { index: 0 })
    ));
}

#[test]
fn override_targeting_errors() {
    let sl = slist(vec![schema("io.example.app", vec![key("window-width", "i", "600")])]);
    let both = Directive {
        signature: Some("i".to_string()),
        key_name: Some("window-width".to_string()),
        action: OverrideType::Skip,
    };
    let err = generate_unit(sl, None, &vec![both], true).unwrap_err();
    assert!(matches!(err, GenError::Override(OverrideError::BothTargets { index: 0 })));

    let sl2 = slist(vec![schema("io.example.app", vec![key("window-width", "i", "600")])]);
    let neither = Directive { signature: None, key_name: None, action: OverrideType::Skip };
    let err2 = generate_unit(sl2, None, &vec![neither], true).unwrap_err();
    assert!(matches!(err2, GenError::Override(OverrideError::NoTarget { index: 0 })));
}

#[test]
fn string_choice_enum() {
    let mut k = key("preferred-audio-source", "s", "'microphone'");
    k.choices = Some(Choices {
        choices: vec![
            Choice { value: "desktop-audio".to_string() },
            Choice { value: "microphone".to_string() },
        ],
    });
    let sl = slist(vec![schema("io.github.seadve.test", vec![k])]);
    let unit = generate_unit(sl, None, &Vec::new(), true).unwrap();
    assert_eq!(unit.records.len(), 1);
    assert_eq!(unit.records[0].arg_type, "PreferredAudioSource");
    assert_eq!(unit.records[0].ret_type, "PreferredAudioSource");
    match unit.records[0].auxiliary.as_ref().unwrap() {
        AuxType::Enumeration(e) => {
            assert_eq!(e.name, "PreferredAudioSource");
            assert_eq!(e.members[0].ident, "DesktopAudio");
            assert_eq!(e.members[1].ident, "Microphone");
            assert_eq!(e.to_wire(0), "desktop-audio");
            assert_eq!(e.to_wire(1), "microphone");
            assert_eq!(e.from_wire("desktop-audio"), Some(0));
            assert_eq!(e.from_wire("microphone"), Some(1));
        },
        AuxType::Flags(_) => panic!("expected an enum auxiliary type"),
    }
    // the same enum appears in the unit's auxiliary type list
    assert_eq!(unit.aux_types.len(), 1);
}

#[test]
fn enumeration() {
    let mut k = key("alert-sound", "", "'bark'");
    k.type_ = None;
    k.enum_id = Some("io.github.seadve.test.AlertSound".to_string());
    let mut sl = slist(vec![schema("io.github.seadve.test", vec![k])]);
    sl.enums.push(Enum {
        id: "io.github.seadve.test.AlertSound".to_string(),
        values: vec![
            EnumValues { nick: "bark".to_string(), value: 0 },
            EnumValues { nick: "drip".to_string(), value: 1 },
            EnumValues { nick: "glass".to_string(), value: 2 },
        ],
    });
    let unit = generate_unit(sl, None, &Vec::new(), true).unwrap();
    assert_eq!(unit.records[0].arg_type, "AlertSound");
    assert_eq!(unit.records[0].ret_type, "AlertSound");
    assert!(unit.records[0].auxiliary.is_none());
    assert_eq!(unit.aux_types.len(), 1);
    match &unit.aux_types[0] {
        AuxType::Enumeration(e) => {
            assert_eq!(e.name, "AlertSound");
            assert_eq!(e.members[0].nick, "bark");
        },
        AuxType::Flags(_) => panic!("expected an enum auxiliary type"),
    }
}

#[test]
fn bitflag() {
    let mut k = key("space-style", "", "[]");
    k.type_ = None;
    k.flag_id = Some("io.github.seadve.test.SpaceStyle".to_string());
    let mut sl = slist(vec![schema("io.github.seadve.test", vec![k])]);
    sl.flags.push(Flag {
        id: "io.github.seadve.test.SpaceStyle".to_string(),
        values: vec![
            FlagValues { nick: "before-colon".to_string(), value: 1 },
            FlagValues { nick: "before-comma".to_string(), value: 2 },
            FlagValues { nick: "before-semicolon".to_string(), value: 4 },
        ],
    });
    let unit = generate_unit(sl, None, &Vec::new(), true).unwrap();
    assert_eq!(unit.records[0].arg_type, "SpaceStyle");
    assert_eq!(unit.records[0].ret_type, "SpaceStyle");
    assert_eq!(unit.aux_types.len(), 1);
    match &unit.aux_types[0] {
        AuxType::Flags(f) => {
            assert_eq!(f.name, "SpaceStyle");
            assert_eq!(f.members[0].ident, "BEFORE_COLON");
        },
        AuxType::Enumeration(_) => panic!("expected a flags auxiliary type"),
    }
}

#[test]
fn missing_enum_definition() {
    let mut k = key("alert-sound", "", "'bark'");
    k.type_ = None;
    k.enum_id = Some("io.github.seadve.test.AlertSound".to_string());
    let sl = slist(vec![schema("io.github.seadve.test", vec![k])]);
    let err = generate_unit(sl, None, &Vec::new(), true).unwrap_err();
    assert_eq!(err.message(), "expected an enum definition for `io.github.seadve.test.AlertSound`");
}

#[test]
fn key_without_signature() {
    let mut k = key("broken", "", "''");
    k.type_ = None;
    let sl = slist(vec![schema("io.example.app", vec![k])]);
    let err = generate_unit(sl, None, &Vec::new(), true).unwrap_err();
    assert_eq!(
        err.message(),
        "expected one of `type`, `enum` or `flags` specified attribute on key `broken`"
    );
}

#[test]
fn multiple_schemas() {
    let sl = slist(vec![
        schema("io.github.seadve.test.multi", vec![key("theme", "s", "'light'")]),
        schema(
            "io.github.seadve.test.multi.window-state",
            vec![key("window-width", "i", "600"), key("is-maximized", "b", "false")],
        ),
    ]);
    let id = "io.github.seadve.test.multi.window-state".to_string();
    let unit = generate_unit(sl, Some(&id), &Vec::new(), false).unwrap();
    assert_eq!(unit.records.len(), 2);
    assert_eq!(unit.records[0].name, "window-width");
    assert_eq!(unit.records[1].name, "is-maximized");
}

#[test]
fn schema_selection_errors() {
    let none: Vec<Schema> = Vec::new();
    assert_eq!(select_schema(&none, None), Err(SchemaSelectError::Empty));

    let two = vec![
        schema("io.example.one", Vec::new()),
        schema("io.example.two", Vec::new()),
    ];
    assert_eq!(select_schema(&two, None), Err(SchemaSelectError::MultipleWithoutId));

    let wanted = "io.example.two".to_string();
    assert_eq!(select_schema(&two, Some(&wanted)), Ok(1));

    let missing = "io.example.three".to_string();
    assert_eq!(select_schema(&two, Some(&missing)), Err(SchemaSelectError::NotFound));

    let one = vec![schema("io.example.one", Vec::new())];
    let other = "io.example.other".to_string();
    assert_eq!(select_schema(&one, Some(&other)), Err(SchemaSelectError::IdMismatch));
    let same = "io.example.one".to_string();
    assert_eq!(select_schema(&one, Some(&same)), Ok(0));
}
