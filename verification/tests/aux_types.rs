use gsettings_gen::aux::{synth_enum, synth_enum_from_values, synth_flag};
use gsettings_gen::aux::{flag_contains, flag_intersection, flag_union};
use gsettings_gen::schema::{EnumValues, FlagValues};

fn alert_sound_values() -> Vec<EnumValues> {
    vec![
        EnumValues { nick: "bark".to_string(), value: 0 },
        EnumValues { nick: "drip".to_string(), value: 1 },
        EnumValues { nick: "glass".to_string(), value: 2 },
    ]
}

fn space_style_values() -> Vec<FlagValues> {
    vec![
        FlagValues { nick: "before-colon".to_string(), value: 1 },
        FlagValues { nick: "before-comma".to_string(), value: 2 },
        FlagValues { nick: "before-semicolon".to_string(), value: 4 },
    ]
}

#[test]
fn numbering_default() {
    let values = vec![
        ("a".to_string(), None),
        ("b".to_string(), Some(5)),
        ("c".to_string(), None),
    ];
    let e = synth_enum("Letters".to_string(), &values);
    assert_eq!(e.members[0].value, 0);
    assert_eq!(e.members[1].value, 5);
    assert_eq!(e.members[2].value, 2);
}

#[test]
fn enumeration_value() {
    let e = synth_enum_from_values("AlertSound".to_string(), &alert_sound_values());
    assert_eq!(e.members[0].value, 0);
    assert_eq!(e.members[2].value, 2);
    assert_eq!(e.members[1].value, 1);
}

#[test]
fn enum_idents_are_capitalized() {
    let e = synth_enum_from_values("AlertSound".to_string(), &alert_sound_values());
    assert_eq!(e.name, "AlertSound");
    assert_eq!(e.members[0].ident, "Bark");
    assert_eq!(e.members[1].ident, "Drip");
    assert_eq!(e.members[2].ident, "Glass");
    // the wire form stays the literal nick, never the identifier
    assert_eq!(e.to_wire(0), "bark");
    assert_eq!(e.to_wire(2), "glass");
}

#[test]
fn enum_round_trip() {
    let values = vec![
        ("desktop-audio".to_string(), None),
        ("microphone".to_string(), None),
    ];
    let e = synth_enum("PreferredAudioSource".to_string(), &values);
    for i in 0..e.members.len() {
        let wire = e.to_wire(i);
        assert_eq!(e.from_wire(wire.as_str()), Some(i));
    }
    assert_eq!(e.from_wire("invalid"), None);
    assert_eq!(e.members[0].ident, "DesktopAudio");
    assert_eq!(e.members[1].ident, "Microphone");
}

#[test]
fn bitflag_value() {
    let f = synth_flag("SpaceStyle".to_string(), &space_style_values());
    assert_eq!(f.members[0].value, 1);
    assert_eq!(f.members[2].value, 4);
    assert_eq!(f.members[1].value, 2);

    assert_eq!(f.from_wire(&vec!["before-comma".to_string(), "before-colon".to_string()]), Some(3));
    assert_eq!(f.from_wire(&vec!["before-comma".to_string(), "invalid".to_string()]), None);

    assert_eq!(f.to_wire(1), vec!["before-colon".to_string()]);
    assert_eq!(f.to_wire(1 | 4), vec!["before-colon".to_string(), "before-semicolon".to_string()]);
}

#[test]
fn bitflag_idents_are_shouty() {
    let f = synth_flag("SpaceStyle".to_string(), &space_style_values());
    assert_eq!(f.name, "SpaceStyle");
    assert_eq!(f.members[0].ident, "BEFORE_COLON");
    assert_eq!(f.members[1].ident, "BEFORE_COMMA");
    assert_eq!(f.members[2].ident, "BEFORE_SEMICOLON");
}

#[test]
fn flag_round_trip_all_subsets() {
    let f = synth_flag("SpaceStyle".to_string(), &space_style_values());
    let bits_of = [1u32, 2, 4];
    for mask in 0u32..8 {
        let mut bits: u32 = 0;
        for (i, b) in bits_of.iter().enumerate() {
            if mask & (1 << i) != 0 {
                bits |= b;
            }
        }
        let wire = f.to_wire(bits);
        assert_eq!(f.from_wire(&wire), Some(bits));
    }
}

#[test]
fn flag_empty_round_trip() {
    let f = synth_flag("SpaceStyle".to_string(), &space_style_values());
    assert_eq!(f.to_wire(0), Vec::<String>::new());
    assert_eq!(f.from_wire(&Vec::new()), Some(0));
}

#[test]
fn flag_bit_operations() {
    assert!(flag_contains(3, 1));
    assert!(!flag_contains(4, 1));
    assert_eq!(flag_union(1, 4), 5);
    assert_eq!(flag_intersection(3, 6), 2);
}
