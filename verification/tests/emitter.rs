use gsettings_gen::docs::{docs, func_docs, is_complex, range_docs};
use gsettings_gen::function::{generate_function_code, Arg, DelegateMethod, Function, FunctionArg};
use gsettings_gen::generate::{generate_unit, KeyRecord};
use gsettings_gen::generators::type_name_from_id;
use gsettings_gen::key::{Choice as KeyChoice, Choices as KeyChoices, StringKey};
use gsettings_gen::schema::{Key, Range, Schema, SchemaList};
use gsettings_gen::settings::Settings;

#[test]
fn function_generate_basic() {
    let f = Function::new("frobnicate");
    assert_eq!(f.generate(), "fn frobnicate() {}");
}

#[test]
fn function_generate_full() {
    let f = Function::new_method_with_args(
        "set_window_width",
        vec![Arg::Other { name: "value".to_string(), type_: "i32".to_string() }],
    )
    .public(true)
    .ret_type("Result<(), glib::BoolError>")
    .content("self.0.set_int(\"window-width\", value)");
    assert_eq!(
        f.generate(),
        "pub fn set_window_width(&self,value: i32) -> Result<(), glib::BoolError> \
         {self.0.set_int(\"window-width\", value)}"
    );
}

#[test]
fn function_not_public_by_default() {
    let f = Function::new("helper").content("1");
    assert_eq!(f.generate(), "fn helper() {1}");
    let g = Function::new("helper2").public(false).content("1");
    assert_eq!(g.generate(), "fn helper2() {1}");
}

#[test]
fn delegate_method_forwards_arguments() {
    let d = DelegateMethod::new_with_args(
        "set_boolean",
        vec![
            Arg::Other { name: "key".to_string(), type_: "&str".to_string() },
            Arg::Other { name: "value".to_string(), type_: "bool".to_string() },
        ],
    )
    .ret_type("Result<(), glib::BoolError>");
    let f = d.into_inner();
    assert_eq!(
        f.generate(),
        "pub fn set_boolean(&self,key: &str,value: bool) -> Result<(), glib::BoolError> \
         {self.0.set_boolean(key,value)}"
    );
}

#[test]
fn generate_function_code_shapes() {
    let code = generate_function_code(
        true,
        true,
        "window_width",
        Vec::new(),
        "i32",
        "self.0.int(\"window-width\")",
    );
    assert_eq!(code, "pub fn window_width(&self,) -> i32 {\nself.0.int(\"window-width\")\n}");

    let code2 = generate_function_code(
        false,
        false,
        "helper",
        vec![FunctionArg { name: "value".to_string(), type_: "i32".to_string() }],
        "i32",
        "value",
    );
    assert_eq!(code2, "fn helper(value: i32) -> i32 {\nvalue\n}");
}

#[test]
fn settings_generate_whole_struct() {
    let mut s = Settings::new("io.github.seadve.test");
    s.push_impl(
        Function::new_method("is_maximized")
            .public(true)
            .ret_type("bool")
            .content("self.0.boolean(\"is-maximized\")"),
    );
    let mut expected = String::new();
    expected.push_str("#[derive(Debug, Clone)] pub struct Settings(gio::Settings);");
    expected.push_str("impl Settings {");
    expected.push_str("pub fn new() -> Self {Self(gio::Settings::new(\"io.github.seadve.test\"))}");
    expected.push_str("pub fn is_maximized(&self) -> bool {self.0.boolean(\"is-maximized\")}");
    expected.push_str("}");
    expected.push_str("impl Default for Settings {");
    expected.push_str("fn default() -> Self { Self::new() }");
    expected.push_str("}");
    assert_eq!(s.generate(), expected);
}

fn full_key() -> Key {
    Key {
        name: "window-width".to_string(),
        type_: Some("i".to_string()),
        enum_id: None,
        flag_id: None,
        default: "600".to_string(),
        summary: Some("Window width".to_string()),
        description: Some("The width of the main window".to_string()),
        choices: None,
        range: Some(Range { min: Some("100".to_string()), max: Some("30000".to_string()) }),
    }
}

#[test]
fn docs_rendering() {
    let k = full_key();
    assert_eq!(docs(&k), "Window width\n\ndefault: 600");
    assert!(!is_complex(&k));

    let mut empty_summary = full_key();
    empty_summary.summary = Some(String::new());
    assert_eq!(docs(&empty_summary), "\ndefault: 600");
}

#[test]
fn docs_capitalize_choice_default() {
    let mut k = full_key();
    k.name = "preferred-audio-source".to_string();
    k.default = "desktop-audio".to_string();
    k.choices = Some(gsettings_gen::schema::Choices {
        choices: vec![gsettings_gen::schema::Choice { value: "desktop-audio".to_string() }],
    });
    assert!(is_complex(&k));
    assert_eq!(docs(&k), "Window width\n\ndefault: DesktopAudio");
}

#[test]
fn range_docs_rendering() {
    let both = Range { min: Some("100".to_string()), max: Some("30000".to_string()) };
    assert_eq!(range_docs(&both), Some("min: 100; max: 30000".to_string()));

    let only_min = Range { min: Some("100".to_string()), max: None };
    assert_eq!(range_docs(&only_min), Some("min: 100".to_string()));

    let only_max = Range { min: Some(String::new()), max: Some("9".to_string()) };
    assert_eq!(range_docs(&only_max), Some("max: 9".to_string()));

    let neither = Range { min: None, max: Some(String::new()) };
    assert_eq!(range_docs(&neither), None);
}

#[test]
fn func_docs_lines() {
    let k = full_key();
    assert_eq!(
        func_docs(&k),
        vec![
            "Window width".to_string(),
            String::new(),
            "The width of the main window".to_string(),
            String::new(),
            "default: 600".to_string(),
            String::new(),
            "min: 100; max: 30000".to_string(),
        ]
    );

    let mut bare = full_key();
    bare.summary = None;
    bare.description = None;
    bare.range = None;
    assert_eq!(func_docs(&bare), vec![String::new(), "default: 600".to_string()]);
}

#[test]
fn accessor_names_from_key_name() {
    let sl = SchemaList {
        enums: Vec::new(),
        flags: Vec::new(),
        schemas: vec![Schema {
            id: "io.example.app".to_string(),
            keys: vec![full_key()],
        }],
    };
    let unit = generate_unit(sl, None, &Vec::new(), true).unwrap();
    let record: &KeyRecord = &unit.records[0];
    let names = record.accessor_names();
    assert_eq!(names.getter, "window_width");
    assert_eq!(names.setter, "set_window_width");
    assert_eq!(names.try_setter, "try_set_window_width");
    assert_eq!(names.connect_changed, "connect_window_width_changed");
    assert_eq!(names.bind, "bind_window_width");
    assert_eq!(names.create_action, "create_window_width_action");
    assert_eq!(names.default_value, "window_width_default_value");
    assert_eq!(names.reset, "reset_window_width");
    assert_eq!(record.doc_summary.as_deref(), Some("Window width"));
    assert_eq!(record.doc_range.as_deref(), Some("min: 100; max: 30000"));
}

#[test]
fn accessor_functions_render_family() {
    let sl = SchemaList {
        enums: Vec::new(),
        flags: Vec::new(),
        schemas: vec![Schema {
            id: "io.example.app".to_string(),
            keys: vec![full_key()],
        }],
    };
    let unit = generate_unit(sl, None, &Vec::new(), true).unwrap();
    let family = unit.records[0].accessor_functions();
    assert_eq!(family.len(), 8);
    assert_eq!(
        family[0].generate(),
        "pub fn window_width(&self) -> i32 \
         {gio::prelude::SettingsExtManual::get(&self.0, \"window-width\")}"
    );
    assert_eq!(
        family[1].generate(),
        "pub fn try_set_window_width(&self,value: i32) \
         -> std::result::Result<(), gio::glib::BoolError> \
         {gio::prelude::SettingsExtManual::set(&self.0, \"window-width\", &value)}"
    );
    assert_eq!(
        family[7].generate(),
        "pub fn reset_window_width(&self) \
         {gio::prelude::SettingsExt::reset(&self.0, \"window-width\");}"
    );
}

#[test]
fn type_name_from_dotted_id() {
    assert_eq!(type_name_from_id("io.github.seadve.test.AlertSound"), "AlertSound");
    assert_eq!(type_name_from_id("space-style"), "SpaceStyle");
    assert_eq!(type_name_from_id("plain"), "Plain");
}

#[test]
fn string_key_docs_and_choices() {
    let sk = StringKey {
        name: "preferred-audio-source".to_string(),
        default: Some("desktop-audio".to_string()),
        summary: Some("Preferred audio source to use in recording audio".to_string()),
        choices: KeyChoices {
            choices: vec![
                KeyChoice { value: "desktop-audio".to_string() },
                KeyChoice { value: "microphone".to_string() },
            ],
        },
    };
    assert!(sk.has_choice());
    assert_eq!(sk.enum_ident(), "PreferredAudioSource");
    assert_eq!(
        sk.get_docs(),
        "Preferred audio source to use in recording audio\n\ndefault: DesktopAudio"
    );
    let aux = sk.aux();
    assert_eq!(aux.len(), 1);
    assert_eq!(aux[0].name, "PreferredAudioSource");
    assert_eq!(aux[0].members[1].nick, "microphone");

    let plain = StringKey {
        name: "theme".to_string(),
        default: Some("light".to_string()),
        summary: None,
        choices: KeyChoices { choices: Vec::new() },
    };
    assert!(!plain.has_choice());
    assert_eq!(plain.get_docs(), "\ndefault: light");
    assert!(plain.aux().is_empty());
}
