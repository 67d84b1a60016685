//! The whole generation pass: select one schema, validate the override
//! directives, resolve every key, and assemble the generated-unit
//! surface — one record per resolved key plus the list of synthesized
//! auxiliary types.

use vstd::prelude::*;

use crate::aux::{
    clone_aux, synth_enum_from_values, synth_flag, AuxType, AuxTypeView, BitFlagView,
    EnumMemberView, FlagMemberView, VariantEnumView,
};
use crate::casing::{pascal_of, shouty_snake_of, snake_of, to_snake_case};
use crate::docs::{range_docs, spec_range_docs};
use crate::function::{Arg, ArgView, Function, FunctionView};
use crate::generators::{
    build_override_tables, name_entries_view, sig_entries_view, sig_views, spec_build,
    spec_resolve, spec_type_name_of_id, type_name_from_id, Context, ContextView, Directive,
    DirectiveView, GetResult, GetView, KeyGenerators, OverrideError, OvView, ResolveError,
    ResolveErrView,
};
use crate::schema::{
    select_schema, spec_describe, spec_id_view, spec_signature, Enum, Flag, Key, KeySignature,
    SchemaList, SchemaSelectError, SigView,
};
use crate::strutil::views_of;

verus! {

/// Why a generation pass aborted. Structural and configuration errors
/// abort the whole pass; there is no partial output.
#[derive(Debug, Clone)]
pub enum GenError {
    /// Selecting the one schema of the pass failed.
    Select(SchemaSelectError),
    /// An override directive was invalid.
    Override(OverrideError),
    /// A key was structurally invalid.
    Resolve(ResolveError),
    /// A key's signature has no default mapping and no override.
    UnknownSignature { key_name: String, signature: KeySignature },
}

/// The mathematical value of a [`GenError`].
pub enum GenErrView {
    Select(SchemaSelectError),
    Override(OverrideError),
    Resolve(ResolveErrView),
    UnknownSignature { key_name: Seq<char>, signature: SigView },
}

impl View for GenError {
    type V = GenErrView;

    open spec fn view(&self) -> GenErrView {
        match self {
            GenError::Select(e) => GenErrView::Select(*e),
            GenError::Override(e) => GenErrView::Override(*e),
            GenError::Resolve(e) => GenErrView::Resolve(e@),
            GenError::UnknownSignature { key_name, signature } => GenErrView::UnknownSignature {
                key_name: key_name@,
                signature: signature@,
            },
        }
    }
}

/// The message text of a generation error. The unknown-signature
/// message names both the offending signature and the key, so that the
/// caller can add an override or a skip for it.
pub open spec fn spec_message(e: GenErrView) -> Seq<char> {
    match e {
        GenErrView::Select(SchemaSelectError::Empty) => "schema file must have a single schema"@,
        GenErrView::Select(SchemaSelectError::MultipleWithoutId) =>
            "schema file contains multiple schemas, specify one with `id`"@,
        GenErrView::Select(SchemaSelectError::NotFound) =>
            "schema with the given id was not found"@,
        GenErrView::Select(SchemaSelectError::IdMismatch) =>
            "id does not match the one specified in the schema file"@,
        GenErrView::Override(OverrideError::BothTargets { .. }) =>
            "cannot specify both `signature` and `key_name`"@,
        GenErrView::Override(OverrideError::NoTarget { .. }) =>
            "must specify either `signature` or `key_name`"@,
        GenErrView::Override(OverrideError::UselessSignature { .. }) =>
            "useless override for this signature"@,
        GenErrView::Override(OverrideError::KeyNameNotFound { .. }) =>
            "key_name not found in the schema"@,
        GenErrView::Override(OverrideError::DuplicateSignature { .. }) => "duplicate override"@,
        GenErrView::Override(OverrideError::DuplicateKeyName { .. }) => "duplicate override"@,
        GenErrView::Resolve(ResolveErrView::NoSignature { key_name }) =>
            "expected one of `type`, `enum` or `flags` specified attribute on key `"@ + key_name
                + "`"@,
        GenErrView::Resolve(ResolveErrView::MissingEnumDef { id }) =>
            "expected an enum definition for `"@ + id + "`"@,
        GenErrView::Resolve(ResolveErrView::MissingFlagDef { id }) =>
            "expected a flag definition for `"@ + id + "`"@,
        GenErrView::UnknownSignature { key_name, signature } => "unsupported "@ + spec_describe(
            signature,
        ) + " signature used by key `"@ + key_name + "`"@,
    }
}

impl GenError {
    /// Render the error message.
    pub fn message(&self) -> (r: String)
        ensures
            r@ == spec_message(self@),
    {
        match self {
            GenError::Select(e) => {
                match e {
                    SchemaSelectError::Empty => String::from_str(
                        "schema file must have a single schema",
                    ),
                    SchemaSelectError::MultipleWithoutId => String::from_str(
                        "schema file contains multiple schemas, specify one with `id`",
                    ),
                    SchemaSelectError::NotFound => String::from_str(
                        "schema with the given id was not found",
                    ),
                    SchemaSelectError::IdMismatch => String::from_str(
                        "id does not match the one specified in the schema file",
                    ),
                }
            },
            GenError::Override(e) => {
                match e {
                    OverrideError::BothTargets { .. } => String::from_str(
                        "cannot specify both `signature` and `key_name`",
                    ),
                    OverrideError::NoTarget { .. } => String::from_str(
                        "must specify either `signature` or `key_name`",
                    ),
                    OverrideError::UselessSignature { .. } => String::from_str(
                        "useless override for this signature",
                    ),
                    OverrideError::KeyNameNotFound { .. } => String::from_str(
                        "key_name not found in the schema",
                    ),
                    OverrideError::DuplicateSignature { .. } => String::from_str(
                        "duplicate override",
                    ),
                    OverrideError::DuplicateKeyName { .. } => String::from_str(
                        "duplicate override",
                    ),
                }
            },
            GenError::Resolve(e) => {
                match e {
                    ResolveError::NoSignature { key_name } => {
                        let mut buf = String::from_str(
                            "expected one of `type`, `enum` or `flags` specified attribute on key `",
                        );
                        buf.append(key_name.as_str());
                        buf.append("`");
                        proof {
                            assert(buf@ =~= spec_message(self@));
                        }
                        buf
                    },
                    ResolveError::MissingEnumDef { id } => {
                        let mut buf = String::from_str("expected an enum definition for `");
                        buf.append(id.as_str());
                        buf.append("`");
                        proof {
                            assert(buf@ =~= spec_message(self@));
                        }
                        buf
                    },
                    ResolveError::MissingFlagDef { id } => {
                        let mut buf = String::from_str("expected a flag definition for `");
                        buf.append(id.as_str());
                        buf.append("`");
                        proof {
                            assert(buf@ =~= spec_message(self@));
                        }
                        buf
                    },
                }
            },
            GenError::UnknownSignature { key_name, signature } => {
                let mut buf = String::from_str("unsupported ");
                buf.append(signature.describe().as_str());
                buf.append(" signature used by key `");
                buf.append(key_name.as_str());
                buf.append("`");
                proof {
                    assert(buf@ =~= spec_message(self@));
                }
                buf
            },
        }
    }
}

/// One resolved key of the generated unit: the key's name, the
/// accessor argument and return types, the documentation fields, and
/// the auxiliary type the key contributes, if any.
#[derive(Debug)]
pub struct KeyRecord {
    pub name: String,
    pub arg_type: String,
    pub ret_type: String,
    pub doc_summary: Option<String>,
    pub doc_default: String,
    pub doc_range: Option<String>,
    pub auxiliary: Option<AuxType>,
}

/// The mathematical value of a [`KeyRecord`].
#[verifier::ext_equal]
pub struct KeyRecordView {
    pub name: Seq<char>,
    pub arg_type: Seq<char>,
    pub ret_type: Seq<char>,
    pub doc_summary: Option<Seq<char>>,
    pub doc_default: Seq<char>,
    pub doc_range: Option<Seq<char>>,
    pub auxiliary: Option<AuxTypeView>,
}

impl View for KeyRecord {
    type V = KeyRecordView;

    open spec fn view(&self) -> KeyRecordView {
        KeyRecordView {
            name: self.name@,
            arg_type: self.arg_type@,
            ret_type: self.ret_type@,
            doc_summary: match self.doc_summary {
                Some(ref s) => Some(s@),
                None => None,
            },
            doc_default: self.doc_default@,
            doc_range: match self.doc_range {
                Some(ref s) => Some(s@),
                None => None,
            },
            auxiliary: match self.auxiliary {
                Some(ref a) => Some(a@),
                None => None,
            },
        }
    }
}

/// The record of one key under its resolved context.
pub open spec fn spec_record(key: Key, ctx: ContextView) -> KeyRecordView {
    KeyRecordView {
        name: key.name@,
        arg_type: ctx.arg_type,
        ret_type: ctx.ret_type,
        doc_summary: match key.summary {
            Some(s) => Some(s@),
            None => None,
        },
        doc_default: key.default@,
        doc_range: match key.range {
            Some(rg) => spec_range_docs(rg),
            None => None,
        },
        auxiliary: ctx.auxiliary,
    }
}

/// Assemble the record of one resolved key.
fn make_record(key: &Key, ctx: Context) -> (r: KeyRecord)
    ensures
        r@ == spec_record(*key, ctx@),
{
    let doc_range = match &key.range {
        Some(rg) => range_docs(rg),
        None => None,
    };
    let r = KeyRecord {
        name: key.name.clone(),
        arg_type: ctx.arg_type,
        ret_type: ctx.ret_type,
        doc_summary: match &key.summary {
            Some(s) => Some(s.clone()),
            None => None,
        },
        doc_default: key.default.clone(),
        doc_range,
        auxiliary: ctx.auxiliary,
    };
    proof {
        assert(r@ =~= spec_record(*key, ctx@));
    }
    r
}

/// The names of one key's accessor family, each derived from the key
/// name converted to snake case.
pub struct AccessorNames {
    pub getter: String,
    pub setter: String,
    pub try_setter: String,
    pub connect_changed: String,
    pub bind: String,
    pub create_action: String,
    pub default_value: String,
    pub reset: String,
}

impl KeyRecord {
    /// The accessor family of this key: getter, panicking and fallible
    /// setters, change subscription, property binding, action creation,
    /// default-value lookup, and reset.
    pub fn accessor_names(&self) -> (r: AccessorNames)
        ensures
            r.getter@ == snake_of(self.name@),
            r.setter@ == "set_"@ + snake_of(self.name@),
            r.try_setter@ == "try_set_"@ + snake_of(self.name@),
            r.connect_changed@ == "connect_"@ + snake_of(self.name@) + "_changed"@,
            r.bind@ == "bind_"@ + snake_of(self.name@),
            r.create_action@ == "create_"@ + snake_of(self.name@) + "_action"@,
            r.default_value@ == snake_of(self.name@) + "_default_value"@,
            r.reset@ == "reset_"@ + snake_of(self.name@),
    {
        let snake = to_snake_case(self.name.as_str());

        let mut setter = String::from_str("set_");
        setter.append(snake.as_str());
        let mut try_setter = String::from_str("try_set_");
        try_setter.append(snake.as_str());
        let mut connect_changed = String::from_str("connect_");
        connect_changed.append(snake.as_str());
        connect_changed.append("_changed");
        let mut bind = String::from_str("bind_");
        bind.append(snake.as_str());
        let mut create_action = String::from_str("create_");
        create_action.append(snake.as_str());
        create_action.append("_action");
        let mut default_value = snake.clone();
        default_value.append("_default_value");
        let mut reset = String::from_str("reset_");
        reset.append(snake.as_str());

        AccessorNames {
            getter: snake,
            setter,
            try_setter,
            connect_changed,
            bind,
            create_action,
            default_value,
            reset,
        }
    }
}

impl KeyRecord {
    /// Render the key's accessor family as function descriptions, in
    /// the order of [`spec_accessor_functions`].
    pub fn accessor_functions(&self) -> (r: Vec<Function>)
        ensures
            r@.map_values(|f: Function| f@) == spec_accessor_functions(self@),
    {
        let snake = to_snake_case(self.name.as_str());
        let mut out: Vec<Function> = Vec::new();

        let mut content = String::from_str("gio::prelude::SettingsExtManual::get(&self.0, \"");
        content.append(self.name.as_str());
        content.append("\")");
        let getter = Function::new_method(snake.as_str()).public(true).ret_type(
            self.ret_type.as_str(),
        ).content(content.as_str());
        proof {
            assert(getter@ =~= spec_getter_fn(self@));
        }
        out.push(getter);

        let mut fn_name = String::from_str("try_set_");
        fn_name.append(snake.as_str());
        let mut content = String::from_str("gio::prelude::SettingsExtManual::set(&self.0, \"");
        content.append(self.name.as_str());
        content.append("\", &value)");
        let args = vec![
            Arg::Other { name: String::from_str("value"), type_: self.arg_type.clone() },
        ];
        proof {
            assert(args@.map_values(|a: Arg| a@) =~= seq![
                ArgView::Other { name: "value"@, type_: self@.arg_type },
            ]);
        }
        let try_setter = Function::new_method_with_args(fn_name.as_str(), args).public(
            true,
        ).ret_type("std::result::Result<(), gio::glib::BoolError>").content(content.as_str());
        proof {
            assert(try_setter@ =~= spec_try_setter_fn(self@));
        }
        out.push(try_setter);

        let mut fn_name = String::from_str("set_");
        fn_name.append(snake.as_str());
        let mut content = String::from_str("self.try_set_");
        content.append(snake.as_str());
        content.append(
            "(value).unwrap_or_else(|err| panic!(\"failed to set value for key `{}`: {:?}\", \"",
        );
        content.append(self.name.as_str());
        content.append("\", err))");
        let args = vec![
            Arg::Other { name: String::from_str("value"), type_: self.arg_type.clone() },
        ];
        proof {
            assert(args@.map_values(|a: Arg| a@) =~= seq![
                ArgView::Other { name: "value"@, type_: self@.arg_type },
            ]);
        }
        let setter = Function::new_method_with_args(fn_name.as_str(), args).public(true).content(
            content.as_str(),
        );
        proof {
            assert(setter@ =~= spec_setter_fn(self@));
        }
        out.push(setter);

        let mut fn_name = String::from_str("connect_");
        fn_name.append(snake.as_str());
        fn_name.append("_changed");
        let mut content = String::from_str(
            "gio::prelude::SettingsExt::connect_changed(&self.0, Some(\"",
        );
        content.append(self.name.as_str());
        content.append("\"), move |s, _| f(&Self(gio::Settings::clone(s))))");
        let args = vec![
            Arg::Other {
                name: String::from_str("f"),
                type_: String::from_str("impl Fn(&Self) + 'static"),
            },
        ];
        proof {
            assert(args@.map_values(|a: Arg| a@) =~= seq![
                ArgView::Other { name: "f"@, type_: "impl Fn(&Self) + 'static"@ },
            ]);
        }
        let connect_changed = Function::new_method_with_args(fn_name.as_str(), args).public(
            true,
        ).ret_type("gio::glib::SignalHandlerId").content(content.as_str());
        proof {
            assert(connect_changed@ =~= spec_connect_changed_fn(self@));
        }
        out.push(connect_changed);

        let mut fn_name = String::from_str("bind_");
        fn_name.append(snake.as_str());
        let mut content = String::from_str("gio::prelude::SettingsExtManual::bind(&self.0, \"");
        content.append(self.name.as_str());
        content.append("\", object, property)");
        let args = vec![
            Arg::Other {
                name: String::from_str("object"),
                type_: String::from_str("&impl gio::glib::object::IsA<gio::glib::Object>"),
            },
            Arg::Other { name: String::from_str("property"), type_: String::from_str("&str") },
        ];
        proof {
            assert(args@.map_values(|a: Arg| a@) =~= seq![
                ArgView::Other {
                    name: "object"@,
                    type_: "&impl gio::glib::object::IsA<gio::glib::Object>"@,
                },
                ArgView::Other { name: "property"@, type_: "&str"@ },
            ]);
        }
        let bind = Function::new_method_with_args(fn_name.as_str(), args).public(true).ret_type(
            "gio::BindingBuilder<'_>",
        ).content(content.as_str());
        proof {
            assert(bind@ =~= spec_bind_fn(self@));
        }
        out.push(bind);

        let mut fn_name = String::from_str("create_");
        fn_name.append(snake.as_str());
        fn_name.append("_action");
        let mut content = String::from_str("gio::prelude::SettingsExt::create_action(&self.0, \"");
        content.append(self.name.as_str());
        content.append("\")");
        let create_action = Function::new_method(fn_name.as_str()).public(true).ret_type(
            "gio::Action",
        ).content(content.as_str());
        proof {
            assert(create_action@ =~= spec_create_action_fn(self@));
        }
        out.push(create_action);

        let mut fn_name = snake.clone();
        fn_name.append("_default_value");
        let mut content = String::from_str(
            "gio::glib::Variant::get(&gio::prelude::SettingsExt::default_value(&self.0, \"",
        );
        content.append(self.name.as_str());
        content.append("\").unwrap()).unwrap()");
        let default_value = Function::new_method(fn_name.as_str()).public(true).ret_type(
            self.ret_type.as_str(),
        ).content(content.as_str());
        proof {
            assert(default_value@ =~= spec_default_value_fn(self@));
        }
        out.push(default_value);

        let mut fn_name = String::from_str("reset_");
        fn_name.append(snake.as_str());
        let mut content = String::from_str("gio::prelude::SettingsExt::reset(&self.0, \"");
        content.append(self.name.as_str());
        content.append("\");");
        let reset = Function::new_method(fn_name.as_str()).public(true).content(content.as_str());
        proof {
            assert(reset@ =~= spec_reset_fn(self@));
        }
        out.push(reset);

        proof {
            assert(out@.map_values(|f: Function| f@) =~= spec_accessor_functions(self@));
        }
        out
    }
}

/// The getter of one key: no parameters beyond the receiver, typed by
/// the resolved return type.
pub open spec fn spec_getter_fn(rec: KeyRecordView) -> FunctionView {
    FunctionView {
        name: snake_of(rec.name),
        args: seq![ArgView::SelfRef],
        is_pub: Some(true),
        ret_type: Some(rec.ret_type),
        content: Some("gio::prelude::SettingsExtManual::get(&self.0, \""@ + rec.name + "\")"@),
    }
}

/// The fallible setter of one key: takes the resolved argument type,
/// returns success or a write-rejection failure.
pub open spec fn spec_try_setter_fn(rec: KeyRecordView) -> FunctionView {
    FunctionView {
        name: "try_set_"@ + snake_of(rec.name),
        args: seq![
            ArgView::SelfRef,
            ArgView::Other { name: "value"@, type_: rec.arg_type },
        ],
        is_pub: Some(true),
        ret_type: Some("std::result::Result<(), gio::glib::BoolError>"@),
        content: Some(
            "gio::prelude::SettingsExtManual::set(&self.0, \""@ + rec.name + "\", &value)"@,
        ),
    }
}

/// The panicking convenience setter of one key: delegates to the
/// fallible setter and aborts with a message naming the key.
pub open spec fn spec_setter_fn(rec: KeyRecordView) -> FunctionView {
    FunctionView {
        name: "set_"@ + snake_of(rec.name),
        args: seq![
            ArgView::SelfRef,
            ArgView::Other { name: "value"@, type_: rec.arg_type },
        ],
        is_pub: Some(true),
        ret_type: None,
        content: Some(
            "self.try_set_"@ + snake_of(rec.name)
                + "(value).unwrap_or_else(|err| panic!(\"failed to set value for key `{}`: {:?}\", \""@
                + rec.name + "\", err))"@,
        ),
    }
}

/// The change subscription of one key: takes a callback, returns the
/// cancellable subscription token.
pub open spec fn spec_connect_changed_fn(rec: KeyRecordView) -> FunctionView {
    FunctionView {
        name: "connect_"@ + snake_of(rec.name) + "_changed"@,
        args: seq![
            ArgView::SelfRef,
            ArgView::Other { name: "f"@, type_: "impl Fn(&Self) + 'static"@ },
        ],
        is_pub: Some(true),
        ret_type: Some("gio::glib::SignalHandlerId"@),
        content: Some(
            "gio::prelude::SettingsExt::connect_changed(&self.0, Some(\""@ + rec.name
                + "\"), move |s, _| f(&Self(gio::Settings::clone(s))))"@,
        ),
    }
}

/// The property binding of one key: takes a target object and property,
/// returns a builder-style binding descriptor.
pub open spec fn spec_bind_fn(rec: KeyRecordView) -> FunctionView {
    FunctionView {
        name: "bind_"@ + snake_of(rec.name),
        args: seq![
            ArgView::SelfRef,
            ArgView::Other {
                name: "object"@,
                type_: "&impl gio::glib::object::IsA<gio::glib::Object>"@,
            },
            ArgView::Other { name: "property"@, type_: "&str"@ },
        ],
        is_pub: Some(true),
        ret_type: Some("gio::BindingBuilder<'_>"@),
        content: Some(
            "gio::prelude::SettingsExtManual::bind(&self.0, \""@ + rec.name
                + "\", object, property)"@,
        ),
    }
}

/// The action creation of one key.
pub open spec fn spec_create_action_fn(rec: KeyRecordView) -> FunctionView {
    FunctionView {
        name: "create_"@ + snake_of(rec.name) + "_action"@,
        args: seq![ArgView::SelfRef],
        is_pub: Some(true),
        ret_type: Some("gio::Action"@),
        content: Some(
            "gio::prelude::SettingsExt::create_action(&self.0, \""@ + rec.name + "\")"@,
        ),
    }
}

/// The default-value lookup of one key: the schema-declared default,
/// decoded into the resolved return type.
pub open spec fn spec_default_value_fn(rec: KeyRecordView) -> FunctionView {
    FunctionView {
        name: snake_of(rec.name) + "_default_value"@,
        args: seq![ArgView::SelfRef],
        is_pub: Some(true),
        ret_type: Some(rec.ret_type),
        content: Some(
            "gio::glib::Variant::get(&gio::prelude::SettingsExt::default_value(&self.0, \""@
                + rec.name + "\").unwrap()).unwrap()"@,
        ),
    }
}

/// The reset of one key.
pub open spec fn spec_reset_fn(rec: KeyRecordView) -> FunctionView {
    FunctionView {
        name: "reset_"@ + snake_of(rec.name),
        args: seq![ArgView::SelfRef],
        is_pub: Some(true),
        ret_type: None,
        content: Some("gio::prelude::SettingsExt::reset(&self.0, \""@ + rec.name + "\");"@),
    }
}

/// The accessor family of one key, in a fixed order: getter, fallible
/// setter, panicking setter, change subscription, property binding,
/// action creation, default-value lookup, reset.
pub open spec fn spec_accessor_functions(rec: KeyRecordView) -> Seq<FunctionView> {
    seq![
        spec_getter_fn(rec),
        spec_try_setter_fn(rec),
        spec_setter_fn(rec),
        spec_connect_changed_fn(rec),
        spec_bind_fn(rec),
        spec_create_action_fn(rec),
        spec_default_value_fn(rec),
        spec_reset_fn(rec),
    ]
}

/// The signatures of all keys, or the first key without one.
pub open spec fn spec_known_sigs(keys: Seq<Key>, i: int) -> Result<Seq<SigView>, ResolveErrView>
    decreases keys.len() - i,
{
    if i < 0 || i >= keys.len() {
        Ok(Seq::empty())
    } else {
        match spec_signature(keys[i]) {
            None => Err(ResolveErrView::NoSignature { key_name: keys[i].name@ }),
            Some(sv) => match spec_known_sigs(keys, i + 1) {
                Err(e) => Err(e),
                Ok(rest) => Ok(seq![sv] + rest),
            },
        }
    }
}

/// The names of all keys, in order.
pub open spec fn spec_key_names(keys: Seq<Key>) -> Seq<Seq<char>> {
    Seq::new(keys.len(), |i: int| keys[i].name@)
}

/// The views of a sequence of records.
pub open spec fn records_view(records: Seq<KeyRecord>) -> Seq<KeyRecordView> {
    records.map_values(|r: KeyRecord| r@)
}

/// The views of a sequence of auxiliary types.
pub open spec fn aux_views(auxes: Seq<AuxType>) -> Seq<AuxTypeView> {
    auxes.map_values(|a: AuxType| a@)
}

/// The records of the keys from position `i` on, or the first error:
/// a skipped key contributes nothing, an unknown signature aborts with
/// an error naming the key and its signature.
pub open spec fn spec_records(
    sig_table: Seq<(SigView, OvView)>,
    name_table: Seq<(Seq<char>, OvView)>,
    enums: Seq<Enum>,
    flags: Seq<Flag>,
    keys: Seq<Key>,
    i: int,
) -> Result<Seq<KeyRecordView>, GenErrView>
    decreases keys.len() - i,
{
    if i < 0 || i >= keys.len() {
        Ok(Seq::empty())
    } else {
        match spec_resolve(sig_table, name_table, enums, flags, keys[i]) {
            Err(e) => Err(GenErrView::Resolve(e)),
            Ok(GetView::Unknown) => Err(
                GenErrView::UnknownSignature {
                    key_name: keys[i].name@,
                    signature: spec_signature(keys[i])->Some_0,
                },
            ),
            Ok(GetView::Skip) => spec_records(sig_table, name_table, enums, flags, keys, i + 1),
            Ok(GetView::Resolved(ctx)) => match spec_records(
                sig_table,
                name_table,
                enums,
                flags,
                keys,
                i + 1,
            ) {
                Err(e) => Err(e),
                Ok(rest) => Ok(seq![spec_record(keys[i], ctx)] + rest),
            },
        }
    }
}

/// The auxiliary type synthesized from one enum definition.
pub open spec fn spec_enum_aux(e: Enum) -> AuxTypeView {
    AuxTypeView::Enumeration(
        VariantEnumView {
            name: spec_type_name_of_id(e.id@),
            members: Seq::new(
                e.values@.len(),
                |i: int|
                    EnumMemberView {
                        nick: e.values@[i].nick@,
                        ident: pascal_of(e.values@[i].nick@),
                        value: e.values@[i].value,
                    },
            ),
        },
    )
}

/// The auxiliary type synthesized from one flag definition.
pub open spec fn spec_flag_aux(f: Flag) -> AuxTypeView {
    AuxTypeView::Flags(
        BitFlagView {
            name: spec_type_name_of_id(f.id@),
            members: Seq::new(
                f.values@.len(),
                |i: int|
                    FlagMemberView {
                        nick: f.values@[i].nick@,
                        ident: shouty_snake_of(f.values@[i].nick@),
                        value: f.values@[i].value,
                    },
            ),
        },
    )
}

/// The auxiliary types of all enum and flag definitions, enums first,
/// each emitted once per definition.
pub open spec fn spec_global_aux(enums: Seq<Enum>, flags: Seq<Flag>) -> Seq<AuxTypeView> {
    Seq::new(enums.len(), |i: int| spec_enum_aux(enums[i])) + Seq::new(
        flags.len(),
        |i: int| spec_flag_aux(flags[i]),
    )
}

/// The auxiliary types the records carry, in record order.
pub open spec fn spec_aux_of_records(rs: Seq<KeyRecordView>) -> Seq<AuxTypeView>
    decreases rs.len(),
{
    if rs.len() == 0 {
        Seq::empty()
    } else {
        spec_aux_of_records(rs.drop_last()) + (match rs.last().auxiliary {
            Some(a) => seq![a],
            None => Seq::<AuxTypeView>::empty(),
        })
    }
}

/// Law: a skipped key contributes no record and no error; the records
/// of the pass are exactly those of the remaining keys.
pub proof fn lemma_skipped_key_excluded(
    sig_table: Seq<(SigView, OvView)>,
    name_table: Seq<(Seq<char>, OvView)>,
    enums: Seq<Enum>,
    flags: Seq<Flag>,
    keys: Seq<Key>,
    i: int,
)
    requires
        0 <= i < keys.len(),
        spec_resolve(sig_table, name_table, enums, flags, keys[i]) == Ok::<
            GetView,
            ResolveErrView,
        >(GetView::Skip),
    ensures
        spec_records(sig_table, name_table, enums, flags, keys, i) == spec_records(
            sig_table,
            name_table,
            enums,
            flags,
            keys,
            i + 1,
        ),
{
}

/// Every inline choice list in the schema file fits the numbering
/// range of a synthesized enum.
pub open spec fn choices_bounded(sl: SchemaList) -> bool {
    forall|si: int, ki: int|
        0 <= si < sl.schemas@.len() && 0 <= ki < sl.schemas@[si].keys@.len() ==> (
        match (#[trigger] sl.schemas@[si].keys@[ki]).choices {
            Some(cs) => cs.choices@.len() <= i32::MAX as int,
            None => true,
        })
}

/// The generated unit of one whole pass.
#[derive(Debug)]
pub struct GeneratedUnit {
    pub records: Vec<KeyRecord>,
    pub aux_types: Vec<AuxType>,
}

/// What one generation pass produces: the selected schema's resolved
/// records in key order, plus the synthesized auxiliary types — all
/// definitions when `globals` is set, then the per-key choice enums.
pub open spec fn spec_generate_unit(
    sl: SchemaList,
    id: Option<Seq<char>>,
    ds: Seq<DirectiveView>,
    globals: bool,
) -> Result<(Seq<KeyRecordView>, Seq<AuxTypeView>), GenErrView> {
    match crate::schema::spec_select(sl.schemas@, id) {
        Err(e) => Err(GenErrView::Select(e)),
        Ok(si) => {
            let keys = sl.schemas@[si].keys@;
            match spec_known_sigs(keys, 0) {
                Err(e) => Err(GenErrView::Resolve(e)),
                Ok(known) => match spec_build(ds, known, spec_key_names(keys)) {
                    Err(e) => Err(GenErrView::Override(e)),
                    Ok(tables) => match spec_records(
                        tables.0,
                        tables.1,
                        sl.enums@,
                        sl.flags@,
                        keys,
                        0,
                    ) {
                        Err(e) => Err(e),
                        Ok(recs) => Ok(
                            (
                                recs,
                                (if globals {
                                    spec_global_aux(sl.enums@, sl.flags@)
                                } else {
                                    Seq::<AuxTypeView>::empty()
                                }) + spec_aux_of_records(recs),
                            ),
                        ),
                    },
                },
            }
        },
    }
}

/// Collect every key's signature, or report the first key without one.
fn collect_known_sigs(keys: &Vec<Key>) -> (r: Result<Vec<KeySignature>, ResolveError>)
    ensures
        match r {
            Ok(v) => spec_known_sigs(keys@, 0) == Ok::<Seq<SigView>, ResolveErrView>(
                sig_views(v@),
            ),
            Err(e) => spec_known_sigs(keys@, 0) == Err::<Seq<SigView>, ResolveErrView>(e@),
        },
{
    let mut out: Vec<KeySignature> = Vec::new();
    let n = keys.len();
    proof {
        assert(sig_views(out@) =~= Seq::<SigView>::empty());
    }
    for i in 0..n
        invariant
            n == keys@.len(),
            spec_known_sigs(keys@, 0) == (match spec_known_sigs(keys@, i as int) {
                Err(e) => Err::<Seq<SigView>, ResolveErrView>(e),
                Ok(rest) => Ok(sig_views(out@) + rest),
            }),
    {
        match keys[i].signature() {
            Some(s) => {
                let ghost before = sig_views(out@);
                out.push(s);
                proof {
                    assert(sig_views(out@) =~= before.push(spec_signature(keys@[i as int])->Some_0));
                    match spec_known_sigs(keys@, i as int + 1) {
                        Err(_) => {},
                        Ok(rest) => {
                            assert(before + (seq![spec_signature(keys@[i as int])->Some_0] + rest)
                                =~= sig_views(out@) + rest);
                        },
                    }
                }
            },
            None => {
                return Err(ResolveError::NoSignature { key_name: keys[i].name.clone() });
            },
        }
    }
    proof {
        match spec_known_sigs(keys@, n as int) {
            Err(_) => {},
            Ok(rest) => {
                assert(sig_views(out@) + rest =~= sig_views(out@));
            },
        }
    }
    Ok(out)
}

/// Collect every key's name, in order.
fn collect_key_names(keys: &Vec<Key>) -> (r: Vec<String>)
    ensures
        views_of(r@) == spec_key_names(keys@),
{
    let mut out: Vec<String> = Vec::new();
    let n = keys.len();
    for i in 0..n
        invariant
            n == keys@.len(),
            out@.len() == i,
            forall|j: int| 0 <= j < i ==> (#[trigger] out@[j])@ == keys@[j].name@,
    {
        out.push(keys[i].name.clone());
    }
    proof {
        assert(views_of(out@) =~= spec_key_names(keys@));
    }
    out
}

/// Synthesize the auxiliary type of one enum definition.
fn enum_aux(e: &Enum) -> (r: AuxType)
    ensures
        r@ == spec_enum_aux(*e),
{
    let ve = synth_enum_from_values(type_name_from_id(e.id.as_str()), &e.values);
    proof {
        let expected = spec_enum_aux(*e);
        match expected {
            AuxTypeView::Enumeration(ev) => {
                assert forall|j: int| 0 <= j < ve@.members.len() implies ve@.members[j]
                    == ev.members[j] by {
                    assert(ve@.members[j] =~= ev.members[j]);
                }
                assert(ve@.members =~= ev.members);
                assert(ve@ =~= ev);
            },
            AuxTypeView::Flags(_) => {},
        }
    }
    AuxType::Enumeration(ve)
}

/// Synthesize the auxiliary type of one flag definition.
fn flag_aux(f: &Flag) -> (r: AuxType)
    ensures
        r@ == spec_flag_aux(*f),
{
    let bf = synth_flag(type_name_from_id(f.id.as_str()), &f.values);
    proof {
        let expected = spec_flag_aux(*f);
        match expected {
            AuxTypeView::Flags(fv) => {
                assert forall|j: int| 0 <= j < bf@.members.len() implies bf@.members[j]
                    == fv.members[j] by {
                    assert(bf@.members[j] =~= fv.members[j]);
                }
                assert(bf@.members =~= fv.members);
                assert(bf@ =~= fv);
            },
            AuxTypeView::Enumeration(_) => {},
        }
    }
    AuxType::Flags(bf)
}

proof fn lemma_aux_of_records_step(rs: Seq<KeyRecordView>, i: int)
    requires
        0 <= i < rs.len(),
    ensures
        spec_aux_of_records(rs.take(i + 1)) == spec_aux_of_records(rs.take(i)) + (
        match rs[i].auxiliary {
            Some(a) => seq![a],
            None => Seq::<AuxTypeView>::empty(),
        }),
{
    let prefix = rs.take(i + 1);
    assert(prefix.drop_last() =~= rs.take(i));
    assert(prefix.last() == rs[i]);
}

/// Run one whole generation pass over a schema file.
///
/// Selects the schema (the only one, or the one with the given id),
/// validates the override directives against the schema's signatures
/// and key names, resolves every key with full override precedence,
/// and returns the record list plus the synthesized auxiliary types;
/// or the first error, with nothing generated.
pub fn generate_unit(
    schema_list: SchemaList,
    id: Option<&String>,
    directives: &Vec<Directive>,
    globals: bool,
) -> (r: Result<GeneratedUnit, GenError>)
    requires
        choices_bounded(schema_list),
    ensures
        match r {
            Ok(unit) => spec_generate_unit(
                schema_list,
                spec_id_view(id),
                directives@.map_values(|d: Directive| d@),
                globals,
            ) == Ok::<(Seq<KeyRecordView>, Seq<AuxTypeView>), GenErrView>(
                (records_view(unit.records@), aux_views(unit.aux_types@)),
            ),
            Err(e) => spec_generate_unit(
                schema_list,
                spec_id_view(id),
                directives@.map_values(|d: Directive| d@),
                globals,
            ) == Err::<(Seq<KeyRecordView>, Seq<AuxTypeView>), GenErrView>(e@),
        },
{
    let ghost slv = schema_list;
    let ghost dv = directives@.map_values(|d: Directive| d@);
    let SchemaList { enums, flags, schemas } = schema_list;
    let mut schemas = schemas;

    let si = match select_schema(&schemas, id) {
        Ok(i) => i,
        Err(e) => {
            return Err(GenError::Select(e));
        },
    };

    let schema = schemas.remove(si);
    let keys = schema.keys;
    proof {
        assert(keys@ == slv.schemas@[si as int].keys@);
    }

    let known_sigs = match collect_known_sigs(&keys) {
        Ok(v) => v,
        Err(e) => {
            return Err(GenError::Resolve(e));
        },
    };
    let key_names = collect_key_names(&keys);

    let (sig_overrides, name_overrides) = match build_override_tables(
        directives,
        &known_sigs,
        &key_names,
    ) {
        Ok(t) => t,
        Err(e) => {
            return Err(GenError::Override(e));
        },
    };
    let ghost sig_tab = sig_entries_view(sig_overrides@);
    let ghost name_tab = name_entries_view(name_overrides@);

    let mut kg = KeyGenerators::with_defaults(enums, flags);
    kg.add_signature_overrides(sig_overrides);
    kg.add_key_name_overrides(name_overrides);
    proof {
        assert(sig_entries_view(kg.signature_actions@) =~= sig_tab);
        assert(name_entries_view(kg.key_name_actions@) =~= name_tab);
        assert(kg.enums@ == slv.enums@);
        assert(kg.flags@ == slv.flags@);
    }

    let mut records: Vec<KeyRecord> = Vec::new();
    let n = keys.len();
    proof {
        assert(records_view(records@) =~= Seq::<KeyRecordView>::empty());
    }
    for i in 0..n
        invariant
            n == keys@.len(),
            choices_bounded(slv),
            slv == schema_list,
            dv == directives@.map_values(|d: Directive| d@),
            keys@ == slv.schemas@[si as int].keys@,
            0 <= si < slv.schemas@.len(),
            crate::schema::spec_select(slv.schemas@, spec_id_view(id)) == Ok::<
                int,
                SchemaSelectError,
            >(si as int),
            spec_known_sigs(keys@, 0) == Ok::<Seq<SigView>, ResolveErrView>(
                sig_views(known_sigs@),
            ),
            spec_build(dv, sig_views(known_sigs@), spec_key_names(keys@)) == Ok::<
                _,
                OverrideError,
            >((sig_tab, name_tab)),
            sig_entries_view(kg.signature_actions@) == sig_tab,
            name_entries_view(kg.key_name_actions@) == name_tab,
            kg.enums@ == slv.enums@,
            kg.flags@ == slv.flags@,
            spec_records(sig_tab, name_tab, slv.enums@, slv.flags@, keys@, 0) == (
            match spec_records(sig_tab, name_tab, slv.enums@, slv.flags@, keys@, i as int) {
                Err(e) => Err::<Seq<KeyRecordView>, GenErrView>(e),
                Ok(rest) => Ok(records_view(records@) + rest),
            }),
    {
        proof {
            assert(slv.schemas@[si as int].keys@[i as int] == keys@[i as int]);
        }
        match kg.get(&keys[i]) {
            Err(e) => {
                return Err(GenError::Resolve(e));
            },
            Ok(GetResult::Unknown) => {
                let sig_val = match keys[i].signature() {
                    Some(s) => s,
                    None => unreached(),
                };
                return Err(
                    GenError::UnknownSignature {
                        key_name: keys[i].name.clone(),
                        signature: sig_val,
                    },
                );
            },
            Ok(GetResult::Skip) => {},
            Ok(GetResult::Resolved(ctx)) => {
                let ghost before = records_view(records@);
                let ghost ctxv = ctx@;
                records.push(make_record(&keys[i], ctx));
                proof {
                    assert(records_view(records@) =~= before.push(
                        spec_record(keys@[i as int], ctxv),
                    ));
                    match spec_records(
                        sig_tab,
                        name_tab,
                        slv.enums@,
                        slv.flags@,
                        keys@,
                        i as int + 1,
                    ) {
                        Err(_) => {},
                        Ok(rest) => {
                            assert(before + (seq![spec_record(keys@[i as int], ctxv)] + rest)
                                =~= records_view(records@) + rest);
                        },
                    }
                }
            },
        }
    }
    proof {
        match spec_records(sig_tab, name_tab, slv.enums@, slv.flags@, keys@, n as int) {
            Err(_) => {},
            Ok(rest) => {
                assert(records_view(records@) + rest =~= records_view(records@));
            },
        }
    }

    let mut aux_types: Vec<AuxType> = Vec::new();
    let ghost globals_part: Seq<AuxTypeView> = if globals {
        spec_global_aux(slv.enums@, slv.flags@)
    } else {
        Seq::<AuxTypeView>::empty()
    };
    if globals {
        let ne = kg.enums.len();
        proof {
            assert(aux_views(aux_types@) =~= Seq::new(0nat, |j: int| spec_enum_aux(kg.enums@[j])));
        }
        for i in 0..ne
            invariant
                ne == kg.enums@.len(),
                kg.enums@ == slv.enums@,
                aux_views(aux_types@) == Seq::new(
                    i as nat,
                    |j: int| spec_enum_aux(kg.enums@[j]),
                ),
        {
            let ghost before = aux_views(aux_types@);
            aux_types.push(enum_aux(&kg.enums[i]));
            proof {
                assert(aux_views(aux_types@) =~= before.push(spec_enum_aux(kg.enums@[i as int])));
                assert(aux_views(aux_types@) =~= Seq::new(
                    (i + 1) as nat,
                    |j: int| spec_enum_aux(kg.enums@[j]),
                ));
            }
        }
        let nf = kg.flags.len();
        for i in 0..nf
            invariant
                nf == kg.flags@.len(),
                kg.enums@ == slv.enums@,
                kg.flags@ == slv.flags@,
                aux_views(aux_types@) == Seq::new(
                    kg.enums@.len(),
                    |j: int| spec_enum_aux(kg.enums@[j]),
                ) + Seq::new(i as nat, |j: int| spec_flag_aux(kg.flags@[j])),
        {
            let ghost before = aux_views(aux_types@);
            aux_types.push(flag_aux(&kg.flags[i]));
            proof {
                assert(aux_views(aux_types@) =~= before.push(spec_flag_aux(kg.flags@[i as int])));
                assert(aux_views(aux_types@) =~= Seq::new(
                    kg.enums@.len(),
                    |j: int| spec_enum_aux(kg.enums@[j]),
                ) + Seq::new((i + 1) as nat, |j: int| spec_flag_aux(kg.flags@[j])));
            }
        }
        proof {
            assert(aux_views(aux_types@) =~= globals_part);
        }
    }
    proof {
        assert(aux_views(aux_types@) =~= globals_part + spec_aux_of_records(
            records_view(records@).take(0),
        ));
    }

    let nr = records.len();
    for i in 0..nr
        invariant
            nr == records@.len(),
            aux_views(aux_types@) == globals_part + spec_aux_of_records(
                records_view(records@).take(i as int),
            ),
    {
        let ghost before = aux_views(aux_types@);
        match &records[i].auxiliary {
            Some(a) => {
                aux_types.push(clone_aux(a));
                proof {
                    assert(aux_views(aux_types@) =~= before.push(
                        records_view(records@)[i as int].auxiliary->Some_0,
                    ));
                }
            },
            None => {},
        }
        proof {
            lemma_aux_of_records_step(records_view(records@), i as int);
            assert(aux_views(aux_types@) =~= globals_part + spec_aux_of_records(
                records_view(records@).take(i as int + 1),
            ));
        }
    }
    proof {
        assert(records_view(records@).take(nr as int) =~= records_view(records@));
    }

    Ok(GeneratedUnit { records, aux_types })
}

} // verus!
