//! Per-key resolution: the default signature table, the layered override
//! system, and the choice of accessor argument and return types.

use vstd::prelude::*;

use crate::aux::{
    synth_enum, AuxType, AuxTypeView, EnumMemberView, VariantEnumView,
};
use crate::casing::{pascal_of, to_pascal_case};
use crate::schema::{spec_signature, Choice, Enum, Flag, Key, KeySignature, SigView};
use crate::strutil::str_eq;

verus! {

/// A caller-declared override action: install a custom argument/return
/// type pair, or exclude the targeted keys from generation.
#[derive(Debug, Clone)]
pub enum OverrideType {
    Define { arg_type: String, ret_type: String },
    Skip,
}

/// The mathematical value of an [`OverrideType`].
pub enum OvView {
    Define { arg_type: Seq<char>, ret_type: Seq<char> },
    Skip,
}

impl View for OverrideType {
    type V = OvView;

    open spec fn view(&self) -> OvView {
        match self {
            OverrideType::Define { arg_type, ret_type } => OvView::Define {
                arg_type: arg_type@,
                ret_type: ret_type@,
            },
            OverrideType::Skip => OvView::Skip,
        }
    }
}

/// The argument type, return type, and optional auxiliary type that a
/// key resolves to.
#[derive(Debug, Clone)]
pub struct Context {
    pub arg_type: String,
    pub ret_type: String,
    pub auxiliary: Option<AuxType>,
}

/// The mathematical value of a [`Context`].
#[verifier::ext_equal]
pub struct ContextView {
    pub arg_type: Seq<char>,
    pub ret_type: Seq<char>,
    pub auxiliary: Option<AuxTypeView>,
}

impl View for Context {
    type V = ContextView;

    open spec fn view(&self) -> ContextView {
        ContextView {
            arg_type: self.arg_type@,
            ret_type: self.ret_type@,
            auxiliary: match self.auxiliary {
                Some(ref a) => Some(a@),
                None => None,
            },
        }
    }
}

impl Context {
    /// A context whose argument and return types are the same.
    pub fn new(type_: &str) -> (r: Context)
        ensures
            r@.arg_type == type_@,
            r@.ret_type == type_@,
            r@.auxiliary is None,
    {
        Self::new_dissimilar(type_, type_)
    }

    /// A context with distinct argument and return types.
    pub fn new_dissimilar(arg_type: &str, ret_type: &str) -> (r: Context)
        ensures
            r@.arg_type == arg_type@,
            r@.ret_type == ret_type@,
            r@.auxiliary is None,
    {
        Context { arg_type: arg_type.to_owned(), ret_type: ret_type.to_owned(), auxiliary: None }
    }

    /// A context whose argument and return types are one synthesized
    /// auxiliary type.
    pub fn new_with_aux(type_: &str, auxiliary: AuxType) -> (r: Context)
        ensures
            r@.arg_type == type_@,
            r@.ret_type == type_@,
            r@.auxiliary == Some(auxiliary@),
    {
        Context {
            arg_type: type_.to_owned(),
            ret_type: type_.to_owned(),
            auxiliary: Some(auxiliary),
        }
    }
}

/// The outcome of resolving one key: a resolved context, an explicit
/// exclusion, or an unsupported signature.
#[derive(Debug, Clone)]
pub enum GetResult {
    Resolved(Context),
    Skip,
    Unknown,
}

/// The mathematical value of a [`GetResult`].
pub enum GetView {
    Resolved(ContextView),
    Skip,
    Unknown,
}

impl View for GetResult {
    type V = GetView;

    open spec fn view(&self) -> GetView {
        match self {
            GetResult::Resolved(c) => GetView::Resolved(c@),
            GetResult::Skip => GetView::Skip,
            GetResult::Unknown => GetView::Unknown,
        }
    }
}

/// Why per-key resolution aborted: a schema structural error.
#[derive(Debug, Clone)]
pub enum ResolveError {
    /// The key declares zero or several of type, enum and flags.
    NoSignature { key_name: String },
    /// The key references an enum id with no definition.
    MissingEnumDef { id: String },
    /// The key references a flags id with no definition.
    MissingFlagDef { id: String },
}

/// The mathematical value of a [`ResolveError`].
pub enum ResolveErrView {
    NoSignature { key_name: Seq<char> },
    MissingEnumDef { id: Seq<char> },
    MissingFlagDef { id: Seq<char> },
}

impl View for ResolveError {
    type V = ResolveErrView;

    open spec fn view(&self) -> ResolveErrView {
        match self {
            ResolveError::NoSignature { key_name } => ResolveErrView::NoSignature {
                key_name: key_name@,
            },
            ResolveError::MissingEnumDef { id } => ResolveErrView::MissingEnumDef { id: id@ },
            ResolveError::MissingFlagDef { id } => ResolveErrView::MissingFlagDef { id: id@ },
        }
    }
}

/// Structural equality of two signatures: same kind and same text.
pub fn sig_eq(a: &KeySignature, b: &KeySignature) -> (r: bool)
    ensures
        r == (a@ == b@),
{
    match (a, b) {
        (KeySignature::Type(x), KeySignature::Type(y)) => str_eq(x.as_str(), y.as_str()),
        (KeySignature::Enum(x), KeySignature::Enum(y)) => str_eq(x.as_str(), y.as_str()),
        (KeySignature::Flag(x), KeySignature::Flag(y)) => str_eq(x.as_str(), y.as_str()),
        _ => false,
    }
}

/// A copy of an override action with the same mathematical value.
pub fn clone_action(a: &OverrideType) -> (r: OverrideType)
    ensures
        r@ == a@,
{
    match a {
        OverrideType::Define { arg_type, ret_type } => OverrideType::Define {
            arg_type: arg_type.clone(),
            ret_type: ret_type.clone(),
        },
        OverrideType::Skip => OverrideType::Skip,
    }
}

/// The built-in mapping from a primitive type tag to the accessor's
/// argument and return types; `None` for every unknown tag. The `s` tag
/// is not here: a plain string key and a choice key are resolved apart.
pub open spec fn default_mapping(tag: Seq<char>) -> Option<(Seq<char>, Seq<char>)> {
    if tag == "b"@ {
        Some(("bool"@, "bool"@))
    } else if tag == "i"@ {
        Some(("i32"@, "i32"@))
    } else if tag == "u"@ {
        Some(("u32"@, "u32"@))
    } else if tag == "x"@ {
        Some(("i64"@, "i64"@))
    } else if tag == "t"@ {
        Some(("u64"@, "u64"@))
    } else if tag == "d"@ {
        Some(("f64"@, "f64"@))
    } else if tag == "(ii)"@ {
        Some(("(i32, i32)"@, "(i32, i32)"@))
    } else if tag == "as"@ {
        Some(("&[&str]"@, "Vec<String>"@))
    } else {
        None
    }
}

/// The built-in context for a primitive type tag, if the tag is known.
pub fn default_context(tag: &str) -> (r: Option<Context>)
    ensures
        match r {
            Some(c) => default_mapping(tag@) == Some((c@.arg_type, c@.ret_type)) && c@.auxiliary
                is None,
            None => default_mapping(tag@) is None,
        },
{
    if str_eq(tag, "b") {
        Some(Context::new("bool"))
    } else if str_eq(tag, "i") {
        Some(Context::new("i32"))
    } else if str_eq(tag, "u") {
        Some(Context::new("u32"))
    } else if str_eq(tag, "x") {
        Some(Context::new("i64"))
    } else if str_eq(tag, "t") {
        Some(Context::new("u64"))
    } else if str_eq(tag, "d") {
        Some(Context::new("f64"))
    } else if str_eq(tag, "(ii)") {
        Some(Context::new("(i32, i32)"))
    } else if str_eq(tag, "as") {
        Some(Context::new_dissimilar("&[&str]", "Vec<String>"))
    } else {
        None
    }
}

/// The last `.`-separated segment of an id; the whole id when it holds
/// no dot.
pub open spec fn last_segment(s: Seq<char>) -> Seq<char>
    decreases s.len(),
{
    if s.len() == 0 {
        s
    } else if s.last() == '.' {
        Seq::empty()
    } else {
        last_segment(s.drop_last()).push(s.last())
    }
}

/// The synthesized type name for an enum or flag id: the capitalized
/// form of the id's last path segment.
pub open spec fn spec_type_name_of_id(id: Seq<char>) -> Seq<char> {
    pascal_of(last_segment(id))
}

proof fn lemma_last_segment(s: Seq<char>, j: int)
    requires
        0 <= j <= s.len(),
        j == 0 || s[j - 1] == '.',
        forall|k: int| j <= k < s.len() ==> s[k] != '.',
    ensures
        last_segment(s) == s.subrange(j, s.len() as int),
    decreases s.len(),
{
    if s.len() == 0 {
        assert(s.subrange(0, 0) =~= s);
    } else if j == s.len() {
        assert(s.last() == s[j - 1]);
        assert(s.subrange(j, s.len() as int) =~= Seq::<char>::empty());
    } else {
        assert(s.last() == s[s.len() - 1]);
        assert(s[s.len() - 1] != '.');
        let shorter = s.drop_last();
        lemma_last_segment(shorter, j);
        assert(shorter.subrange(j, shorter.len() as int).push(s.last()) =~= s.subrange(
            j,
            s.len() as int,
        ));
    }
}

/// The type name derived from an enum or flag id: its last
/// `.`-separated segment, capitalized.
pub fn type_name_from_id(id: &str) -> (r: String)
    ensures
        r@ == spec_type_name_of_id(id@),
{
    let len = id.unicode_len();
    let mut start: usize = 0;
    for i in 0..len
        invariant
            len == id@.len(),
            start <= i,
            start == 0 || id@[start - 1] == '.',
            forall|k: int| start <= k < i ==> id@[k] != '.',
    {
        if id.get_char(i) == '.' {
            start = i + 1;
        }
    }
    proof {
        lemma_last_segment(id@, start as int);
    }
    let tail = id.substring_char(start, len);
    to_pascal_case(tail)
}

/// The index of the first enum definition with the given id, scanning
/// from position `i`.
pub open spec fn find_enum_from(enums: Seq<Enum>, id: Seq<char>, i: int) -> Option<int>
    decreases enums.len() - i,
{
    if i < 0 || i >= enums.len() {
        None
    } else if enums[i].id@ == id {
        Some(i)
    } else {
        find_enum_from(enums, id, i + 1)
    }
}

/// The index of the first flag definition with the given id, scanning
/// from position `i`.
pub open spec fn find_flag_from(flags: Seq<Flag>, id: Seq<char>, i: int) -> Option<int>
    decreases flags.len() - i,
{
    if i < 0 || i >= flags.len() {
        None
    } else if flags[i].id@ == id {
        Some(i)
    } else {
        find_flag_from(flags, id, i + 1)
    }
}

/// Look up an enum definition by id.
pub fn find_enum<'a>(enums: &'a Vec<Enum>, id: &str) -> (r: Option<&'a Enum>)
    ensures
        match r {
            Some(e) => exists|i: int|
                find_enum_from(enums@, id@, 0) == Some(i) && 0 <= i < enums@.len() && *e
                    == enums@[i],
            None => find_enum_from(enums@, id@, 0) is None,
        },
{
    let n = enums.len();
    for i in 0..n
        invariant
            n == enums@.len(),
            find_enum_from(enums@, id@, 0) == find_enum_from(enums@, id@, i as int),
    {
        if str_eq(enums[i].id.as_str(), id) {
            proof {
                assert(find_enum_from(enums@, id@, i as int) == Some(i as int));
            }
            return Some(&enums[i]);
        }
    }
    None
}

/// Look up a flag definition by id.
pub fn find_flag<'a>(flags: &'a Vec<Flag>, id: &str) -> (r: Option<&'a Flag>)
    ensures
        match r {
            Some(f) => exists|i: int|
                find_flag_from(flags@, id@, 0) == Some(i) && 0 <= i < flags@.len() && *f
                    == flags@[i],
            None => find_flag_from(flags@, id@, 0) is None,
        },
{
    let n = flags.len();
    for i in 0..n
        invariant
            n == flags@.len(),
            find_flag_from(flags@, id@, 0) == find_flag_from(flags@, id@, i as int),
    {
        if str_eq(flags[i].id.as_str(), id) {
            proof {
                assert(find_flag_from(flags@, id@, i as int) == Some(i as int));
            }
            return Some(&flags[i]);
        }
    }
    None
}

/// The action of the first table entry targeting signature `sig`,
/// scanning from position `i`.
pub open spec fn find_sig_action_from(
    entries: Seq<(SigView, OvView)>,
    sig: SigView,
    i: int,
) -> Option<OvView>
    decreases entries.len() - i,
{
    if i < 0 || i >= entries.len() {
        None
    } else if entries[i].0 == sig {
        Some(entries[i].1)
    } else {
        find_sig_action_from(entries, sig, i + 1)
    }
}

/// The action of the first table entry targeting key name `name`,
/// scanning from position `i`.
pub open spec fn find_name_action_from(
    entries: Seq<(Seq<char>, OvView)>,
    name: Seq<char>,
    i: int,
) -> Option<OvView>
    decreases entries.len() - i,
{
    if i < 0 || i >= entries.len() {
        None
    } else if entries[i].0 == name {
        Some(entries[i].1)
    } else {
        find_name_action_from(entries, name, i + 1)
    }
}

/// The members of the enum synthesized from an inline choice list: one
/// member per choice, keeping the choice string as nick, capitalizing it
/// as identifier, and numbering the members by position.
pub open spec fn spec_choice_members(choices: Seq<Choice>) -> Seq<EnumMemberView> {
    Seq::new(
        choices.len(),
        |i: int|
            EnumMemberView {
                nick: choices[i].value@,
                ident: pascal_of(choices[i].value@),
                value: i as i32,
            },
    )
}

/// The context of a string key with an inline choice list: argument and
/// return types are the capitalized key name, and the auxiliary type is
/// the enum synthesized from the choices.
pub open spec fn spec_choice_context(name: Seq<char>, choices: Seq<Choice>) -> ContextView {
    ContextView {
        arg_type: pascal_of(name),
        ret_type: pascal_of(name),
        auxiliary: Some(
            AuxTypeView::Enumeration(
                VariantEnumView { name: pascal_of(name), members: spec_choice_members(choices) },
            ),
        ),
    }
}

/// The default resolution of a key, after both override tables failed
/// to match: the built-in primitive table, the string/choice split, or
/// the referenced enum or flag definition.
pub open spec fn spec_resolve_default(
    enums: Seq<Enum>,
    flags: Seq<Flag>,
    key: Key,
    sig: SigView,
) -> Result<GetView, ResolveErrView> {
    match sig {
        SigView::Type(tag) => {
            if tag == "s"@ {
                match key.choices {
                    Some(cs) => Ok(GetView::Resolved(spec_choice_context(key.name@, cs.choices@))),
                    None => Ok(
                        GetView::Resolved(
                            ContextView { arg_type: "&str"@, ret_type: "String"@, auxiliary: None },
                        ),
                    ),
                }
            } else {
                match default_mapping(tag) {
                    Some(pair) => Ok(
                        GetView::Resolved(
                            ContextView { arg_type: pair.0, ret_type: pair.1, auxiliary: None },
                        ),
                    ),
                    None => Ok(GetView::Unknown),
                }
            }
        },
        SigView::Enum(id) => match find_enum_from(enums, id, 0) {
            Some(_) => Ok(
                GetView::Resolved(
                    ContextView {
                        arg_type: spec_type_name_of_id(id),
                        ret_type: spec_type_name_of_id(id),
                        auxiliary: None,
                    },
                ),
            ),
            None => Err(ResolveErrView::MissingEnumDef { id }),
        },
        SigView::Flag(id) => match find_flag_from(flags, id, 0) {
            Some(_) => Ok(
                GetView::Resolved(
                    ContextView {
                        arg_type: spec_type_name_of_id(id),
                        ret_type: spec_type_name_of_id(id),
                        auxiliary: None,
                    },
                ),
            ),
            None => Err(ResolveErrView::MissingFlagDef { id }),
        },
    }
}

/// The resolution of one key, with the full override precedence:
/// a key-name action first, else a signature action, else the default
/// resolution; a `Skip` action excludes the key, a `Define` action
/// installs its type pair with no auxiliary type.
pub open spec fn spec_resolve(
    sig_table: Seq<(SigView, OvView)>,
    name_table: Seq<(Seq<char>, OvView)>,
    enums: Seq<Enum>,
    flags: Seq<Flag>,
    key: Key,
) -> Result<GetView, ResolveErrView> {
    match spec_signature(key) {
        None => Err(ResolveErrView::NoSignature { key_name: key.name@ }),
        Some(sig) => match find_name_action_from(name_table, key.name@, 0) {
            Some(OvView::Skip) => Ok(GetView::Skip),
            Some(OvView::Define { arg_type, ret_type }) => Ok(
                GetView::Resolved(ContextView { arg_type, ret_type, auxiliary: None }),
            ),
            None => match find_sig_action_from(sig_table, sig, 0) {
                Some(OvView::Skip) => Ok(GetView::Skip),
                Some(OvView::Define { arg_type, ret_type }) => Ok(
                    GetView::Resolved(ContextView { arg_type, ret_type, auxiliary: None }),
                ),
                None => spec_resolve_default(enums, flags, key, sig),
            },
        },
    }
}

/// The resolution of one key against a [`KeyGenerators`] state.
pub open spec fn spec_resolve_kg(kg: KeyGenerators, key: Key) -> Result<GetView, ResolveErrView> {
    spec_resolve(
        sig_entries_view(kg.signature_actions@),
        name_entries_view(kg.key_name_actions@),
        kg.enums@,
        kg.flags@,
        key,
    )
}

/// Law: when both a key-name override and a signature override apply
/// to one key, the key-name override alone decides the outcome; the
/// signature table and the defaults are not consulted.
pub proof fn lemma_key_name_override_wins(
    sig_table: Seq<(SigView, OvView)>,
    name_table: Seq<(Seq<char>, OvView)>,
    enums: Seq<Enum>,
    flags: Seq<Flag>,
    key: Key,
    action: OvView,
)
    requires
        spec_signature(key) is Some,
        find_name_action_from(name_table, key.name@, 0) == Some(action),
    ensures
        spec_resolve(sig_table, name_table, enums, flags, key) == (match action {
            OvView::Skip => Ok::<GetView, ResolveErrView>(GetView::Skip),
            OvView::Define { arg_type, ret_type } => Ok::<GetView, ResolveErrView>(
                GetView::Resolved(ContextView { arg_type, ret_type, auxiliary: None }),
            ),
        }),
{
}

/// Law: a key targeted by a `Skip` override, by name, or by signature
/// when no key-name action applies, resolves to `Skip` — also when its
/// signature has no default mapping, so no unknown-signature error can
/// arise from it.
pub proof fn lemma_skip_override_excludes(
    sig_table: Seq<(SigView, OvView)>,
    name_table: Seq<(Seq<char>, OvView)>,
    enums: Seq<Enum>,
    flags: Seq<Flag>,
    key: Key,
    sig: SigView,
)
    requires
        spec_signature(key) == Some(sig),
        find_name_action_from(name_table, key.name@, 0) == Some(OvView::Skip)
            || (find_name_action_from(name_table, key.name@, 0) is None && find_sig_action_from(
            sig_table,
            sig,
            0,
        ) == Some(OvView::Skip)),
    ensures
        spec_resolve(sig_table, name_table, enums, flags, key) == Ok::<GetView, ResolveErrView>(
            GetView::Skip,
        ),
{
}

/// The per-key resolution state of one generation pass: the two
/// caller-supplied override tables and the schema's enum and flag
/// definition tables. The built-in primitive mappings are not state;
/// they are the constant [`default_mapping`] table.
pub struct KeyGenerators {
    pub signature_actions: Vec<(KeySignature, OverrideType)>,
    pub key_name_actions: Vec<(String, OverrideType)>,
    pub enums: Vec<Enum>,
    pub flags: Vec<Flag>,
}

impl KeyGenerators {
    /// A resolution state with no overrides installed.
    pub fn with_defaults(enums: Vec<Enum>, flags: Vec<Flag>) -> (r: KeyGenerators)
        ensures
            r.signature_actions@ =~= Seq::<(KeySignature, OverrideType)>::empty(),
            r.key_name_actions@ =~= Seq::<(String, OverrideType)>::empty(),
            r.enums == enums,
            r.flags == flags,
    {
        KeyGenerators {
            signature_actions: Vec::new(),
            key_name_actions: Vec::new(),
            enums,
            flags,
        }
    }

    /// Install signature-scoped overrides. They take precedence over the
    /// default mappings, but key-name overrides still win.
    pub fn add_signature_overrides(&mut self, overrides: Vec<(KeySignature, OverrideType)>)
        ensures
            final(self).signature_actions@ == old(self).signature_actions@ + overrides@,
            final(self).key_name_actions == old(self).key_name_actions,
            final(self).enums == old(self).enums,
            final(self).flags == old(self).flags,
    {
        let mut overrides = overrides;
        self.signature_actions.append(&mut overrides);
    }

    /// Install key-name-scoped overrides, the highest-precedence layer.
    pub fn add_key_name_overrides(&mut self, overrides: Vec<(String, OverrideType)>)
        ensures
            final(self).key_name_actions@ == old(self).key_name_actions@ + overrides@,
            final(self).signature_actions == old(self).signature_actions,
            final(self).enums == old(self).enums,
            final(self).flags == old(self).flags,
    {
        let mut overrides = overrides;
        self.key_name_actions.append(&mut overrides);
    }

    /// The position of the first key-name table entry for `name`.
    fn find_name_action(&self, name: &str) -> (r: Option<usize>)
        ensures
            match r {
                Some(j) => j < self.key_name_actions@.len() && find_name_action_from(
                    name_entries_view(self.key_name_actions@),
                    name@,
                    0,
                ) == Some(self.key_name_actions@[j as int].1@),
                None => find_name_action_from(name_entries_view(self.key_name_actions@), name@, 0)
                    is None,
            },
    {
        let n = self.key_name_actions.len();
        for i in 0..n
            invariant
                n == self.key_name_actions@.len(),
                find_name_action_from(name_entries_view(self.key_name_actions@), name@, 0)
                    == find_name_action_from(
                    name_entries_view(self.key_name_actions@),
                    name@,
                    i as int,
                ),
        {
            if str_eq(self.key_name_actions[i].0.as_str(), name) {
                proof {
                    assert(find_name_action_from(
                        name_entries_view(self.key_name_actions@),
                        name@,
                        i as int,
                    ) == Some(self.key_name_actions@[i as int].1@));
                }
                return Some(i);
            }
        }
        None
    }

    /// The position of the first signature table entry for `sig`.
    fn find_sig_action(&self, sig: &KeySignature) -> (r: Option<usize>)
        ensures
            match r {
                Some(j) => j < self.signature_actions@.len() && find_sig_action_from(
                    sig_entries_view(self.signature_actions@),
                    sig@,
                    0,
                ) == Some(self.signature_actions@[j as int].1@),
                None => find_sig_action_from(sig_entries_view(self.signature_actions@), sig@, 0)
                    is None,
            },
    {
        let n = self.signature_actions.len();
        for i in 0..n
            invariant
                n == self.signature_actions@.len(),
                find_sig_action_from(sig_entries_view(self.signature_actions@), sig@, 0)
                    == find_sig_action_from(
                    sig_entries_view(self.signature_actions@),
                    sig@,
                    i as int,
                ),
        {
            if sig_eq(&self.signature_actions[i].0, sig) {
                proof {
                    assert(find_sig_action_from(
                        sig_entries_view(self.signature_actions@),
                        sig@,
                        i as int,
                    ) == Some(self.signature_actions@[i as int].1@));
                }
                return Some(i);
            }
        }
        None
    }

    /// Resolve one key against the override tables and the defaults.
    ///
    /// The outcome follows [`spec_resolve`] exactly: a key-name override
    /// wins over a signature override, which wins over the built-in
    /// table; `Skip` excludes the key; an unknown primitive tag yields
    /// `Unknown`; a missing signature or a dangling enum/flag reference
    /// is an error.
    pub fn get(&self, key: &Key) -> (r: Result<GetResult, ResolveError>)
        requires
            (match key.choices {
                Some(cs) => cs.choices@.len() <= i32::MAX as int,
                None => true,
            }),
        ensures
            match r {
                Ok(gr) => spec_resolve_kg(*self, *key) == Ok::<GetView, ResolveErrView>(gr@),
                Err(e) => spec_resolve_kg(*self, *key) == Err::<GetView, ResolveErrView>(e@),
            },
    {
        let sig = match key.signature() {
            Some(s) => s,
            None => {
                return Err(ResolveError::NoSignature { key_name: key.name.clone() });
            },
        };

        match self.find_name_action(key.name.as_str()) {
            Some(j) => {
                return Ok(action_result(&self.key_name_actions[j].1));
            },
            None => {},
        }

        match self.find_sig_action(&sig) {
            Some(j) => {
                return Ok(action_result(&self.signature_actions[j].1));
            },
            None => {},
        }

        match &sig {
            KeySignature::Type(tag) => {
                if str_eq(tag.as_str(), "s") {
                    match &key.choices {
                        Some(choices) => Ok(
                            GetResult::Resolved(choice_context(key.name.as_str(), choices)),
                        ),
                        None => Ok(GetResult::Resolved(Context::new_dissimilar("&str", "String"))),
                    }
                } else {
                    match default_context(tag.as_str()) {
                        Some(ctx) => Ok(GetResult::Resolved(ctx)),
                        None => Ok(GetResult::Unknown),
                    }
                }
            },
            KeySignature::Enum(id) => {
                match find_enum(&self.enums, id.as_str()) {
                    Some(_) => {
                        let ty_name = type_name_from_id(id.as_str());
                        Ok(
                            GetResult::Resolved(
                                Context::new_dissimilar(ty_name.as_str(), ty_name.as_str()),
                            ),
                        )
                    },
                    None => Err(ResolveError::MissingEnumDef { id: id.clone() }),
                }
            },
            KeySignature::Flag(id) => {
                match find_flag(&self.flags, id.as_str()) {
                    Some(_) => {
                        let ty_name = type_name_from_id(id.as_str());
                        Ok(
                            GetResult::Resolved(
                                Context::new_dissimilar(ty_name.as_str(), ty_name.as_str()),
                            ),
                        )
                    },
                    None => Err(ResolveError::MissingFlagDef { id: id.clone() }),
                }
            },
        }
    }
}

/// The resolution that one override action dictates: exclusion for
/// `Skip`, the custom type pair for `Define`.
fn action_result(action: &OverrideType) -> (r: GetResult)
    ensures
        r@ == (match action@ {
            OvView::Skip => GetView::Skip,
            OvView::Define { arg_type, ret_type } => GetView::Resolved(
                ContextView { arg_type, ret_type, auxiliary: None },
            ),
        }),
{
    match action {
        OverrideType::Skip => GetResult::Skip,
        OverrideType::Define { arg_type, ret_type } => GetResult::Resolved(
            Context::new_dissimilar(arg_type.as_str(), ret_type.as_str()),
        ),
    }
}

/// The context of a string key with an inline choice list.
fn choice_context(key_name: &str, choices: &crate::schema::Choices) -> (r: Context)
    requires
        choices.choices@.len() <= i32::MAX as int,
    ensures
        r@ == spec_choice_context(key_name@, choices.choices@),
{
    let ty_name = to_pascal_case(key_name);
    let mut values: Vec<(String, Option<i32>)> = Vec::new();
    let n = choices.choices.len();
    for i in 0..n
        invariant
            n == choices.choices@.len(),
            values@.len() == i,
            forall|j: int| 0 <= j < i ==> (#[trigger] values@[j]).0@ == choices.choices@[j].value@,
            forall|j: int| 0 <= j < i ==> (#[trigger] values@[j]).1 is None,
    {
        values.push((choices.choices[i].value.clone(), None));
    }
    let aux_enum = synth_enum(ty_name.clone(), &values);
    proof {
        let ms = aux_enum@.members;
        let cs = spec_choice_members(choices.choices@);
        assert forall|j: int| 0 <= j < ms.len() implies ms[j] == cs[j] by {
            assert(ms[j].nick == values@[j].0@);
            assert(values@[j].1 is None);
            assert(ms[j] =~= cs[j]);
        }
        assert(ms =~= cs);
    }
    Context::new_with_aux(ty_name.as_str(), AuxType::Enumeration(aux_enum))
}

/// One caller-supplied override directive: an action aimed either at a
/// type signature or at a key name, never both and never neither.
#[derive(Debug, Clone)]
pub struct Directive {
    pub signature: Option<String>,
    pub key_name: Option<String>,
    pub action: OverrideType,
}

/// The mathematical value of a [`Directive`].
pub struct DirectiveView {
    pub signature: Option<Seq<char>>,
    pub key_name: Option<Seq<char>>,
    pub action: OvView,
}

impl View for Directive {
    type V = DirectiveView;

    open spec fn view(&self) -> DirectiveView {
        DirectiveView {
            signature: match self.signature {
                Some(ref s) => Some(s@),
                None => None,
            },
            key_name: match self.key_name {
                Some(ref s) => Some(s@),
                None => None,
            },
            action: self.action@,
        }
    }
}

/// Why override-table construction failed; the index names the
/// offending directive.
#[derive(Debug, Clone, Copy, PartialEq, Eq, Structural)]
pub enum OverrideError {
    /// The directive targets both a signature and a key name.
    BothTargets { index: usize },
    /// The directive targets neither a signature nor a key name.
    NoTarget { index: usize },
    /// No key in the schema has the targeted signature.
    UselessSignature { index: usize },
    /// The targeted key name is not in the schema.
    KeyNameNotFound { index: usize },
    /// A directive already targets this signature.
    DuplicateSignature { index: usize },
    /// A directive already targets this key name.
    DuplicateKeyName { index: usize },
}

/// The views of a sequence of signatures.
pub open spec fn sig_views(sigs: Seq<KeySignature>) -> Seq<SigView> {
    sigs.map_values(|s: KeySignature| s@)
}

/// The views of a signature-action table.
pub open spec fn sig_entries_view(entries: Seq<(KeySignature, OverrideType)>) -> Seq<
    (SigView, OvView),
> {
    entries.map_values(|p: (KeySignature, OverrideType)| (p.0@, p.1@))
}

/// The views of a key-name-action table.
pub open spec fn name_entries_view(entries: Seq<(String, OverrideType)>) -> Seq<
    (Seq<char>, OvView),
> {
    entries.map_values(|p: (String, OverrideType)| (p.0@, p.1@))
}

/// Whether a sequence of signature views holds `sv`.
pub open spec fn sigs_contain(svs: Seq<SigView>, sv: SigView) -> bool {
    exists|j: int| 0 <= j < svs.len() && (#[trigger] svs[j]) == sv
}

/// Whether a sequence of strings holds `nm`.
pub open spec fn names_contain(ns: Seq<Seq<char>>, nm: Seq<char>) -> bool {
    exists|j: int| 0 <= j < ns.len() && (#[trigger] ns[j]) == nm
}

/// Whether a signature-action table already targets `sv`.
pub open spec fn sig_table_targets(ps: Seq<(SigView, OvView)>, sv: SigView) -> bool {
    exists|j: int| 0 <= j < ps.len() && (#[trigger] ps[j]).0 == sv
}

/// Whether a key-name-action table already targets `nm`.
pub open spec fn name_table_targets(ps: Seq<(Seq<char>, OvView)>, nm: Seq<char>) -> bool {
    exists|j: int| 0 <= j < ps.len() && (#[trigger] ps[j]).0 == nm
}

/// Validation and accumulation of override directives, from position
/// `i` on: a directive must target exactly one of a signature or a key
/// name, the target must exist in the schema, and no two directives may
/// target the same signature or the same key name.
pub open spec fn spec_build_from(
    ds: Seq<DirectiveView>,
    i: int,
    known_sigs: Seq<SigView>,
    known_names: Seq<Seq<char>>,
    sig_acc: Seq<(SigView, OvView)>,
    name_acc: Seq<(Seq<char>, OvView)>,
) -> Result<(Seq<(SigView, OvView)>, Seq<(Seq<char>, OvView)>), OverrideError>
    decreases ds.len() - i,
{
    if i < 0 || i >= ds.len() {
        Ok((sig_acc, name_acc))
    } else {
        match (ds[i].signature, ds[i].key_name) {
            (Some(_), Some(_)) => Err(OverrideError::BothTargets { index: i as usize }),
            (None, None) => Err(OverrideError::NoTarget { index: i as usize }),
            (Some(s), None) => {
                let sv = SigView::Type(s);
                if !sigs_contain(known_sigs, sv) {
                    Err(OverrideError::UselessSignature { index: i as usize })
                } else if sig_table_targets(sig_acc, sv) {
                    Err(OverrideError::DuplicateSignature { index: i as usize })
                } else {
                    spec_build_from(
                        ds,
                        i + 1,
                        known_sigs,
                        known_names,
                        sig_acc.push((sv, ds[i].action)),
                        name_acc,
                    )
                }
            },
            (None, Some(nm)) => {
                if !names_contain(known_names, nm) {
                    Err(OverrideError::KeyNameNotFound { index: i as usize })
                } else if name_table_targets(name_acc, nm) {
                    Err(OverrideError::DuplicateKeyName { index: i as usize })
                } else {
                    spec_build_from(
                        ds,
                        i + 1,
                        known_sigs,
                        known_names,
                        sig_acc,
                        name_acc.push((nm, ds[i].action)),
                    )
                }
            },
        }
    }
}

/// The validated override tables of a directive list.
pub open spec fn spec_build(
    ds: Seq<DirectiveView>,
    known_sigs: Seq<SigView>,
    known_names: Seq<Seq<char>>,
) -> Result<(Seq<(SigView, OvView)>, Seq<(Seq<char>, OvView)>), OverrideError> {
    spec_build_from(ds, 0, known_sigs, known_names, Seq::empty(), Seq::empty())
}

/// Whether one of the known signatures equals `sig`.
fn contains_sig(sigs: &Vec<KeySignature>, sig: &KeySignature) -> (r: bool)
    ensures
        r == sigs_contain(sig_views(sigs@), sig@),
{
    let n = sigs.len();
    for i in 0..n
        invariant
            n == sigs@.len(),
            forall|j: int| 0 <= j < i ==> (#[trigger] sig_views(sigs@)[j]) != sig@,
    {
        if sig_eq(&sigs[i], sig) {
            proof {
                assert(sig_views(sigs@)[i as int] == sig@);
            }
            return true;
        }
    }
    false
}

/// Whether one of the known key names equals `name`.
fn contains_name(names: &Vec<String>, name: &str) -> (r: bool)
    ensures
        r == names_contain(crate::strutil::views_of(names@), name@),
{
    let n = names.len();
    for i in 0..n
        invariant
            n == names@.len(),
            forall|j: int| 0 <= j < i ==> (#[trigger] crate::strutil::views_of(names@)[j]) != name@,
    {
        if str_eq(names[i].as_str(), name) {
            proof {
                assert(crate::strutil::views_of(names@)[i as int] == name@);
            }
            return true;
        }
    }
    false
}

/// Whether the accumulated signature table already targets `sig`.
fn table_targets_sig(entries: &Vec<(KeySignature, OverrideType)>, sig: &KeySignature) -> (r: bool)
    ensures
        r == sig_table_targets(sig_entries_view(entries@), sig@),
{
    let n = entries.len();
    for i in 0..n
        invariant
            n == entries@.len(),
            forall|j: int| 0 <= j < i ==> (#[trigger] sig_entries_view(entries@)[j]).0 != sig@,
    {
        if sig_eq(&entries[i].0, sig) {
            proof {
                assert(sig_entries_view(entries@)[i as int].0 == sig@);
            }
            return true;
        }
    }
    false
}

/// Whether the accumulated key-name table already targets `name`.
fn table_targets_name(entries: &Vec<(String, OverrideType)>, name: &str) -> (r: bool)
    ensures
        r == name_table_targets(name_entries_view(entries@), name@),
{
    let n = entries.len();
    for i in 0..n
        invariant
            n == entries@.len(),
            forall|j: int| 0 <= j < i ==> (#[trigger] name_entries_view(entries@)[j]).0 != name@,
    {
        if str_eq(entries[i].0.as_str(), name) {
            proof {
                assert(name_entries_view(entries@)[i as int].0 == name@);
            }
            return true;
        }
    }
    false
}

/// Build the two override tables from caller-supplied directives,
/// validating each directive in order.
///
/// Construction fails on a directive that targets both or neither of a
/// signature and a key name, on a signature target that no key of the
/// schema carries, on a key name absent from the schema, and on a
/// second directive for an already-targeted signature or key name.
pub fn build_override_tables(
    directives: &Vec<Directive>,
    known_signatures: &Vec<KeySignature>,
    known_key_names: &Vec<String>,
) -> (r: Result<(Vec<(KeySignature, OverrideType)>, Vec<(String, OverrideType)>), OverrideError>)
    ensures
        match r {
            Ok(tables) => spec_build(
                directives@.map_values(|d: Directive| d@),
                sig_views(known_signatures@),
                crate::strutil::views_of(known_key_names@),
            ) == Ok::<_, OverrideError>(
                (sig_entries_view(tables.0@), name_entries_view(tables.1@)),
            ),
            Err(e) => spec_build(
                directives@.map_values(|d: Directive| d@),
                sig_views(known_signatures@),
                crate::strutil::views_of(known_key_names@),
            ) == Err::<(Seq<(SigView, OvView)>, Seq<(Seq<char>, OvView)>), OverrideError>(e),
        },
{
    let ghost dv = directives@.map_values(|d: Directive| d@);
    let ghost ks = sig_views(known_signatures@);
    let ghost kn = crate::strutil::views_of(known_key_names@);

    let mut sig_table: Vec<(KeySignature, OverrideType)> = Vec::new();
    let mut name_table: Vec<(String, OverrideType)> = Vec::new();
    let n = directives.len();
    proof {
        assert(sig_entries_view(sig_table@) =~= Seq::<(SigView, OvView)>::empty());
        assert(name_entries_view(name_table@) =~= Seq::<(Seq<char>, OvView)>::empty());
    }
    for i in 0..n
        invariant
            n == directives@.len(),
            dv == directives@.map_values(|d: Directive| d@),
            ks == sig_views(known_signatures@),
            kn == crate::strutil::views_of(known_key_names@),
            spec_build(dv, ks, kn) == spec_build_from(
                dv,
                i as int,
                ks,
                kn,
                sig_entries_view(sig_table@),
                name_entries_view(name_table@),
            ),
    {
        let d = &directives[i];
        match (&d.signature, &d.key_name) {
            (Some(_), Some(_)) => {
                return Err(OverrideError::BothTargets { index: i });
            },
            (None, None) => {
                return Err(OverrideError::NoTarget { index: i });
            },
            (Some(s), None) => {
                let sig_t = KeySignature::Type(s.clone());
                if !contains_sig(known_signatures, &sig_t) {
                    return Err(OverrideError::UselessSignature { index: i });
                }
                if table_targets_sig(&sig_table, &sig_t) {
                    return Err(OverrideError::DuplicateSignature { index: i });
                }
                let ghost before = sig_entries_view(sig_table@);
                sig_table.push((sig_t, clone_action(&d.action)));
                proof {
                    assert(sig_entries_view(sig_table@) =~= before.push(
                        (SigView::Type(dv[i as int].signature->Some_0), dv[i as int].action),
                    ));
                }
            },
            (None, Some(nm)) => {
                if !contains_name(known_key_names, nm.as_str()) {
                    return Err(OverrideError::KeyNameNotFound { index: i });
                }
                if table_targets_name(&name_table, nm.as_str()) {
                    return Err(OverrideError::DuplicateKeyName { index: i });
                }
                let ghost before = name_entries_view(name_table@);
                name_table.push((nm.clone(), clone_action(&d.action)));
                proof {
                    assert(name_entries_view(name_table@) =~= before.push(
                        (dv[i as int].key_name->Some_0, dv[i as int].action),
                    ));
                }
            },
        }
    }
    Ok((sig_table, name_table))
}

/// Pushing an entry keeps every signature the table already targets.
proof fn lemma_sig_targets_push(ps: Seq<(SigView, OvView)>, p: (SigView, OvView), sv: SigView)
    requires
        sig_table_targets(ps, sv),
    ensures
        sig_table_targets(ps.push(p), sv),
{
    let w = choose|j: int| 0 <= j < ps.len() && (#[trigger] ps[j]).0 == sv;
    assert(ps.push(p)[w].0 == sv);
}

/// Pushing an entry keeps every key name the table already targets.
proof fn lemma_name_targets_push(
    ps: Seq<(Seq<char>, OvView)>,
    p: (Seq<char>, OvView),
    nm: Seq<char>,
)
    requires
        name_table_targets(ps, nm),
    ensures
        name_table_targets(ps.push(p), nm),
{
    let w = choose|j: int| 0 <= j < ps.len() && (#[trigger] ps[j]).0 == nm;
    assert(ps.push(p)[w].0 == nm);
}

/// Once the accumulated signature table targets the signature of a
/// later signature-scoped directive, construction fails.
proof fn lemma_build_err_sig_targeted(
    ds: Seq<DirectiveView>,
    k: int,
    known_sigs: Seq<SigView>,
    known_names: Seq<Seq<char>>,
    sig_acc: Seq<(SigView, OvView)>,
    name_acc: Seq<(Seq<char>, OvView)>,
    j: int,
)
    requires
        0 <= k <= j < ds.len(),
        ds[j].signature is Some,
        ds[j].key_name is None,
        sig_table_targets(sig_acc, SigView::Type(ds[j].signature->Some_0)),
    ensures
        spec_build_from(ds, k, known_sigs, known_names, sig_acc, name_acc) is Err,
    decreases j - k,
{
    let sv_j = SigView::Type(ds[j].signature->Some_0);
    if k < j {
        match (ds[k].signature, ds[k].key_name) {
            (Some(s), None) => {
                let sv = SigView::Type(s);
                if sigs_contain(known_sigs, sv) && !sig_table_targets(sig_acc, sv) {
                    lemma_sig_targets_push(sig_acc, (sv, ds[k].action), sv_j);
                    lemma_build_err_sig_targeted(
                        ds,
                        k + 1,
                        known_sigs,
                        known_names,
                        sig_acc.push((sv, ds[k].action)),
                        name_acc,
                        j,
                    );
                }
            },
            (None, Some(nm)) => {
                if names_contain(known_names, nm) && !name_table_targets(name_acc, nm) {
                    lemma_build_err_sig_targeted(
                        ds,
                        k + 1,
                        known_sigs,
                        known_names,
                        sig_acc,
                        name_acc.push((nm, ds[k].action)),
                        j,
                    );
                }
            },
            _ => {},
        }
    }
}

/// Once the accumulated key-name table targets the name of a later
/// name-scoped directive, construction fails.
proof fn lemma_build_err_name_targeted(
    ds: Seq<DirectiveView>,
    k: int,
    known_sigs: Seq<SigView>,
    known_names: Seq<Seq<char>>,
    sig_acc: Seq<(SigView, OvView)>,
    name_acc: Seq<(Seq<char>, OvView)>,
    j: int,
)
    requires
        0 <= k <= j < ds.len(),
        ds[j].key_name is Some,
        ds[j].signature is None,
        name_table_targets(name_acc, ds[j].key_name->Some_0),
    ensures
        spec_build_from(ds, k, known_sigs, known_names, sig_acc, name_acc) is Err,
    decreases j - k,
{
    let nm_j = ds[j].key_name->Some_0;
    if k < j {
        match (ds[k].signature, ds[k].key_name) {
            (Some(s), None) => {
                let sv = SigView::Type(s);
                if sigs_contain(known_sigs, sv) && !sig_table_targets(sig_acc, sv) {
                    lemma_build_err_name_targeted(
                        ds,
                        k + 1,
                        known_sigs,
                        known_names,
                        sig_acc.push((sv, ds[k].action)),
                        name_acc,
                        j,
                    );
                }
            },
            (None, Some(nm)) => {
                if names_contain(known_names, nm) && !name_table_targets(name_acc, nm) {
                    lemma_name_targets_push(name_acc, (nm, ds[k].action), nm_j);
                    lemma_build_err_name_targeted(
                        ds,
                        k + 1,
                        known_sigs,
                        known_names,
                        sig_acc,
                        name_acc.push((nm, ds[k].action)),
                        j,
                    );
                }
            },
            _ => {},
        }
    }
}

/// Walking the list up to the first of two same-target directives and
/// then past it always ends in an error.
proof fn lemma_build_err_two_sig(
    ds: Seq<DirectiveView>,
    k: int,
    known_sigs: Seq<SigView>,
    known_names: Seq<Seq<char>>,
    sig_acc: Seq<(SigView, OvView)>,
    name_acc: Seq<(Seq<char>, OvView)>,
    i: int,
    j: int,
)
    requires
        0 <= k <= i < j < ds.len(),
        ds[i].signature is Some,
        ds[i].key_name is None,
        ds[j].signature is Some,
        ds[j].key_name is None,
        ds[i].signature == ds[j].signature,
    ensures
        spec_build_from(ds, k, known_sigs, known_names, sig_acc, name_acc) is Err,
    decreases i - k,
{
    if k == i {
        let sv = SigView::Type(ds[i].signature->Some_0);
        if sigs_contain(known_sigs, sv) && !sig_table_targets(sig_acc, sv) {
            let pushed = sig_acc.push((sv, ds[i].action));
            assert(pushed[pushed.len() - 1].0 == sv);
            lemma_build_err_sig_targeted(
                ds,
                i + 1,
                known_sigs,
                known_names,
                pushed,
                name_acc,
                j,
            );
        }
    } else {
        match (ds[k].signature, ds[k].key_name) {
            (Some(s), None) => {
                let sv = SigView::Type(s);
                if sigs_contain(known_sigs, sv) && !sig_table_targets(sig_acc, sv) {
                    lemma_build_err_two_sig(
                        ds,
                        k + 1,
                        known_sigs,
                        known_names,
                        sig_acc.push((sv, ds[k].action)),
                        name_acc,
                        i,
                        j,
                    );
                }
            },
            (None, Some(nm)) => {
                if names_contain(known_names, nm) && !name_table_targets(name_acc, nm) {
                    lemma_build_err_two_sig(
                        ds,
                        k + 1,
                        known_sigs,
                        known_names,
                        sig_acc,
                        name_acc.push((nm, ds[k].action)),
                        i,
                        j,
                    );
                }
            },
            _ => {},
        }
    }
}

/// As [`lemma_build_err_two_sig`], for two name-scoped directives.
proof fn lemma_build_err_two_name(
    ds: Seq<DirectiveView>,
    k: int,
    known_sigs: Seq<SigView>,
    known_names: Seq<Seq<char>>,
    sig_acc: Seq<(SigView, OvView)>,
    name_acc: Seq<(Seq<char>, OvView)>,
    i: int,
    j: int,
)
    requires
        0 <= k <= i < j < ds.len(),
        ds[i].key_name is Some,
        ds[i].signature is None,
        ds[j].key_name is Some,
        ds[j].signature is None,
        ds[i].key_name == ds[j].key_name,
    ensures
        spec_build_from(ds, k, known_sigs, known_names, sig_acc, name_acc) is Err,
    decreases i - k,
{
    if k == i {
        let nm = ds[i].key_name->Some_0;
        if names_contain(known_names, nm) && !name_table_targets(name_acc, nm) {
            let pushed = name_acc.push((nm, ds[i].action));
            assert(pushed[pushed.len() - 1].0 == nm);
            lemma_build_err_name_targeted(
                ds,
                i + 1,
                known_sigs,
                known_names,
                sig_acc,
                pushed,
                j,
            );
        }
    } else {
        match (ds[k].signature, ds[k].key_name) {
            (Some(s), None) => {
                let sv = SigView::Type(s);
                if sigs_contain(known_sigs, sv) && !sig_table_targets(sig_acc, sv) {
                    lemma_build_err_two_name(
                        ds,
                        k + 1,
                        known_sigs,
                        known_names,
                        sig_acc.push((sv, ds[k].action)),
                        name_acc,
                        i,
                        j,
                    );
                }
            },
            (None, Some(nm)) => {
                if names_contain(known_names, nm) && !name_table_targets(name_acc, nm) {
                    lemma_build_err_two_name(
                        ds,
                        k + 1,
                        known_sigs,
                        known_names,
                        sig_acc,
                        name_acc.push((nm, ds[k].action)),
                        i,
                        j,
                    );
                }
            },
            _ => {},
        }
    }
}

/// Law: a directive list holding two directives aimed at the same
/// signature never builds; construction ends in an error before any
/// key is resolved, whatever the other directives hold.
pub proof fn lemma_duplicate_signature_rejected(
    ds: Seq<DirectiveView>,
    known_sigs: Seq<SigView>,
    known_names: Seq<Seq<char>>,
    i: int,
    j: int,
)
    requires
        0 <= i < j < ds.len(),
        ds[i].signature is Some,
        ds[i].key_name is None,
        ds[j].signature is Some,
        ds[j].key_name is None,
        ds[i].signature == ds[j].signature,
    ensures
        spec_build(ds, known_sigs, known_names) is Err,
{
    lemma_build_err_two_sig(ds, 0, known_sigs, known_names, Seq::empty(), Seq::empty(), i, j);
}

/// Law: a directive list holding two directives aimed at the same key
/// name never builds; construction ends in an error before any key is
/// resolved, whatever the other directives hold.
pub proof fn lemma_duplicate_key_name_rejected(
    ds: Seq<DirectiveView>,
    known_sigs: Seq<SigView>,
    known_names: Seq<Seq<char>>,
    i: int,
    j: int,
)
    requires
        0 <= i < j < ds.len(),
        ds[i].key_name is Some,
        ds[i].signature is None,
        ds[j].key_name is Some,
        ds[j].signature is None,
        ds[i].key_name == ds[j].key_name,
    ensures
        spec_build(ds, known_sigs, known_names) is Err,
{
    lemma_build_err_two_name(ds, 0, known_sigs, known_names, Seq::empty(), Seq::empty(), i, j);
}

} // verus!
