//! Auxiliary type synthesis for complex key signatures.
//!
//! A string key with an inline choice list, or a key referencing an enum
//! definition, yields a variant-enum descriptor; a key referencing a flag
//! definition yields a bit-flag descriptor. Each descriptor carries the
//! round-trip conversion between the synthesized type and its wire form:
//! a variant is stored as its literal nick string, a flag set as the array
//! of nicks whose bits are set.

use vstd::prelude::*;

use crate::casing::{pascal_of, shouty_snake_of, to_pascal_case, to_shouty_snake_case};
use crate::schema::{EnumValues, FlagValues};
use crate::strutil::str_eq;

verus! {

/// One variant of a synthesized enum: the wire nick, the capitalized
/// identifier, and the numeric discriminant.
#[derive(Debug, Clone)]
pub struct EnumMember {
    pub nick: String,
    pub ident: String,
    pub value: i32,
}

/// The mathematical value of an [`EnumMember`].
#[verifier::ext_equal]
pub struct EnumMemberView {
    pub nick: Seq<char>,
    pub ident: Seq<char>,
    pub value: i32,
}

impl View for EnumMember {
    type V = EnumMemberView;

    open spec fn view(&self) -> EnumMemberView {
        EnumMemberView { nick: self.nick@, ident: self.ident@, value: self.value }
    }
}

/// A synthesized variant enum: a named type with one member per nick.
#[derive(Debug, Clone)]
pub struct VariantEnum {
    pub name: String,
    pub members: Vec<EnumMember>,
}

/// The mathematical value of a [`VariantEnum`].
#[verifier::ext_equal]
pub struct VariantEnumView {
    pub name: Seq<char>,
    pub members: Seq<EnumMemberView>,
}

impl View for VariantEnum {
    type V = VariantEnumView;

    open spec fn view(&self) -> VariantEnumView {
        VariantEnumView {
            name: self.name@,
            members: self.members@.map_values(|m: EnumMember| m@),
        }
    }
}

/// One constant of a synthesized bit-flag type: the wire nick, the
/// upper-case identifier, and the bit value.
#[derive(Debug, Clone)]
pub struct FlagMember {
    pub nick: String,
    pub ident: String,
    pub value: u32,
}

/// The mathematical value of a [`FlagMember`].
#[verifier::ext_equal]
pub struct FlagMemberView {
    pub nick: Seq<char>,
    pub ident: Seq<char>,
    pub value: u32,
}

impl View for FlagMember {
    type V = FlagMemberView;

    open spec fn view(&self) -> FlagMemberView {
        FlagMemberView { nick: self.nick@, ident: self.ident@, value: self.value }
    }
}

/// A synthesized bit-flag type: a named type with one constant per nick.
#[derive(Debug, Clone)]
pub struct BitFlag {
    pub name: String,
    pub members: Vec<FlagMember>,
}

/// The mathematical value of a [`BitFlag`].
#[verifier::ext_equal]
pub struct BitFlagView {
    pub name: Seq<char>,
    pub members: Seq<FlagMemberView>,
}

impl View for BitFlag {
    type V = BitFlagView;

    open spec fn view(&self) -> BitFlagView {
        BitFlagView { name: self.name@, members: self.members@.map_values(|m: FlagMember| m@) }
    }
}

/// A synthesized auxiliary type: a variant enum or a bit-flag set.
#[derive(Debug, Clone)]
pub enum AuxType {
    Enumeration(VariantEnum),
    Flags(BitFlag),
}

/// The mathematical value of an [`AuxType`].
pub enum AuxTypeView {
    Enumeration(VariantEnumView),
    Flags(BitFlagView),
}

impl View for AuxType {
    type V = AuxTypeView;

    open spec fn view(&self) -> AuxTypeView {
        match self {
            AuxType::Enumeration(e) => AuxTypeView::Enumeration(e@),
            AuxType::Flags(f) => AuxTypeView::Flags(f@),
        }
    }
}

/// A copy of a variant enum with the same mathematical value.
pub fn clone_variant_enum(e: &VariantEnum) -> (r: VariantEnum)
    ensures
        r@ == e@,
{
    let mut members: Vec<EnumMember> = Vec::new();
    let n = e.members.len();
    for i in 0..n
        invariant
            n == e.members@.len(),
            members@.len() == i,
            forall|j: int| 0 <= j < i ==> (#[trigger] members@[j])@ == e.members@[j]@,
    {
        members.push(
            EnumMember {
                nick: e.members[i].nick.clone(),
                ident: e.members[i].ident.clone(),
                value: e.members[i].value,
            },
        );
    }
    let r = VariantEnum { name: e.name.clone(), members };
    proof {
        assert(r@.members =~= e@.members);
        assert(r@ =~= e@);
    }
    r
}

/// A copy of a bit-flag type with the same mathematical value.
pub fn clone_bit_flag(f: &BitFlag) -> (r: BitFlag)
    ensures
        r@ == f@,
{
    let mut members: Vec<FlagMember> = Vec::new();
    let n = f.members.len();
    for i in 0..n
        invariant
            n == f.members@.len(),
            members@.len() == i,
            forall|j: int| 0 <= j < i ==> (#[trigger] members@[j])@ == f.members@[j]@,
    {
        members.push(
            FlagMember {
                nick: f.members[i].nick.clone(),
                ident: f.members[i].ident.clone(),
                value: f.members[i].value,
            },
        );
    }
    let r = BitFlag { name: f.name.clone(), members };
    proof {
        assert(r@.members =~= f@.members);
        assert(r@ =~= f@);
    }
    r
}

/// A copy of an auxiliary type with the same mathematical value.
pub fn clone_aux(a: &AuxType) -> (r: AuxType)
    ensures
        r@ == a@,
{
    match a {
        AuxType::Enumeration(e) => AuxType::Enumeration(clone_variant_enum(e)),
        AuxType::Flags(f) => AuxType::Flags(clone_bit_flag(f)),
    }
}

/// The numeric discriminant of the variant at position `i`: its explicit
/// value if one is declared, else its 0-based position in the declared
/// list, independent of neighboring explicit values.
pub open spec fn spec_discriminant(declared: Option<i32>, i: int) -> i32 {
    match declared {
        Some(v) => v,
        None => i as i32,
    }
}

/// Synthesize a variant enum named `name` from an ordered list of
/// `(nick, optional explicit value)` pairs.
///
/// Each member keeps its nick as the wire token, takes the capitalized
/// form of the nick as its identifier, and takes its declared value or,
/// when none is declared, its own positional index as discriminant.
pub fn synth_enum(name: String, values: &Vec<(String, Option<i32>)>) -> (r: VariantEnum)
    requires
        values@.len() <= i32::MAX as int,
    ensures
        r@.name == name@,
        r@.members.len() == values@.len(),
        forall|i: int|
            0 <= i < values@.len() ==> #[trigger] r@.members[i].nick == values@[i].0@,
        forall|i: int|
            0 <= i < values@.len() ==> #[trigger] r@.members[i].ident == pascal_of(values@[i].0@),
        forall|i: int|
            0 <= i < values@.len() ==> #[trigger] r@.members[i].value == spec_discriminant(
                values@[i].1,
                i,
            ),
{
    let mut members: Vec<EnumMember> = Vec::new();
    let n = values.len();
    for i in 0..n
        invariant
            n == values@.len(),
            n <= i32::MAX as int,
            members@.len() == i,
            forall|j: int|
                0 <= j < i ==> #[trigger] members@[j]@.nick == values@[j].0@,
            forall|j: int|
                0 <= j < i ==> #[trigger] members@[j]@.ident == pascal_of(values@[j].0@),
            forall|j: int|
                0 <= j < i ==> #[trigger] members@[j]@.value == spec_discriminant(values@[j].1, j),
    {
        let nick = values[i].0.clone();
        let ident = to_pascal_case(values[i].0.as_str());
        let value: i32 = match values[i].1 {
            Some(v) => v,
            None => i as i32,
        };
        members.push(EnumMember { nick, ident, value });
    }
    VariantEnum { name, members }
}

/// Synthesize a variant enum from an enum definition's value list, where
/// every value is explicit.
pub fn synth_enum_from_values(name: String, values: &Vec<EnumValues>) -> (r: VariantEnum)
    ensures
        r@.name == name@,
        r@.members.len() == values@.len(),
        forall|i: int|
            0 <= i < values@.len() ==> #[trigger] r@.members[i].nick == values@[i].nick@,
        forall|i: int|
            0 <= i < values@.len() ==> #[trigger] r@.members[i].ident == pascal_of(
                values@[i].nick@,
            ),
        forall|i: int|
            0 <= i < values@.len() ==> #[trigger] r@.members[i].value == values@[i].value,
{
    let mut members: Vec<EnumMember> = Vec::new();
    let n = values.len();
    for i in 0..n
        invariant
            n == values@.len(),
            members@.len() == i,
            forall|j: int|
                0 <= j < i ==> #[trigger] members@[j]@.nick == values@[j].nick@,
            forall|j: int|
                0 <= j < i ==> #[trigger] members@[j]@.ident == pascal_of(values@[j].nick@),
            forall|j: int|
                0 <= j < i ==> #[trigger] members@[j]@.value == values@[j].value,
    {
        let nick = values[i].nick.clone();
        let ident = to_pascal_case(values[i].nick.as_str());
        let value = values[i].value;
        members.push(EnumMember { nick, ident, value });
    }
    VariantEnum { name, members }
}

/// Synthesize a bit-flag type from a flag definition's value list. Every
/// bit value is explicit; there is no positional fallback for flags.
pub fn synth_flag(name: String, values: &Vec<FlagValues>) -> (r: BitFlag)
    ensures
        r@.name == name@,
        r@.members.len() == values@.len(),
        forall|i: int|
            0 <= i < values@.len() ==> #[trigger] r@.members[i].nick == values@[i].nick@,
        forall|i: int|
            0 <= i < values@.len() ==> #[trigger] r@.members[i].ident == shouty_snake_of(
                values@[i].nick@,
            ),
        forall|i: int|
            0 <= i < values@.len() ==> #[trigger] r@.members[i].value == values@[i].value,
{
    let mut members: Vec<FlagMember> = Vec::new();
    let n = values.len();
    for i in 0..n
        invariant
            n == values@.len(),
            members@.len() == i,
            forall|j: int|
                0 <= j < i ==> #[trigger] members@[j]@.nick == values@[j].nick@,
            forall|j: int|
                0 <= j < i ==> #[trigger] members@[j]@.ident == shouty_snake_of(values@[j].nick@),
            forall|j: int|
                0 <= j < i ==> #[trigger] members@[j]@.value == values@[j].value,
    {
        let nick = values[i].nick.clone();
        let ident = to_shouty_snake_case(values[i].nick.as_str());
        let value = values[i].value;
        members.push(FlagMember { nick, ident, value });
    }
    BitFlag { name, members }
}

/// The index of the first enum member whose nick is `s`, scanning from
/// position `i`.
pub open spec fn enum_find_from(members: Seq<EnumMemberView>, s: Seq<char>, i: int) -> Option<int>
    decreases members.len() - i,
{
    if i < 0 || i >= members.len() {
        None
    } else if members[i].nick == s {
        Some(i)
    } else {
        enum_find_from(members, s, i + 1)
    }
}

/// The index of the first enum member whose nick is `s`.
pub open spec fn enum_find(members: Seq<EnumMemberView>, s: Seq<char>) -> Option<int> {
    enum_find_from(members, s, 0)
}

/// No two members of an enum share a nick.
pub open spec fn enum_nicks_distinct(members: Seq<EnumMemberView>) -> bool {
    forall|i: int, j: int|
        0 <= i < j < members.len() ==> (#[trigger] members[i].nick) != (#[trigger] members[j].nick)
}

impl VariantEnum {
    /// The wire form of the variant at position `i`: its literal nick
    /// string, never the capitalized identifier.
    pub fn to_wire(&self, i: usize) -> (r: String)
        requires
            i < self@.members.len(),
        ensures
            r@ == self@.members[i as int].nick,
    {
        self.members[i].nick.clone()
    }

    /// Decode a wire token to the position of the first variant carrying
    /// it as nick; `None` for any undeclared token.
    pub fn from_wire(&self, s: &str) -> (r: Option<usize>)
        ensures
            match r {
                Some(i) => enum_find(self@.members, s@) == Some(i as int),
                None => enum_find(self@.members, s@) is None,
            },
    {
        let n = self.members.len();
        for i in 0..n
            invariant
                n == self.members@.len(),
                enum_find(self@.members, s@) == enum_find_from(self@.members, s@, i as int),
        {
            if str_eq(self.members[i].nick.as_str(), s) {
                proof {
                    assert(enum_find_from(self@.members, s@, i as int) == Some(i as int));
                }
                return Some(i);
            }
        }
        None
    }
}

/// For positions at or past `k`, the first member whose nick is `s` is
/// found no earlier than `j`, given that positions `k..j` all differ.
proof fn lemma_enum_find_self(members: Seq<EnumMemberView>, j: int, k: int)
    requires
        enum_nicks_distinct(members),
        0 <= k <= j < members.len(),
    ensures
        enum_find_from(members, members[j].nick, k) == Some(j),
    decreases j - k,
{
    if k < j {
        lemma_enum_find_self(members, j, k + 1);
    }
}

/// Law: decoding the wire form of any declared variant yields that
/// variant back — `from_wire(to_wire(V)) == Some(V)` — provided the
/// declared nicks are distinct.
pub proof fn lemma_enum_round_trip(members: Seq<EnumMemberView>, i: int)
    requires
        enum_nicks_distinct(members),
        0 <= i < members.len(),
    ensures
        enum_find(members, members[i].nick) == Some(i),
{
    lemma_enum_find_self(members, i, 0);
}

/// `a`'s bits are all set in `b`.
pub open spec fn subbits(a: u32, b: u32) -> bool {
    a | b == b
}

/// The bit constant `v` is wholly contained in the pattern `bits`.
pub open spec fn flag_contained(v: u32, bits: u32) -> bool {
    bits & v == v
}

/// The wire form of the pattern `bits`: the nicks of the members whose
/// bit constants are contained in `bits`, in declaration order, starting
/// at position `k`.
pub open spec fn flag_wire_from(members: Seq<FlagMemberView>, bits: u32, k: int) -> Seq<Seq<char>>
    decreases members.len() - k,
{
    if k < 0 || k >= members.len() {
        Seq::empty()
    } else if flag_contained(members[k].value, bits) {
        seq![members[k].nick] + flag_wire_from(members, bits, k + 1)
    } else {
        flag_wire_from(members, bits, k + 1)
    }
}

/// The wire form of the pattern `bits`.
pub open spec fn flag_wire(members: Seq<FlagMemberView>, bits: u32) -> Seq<Seq<char>> {
    flag_wire_from(members, bits, 0)
}

/// The index of the first flag member whose nick is `s`, scanning from
/// position `i`.
pub open spec fn flag_find_from(members: Seq<FlagMemberView>, s: Seq<char>, i: int) -> Option<int>
    decreases members.len() - i,
{
    if i < 0 || i >= members.len() {
        None
    } else if members[i].nick == s {
        Some(i)
    } else {
        flag_find_from(members, s, i + 1)
    }
}

/// The index of the first flag member whose nick is `s`.
pub open spec fn flag_find(members: Seq<FlagMemberView>, s: Seq<char>) -> Option<int> {
    flag_find_from(members, s, 0)
}

/// Decode a sequence of wire tokens: the union of the bit constants of
/// the named members, or `None` as soon as a token names no member.
pub open spec fn flag_parse(members: Seq<FlagMemberView>, tokens: Seq<Seq<char>>) -> Option<u32>
    decreases tokens.len(),
{
    if tokens.len() == 0 {
        Some(0u32)
    } else {
        match flag_find(members, tokens[0]) {
            None => None,
            Some(j) => match flag_parse(members, tokens.drop_first()) {
                None => None,
                Some(rest) => Some(members[j].value | rest),
            },
        }
    }
}

/// No two members of a flag share a nick.
pub open spec fn flag_nicks_distinct(members: Seq<FlagMemberView>) -> bool {
    forall|i: int, j: int|
        0 <= i < j < members.len() ==> (#[trigger] members[i].nick) != (#[trigger] members[j].nick)
}

impl BitFlag {
    /// The wire form of the pattern `bits`: the array of the nicks whose
    /// bit constants are contained in `bits`, in declaration order.
    pub fn to_wire(&self, bits: u32) -> (r: Vec<String>)
        ensures
            crate::strutil::views_of(r@) == flag_wire(self@.members, bits),
    {
        let mut out: Vec<String> = Vec::new();
        let n = self.members.len();
        proof {
            assert(crate::strutil::views_of(out@) =~= Seq::<Seq<char>>::empty());
        }
        for k in 0..n
            invariant
                n == self.members@.len(),
                flag_wire(self@.members, bits) =~= crate::strutil::views_of(out@)
                    + flag_wire_from(self@.members, bits, k as int),
        {
            let v = self.members[k].value;
            if bits & v == v {
                out.push(self.members[k].nick.clone());
                proof {
                    let m = self@.members;
                    let prev = out@.drop_last();
                    assert(crate::strutil::views_of(out@) =~= crate::strutil::views_of(prev).push(
                        m[k as int].nick,
                    ));
                    assert(crate::strutil::views_of(prev) + (seq![m[k as int].nick]
                        + flag_wire_from(m, bits, k + 1)) =~= crate::strutil::views_of(out@)
                        + flag_wire_from(m, bits, k + 1));
                }
            }
        }
        proof {
            assert(flag_wire(self@.members, bits) =~= crate::strutil::views_of(out@));
        }
        out
    }

    /// Decode an array of wire tokens to the union of the named bit
    /// constants; `None` as soon as a token names no declared nick.
    /// An empty array decodes to the zero pattern.
    pub fn from_wire(&self, tokens: &Vec<String>) -> (r: Option<u32>)
        ensures
            r == flag_parse(self@.members, crate::strutil::views_of(tokens@)),
    {
        let toks = Ghost(crate::strutil::views_of(tokens@));
        let mut acc: u32 = 0;
        let n = tokens.len();
        proof {
            assert(toks@.skip(0) =~= toks@);
            match flag_parse(self@.members, toks@) {
                None => {},
                Some(rest) => {
                    lemma_or_zero(rest);
                },
            }
        }
        for t in 0..n
            invariant
                n == tokens@.len(),
                toks@ == crate::strutil::views_of(tokens@),
                toks@.len() == n,
                match flag_parse(self@.members, toks@.skip(t as int)) {
                    None => flag_parse(self@.members, toks@) is None,
                    Some(rest) => flag_parse(self@.members, toks@) == Some(acc | rest),
                },
        {
            let found = self.find_member(tokens[t].as_str());
            proof {
                assert(toks@.skip(t as int)[0] == toks@[t as int]);
                assert(toks@.skip(t as int).drop_first() =~= toks@.skip(t as int + 1));
            }
            match found {
                None => {
                    return None;
                },
                Some(j) => {
                    let v = self.members[j].value;
                    proof {
                        let m = self@.members;
                        match flag_parse(m, toks@.skip(t as int + 1)) {
                            None => {},
                            Some(rest) => {
                                lemma_or_assoc(acc, v, rest);
                            },
                        }
                    }
                    acc = acc | v;
                },
            }
        }
        proof {
            assert(toks@.skip(n as int) =~= Seq::<Seq<char>>::empty());
            lemma_or_zero(acc);
        }
        Some(acc)
    }

    /// The position of the first member whose nick is `s`.
    pub fn find_member(&self, s: &str) -> (r: Option<usize>)
        ensures
            match r {
                Some(i) => flag_find(self@.members, s@) == Some(i as int) && i
                    < self@.members.len(),
                None => flag_find(self@.members, s@) is None,
            },
    {
        let n = self.members.len();
        for i in 0..n
            invariant
                n == self.members@.len(),
                flag_find(self@.members, s@) == flag_find_from(self@.members, s@, i as int),
        {
            if str_eq(self.members[i].nick.as_str(), s) {
                proof {
                    assert(flag_find_from(self@.members, s@, i as int) == Some(i as int));
                }
                return Some(i);
            }
        }
        None
    }
}

/// Whether the constant `other` is wholly contained in the pattern
/// `bits`.
pub fn flag_contains(bits: u32, other: u32) -> (r: bool)
    ensures
        r == flag_contained(other, bits),
{
    bits & other == other
}

/// The union of two bit patterns.
pub fn flag_union(a: u32, b: u32) -> (r: u32)
    ensures
        r == (a | b),
{
    a | b
}

/// The intersection of two bit patterns.
pub fn flag_intersection(a: u32, b: u32) -> (r: u32)
    ensures
        r == (a & b),
{
    a & b
}

/// The union of the bit constants of the members, from position `k` on,
/// that are contained in `bits`.
pub open spec fn or_contained_from(members: Seq<FlagMemberView>, bits: u32, k: int) -> u32
    decreases members.len() - k,
{
    if k < 0 || k >= members.len() {
        0u32
    } else if flag_contained(members[k].value, bits) {
        members[k].value | or_contained_from(members, bits, k + 1)
    } else {
        or_contained_from(members, bits, k + 1)
    }
}

/// The union of the bit constants of the members selected by the index
/// sequence `sel`; an arbitrary subset of the declared flag nicks.
pub open spec fn or_of_sel(members: Seq<FlagMemberView>, sel: Seq<int>) -> u32
    decreases sel.len(),
{
    if sel.len() == 0 {
        0u32
    } else {
        members[sel[0]].value | or_of_sel(members, sel.drop_first())
    }
}

proof fn lemma_sub_or(a: u32, b: u32)
    ensures
        subbits(a, a | b),
        subbits(b, a | b),
{
    assert(a | (a | b) == (a | b) && b | (a | b) == (a | b)) by (bit_vector);
}

proof fn lemma_sub_trans(a: u32, b: u32, c: u32)
    requires
        subbits(a, b),
        subbits(b, c),
    ensures
        subbits(a, c),
{
    assert(a | c == c) by (bit_vector)
        requires
            a | b == b,
            b | c == c,
    ;
}

proof fn lemma_lub(a: u32, b: u32, c: u32)
    requires
        subbits(a, c),
        subbits(b, c),
    ensures
        subbits(a | b, c),
{
    assert((a | b) | c == c) by (bit_vector)
        requires
            a | c == c,
            b | c == c,
    ;
}

proof fn lemma_contained_iff(v: u32, bits: u32)
    ensures
        flag_contained(v, bits) <==> subbits(v, bits),
{
    assert((bits & v == v) <==> (v | bits == bits)) by (bit_vector);
}

proof fn lemma_zero_sub(b: u32)
    ensures
        subbits(0, b),
{
    assert(0u32 | b == b) by (bit_vector);
}

proof fn lemma_sub_antisym(a: u32, b: u32)
    requires
        subbits(a, b),
        subbits(b, a),
    ensures
        a == b,
{
    assert(a == b) by (bit_vector)
        requires
            a | b == b,
            b | a == a,
    ;
}

proof fn lemma_zero_contains_only_zero(v: u32)
    requires
        v != 0,
    ensures
        !flag_contained(v, 0),
{
    assert(!(0u32 & v == v)) by (bit_vector)
        requires
            v != 0u32,
    ;
}

/// For positions at or past `k`, the first flag member whose nick is the
/// one of member `j` is `j` itself, under distinct nicks.
proof fn lemma_flag_find_self(members: Seq<FlagMemberView>, j: int, k: int)
    requires
        flag_nicks_distinct(members),
        0 <= k <= j < members.len(),
    ensures
        flag_find_from(members, members[j].nick, k) == Some(j),
    decreases j - k,
{
    if k < j {
        lemma_flag_find_self(members, j, k + 1);
    }
}

/// Decoding the encoded form of any pattern yields exactly the union of
/// the contained bit constants.
proof fn lemma_parse_wire(members: Seq<FlagMemberView>, bits: u32, k: int)
    requires
        flag_nicks_distinct(members),
        0 <= k <= members.len(),
    ensures
        flag_parse(members, flag_wire_from(members, bits, k)) == Some(
            or_contained_from(members, bits, k),
        ),
    decreases members.len() - k,
{
    if k == members.len() {
    } else {
        lemma_parse_wire(members, bits, k + 1);
        if flag_contained(members[k].value, bits) {
            let rest = flag_wire_from(members, bits, k + 1);
            let whole = flag_wire_from(members, bits, k);
            assert(whole == seq![members[k].nick] + rest);
            assert(whole[0] == members[k].nick);
            assert(whole.drop_first() =~= rest);
            lemma_flag_find_self(members, k, 0);
        }
    }
}

/// The union of the contained constants is itself contained in `bits`.
proof fn lemma_or_contained_sub(members: Seq<FlagMemberView>, bits: u32, k: int)
    requires
        0 <= k <= members.len(),
    ensures
        subbits(or_contained_from(members, bits, k), bits),
    decreases members.len() - k,
{
    if k == members.len() {
        lemma_zero_sub(bits);
    } else {
        lemma_or_contained_sub(members, bits, k + 1);
        if flag_contained(members[k].value, bits) {
            lemma_contained_iff(members[k].value, bits);
            lemma_lub(members[k].value, or_contained_from(members, bits, k + 1), bits);
        }
    }
}

/// A member's constant that is contained in `bits` is contained in the
/// union of all contained constants.
proof fn lemma_member_sub_or_contained(members: Seq<FlagMemberView>, bits: u32, j: int, k: int)
    requires
        0 <= k <= j < members.len(),
        flag_contained(members[j].value, bits),
    ensures
        subbits(members[j].value, or_contained_from(members, bits, k)),
    decreases j - k,
{
    if k == j {
        lemma_sub_or(members[j].value, or_contained_from(members, bits, j + 1));
    } else {
        lemma_member_sub_or_contained(members, bits, j, k + 1);
        let inner = or_contained_from(members, bits, k + 1);
        if flag_contained(members[k].value, bits) {
            lemma_sub_or(members[k].value, inner);
            lemma_sub_trans(members[j].value, inner, members[k].value | inner);
        }
    }
}

/// A union over selected members stays below any upper bound of the
/// selected constants.
proof fn lemma_or_of_sel_lub(members: Seq<FlagMemberView>, sel: Seq<int>, y: u32)
    requires
        forall|t: int| 0 <= t < sel.len() ==> 0 <= #[trigger] sel[t] < members.len(),
        forall|t: int|
            0 <= t < sel.len() ==> subbits(members[#[trigger] sel[t]].value, y),
    ensures
        subbits(or_of_sel(members, sel), y),
    decreases sel.len(),
{
    if sel.len() == 0 {
        lemma_zero_sub(y);
    } else {
        let rest = sel.drop_first();
        assert(forall|t: int| 0 <= t < rest.len() ==> rest[t] == sel[t + 1]);
        lemma_or_of_sel_lub(members, rest, y);
        lemma_lub(members[sel[0]].value, or_of_sel(members, rest), y);
    }
}

/// Every selected member's constant is contained in the union over the
/// selection.
proof fn lemma_sel_contained(members: Seq<FlagMemberView>, sel: Seq<int>, t: int)
    requires
        forall|u: int| 0 <= u < sel.len() ==> 0 <= #[trigger] sel[u] < members.len(),
        0 <= t < sel.len(),
    ensures
        subbits(members[sel[t]].value, or_of_sel(members, sel)),
    decreases sel.len(),
{
    let rest = sel.drop_first();
    assert(forall|u: int| 0 <= u < rest.len() ==> rest[u] == sel[u + 1]);
    if t == 0 {
        lemma_sub_or(members[sel[0]].value, or_of_sel(members, rest));
    } else {
        lemma_sel_contained(members, rest, t - 1);
        lemma_sub_or(members[sel[0]].value, or_of_sel(members, rest));
        lemma_sub_trans(
            members[sel[t]].value,
            or_of_sel(members, rest),
            or_of_sel(members, sel),
        );
    }
}

/// Law: every union of declared flag constants survives the wire round
/// trip — encoding the pattern as the array of contained nicks and
/// decoding that array yields the same pattern, provided the declared
/// nicks are distinct. With the empty selection this says that the zero
/// pattern round-trips through the empty array.
pub proof fn lemma_flag_round_trip(members: Seq<FlagMemberView>, sel: Seq<int>)
    requires
        flag_nicks_distinct(members),
        forall|t: int| 0 <= t < sel.len() ==> 0 <= #[trigger] sel[t] < members.len(),
    ensures
        flag_parse(members, flag_wire(members, or_of_sel(members, sel))) == Some(
            or_of_sel(members, sel),
        ),
{
    let bits = or_of_sel(members, sel);
    let oc = or_contained_from(members, bits, 0);
    lemma_parse_wire(members, bits, 0);
    lemma_or_contained_sub(members, bits, 0);
    assert forall|t: int| 0 <= t < sel.len() implies subbits(
        members[#[trigger] sel[t]].value,
        oc,
    ) by {
        lemma_sel_contained(members, sel, t);
        lemma_contained_iff(members[sel[t]].value, bits);
        lemma_member_sub_or_contained(members, bits, sel[t], 0);
    }
    lemma_or_of_sel_lub(members, sel, oc);
    lemma_sub_antisym(bits, oc);
}

/// No two declared bit constants share a bit.
pub open spec fn flag_values_disjoint(members: Seq<FlagMemberView>) -> bool {
    forall|i: int, j: int|
        0 <= i < j < members.len() ==> (#[trigger] members[i].value) & (#[trigger] members[j].value)
            == 0
}

proof fn lemma_and_distrib(a: u32, b: u32, c: u32)
    ensures
        a & (b | c) == (a & b) | (a & c),
{
    assert(a & (b | c) == (a & b) | (a & c)) by (bit_vector);
}

proof fn lemma_and_cases(a: u32, b: u32)
    requires
        a == 0 || a == b,
    ensures
        b | a == b,
{
    assert(b | 0 == b && b | b == b) by (bit_vector);
}

proof fn lemma_contained_mono(v: u32, a: u32, b: u32)
    requires
        flag_contained(v, a),
    ensures
        flag_contained(v, a | b),
        flag_contained(v, b | a),
{
    assert((a | b) & v == v && (b | a) & v == v) by (bit_vector)
        requires
            a & v == v,
    ;
}

proof fn lemma_and_swap_zero(a: u32, b: u32)
    requires
        a & b == 0,
    ensures
        b & a == 0,
{
    assert(b & a == 0) by (bit_vector)
        requires
            a & b == 0,
    ;
}

proof fn lemma_and_self(a: u32)
    ensures
        a & a == a,
        a & 0 == 0,
{
    assert(a & a == a && a & 0u32 == 0) by (bit_vector);
}

/// A declared constant meets a union of declared constants either not
/// at all or wholly, when the declared constants are pairwise disjoint.
proof fn lemma_and_or_dichotomy(members: Seq<FlagMemberView>, sel: Seq<int>, k: int)
    requires
        flag_values_disjoint(members),
        forall|t: int| 0 <= t < sel.len() ==> 0 <= #[trigger] sel[t] < members.len(),
        0 <= k < members.len(),
    ensures
        members[k].value & or_of_sel(members, sel) == 0 || members[k].value & or_of_sel(
            members,
            sel,
        ) == members[k].value,
    decreases sel.len(),
{
    let v = members[k].value;
    if sel.len() == 0 {
        lemma_and_self(v);
    } else {
        let rest = sel.drop_first();
        assert(forall|t: int| 0 <= t < rest.len() ==> rest[t] == sel[t + 1]);
        lemma_and_or_dichotomy(members, rest, k);
        let s0 = sel[0];
        let w = members[s0].value;
        let ror = or_of_sel(members, rest);
        lemma_and_distrib(v, w, ror);
        if s0 == k {
            lemma_and_self(v);
        } else if s0 < k {
            lemma_and_swap_zero(members[s0].value, members[k].value);
        }
        // v & w is 0 or v, and v & ror is 0 or v; each union of the
        // four cases is again 0 or v
        let left = v & w;
        let right = v & ror;
        assert(left | right == 0 || left | right == v) by (bit_vector)
            requires
                left == 0 || left == v,
                right == 0 || right == v,
        ;
    }
}

/// A nonzero declared constant contained in a union of two unions of
/// declared constants is contained in one of the two, when the
/// declared constants are pairwise disjoint.
proof fn lemma_contained_union_split(
    members: Seq<FlagMemberView>,
    s1: Seq<int>,
    s2: Seq<int>,
    k: int,
)
    requires
        flag_values_disjoint(members),
        forall|t: int| 0 <= t < s1.len() ==> 0 <= #[trigger] s1[t] < members.len(),
        forall|t: int| 0 <= t < s2.len() ==> 0 <= #[trigger] s2[t] < members.len(),
        0 <= k < members.len(),
        members[k].value != 0,
        flag_contained(members[k].value, or_of_sel(members, s1) | or_of_sel(members, s2)),
    ensures
        flag_contained(members[k].value, or_of_sel(members, s1)) || flag_contained(
            members[k].value,
            or_of_sel(members, s2),
        ),
{
    let v = members[k].value;
    let x = or_of_sel(members, s1);
    let y = or_of_sel(members, s2);
    lemma_and_or_dichotomy(members, s1, k);
    lemma_and_or_dichotomy(members, s2, k);
    assert(x & v == v || y & v == v) by (bit_vector)
        requires
            (x | y) & v == v,
            v != 0u32,
            v & x == 0 || v & x == v,
            v & y == 0 || v & y == v,
    ;
}

/// A contained member's nick appears in the wire form.
proof fn lemma_wire_has_contained(members: Seq<FlagMemberView>, bits: u32, k: int, j: int)
    requires
        0 <= j <= k < members.len(),
        flag_contained(members[k].value, bits),
    ensures
        flag_wire_from(members, bits, j).contains(members[k].nick),
    decreases k - j,
{
    if j == k {
        assert(flag_wire_from(members, bits, j)[0] == members[k].nick);
    } else {
        lemma_wire_has_contained(members, bits, k, j + 1);
        let rest = flag_wire_from(members, bits, j + 1);
        let w = choose|i: int| 0 <= i < rest.len() && rest[i] == members[k].nick;
        if flag_contained(members[j].value, bits) {
            assert(flag_wire_from(members, bits, j)[w + 1] == members[k].nick);
        }
    }
}

/// Every token of the wire form is the nick of a contained member.
proof fn lemma_wire_elem_is_contained(
    members: Seq<FlagMemberView>,
    bits: u32,
    j: int,
    x: Seq<char>,
)
    requires
        0 <= j <= members.len(),
        flag_wire_from(members, bits, j).contains(x),
    ensures
        exists|k: int|
            j <= k < members.len() && (#[trigger] members[k].nick) == x && flag_contained(
                members[k].value,
                bits,
            ),
    decreases members.len() - j,
{
    if j == members.len() {
        assert(false);
    } else if flag_contained(members[j].value, bits) {
        let whole = flag_wire_from(members, bits, j);
        let rest = flag_wire_from(members, bits, j + 1);
        let w = choose|i: int| 0 <= i < whole.len() && whole[i] == x;
        if w == 0 {
            assert(members[j].nick == x && flag_contained(members[j].value, bits));
        } else {
            assert(rest[w - 1] == x);
            lemma_wire_elem_is_contained(members, bits, j + 1, x);
        }
    } else {
        lemma_wire_elem_is_contained(members, bits, j + 1, x);
    }
}

/// Law: encoding a union of patterns yields, as a set of nicks, the
/// union of the two encodings — for patterns that are unions of the
/// declared constants, with the constants pairwise disjoint and
/// nonzero.
pub proof fn lemma_flag_wire_union(members: Seq<FlagMemberView>, s1: Seq<int>, s2: Seq<int>)
    requires
        flag_values_disjoint(members),
        forall|i: int| 0 <= i < members.len() ==> (#[trigger] members[i].value) != 0,
        forall|t: int| 0 <= t < s1.len() ==> 0 <= #[trigger] s1[t] < members.len(),
        forall|t: int| 0 <= t < s2.len() ==> 0 <= #[trigger] s2[t] < members.len(),
    ensures
        forall|x: Seq<char>|
            #[trigger] flag_wire(
                members,
                or_of_sel(members, s1) | or_of_sel(members, s2),
            ).contains(x) <==> (flag_wire(members, or_of_sel(members, s1)).contains(x)
                || flag_wire(members, or_of_sel(members, s2)).contains(x)),
{
    let x_bits = or_of_sel(members, s1);
    let y_bits = or_of_sel(members, s2);
    assert forall|x: Seq<char>|
        #[trigger] flag_wire(members, x_bits | y_bits).contains(x) <==> (flag_wire(
            members,
            x_bits,
        ).contains(x) || flag_wire(members, y_bits).contains(x)) by {
        if flag_wire(members, x_bits | y_bits).contains(x) {
            lemma_wire_elem_is_contained(members, x_bits | y_bits, 0, x);
            let k = choose|k: int|
                0 <= k < members.len() && (#[trigger] members[k].nick) == x && flag_contained(
                    members[k].value,
                    x_bits | y_bits,
                );
            lemma_contained_union_split(members, s1, s2, k);
            if flag_contained(members[k].value, x_bits) {
                lemma_wire_has_contained(members, x_bits, k, 0);
            } else {
                lemma_wire_has_contained(members, y_bits, k, 0);
            }
        }
        if flag_wire(members, x_bits).contains(x) {
            lemma_wire_elem_is_contained(members, x_bits, 0, x);
            let k = choose|k: int|
                0 <= k < members.len() && (#[trigger] members[k].nick) == x && flag_contained(
                    members[k].value,
                    x_bits,
                );
            lemma_contained_mono(members[k].value, x_bits, y_bits);
            lemma_wire_has_contained(members, x_bits | y_bits, k, 0);
        }
        if flag_wire(members, y_bits).contains(x) {
            lemma_wire_elem_is_contained(members, y_bits, 0, x);
            let k = choose|k: int|
                0 <= k < members.len() && (#[trigger] members[k].nick) == x && flag_contained(
                    members[k].value,
                    y_bits,
                );
            lemma_contained_mono(members[k].value, y_bits, x_bits);
            assert(y_bits | x_bits == x_bits | y_bits) by (bit_vector);
            lemma_wire_has_contained(members, x_bits | y_bits, k, 0);
        }
    }
}

/// Law: with every declared bit constant nonzero, the zero pattern
/// encodes to the empty array, and the empty array decodes to the zero
/// pattern.
pub proof fn lemma_flag_empty_round_trip(members: Seq<FlagMemberView>)
    requires
        forall|i: int| 0 <= i < members.len() ==> (#[trigger] members[i].value) != 0,
    ensures
        flag_wire(members, 0) == Seq::<Seq<char>>::empty(),
        flag_parse(members, Seq::<Seq<char>>::empty()) == Some(0u32),
{
    lemma_flag_zero_wire(members, 0);
}

/// The zero pattern contains no nonzero constant, from position `k` on.
proof fn lemma_flag_zero_wire(members: Seq<FlagMemberView>, k: int)
    requires
        forall|i: int| 0 <= i < members.len() ==> (#[trigger] members[i].value) != 0,
        0 <= k <= members.len(),
    ensures
        flag_wire_from(members, 0, k) == Seq::<Seq<char>>::empty(),
    decreases members.len() - k,
{
    if k < members.len() {
        lemma_zero_contains_only_zero(members[k].value);
        lemma_flag_zero_wire(members, k + 1);
    }
}

proof fn lemma_or_zero(a: u32)
    ensures
        a | 0 == a,
        0 | a == a,
{
    assert(a | 0 == a && 0 | a == a) by (bit_vector);
}

proof fn lemma_or_assoc(a: u32, b: u32, c: u32)
    ensures
        a | (b | c) == (a | b) | c,
{
    assert(a | (b | c) == (a | b) | c) by (bit_vector);
}

} // verus!
