//! In-memory model of a parsed schema file: schemas, keys, enum and flag
//! definitions, inline choice lists, and numeric ranges.

use vstd::prelude::*;

verus! {

/// A whole schema file: enum definitions, flag definitions, and schemas.
#[derive(Debug, Clone)]
pub struct SchemaList {
    pub enums: Vec<Enum>,
    pub flags: Vec<Flag>,
    pub schemas: Vec<Schema>,
}

/// A named enum definition, referenced by keys through `enum_id`.
#[derive(Debug, Clone)]
pub struct Enum {
    pub id: String,
    pub values: Vec<EnumValues>,
}

/// One value of an enum definition: a nick and its numeric value.
#[derive(Debug, Clone)]
pub struct EnumValues {
    pub nick: String,
    pub value: i32,
}

/// A named flag definition, referenced by keys through `flag_id`.
#[derive(Debug, Clone)]
pub struct Flag {
    pub id: String,
    pub values: Vec<FlagValues>,
}

/// One value of a flag definition: a nick and its bit value.
#[derive(Debug, Clone)]
pub struct FlagValues {
    pub nick: String,
    pub value: u32,
}

/// One schema: its id and its keys.
#[derive(Debug, Clone)]
pub struct Schema {
    pub id: String,
    pub keys: Vec<Key>,
}

/// One configuration key of a schema.
///
/// Exactly one of `type_`, `enum_id` and `flag_id` must be present for the
/// key to have a well-formed signature; see [`Key::signature`].
#[derive(Debug, Clone)]
pub struct Key {
    pub name: String,
    pub type_: Option<String>,
    pub enum_id: Option<String>,
    pub flag_id: Option<String>,
    pub default: String,
    pub summary: Option<String>,
    pub description: Option<String>,
    pub choices: Option<Choices>,
    pub range: Option<Range>,
}

/// The discriminated type descriptor of a key: a primitive type tag, a
/// reference to an enum definition, or a reference to a flag definition.
#[derive(Debug, Clone)]
pub enum KeySignature {
    Type(String),
    Enum(String),
    Flag(String),
}

/// The mathematical value of a [`KeySignature`]: the same three-way
/// distinction over character sequences.
pub enum SigView {
    Type(Seq<char>),
    Enum(Seq<char>),
    Flag(Seq<char>),
}

impl View for KeySignature {
    type V = SigView;

    open spec fn view(&self) -> SigView {
        match self {
            KeySignature::Type(s) => SigView::Type(s@),
            KeySignature::Enum(s) => SigView::Enum(s@),
            KeySignature::Flag(s) => SigView::Flag(s@),
        }
    }
}

/// One permitted value of a string key's inline choice list.
#[derive(Debug, Clone)]
pub struct Choice {
    pub value: String,
}

/// The ordered inline choice list of a string key.
#[derive(Debug, Clone)]
pub struct Choices {
    pub choices: Vec<Choice>,
}

/// Optional numeric bounds of a key, kept as documentation text only.
#[derive(Debug, Clone)]
pub struct Range {
    pub max: Option<String>,
    pub min: Option<String>,
}

/// The signature of a key, if the key declares exactly one of the three
/// signature kinds.
pub open spec fn spec_signature(key: Key) -> Option<SigView> {
    match (key.type_, key.enum_id, key.flag_id) {
        (Some(t), None, None) => Some(SigView::Type(t@)),
        (None, Some(e), None) => Some(SigView::Enum(e@)),
        (None, None, Some(f)) => Some(SigView::Flag(f@)),
        _ => None,
    }
}

impl Key {
    /// The key's signature: `Some` exactly when one of the `type_`,
    /// `enum_id` and `flag_id` attributes is present, `None` otherwise
    /// (a schema structural error).
    pub fn signature(&self) -> (r: Option<KeySignature>)
        ensures
            match r {
                Some(sig) => spec_signature(*self) == Some(sig@),
                None => spec_signature(*self) is None,
            },
    {
        match (&self.type_, &self.enum_id, &self.flag_id) {
            (Some(t), None, None) => Some(KeySignature::Type(t.clone())),
            (None, Some(e), None) => Some(KeySignature::Enum(e.clone())),
            (None, None, Some(f)) => Some(KeySignature::Flag(f.clone())),
            _ => None,
        }
    }
}

impl KeySignature {
    /// A readable rendering of the signature, used in error messages:
    /// the tag or id between backticks, followed by its kind.
    pub fn describe(&self) -> (r: String)
        ensures
            r@ == spec_describe(self@),
    {
        let mut buf = String::from_str("`");
        match self {
            KeySignature::Type(s) => {
                buf.append(s.as_str());
                buf.append("` type");
            },
            KeySignature::Enum(s) => {
                buf.append(s.as_str());
                buf.append("` enum");
            },
            KeySignature::Flag(s) => {
                buf.append(s.as_str());
                buf.append("` flag");
            },
        }
        buf
    }
}

/// The text that [`KeySignature::describe`] produces.
pub open spec fn spec_describe(sig: SigView) -> Seq<char> {
    match sig {
        SigView::Type(s) => "`"@ + s + "` type"@,
        SigView::Enum(s) => "`"@ + s + "` enum"@,
        SigView::Flag(s) => "`"@ + s + "` flag"@,
    }
}

/// Why selecting the one schema of a generation pass failed.
#[derive(Debug, Clone, Copy, PartialEq, Eq, Structural)]
pub enum SchemaSelectError {
    /// The schema file holds no schema at all.
    Empty,
    /// The schema file holds several schemas and no id was given.
    MultipleWithoutId,
    /// An id was given but no schema carries it.
    NotFound,
    /// The file's single schema carries a different id than the given one.
    IdMismatch,
}

/// The index of the first schema whose id equals `id`, scanning from
/// position `i`.
pub open spec fn find_schema_from(schemas: Seq<Schema>, id: Seq<char>, i: int) -> Option<int>
    decreases schemas.len() - i,
{
    if i < 0 || i >= schemas.len() {
        None
    } else if schemas[i].id@ == id {
        Some(i)
    } else {
        find_schema_from(schemas, id, i + 1)
    }
}

/// Which schema a generation pass uses: the only one present, or the one
/// matching an explicitly given id; anything else is an error.
pub open spec fn spec_select(schemas: Seq<Schema>, id: Option<Seq<char>>) -> Result<
    int,
    SchemaSelectError,
> {
    if schemas.len() == 0 {
        Err(SchemaSelectError::Empty)
    } else {
        match id {
            None => {
                if schemas.len() == 1 {
                    Ok(0)
                } else {
                    Err(SchemaSelectError::MultipleWithoutId)
                }
            },
            Some(wanted) => {
                if schemas.len() == 1 {
                    if schemas[0].id@ == wanted {
                        Ok(0)
                    } else {
                        Err(SchemaSelectError::IdMismatch)
                    }
                } else {
                    match find_schema_from(schemas, wanted, 0) {
                        Some(i) => Ok(i),
                        None => Err(SchemaSelectError::NotFound),
                    }
                }
            },
        }
    }
}

/// Select the schema a generation pass works on.
///
/// With no id given, the file must hold exactly one schema. With an id
/// given, the single schema must carry it, or, among several schemas, the
/// first one carrying it is selected.
pub fn select_schema(schemas: &Vec<Schema>, id: Option<&String>) -> (r: Result<
    usize,
    SchemaSelectError,
>)
    ensures
        match r {
            Ok(i) => spec_select(schemas@, spec_id_view(id)) == Ok::<int, SchemaSelectError>(
                i as int,
            ) && i < schemas@.len(),
            Err(e) => spec_select(schemas@, spec_id_view(id)) == Err::<int, SchemaSelectError>(e),
        },
{
    if schemas.len() == 0 {
        return Err(SchemaSelectError::Empty);
    }
    match id {
        None => {
            if schemas.len() == 1 {
                Ok(0)
            } else {
                Err(SchemaSelectError::MultipleWithoutId)
            }
        },
        Some(wanted) => {
            if schemas.len() == 1 {
                if crate::strutil::str_eq(schemas[0].id.as_str(), wanted.as_str()) {
                    Ok(0)
                } else {
                    Err(SchemaSelectError::IdMismatch)
                }
            } else {
                let n = schemas.len();
                for i in 0..n
                    invariant
                        n == schemas@.len(),
                        n > 1,
                        spec_id_view(id) == Some(wanted@),
                        forall|j: int| 0 <= j < i ==> schemas@[j].id@ != wanted@,
                        find_schema_from(schemas@, wanted@, 0) == find_schema_from(
                            schemas@,
                            wanted@,
                            i as int,
                        ),
                {
                    if crate::strutil::str_eq(schemas[i].id.as_str(), wanted.as_str()) {
                        proof {
                            assert(find_schema_from(schemas@, wanted@, i as int) == Some(i as int));
                        }
                        return Ok(i);
                    }
                }
                Err(SchemaSelectError::NotFound)
            }
        },
    }
}

/// The view of an optionally given schema id.
pub open spec fn spec_id_view(id: Option<&String>) -> Option<Seq<char>> {
    match id {
        Some(s) => Some(s@),
        None => None,
    }
}

} // verus!
