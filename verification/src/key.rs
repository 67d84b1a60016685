//! The string-key model: a key whose values are free strings, or are
//! drawn from an inline choice list that yields a synthesized enum.

use vstd::prelude::*;

use crate::aux::{synth_enum, EnumMemberView, VariantEnum};
use crate::casing::{pascal_of, to_pascal_case};

verus! {

/// One permitted value of a string key.
#[derive(Debug, Clone)]
pub struct Choice {
    pub value: String,
}

/// The ordered choice list of a string key.
#[derive(Debug, Clone)]
pub struct Choices {
    pub choices: Vec<Choice>,
}

/// The members of the enum synthesized from a choice list: the choice
/// string as nick, its capitalized form as identifier, its position as
/// discriminant.
pub open spec fn spec_choice_enum_members(choices: Seq<Choice>) -> Seq<EnumMemberView> {
    Seq::new(
        choices.len(),
        |i: int|
            EnumMemberView {
                nick: choices[i].value@,
                ident: pascal_of(choices[i].value@),
                value: i as i32,
            },
    )
}

impl Choices {
    /// Synthesize the enum for this choice list under the given type
    /// name.
    pub fn to_choice_enum(&self, name: String) -> (r: VariantEnum)
        requires
            self.choices@.len() <= i32::MAX as int,
        ensures
            r@.name == name@,
            r@.members == spec_choice_enum_members(self.choices@),
    {
        let mut values: Vec<(String, Option<i32>)> = Vec::new();
        let n = self.choices.len();
        for i in 0..n
            invariant
                n == self.choices@.len(),
                values@.len() == i,
                forall|j: int|
                    0 <= j < i ==> (#[trigger] values@[j]).0@ == self.choices@[j].value@,
                forall|j: int| 0 <= j < i ==> (#[trigger] values@[j]).1 is None,
        {
            values.push((self.choices[i].value.clone(), None));
        }
        let r = synth_enum(name, &values);
        proof {
            let ms = r@.members;
            let cs = spec_choice_enum_members(self.choices@);
            assert forall|j: int| 0 <= j < ms.len() implies ms[j] == cs[j] by {
                assert(ms[j].nick == values@[j].0@);
                assert(values@[j].1 is None);
                assert(ms[j] =~= cs[j]);
            }
            assert(ms =~= cs);
        }
        r
    }
}

/// A string key: name, optional default and summary, and its (possibly
/// empty) choice list.
#[derive(Debug, Clone)]
pub struct StringKey {
    pub name: String,
    pub default: Option<String>,
    pub summary: Option<String>,
    pub choices: Choices,
}

/// The documentation block of a string key: summary when present and
/// non-empty, then the default value, shown capitalized when the key
/// draws from a choice list.
pub open spec fn spec_string_key_docs(key: StringKey) -> Seq<char> {
    let summary_part = match key.summary {
        Some(s) => if s@.len() > 0 {
            s@ + "\n"@
        } else {
            Seq::<char>::empty()
        },
        None => Seq::<char>::empty(),
    };
    let default_part = match key.default {
        Some(d) => {
            let display = if key.choices.choices@.len() > 0 {
                pascal_of(d@)
            } else {
                d@
            };
            if d@.len() > 0 {
                "\n"@ + "default: "@ + display
            } else {
                Seq::<char>::empty()
            }
        },
        None => Seq::<char>::empty(),
    };
    summary_part + default_part
}

impl StringKey {
    /// Render the key's documentation block.
    pub fn get_docs(&self) -> (r: String)
        ensures
            r@ == spec_string_key_docs(*self),
    {
        let mut buf = String::new();

        match &self.summary {
            Some(summary) => {
                if !summary.as_str().is_empty() {
                    buf.append(summary.as_str());
                    buf.append("\n");
                }
            },
            None => {},
        }

        match &self.default {
            Some(default) => {
                let display = if self.has_choice() {
                    to_pascal_case(default.as_str())
                } else {
                    default.clone()
                };
                if !default.as_str().is_empty() {
                    buf.append("\n");
                    buf.append("default: ");
                    buf.append(display.as_str());
                }
            },
            None => {},
        }

        proof {
            assert(buf@ =~= spec_string_key_docs(*self));
        }
        buf
    }

    /// Whether the key draws its values from a choice list.
    pub fn has_choice(&self) -> (r: bool)
        ensures
            r == (self.choices.choices@.len() > 0),
    {
        self.choices.choices.len() > 0
    }

    /// The identifier of the enum synthesized for this key: the key
    /// name, capitalized.
    pub fn enum_ident(&self) -> (r: String)
        ensures
            r@ == pascal_of(self.name@),
    {
        to_pascal_case(self.name.as_str())
    }

    /// The auxiliary types this key contributes: the choice enum when
    /// the key has choices, nothing otherwise.
    pub fn aux(&self) -> (r: Vec<VariantEnum>)
        requires
            self.choices.choices@.len() <= i32::MAX as int,
        ensures
            self.choices.choices@.len() > 0 ==> r@.len() == 1 && r@[0]@.name == pascal_of(
                self.name@,
            ) && r@[0]@.members == spec_choice_enum_members(self.choices.choices@),
            self.choices.choices@.len() == 0 ==> r@.len() == 0,
    {
        let mut out: Vec<VariantEnum> = Vec::new();
        if self.has_choice() {
            out.push(self.choices.to_choice_enum(self.enum_ident()));
        }
        out
    }
}

} // verus!
