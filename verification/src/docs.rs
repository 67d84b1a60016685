//! Documentation text derived from a key's metadata: summary,
//! description, default value, and numeric range. The text never
//! affects resolution; it is carried into the generated accessors.

use vstd::prelude::*;

use crate::casing::{pascal_of, to_pascal_case};
use crate::schema::{Key, Range};
use crate::strutil::views_of;

verus! {

/// Whether a key uses an inline choice list with at least one choice.
pub open spec fn spec_is_complex(key: Key) -> bool {
    match key.choices {
        Some(cs) => cs.choices@.len() > 0,
        None => false,
    }
}

/// Whether the given key's values come from a non-empty inline choice
/// list.
pub fn is_complex(key: &Key) -> (r: bool)
    ensures
        r == spec_is_complex(*key),
{
    match &key.choices {
        Some(choices) => choices.choices.len() > 0,
        None => false,
    }
}

/// The one-string documentation block of a key: its summary when
/// present and non-empty, then its default value; the default of a
/// choice key is shown in its capitalized identifier form.
pub open spec fn spec_docs(key: Key) -> Seq<char> {
    let summary_part = match key.summary {
        Some(s) => if s@.len() > 0 {
            s@ + "\n"@
        } else {
            Seq::<char>::empty()
        },
        None => Seq::<char>::empty(),
    };
    let display = if spec_is_complex(key) {
        pascal_of(key.default@)
    } else {
        key.default@
    };
    let default_part = if key.default@.len() > 0 {
        "\n"@ + "default: "@ + display
    } else {
        Seq::<char>::empty()
    };
    summary_part + default_part
}

/// Render a key's one-string documentation block.
pub fn docs(key: &Key) -> (r: String)
    ensures
        r@ == spec_docs(*key),
{
    let mut buf = String::new();

    match &key.summary {
        Some(summary) => {
            if !summary.as_str().is_empty() {
                buf.append(summary.as_str());
                buf.append("\n");
            }
        },
        None => {},
    }

    let display = if is_complex(key) {
        to_pascal_case(key.default.as_str())
    } else {
        key.default.clone()
    };

    if !key.default.as_str().is_empty() {
        buf.append("\n");
        buf.append("default: ");
        buf.append(display.as_str());
    }

    proof {
        assert(buf@ =~= spec_docs(*key));
    }
    buf
}

/// The range line of a key's documentation: the minimum, the maximum,
/// or both separated by a semicolon; `None` when the range declares
/// neither.
pub open spec fn spec_range_docs(range: Range) -> Option<Seq<char>> {
    let min_part = match range.min {
        Some(m) => if m@.len() > 0 {
            Some(m@)
        } else {
            None
        },
        None => None,
    };
    let max_part = match range.max {
        Some(m) => if m@.len() > 0 {
            Some(m@)
        } else {
            None
        },
        None => None,
    };
    match (min_part, max_part) {
        (Some(mn), Some(mx)) => Some("min: "@ + mn + "; "@ + "max: "@ + mx),
        (Some(mn), None) => Some("min: "@ + mn),
        (None, Some(mx)) => Some("max: "@ + mx),
        (None, None) => None,
    }
}

/// Render a key's range line.
pub fn range_docs(range: &Range) -> (r: Option<String>)
    ensures
        match r {
            Some(s) => spec_range_docs(*range) == Some(s@),
            None => spec_range_docs(*range) is None,
        },
{
    let has_min = match &range.min {
        Some(m) => !m.as_str().is_empty(),
        None => false,
    };
    let has_max = match &range.max {
        Some(m) => !m.as_str().is_empty(),
        None => false,
    };
    if !has_min && !has_max {
        return None;
    }
    let mut buf = String::new();
    if has_min {
        buf.append("min: ");
        match &range.min {
            Some(m) => buf.append(m.as_str()),
            None => {},
        }
    }
    if has_min && has_max {
        buf.append("; ");
    }
    if has_max {
        buf.append("max: ");
        match &range.max {
            Some(m) => buf.append(m.as_str()),
            None => {},
        }
    }
    proof {
        match spec_range_docs(*range) {
            Some(s) => {
                assert(buf@ =~= s);
            },
            None => {},
        }
    }
    Some(buf)
}

/// The documentation lines of one generated accessor: the summary, the
/// description, a line with the default value, and the range line, each
/// group separated by an empty line.
pub open spec fn spec_func_docs(key: Key) -> Seq<Seq<char>> {
    let has_summary = match key.summary {
        Some(s) => s@.len() > 0,
        None => false,
    };
    let has_description = match key.description {
        Some(d) => d@.len() > 0,
        None => false,
    };
    let summary_lines: Seq<Seq<char>> = if has_summary {
        seq![key.summary->Some_0@]
    } else {
        Seq::empty()
    };
    let sep_lines: Seq<Seq<char>> = if has_summary && has_description {
        seq![Seq::<char>::empty()]
    } else {
        Seq::empty()
    };
    let description_lines: Seq<Seq<char>> = if has_description {
        seq![key.description->Some_0@]
    } else {
        Seq::empty()
    };
    let default_lines: Seq<Seq<char>> = seq![Seq::<char>::empty(), "default: "@ + key.default@];
    let range_lines: Seq<Seq<char>> = match key.range {
        Some(rg) => match spec_range_docs(rg) {
            Some(line) => seq![Seq::<char>::empty(), line],
            None => Seq::empty(),
        },
        None => Seq::empty(),
    };
    summary_lines + sep_lines + description_lines + default_lines + range_lines
}

/// Render the documentation lines of one generated accessor.
pub fn func_docs(key: &Key) -> (r: Vec<String>)
    ensures
        views_of(r@) == spec_func_docs(*key),
{
    let mut lines: Vec<String> = Vec::new();

    let has_summary = match &key.summary {
        Some(s) => !s.as_str().is_empty(),
        None => false,
    };
    let has_description = match &key.description {
        Some(d) => !d.as_str().is_empty(),
        None => false,
    };

    if has_summary {
        match &key.summary {
            Some(s) => lines.push(s.clone()),
            None => {},
        }
    }
    if has_summary && has_description {
        lines.push(String::new());
    }
    if has_description {
        match &key.description {
            Some(d) => lines.push(d.clone()),
            None => {},
        }
    }

    lines.push(String::new());
    let mut default_line = String::from_str("default: ");
    default_line.append(key.default.as_str());
    lines.push(default_line);

    match &key.range {
        Some(rg) => {
            match range_docs(rg) {
                Some(line) => {
                    lines.push(String::new());
                    lines.push(line);
                },
                None => {},
            }
        },
        None => {},
    }

    proof {
        assert(views_of(lines@) =~= spec_func_docs(*key));
    }
    lines
}

} // verus!
