//! Rendering of a whole settings struct as Rust source text: the
//! struct declaration, a constructor bound to one schema id, the
//! accessor functions, and a `Default` implementation.

use vstd::prelude::*;

use crate::function::{spec_render, Function, FunctionView};

verus! {

/// Generates settings struct with new method
pub struct Settings {
    id: String,
    impl_codes: Vec<Function>,
}

/// The mathematical value of a [`Settings`].
pub struct SettingsView {
    pub id: Seq<char>,
    pub impl_codes: Seq<FunctionView>,
}

impl View for Settings {
    type V = SettingsView;

    closed spec fn view(&self) -> SettingsView {
        SettingsView {
            id: self.id@,
            impl_codes: self.impl_codes@.map_values(|f: Function| f@),
        }
    }
}

/// The constructor function bound to the schema id.
pub open spec fn spec_new_fn(id: Seq<char>) -> FunctionView {
    FunctionView {
        name: "new"@,
        args: Seq::empty(),
        is_pub: Some(true),
        ret_type: Some("Self"@),
        content: Some("Self(gio::Settings::new(\""@ + id + "\"))"@),
    }
}

/// The concatenation of the rendered member functions.
pub open spec fn spec_codes_concat(codes: Seq<FunctionView>) -> Seq<char>
    decreases codes.len(),
{
    if codes.len() == 0 {
        Seq::empty()
    } else {
        spec_codes_concat(codes.drop_last()) + spec_render(codes.last())
    }
}

/// The full text that [`Settings::generate`] produces.
pub open spec fn spec_settings_render(v: SettingsView) -> Seq<char> {
    "#[derive(Debug, Clone)] pub struct Settings(gio::Settings);"@ + "impl Settings {"@
        + spec_render(spec_new_fn(v.id)) + spec_codes_concat(v.impl_codes) + "}"@
        + "impl Default for Settings {"@ + "fn default() -> Self { Self::new() }"@ + "}"@
}

proof fn lemma_codes_concat_step(codes: Seq<FunctionView>, i: int)
    requires
        0 <= i < codes.len(),
    ensures
        spec_codes_concat(codes.take(i + 1)) == spec_codes_concat(codes.take(i)) + spec_render(
            codes[i],
        ),
{
    let prefix = codes.take(i + 1);
    assert(prefix.drop_last() =~= codes.take(i));
    assert(prefix.last() == codes[i]);
}

impl Settings {
    /// A settings struct bound to the given schema id, with no member
    /// functions yet.
    pub fn new(id: &str) -> (r: Settings)
        ensures
            r@.id == id@,
            r@.impl_codes =~= Seq::<FunctionView>::empty(),
    {
        Settings { id: id.to_owned(), impl_codes: Vec::new() }
    }

    /// Adds code inside impl
    pub fn push_impl(&mut self, function: Function)
        ensures
            final(self)@.id == old(self)@.id,
            final(self)@.impl_codes =~= old(self)@.impl_codes.push(function@),
    {
        self.impl_codes.push(function);
    }

    /// Generate rust code
    pub fn generate(&self) -> (r: String)
        ensures
            r@ == spec_settings_render(self@),
    {
        let mut buf = String::new();

        buf.append("#[derive(Debug, Clone)] pub struct Settings(gio::Settings);");

        buf.append("impl Settings {");

        let mut constructor_content = String::from_str("Self(gio::Settings::new(\"");
        constructor_content.append(self.id.as_str());
        constructor_content.append("\"))");
        let constructor = Function::new("new").public(true).ret_type("Self").content(
            constructor_content.as_str(),
        );
        proof {
            assert(constructor@ =~= spec_new_fn(self@.id));
        }
        buf.append(constructor.generate().as_str());

        let ghost codes = self@.impl_codes;
        let n = self.impl_codes.len();
        proof {
            assert(codes.take(0) =~= Seq::<FunctionView>::empty());
            assert(buf@ =~= "#[derive(Debug, Clone)] pub struct Settings(gio::Settings);"@
                + "impl Settings {"@ + spec_render(spec_new_fn(self@.id)) + spec_codes_concat(
                codes.take(0),
            ));
        }
        for i in 0..n
            invariant
                n == self.impl_codes@.len(),
                codes == self@.impl_codes,
                buf@ == "#[derive(Debug, Clone)] pub struct Settings(gio::Settings);"@
                    + "impl Settings {"@ + spec_render(spec_new_fn(self@.id)) + spec_codes_concat(
                    codes.take(i as int),
                ),
        {
            buf.append(self.impl_codes[i].generate().as_str());
            proof {
                lemma_codes_concat_step(codes, i as int);
                assert(buf@ =~= "#[derive(Debug, Clone)] pub struct Settings(gio::Settings);"@
                    + "impl Settings {"@ + spec_render(spec_new_fn(self@.id)) + spec_codes_concat(
                    codes.take(i as int + 1),
                ));
            }
        }
        proof {
            assert(codes.take(n as int) =~= codes);
        }

        buf.append("}");

        buf.append("impl Default for Settings {");
        buf.append("fn default() -> Self { Self::new() }");
        buf.append("}");

        proof {
            assert(buf@ =~= spec_settings_render(self@));
        }
        buf
    }
}

} // verus!
