//! Rendering of generated functions as Rust source text.

use vstd::prelude::*;

verus! {

/// One parameter of a generated function: the receiver, or a named,
/// typed argument.
#[derive(Debug, Clone)]
pub enum Arg {
    SelfRef,
    Other { name: String, type_: String },
}

/// The mathematical value of an [`Arg`].
pub enum ArgView {
    SelfRef,
    Other { name: Seq<char>, type_: Seq<char> },
}

impl View for Arg {
    type V = ArgView;

    open spec fn view(&self) -> ArgView {
        match self {
            Arg::SelfRef => ArgView::SelfRef,
            Arg::Other { name, type_ } => ArgView::Other { name: name@, type_: type_@ },
        }
    }
}

/// Generates function rust code
pub struct Function {
    name: String,
    args: Vec<Arg>,
    is_pub: Option<bool>,
    ret_type: Option<String>,
    content: Option<String>,
}

/// The mathematical value of a [`Function`].
#[verifier::ext_equal]
pub struct FunctionView {
    pub name: Seq<char>,
    pub args: Seq<ArgView>,
    pub is_pub: Option<bool>,
    pub ret_type: Option<Seq<char>>,
    pub content: Option<Seq<char>>,
}

impl View for Function {
    type V = FunctionView;

    closed spec fn view(&self) -> FunctionView {
        FunctionView {
            name: self.name@,
            args: self.args@.map_values(|a: Arg| a@),
            is_pub: self.is_pub,
            ret_type: match self.ret_type {
                Some(ref r) => Some(r@),
                None => None,
            },
            content: match self.content {
                Some(ref c) => Some(c@),
                None => None,
            },
        }
    }
}

/// The text of one parameter in a generated signature.
pub open spec fn spec_arg_str(a: ArgView) -> Seq<char> {
    match a {
        ArgView::SelfRef => "&self"@,
        ArgView::Other { name, type_ } => name + ": "@ + type_,
    }
}

/// The comma-separated parameter list of a generated signature.
pub open spec fn spec_args_join(args: Seq<ArgView>) -> Seq<char>
    decreases args.len(),
{
    if args.len() == 0 {
        Seq::empty()
    } else if args.len() == 1 {
        spec_arg_str(args[0])
    } else {
        spec_args_join(args.drop_last()) + ","@ + spec_arg_str(args.last())
    }
}

/// The full text that [`Function::generate`] produces.
pub open spec fn spec_render(f: FunctionView) -> Seq<char> {
    (if f.is_pub == Some(true) {
        "pub "@
    } else {
        Seq::<char>::empty()
    }) + "fn "@ + f.name + "("@ + spec_args_join(f.args) + ") "@ + (match f.ret_type {
        Some(r) => "-> "@ + r + " "@,
        None => Seq::<char>::empty(),
    }) + "{"@ + (match f.content {
        Some(c) => c,
        None => Seq::<char>::empty(),
    }) + "}"@
}

proof fn lemma_args_join_step(args: Seq<ArgView>, i: int)
    requires
        0 <= i < args.len(),
    ensures
        spec_args_join(args.take(i + 1)) == if i == 0 {
            spec_arg_str(args[0])
        } else {
            spec_args_join(args.take(i)) + ","@ + spec_arg_str(args[i])
        },
{
    let prefix = args.take(i + 1);
    assert(prefix.drop_last() =~= args.take(i));
    assert(prefix.last() == args[i]);
    if i == 0 {
        assert(prefix[0] == args[0]);
    }
}

impl Function {
    /// Function with no args
    pub fn new(name: &str) -> (r: Function)
        ensures
            r@.name == name@,
            r@.args =~= Seq::<ArgView>::empty(),
            r@.is_pub is None,
            r@.ret_type is None,
            r@.content is None,
    {
        Self::new_with_args(name, Vec::new())
    }

    /// Function with args
    pub fn new_with_args(name: &str, args: Vec<Arg>) -> (r: Function)
        ensures
            r@.name == name@,
            r@.args == args@.map_values(|a: Arg| a@),
            r@.is_pub is None,
            r@.ret_type is None,
            r@.content is None,
    {
        Function { name: name.to_owned(), args, is_pub: None, ret_type: None, content: None }
    }

    /// Function with `&self` parameter
    pub fn new_method(name: &str) -> (r: Function)
        ensures
            r@.name == name@,
            r@.args =~= seq![ArgView::SelfRef],
            r@.is_pub is None,
            r@.ret_type is None,
            r@.content is None,
    {
        let r = Self::new_method_with_args(name, Vec::new());
        proof {
            assert(Seq::<Arg>::empty().map_values(|a: Arg| a@) =~= Seq::<ArgView>::empty());
        }
        r
    }

    /// Function with `&self` parameter with additional args
    pub fn new_method_with_args(name: &str, args: Vec<Arg>) -> (r: Function)
        ensures
            r@.name == name@,
            r@.args =~= seq![ArgView::SelfRef] + args@.map_values(|a: Arg| a@),
            r@.is_pub is None,
            r@.ret_type is None,
            r@.content is None,
    {
        let ghost orig = args@;
        let mut args = args;
        let mut arg_list: Vec<Arg> = Vec::new();
        arg_list.push(Arg::SelfRef);
        arg_list.append(&mut args);
        proof {
            assert(arg_list@ =~= seq![Arg::SelfRef] + orig);
        }
        let r = Self::new_with_args(name, arg_list);
        proof {
            assert(r@.args =~= seq![ArgView::SelfRef] + orig.map_values(|a: Arg| a@));
        }
        r
    }

    /// Whether the function has pub prefix
    pub fn public(self, value: bool) -> (r: Function)
        ensures
            r@ == (FunctionView { is_pub: Some(value), ..self@ }),
    {
        Function { is_pub: Some(value), ..self }
    }

    /// Rust return type
    pub fn ret_type(self, value: &str) -> (r: Function)
        ensures
            r@ == (FunctionView { ret_type: Some(value@), ..self@ }),
    {
        Function { ret_type: Some(value.to_owned()), ..self }
    }

    /// Actual content of the function
    pub fn content(self, value: &str) -> (r: Function)
        ensures
            r@ == (FunctionView { content: Some(value@), ..self@ }),
    {
        Function { content: Some(value.to_owned()), ..self }
    }

    /// Generate rust code
    pub fn generate(&self) -> (r: String)
        ensures
            r@ == spec_render(self@),
    {
        let ghost argviews = self@.args;
        let mut args_buf = String::new();
        let n = self.args.len();
        proof {
            assert(argviews.take(0) =~= Seq::<ArgView>::empty());
        }
        for i in 0..n
            invariant
                n == self.args@.len(),
                argviews == self@.args,
                args_buf@ == spec_args_join(argviews.take(i as int)),
        {
            if i > 0 {
                args_buf.append(",");
            }
            match &self.args[i] {
                Arg::SelfRef => {
                    args_buf.append("&self");
                },
                Arg::Other { name, type_ } => {
                    args_buf.append(name.as_str());
                    args_buf.append(": ");
                    args_buf.append(type_.as_str());
                },
            }
            proof {
                lemma_args_join_step(argviews, i as int);
                assert(args_buf@ =~= spec_args_join(argviews.take(i as int + 1)));
            }
        }
        proof {
            assert(argviews.take(n as int) =~= argviews);
        }

        let mut buf = String::new();

        let add_pub = match self.is_pub {
            Some(b) => b,
            None => false,
        };
        if add_pub {
            buf.append("pub ");
        }

        buf.append("fn ");
        buf.append(self.name.as_str());
        buf.append("(");
        buf.append(args_buf.as_str());
        buf.append(") ");

        match &self.ret_type {
            Some(ret_type) => {
                buf.append("-> ");
                buf.append(ret_type.as_str());
                buf.append(" ");
            },
            None => {},
        }

        buf.append("{");
        match &self.content {
            Some(content) => {
                buf.append(content.as_str());
            },
            None => {},
        }
        buf.append("}");

        proof {
            assert(buf@ =~= spec_render(self@));
        }
        buf
    }
}

/// The names of the non-receiver parameters, in order.
pub open spec fn spec_other_names(args: Seq<ArgView>) -> Seq<Seq<char>>
    decreases args.len(),
{
    if args.len() == 0 {
        Seq::empty()
    } else {
        match args.last() {
            ArgView::SelfRef => spec_other_names(args.drop_last()),
            ArgView::Other { name, .. } => spec_other_names(args.drop_last()).push(name),
        }
    }
}

/// Parts joined with commas, with no trailing separator.
pub open spec fn spec_join_commas(parts: Seq<Seq<char>>) -> Seq<char>
    decreases parts.len(),
{
    if parts.len() == 0 {
        Seq::empty()
    } else if parts.len() == 1 {
        parts[0]
    } else {
        spec_join_commas(parts.drop_last()) + ","@ + parts.last()
    }
}

/// The body text of a delegating method: the call on the wrapped value,
/// forwarding every non-receiver parameter.
pub open spec fn spec_delegate_content(name: Seq<char>, args: Seq<ArgView>) -> Seq<char> {
    "self.0."@ + name + "("@ + spec_join_commas(spec_other_names(args)) + ")"@
}

proof fn lemma_other_names_step(args: Seq<ArgView>, i: int)
    requires
        0 <= i < args.len(),
    ensures
        spec_other_names(args.take(i + 1)) == (match args[i] {
            ArgView::SelfRef => spec_other_names(args.take(i)),
            ArgView::Other { name, .. } => spec_other_names(args.take(i)).push(name),
        }),
{
    let prefix = args.take(i + 1);
    assert(prefix.drop_last() =~= args.take(i));
    assert(prefix.last() == args[i]);
}

proof fn lemma_join_commas_step(parts: Seq<Seq<char>>, i: int)
    requires
        0 <= i < parts.len(),
    ensures
        spec_join_commas(parts.take(i + 1)) == if i == 0 {
            parts[0]
        } else {
            spec_join_commas(parts.take(i)) + ","@ + parts[i]
        },
{
    let prefix = parts.take(i + 1);
    assert(prefix.drop_last() =~= parts.take(i));
    assert(prefix.last() == parts[i]);
    if i == 0 {
        assert(prefix[0] == parts[0]);
    }
}

/// Assumes that inner can be accessed with `self.0`
pub struct DelegateMethod(Function);

impl View for DelegateMethod {
    type V = FunctionView;

    closed spec fn view(&self) -> FunctionView {
        self.0@
    }
}

impl DelegateMethod {
    /// A public method that forwards its arguments to the same-named
    /// method of the wrapped value.
    pub fn new_with_args(name: &str, args: Vec<Arg>) -> (r: DelegateMethod)
        ensures
            r@.name == name@,
            r@.args =~= seq![ArgView::SelfRef] + args@.map_values(|a: Arg| a@),
            r@.is_pub == Some(true),
            r@.ret_type is None,
            r@.content == Some(spec_delegate_content(name@, args@.map_values(|a: Arg| a@))),
    {
        let ghost argviews = args@.map_values(|a: Arg| a@);
        let mut names_buf = String::new();
        let ghost names = spec_other_names(argviews);
        let mut count: usize = 0;
        let n = args.len();
        proof {
            assert(argviews.take(0) =~= Seq::<ArgView>::empty());
            assert(spec_other_names(argviews.take(0)).len() == 0);
        }
        for i in 0..n
            invariant
                n == args@.len(),
                argviews == args@.map_values(|a: Arg| a@),
                count <= i,
                count == spec_other_names(argviews.take(i as int)).len(),
                names_buf@ == spec_join_commas(spec_other_names(argviews.take(i as int))),
        {
            proof {
                lemma_other_names_step(argviews, i as int);
            }
            match &args[i] {
                Arg::SelfRef => {},
                Arg::Other { name, .. } => {
                    if count > 0 {
                        names_buf.append(",");
                    }
                    names_buf.append(name.as_str());
                    proof {
                        let parts = spec_other_names(argviews.take(i as int + 1));
                        lemma_join_commas_step(parts, parts.len() - 1);
                        assert(parts.take(parts.len() - 1) =~= spec_other_names(
                            argviews.take(i as int),
                        ));
                        assert(names_buf@ =~= spec_join_commas(parts));
                    }
                    count = count + 1;
                },
            }
        }
        proof {
            assert(argviews.take(n as int) =~= argviews);
        }

        let mut content_buf = String::from_str("self.0.");
        content_buf.append(name);
        content_buf.append("(");
        content_buf.append(names_buf.as_str());
        content_buf.append(")");
        proof {
            assert(content_buf@ =~= spec_delegate_content(name@, argviews));
        }

        let f = Function::new_method_with_args(name, args).public(true).content(
            content_buf.as_str(),
        );
        DelegateMethod(f)
    }

    /// Rust return type
    pub fn ret_type(self, value: &str) -> (r: DelegateMethod)
        ensures
            r@ == (FunctionView { ret_type: Some(value@), ..self@ }),
    {
        DelegateMethod(self.0.ret_type(value))
    }

    /// Convert into function
    pub fn into_inner(self) -> (r: Function)
        ensures
            r@ == self@,
    {
        self.0
    }
}

/// One named, typed parameter of a rendered function.
#[derive(Debug, Clone)]
pub struct FunctionArg {
    pub name: String,
    pub type_: String,
}

/// The mathematical value of a [`FunctionArg`].
pub struct FunctionArgView {
    pub name: Seq<char>,
    pub type_: Seq<char>,
}

impl View for FunctionArg {
    type V = FunctionArgView;

    open spec fn view(&self) -> FunctionArgView {
        FunctionArgView { name: self.name@, type_: self.type_@ }
    }
}

/// The concatenation of `name: type` renderings, with no separator.
pub open spec fn spec_fa_concat(args: Seq<FunctionArgView>) -> Seq<char>
    decreases args.len(),
{
    if args.len() == 0 {
        Seq::empty()
    } else {
        spec_fa_concat(args.drop_last()) + args.last().name + ": "@ + args.last().type_
    }
}

/// The text that [`generate_function_code`] produces.
pub open spec fn spec_function_code(
    is_pub: bool,
    has_self_arg: bool,
    name: Seq<char>,
    args: Seq<FunctionArgView>,
    ret_type: Seq<char>,
    content: Seq<char>,
) -> Seq<char> {
    (if is_pub {
        "pub "@
    } else {
        Seq::<char>::empty()
    }) + "fn "@ + name + "("@ + (if has_self_arg {
        "&self,"@
    } else {
        Seq::<char>::empty()
    }) + spec_fa_concat(args) + ") -> "@ + ret_type + " {"@ + "\n"@ + content + "\n"@ + "}"@
}

proof fn lemma_fa_concat_step(args: Seq<FunctionArgView>, i: int)
    requires
        0 <= i < args.len(),
    ensures
        spec_fa_concat(args.take(i + 1)) == spec_fa_concat(args.take(i)) + args[i].name + ": "@
            + args[i].type_,
{
    let prefix = args.take(i + 1);
    assert(prefix.drop_last() =~= args.take(i));
    assert(prefix.last() == args[i]);
}

/// Render one function as source text: header line, body line, and
/// closing brace, joined by line breaks.
pub fn generate_function_code(
    is_pub: bool,
    has_self_arg: bool,
    name: &str,
    args: Vec<FunctionArg>,
    ret_type: &str,
    content: &str,
) -> (r: String)
    ensures
        r@ == spec_function_code(
            is_pub,
            has_self_arg,
            name@,
            args@.map_values(|a: FunctionArg| a@),
            ret_type@,
            content@,
        ),
{
    let ghost argviews = args@.map_values(|a: FunctionArg| a@);
    let mut args_buf = String::new();
    let n = args.len();
    proof {
        assert(argviews.take(0) =~= Seq::<FunctionArgView>::empty());
    }
    for i in 0..n
        invariant
            n == args@.len(),
            argviews == args@.map_values(|a: FunctionArg| a@),
            args_buf@ == spec_fa_concat(argviews.take(i as int)),
    {
        args_buf.append(args[i].name.as_str());
        args_buf.append(": ");
        args_buf.append(args[i].type_.as_str());
        proof {
            lemma_fa_concat_step(argviews, i as int);
            assert(args_buf@ =~= spec_fa_concat(argviews.take(i as int + 1)));
        }
    }
    proof {
        assert(argviews.take(n as int) =~= argviews);
    }

    let mut buf = String::new();
    if is_pub {
        buf.append("pub ");
    }
    buf.append("fn ");
    buf.append(name);
    buf.append("(");
    if has_self_arg {
        buf.append("&self,");
    }
    buf.append(args_buf.as_str());
    buf.append(") -> ");
    buf.append(ret_type);
    buf.append(" {");
    buf.append("\n");
    buf.append(content);
    buf.append("\n");
    buf.append("}");
    proof {
        assert(buf@ =~= spec_function_code(
            is_pub,
            has_self_arg,
            name@,
            argviews,
            ret_type@,
            content@,
        ));
    }
    buf
}

} // verus!
