//! Service methods: what a trait says of them and what the generated code
//! needs to know.

use crate::route::{parse_route, route, HttpMethod, HttpRoute, RouteModel};
use crate::text::{literal, literal_denotes_its_text, string_value};
use vstd::prelude::*;

verus! {

/// What stands behind the path of an attribute.
#[derive(Debug)]
pub enum AttrArgs {
    /// Nothing, as in `#[get]`.
    Absent,
    /// A value, as in `#[get = "/path"]`.
    Value,
    /// Tokens in brackets, as in `#[get("/path")]`, without the brackets.
    Tokens(String),
}

/// An attribute of a trait method.
#[derive(Debug)]
pub struct AttrDef {
    /// The identifiers of its path.
    pub path: Vec<String>,
    /// Whether it stands inside the body of the method.
    pub inner: bool,
    /// What stands behind the path.
    pub args: AttrArgs,
    /// The whole attribute.
    pub text: String,
}

/// A method of a trait. The texts of types and of the method itself are copied
/// into the generated code as they are.
#[derive(Debug)]
pub struct MethodDef {
    pub name: String,
    pub attrs: Vec<AttrDef>,
    /// The arguments: name and type of those that are a plain identifier with
    /// a type, `None` for the receiver and any other.
    pub inputs: Vec<Option<(String, String)>>,
    /// The return type, if one is written.
    pub output: Option<String>,
    /// The signature, without attributes.
    pub signature: String,
    /// The statements of the default body, if there is one.
    pub body: Option<String>,
}

/// An item of a trait.
#[derive(Debug)]
pub enum TraitItemDef {
    Method(MethodDef),
    /// Any other item, as it is.
    Other(String),
}

/// A service trait.
#[derive(Debug)]
pub struct TraitDef {
    pub name: String,
    pub vis: String,
    pub generics: String,
    pub supertraits: String,
    pub items: Vec<TraitItemDef>,
}

/// What the generated code needs to know of a method.
#[derive(Debug)]
pub struct MethodInfo {
    pub name: String,
    /// Name and type of each argument, without the receiver.
    pub args: Vec<(String, String)>,
    pub return_type: String,
    /// The route, if an attribute gives one.
    pub http: Option<HttpRoute>,
}

/// The value of a method.
pub struct MethodModel {
    pub name: Seq<char>,
    pub args: Seq<(Seq<char>, Seq<char>)>,
    pub return_type: Seq<char>,
    pub http: Option<RouteModel>,
}

/// The values of arguments.
pub open spec fn args_view(args: Seq<(String, String)>) -> Seq<(Seq<char>, Seq<char>)> {
    args.map_values(|a: (String, String)| (a.0@, a.1@))
}

impl View for MethodInfo {
    type V = MethodModel;

    open spec fn view(&self) -> MethodModel {
        MethodModel {
            name: self.name@,
            args: args_view(self.args@),
            return_type: self.return_type@,
            http: match self.http {
                None => None,
                Some(r) => Some(r@),
            },
        }
    }
}

/// Why the attribute that names an HTTP method gives no route.
#[derive(Debug, Clone, Copy, PartialEq, Eq, Structural)]
pub enum AttrProblem {
    /// It has no arguments.
    NoArguments,
    /// It has a value in the place of arguments.
    NoParentheses,
    /// Its arguments are not one string literal.
    NoLiteral,
}

/// An attribute that gives no route.
#[derive(Debug, Clone, Copy, PartialEq, Eq, Structural)]
pub struct AttrError {
    /// Its position among the attributes of the method.
    pub index: usize,
    pub problem: AttrProblem,
}

/// Whether a character begins a token behind a string literal, with white space
/// between or without: a letter without would be a suffix of the literal, and a
/// slash may begin a comment.
pub open spec fn begins_token(c: char, apart: bool) -> bool {
    &&& '!' <= c <= '~'
    &&& c != '/'
    &&& apart || !('a' <= c <= 'z' || 'A' <= c <= 'Z' || '0' <= c <= '9' || c == '_' || c == '#')
}

/// Whether tokens are a string literal, of `n` characters, and then, behind
/// spaces if there are any, a character at `k` that begins another token.
pub open spec fn is_followed(tokens: Seq<char>, n: int, k: int) -> bool {
    &&& 0 < n <= k < tokens.len()
    &&& string_value(tokens.take(n)) is Some
    &&& forall|i: int| n <= i < k ==> tokens[i] == ' '
    &&& begins_token(tokens[k], n < k)
}

/// Whether tokens are not one string literal, as is plain to see: they have
/// fewer than two quotes, they begin with what begins no string literal, or
/// other tokens follow the literal that they begin with.
pub open spec fn is_no_literal(tokens: Seq<char>) -> bool {
    ||| forall|i: int, j: int|
        0 <= i < j < tokens.len() ==> #[trigger] tokens[i] != '"' || #[trigger] tokens[j] != '"'
    ||| tokens.len() > 0 && '!' <= tokens[0] <= '~' && tokens[0] != '"' && tokens[0] != 'r'
        && tokens[0] != '/'
    ||| tokens.len() > 1 && tokens[0] == 'r' && tokens[1] != '"' && tokens[1] != '#'
    ||| exists|n: int, k: int| is_followed(tokens, n, k)
}

/// Whether `value` may be what was read from tokens: what a string literal
/// denotes, and nothing if the tokens plainly are not one. What is read from
/// the few other tokens, such as those with a carriage return, a line that is
/// continued, a quote in a raw string, a suffix or a comment, is up to the lexer
/// that reads them.
pub open spec fn may_read(tokens: Seq<char>, value: Option<Seq<char>>) -> bool {
    match string_value(tokens) {
        Some(text) => value == Some(text),
        None => is_no_literal(tokens) ==> value is None,
    }
}

/// `syn::parse_str` for a string literal, and `syn::LitStr::value`: what the
/// literal denotes, or `None` if the tokens are not one string literal. A
/// literal is read by the rules of the language: between plain quotes every
/// character stands for itself and an escape for its character, and a raw string
/// is what stands between its quotes. Tokens with fewer than two quotes, tokens
/// that begin with something else, and a literal with more tokens behind it are
/// not one string literal. Nothing is said of other tokens, since `proc_macro2`
/// reads them with the lexer of the compiler in a procedural macro and with one
/// of its own elsewhere.
#[verifier::external_body]
fn parse_literal(tokens: &str) -> (value: Option<String>)
    ensures
        may_read(tokens@, text_view(value)),
{
    syn::parse_str::<syn::LitStr>(tokens).ok().map(|literal| literal.value())
}

/// The value of a text that may be absent.
pub open spec fn text_view(text: Option<String>) -> Option<Seq<char>> {
    match text {
        Some(t) => Some(t@),
        None => None,
    }
}

/// The HTTP method that an attribute names, if it names one.
pub open spec fn attr_method(attr: AttrDef) -> Option<HttpMethod> {
    if attr.path@.len() == 1 {
        HttpMethod::named(attr.path@[0]@)
    } else {
        None
    }
}

/// The position of the first attribute from `from` on that names an HTTP
/// method.
pub open spec fn first_http_attr(attrs: Seq<AttrDef>, from: int) -> Option<int>
    decreases attrs.len() - from,
{
    if from < 0 || from >= attrs.len() {
        None
    } else if attr_method(attrs[from]) is Some {
        Some(from)
    } else {
        first_http_attr(attrs, from + 1)
    }
}

/// The route string of an attribute of whose tokens, if it has any, `read` was
/// read; or why there is none.
pub open spec fn route_string(args: AttrArgs, read: Option<Seq<char>>) -> Result<
    Seq<char>,
    AttrProblem,
> {
    match args {
        AttrArgs::Absent => Err(AttrProblem::NoArguments),
        AttrArgs::Value => Err(AttrProblem::NoParentheses),
        AttrArgs::Tokens(_) => match read {
            Some(value) => Ok(value),
            None => Err(AttrProblem::NoLiteral),
        },
    }
}

/// The route that the attributes of a method give: that of the first one that
/// names an HTTP method. `read` is the string literal that was read from its
/// tokens.
pub open spec fn attrs_route(attrs: Seq<AttrDef>, read: Option<Seq<char>>) -> Result<
    Option<RouteModel>,
    AttrError,
> {
    match first_http_attr(attrs, 0) {
        None => Ok(None),
        Some(i) => match route_string(attrs[i].args, read) {
            Ok(s) => Ok(Some(route(s, attr_method(attrs[i])->Some_0))),
            Err(problem) => Err(AttrError { index: i as usize, problem }),
        },
    }
}

/// Whether `read` may be what was read from the attributes of a method: from
/// the tokens of the first one that names an HTTP method, if it has any.
pub open spec fn attrs_may_read(attrs: Seq<AttrDef>, read: Option<Seq<char>>) -> bool {
    match first_http_attr(attrs, 0) {
        None => read is None,
        Some(i) => match attrs[i].args {
            AttrArgs::Tokens(tokens) => may_read(tokens@, read),
            _ => read is None,
        },
    }
}

/// The HTTP method that an attribute names, if it names one.
pub fn http_method_of(attr: &AttrDef) -> (method: Option<HttpMethod>)
    ensures
        method == attr_method(*attr),
{
    if attr.path.len() == 1 {
        HttpMethod::from_str(&attr.path[0])
    } else {
        None
    }
}

/// Finds the first attribute that names an HTTP method.
pub fn find_http_attr(attrs: &Vec<AttrDef>) -> (found: Option<(usize, HttpMethod)>)
    ensures
        match found {
            Some((i, method)) => i < attrs@.len() && first_http_attr(attrs@, 0) == Some(i as int)
                && attr_method(attrs@[i as int]) == Some(method),
            None => first_http_attr(attrs@, 0) is None,
        },
{
    let mut i: usize = 0;
    while i < attrs.len()
        invariant
            i <= attrs@.len(),
            first_http_attr(attrs@, 0) == first_http_attr(attrs@, i as int),
        decreases attrs.len() - i,
    {
        if let Some(method) = http_method_of(&attrs[i]) {
            return Some((i, method));
        }
        i = i + 1;
    }
    None
}

/// Reads the string literal in the attributes of a method: that of the first
/// one that names an HTTP method.
pub fn read_literal(attrs: &Vec<AttrDef>) -> (read: Option<String>)
    ensures
        attrs_may_read(attrs@, text_view(read)),
{
    match find_http_attr(attrs) {
        None => None,
        Some((index, _)) => match &attrs[index].args {
            AttrArgs::Tokens(tokens) => parse_literal(tokens),
            AttrArgs::Absent | AttrArgs::Value => None,
        },
    }
}

/// The route string of an attribute of whose tokens `read` was read.
pub fn check_route_string(args: &AttrArgs, read: Option<String>) -> (checked: Result<
    String,
    AttrProblem,
>)
    ensures
        match checked {
            Ok(s) => route_string(*args, text_view(read)) == Ok::<Seq<char>, AttrProblem>(s@),
            Err(problem) => route_string(*args, text_view(read)) == Err::<Seq<char>, AttrProblem>(
                problem,
            ),
        },
{
    match args {
        AttrArgs::Absent => Err(AttrProblem::NoArguments),
        AttrArgs::Value => Err(AttrProblem::NoParentheses),
        AttrArgs::Tokens(_) => match read {
            Some(value) => Ok(value),
            None => Err(AttrProblem::NoLiteral),
        },
    }
}

/// Whether `parsed` is the route that the attributes of a method give, if
/// `read` was read from them.
pub open spec fn is_route_of(
    attrs: Seq<AttrDef>,
    read: Option<Seq<char>>,
    parsed: Result<Option<HttpRoute>, AttrError>,
) -> bool {
    attrs_route(attrs, read) == match parsed {
        Ok(None) => Ok::<Option<RouteModel>, AttrError>(None),
        Ok(Some(r)) => Ok::<Option<RouteModel>, AttrError>(Some(r@)),
        Err(error) => Err::<Option<RouteModel>, AttrError>(error),
    }
}

/// Extracts the HTTP route from the attributes of a method, of which `read` was
/// read.
pub fn route_of_attrs(attrs: &Vec<AttrDef>, read: Option<String>) -> (parsed: Result<
    Option<HttpRoute>,
    AttrError,
>)
    ensures
        is_route_of(attrs@, text_view(read), parsed),
{
    match find_http_attr(attrs) {
        None => Ok(None),
        Some((index, method)) => match check_route_string(&attrs[index].args, read) {
            Ok(s) => Ok(Some(parse_route(&s, method))),
            Err(problem) => Err(AttrError { index, problem }),
        },
    }
}

/// Extracts the HTTP route from the attributes of a method.
pub fn parse_http_attrs(attrs: &Vec<AttrDef>) -> (parsed: Result<Option<HttpRoute>, AttrError>)
    ensures
        exists|read: Option<Seq<char>>| #[trigger]
            attrs_may_read(attrs@, read) && is_route_of(attrs@, read, parsed),
{
    let read = read_literal(attrs);
    let ghost seen = text_view(read);
    let parsed = route_of_attrs(attrs, read);
    assert(attrs_may_read(attrs@, seen) && is_route_of(attrs@, seen, parsed));
    parsed
}

/// The arguments that are a plain identifier with a type, in order.
pub open spec fn named_args(inputs: Seq<Option<(String, String)>>) -> Seq<(Seq<char>, Seq<char>)>
    decreases inputs.len(),
{
    if inputs.len() == 0 {
        Seq::empty()
    } else {
        match inputs.last() {
            None => named_args(inputs.drop_last()),
            Some(a) => named_args(inputs.drop_last()).push((a.0@, a.1@)),
        }
    }
}

/// What the generated code needs to know of a method, or the attribute that is
/// in the way, if `read` was read from its attributes.
pub open spec fn method_model(def: MethodDef, read: Option<Seq<char>>) -> Result<
    MethodModel,
    AttrError,
> {
    match attrs_route(def.attrs@, read) {
        Err(error) => Err(error),
        Ok(http) => Ok(
            MethodModel {
                name: def.name@,
                args: named_args(def.inputs@),
                return_type: match def.output {
                    None => "()"@,
                    Some(ty) => ty@,
                },
                http,
            },
        ),
    }
}

/// Whether `parsed` is what the generated code needs to know of a method, if
/// `read` was read from its attributes.
pub open spec fn is_info_of(
    def: MethodDef,
    read: Option<Seq<char>>,
    parsed: Result<MethodInfo, AttrError>,
) -> bool {
    method_model(def, read) == match parsed {
        Ok(info) => Ok::<MethodModel, AttrError>(info@),
        Err(error) => Err::<MethodModel, AttrError>(error),
    }
}

/// Collects the arguments that are a plain identifier with a type.
fn collect_args(inputs: &Vec<Option<(String, String)>>) -> (args: Vec<(String, String)>)
    ensures
        args_view(args@) == named_args(inputs@),
{
    let mut args: Vec<(String, String)> = Vec::new();
    let mut i: usize = 0;
    assert(args_view(args@) =~= named_args(inputs@.take(0)));
    while i < inputs.len()
        invariant
            i <= inputs@.len(),
            args_view(args@) == named_args(inputs@.take(i as int)),
        decreases inputs.len() - i,
    {
        proof {
            assert(inputs@.take(i + 1).drop_last() =~= inputs@.take(i as int));
        }
        if let Some(a) = &inputs[i] {
            let ghost before = args@;
            args.push((a.0.clone(), a.1.clone()));
            assert(args_view(args@) =~= args_view(before).push((a.0@, a.1@)));
        }
        i = i + 1;
    }
    assert(inputs@.take(i as int) =~= inputs@);
    args
}

/// Gathers what the generated code needs to know of a method, from whose
/// attributes `read` was read.
pub fn info_of_method(def: &MethodDef, read: Option<String>) -> (parsed: Result<
    MethodInfo,
    AttrError,
>)
    ensures
        is_info_of(*def, text_view(read), parsed),
{
    match route_of_attrs(&def.attrs, read) {
        Err(error) => Err(error),
        Ok(http) => {
            let args = collect_args(&def.inputs);
            let return_type = match &def.output {
                None => "()".to_string(),
                Some(ty) => ty.clone(),
            };
            Ok(MethodInfo { name: def.name.clone(), args, return_type, http })
        },
    }
}

/// Gathers what the generated code needs to know of a method.
pub fn parse_method(def: &MethodDef) -> (parsed: Result<MethodInfo, AttrError>)
    ensures
        exists|read: Option<Seq<char>>| #[trigger]
            attrs_may_read(def.attrs@, read) && is_info_of(*def, read, parsed),
{
    let read = read_literal(&def.attrs);
    let ghost seen = text_view(read);
    let parsed = info_of_method(def, read);
    assert(attrs_may_read(def.attrs@, seen) && is_info_of(*def, seen, parsed));
    parsed
}

/// Whether what is read from the attributes of a method is not up to the lexer:
/// they name no HTTP method, or it is settled what the tokens of the first one
/// that does denote.
pub open spec fn attrs_are_plain(attrs: Seq<AttrDef>) -> bool {
    match first_http_attr(attrs, 0) {
        None => true,
        Some(i) => match attrs[i].args {
            AttrArgs::Tokens(tokens) => string_value(tokens@) is Some || is_no_literal(tokens@),
            _ => true,
        },
    }
}

/// Plain attributes are read alike by every lexer.
pub proof fn plain_attributes_are_read_alike(
    attrs: Seq<AttrDef>,
    one: Option<Seq<char>>,
    other: Option<Seq<char>>,
)
    requires
        attrs_are_plain(attrs),
        attrs_may_read(attrs, one),
        attrs_may_read(attrs, other),
    ensures
        one == other,
{
}

/// The value of a route shows what the route holds.
pub proof fn route_view_shows_every_field(r: HttpRoute)
    ensures
        r@.method == r.method,
        r@.path == r.path@,
        r@.axum_path == r.axum_path@,
        r@.path_params.len() == r.path_params@.len(),
        forall|i: int|
            0 <= i < r.path_params@.len() ==> #[trigger] r@.path_params[i] == r.path_params@[i]@,
        r@.query_params.len() == r.query_params@.len(),
        forall|i: int|
            0 <= i < r.query_params@.len() ==> #[trigger] r@.query_params[i]
                == r.query_params@[i]@,
{
}

/// An attribute names an HTTP method if its path is one identifier that does.
pub proof fn attribute_goes_by_its_only_identifier(attr: AttrDef)
    ensures
        attr.path@.len() == 1 ==> attr_method(attr) == HttpMethod::named(attr.path@[0]@),
        attr.path@.len() != 1 ==> attr_method(attr) is None,
{
}

/// The first attribute that names an HTTP method gives the route: that of the
/// text that was read, with the HTTP method that it names. One without
/// arguments, with a value or without a string literal is reported with its
/// place.
pub proof fn first_http_attribute_gives_the_route(
    attrs: Seq<AttrDef>,
    i: int,
    method: HttpMethod,
    read: Option<Seq<char>>,
)
    requires
        0 <= i < attrs.len() <= usize::MAX,
        forall|j: int| 0 <= j < i ==> attr_method(#[trigger] attrs[j]) is None,
        attr_method(attrs[i]) == Some(method),
    ensures
        match attrs[i].args {
            AttrArgs::Absent => attrs_route(attrs, read) == Err::<Option<RouteModel>, AttrError>(
                AttrError { index: i as usize, problem: AttrProblem::NoArguments },
            ),
            AttrArgs::Value => attrs_route(attrs, read) == Err::<Option<RouteModel>, AttrError>(
                AttrError { index: i as usize, problem: AttrProblem::NoParentheses },
            ),
            AttrArgs::Tokens(tokens) => {
                &&& attrs_may_read(attrs, read) <==> may_read(tokens@, read)
                &&& read matches Some(text) ==> attrs_route(attrs, read) == Ok::<
                    Option<RouteModel>,
                    AttrError,
                >(Some(route(text, method)))
                &&& read is None ==> attrs_route(attrs, read) == Err::<
                    Option<RouteModel>,
                    AttrError,
                >(AttrError { index: i as usize, problem: AttrProblem::NoLiteral })
            },
        },
{
    first_http_attr_is_found(attrs, i, 0);
}

/// The first attribute that names an HTTP method is found.
proof fn first_http_attr_is_found(attrs: Seq<AttrDef>, i: int, from: int)
    requires
        0 <= from <= i < attrs.len(),
        forall|j: int| 0 <= j < i ==> attr_method(#[trigger] attrs[j]) is None,
        attr_method(attrs[i]) is Some,
    ensures
        first_http_attr(attrs, from) == Some(i),
    decreases i - from,
{
    if from < i {
        assert(attr_method(attrs[from]) is None);
        first_http_attr_is_found(attrs, i, from + 1);
    }
}

/// Attributes of which none names an HTTP method give no route.
pub proof fn other_attributes_give_no_route(attrs: Seq<AttrDef>, read: Option<Seq<char>>)
    requires
        forall|j: int| 0 <= j < attrs.len() ==> attr_method(#[trigger] attrs[j]) is None,
    ensures
        attrs_route(attrs, read) == Ok::<Option<RouteModel>, AttrError>(None),
        attrs_may_read(attrs, read) <==> read is None,
{
    no_http_attr_is_found(attrs, 0);
}

/// What is found is the first attribute from `from` on that names an HTTP
/// method, and nothing is found only if none of them does.
pub proof fn first_http_attribute_is_first(attrs: Seq<AttrDef>, from: int)
    requires
        0 <= from,
    ensures
        first_http_attr(attrs, from) matches Some(i) ==> {
            &&& from <= i < attrs.len()
            &&& attr_method(attrs[i]) is Some
            &&& forall|j: int| from <= j < i ==> attr_method(#[trigger] attrs[j]) is None
        },
        first_http_attr(attrs, from) is None ==> forall|j: int|
            from <= j < attrs.len() ==> attr_method(#[trigger] attrs[j]) is None,
    decreases attrs.len() - from,
{
    if from < attrs.len() && attr_method(attrs[from]) is None {
        first_http_attribute_is_first(attrs, from + 1);
    }
}

/// No attribute that names an HTTP method is found where there is none.
proof fn no_http_attr_is_found(attrs: Seq<AttrDef>, from: int)
    requires
        0 <= from,
        forall|j: int| 0 <= j < attrs.len() ==> attr_method(#[trigger] attrs[j]) is None,
    ensures
        first_http_attr(attrs, from) is None,
    decreases attrs.len() - from,
{
    if from < attrs.len() {
        assert(attr_method(attrs[from]) is None);
        no_http_attr_is_found(attrs, from + 1);
    }
}

/// A literal is read as what it denotes, and what plainly is none is not read.
pub proof fn literals_are_read(tokens: Seq<char>, value: Option<Seq<char>>)
    requires
        may_read(tokens, value),
    ensures
        string_value(tokens) is Some ==> value == string_value(tokens),
        string_value(tokens) is None && !tokens.contains('"') ==> value is None,
        forall|text: Seq<char>| tokens == #[trigger] literal(text) ==> value == Some(text),
{
    assert forall|text: Seq<char>| tokens == #[trigger] literal(text) implies value == Some(
        text,
    ) by {
        literal_denotes_its_text(text);
    }
    if !tokens.contains('"') {
        assert forall|i: int, j: int| 0 <= i < j < tokens.len() implies #[trigger] tokens[i] != '"'
            || #[trigger] tokens[j] != '"' by {
            assert(tokens.contains(tokens[i]));
        }
    }
}

/// A method is known by its name, its arguments that have a plain name, all of
/// them and in their order, and what it returns, which is nothing if nothing is
/// written. Its attributes give its route.
pub proof fn method_is_known_by_what_is_written(def: MethodDef, read: Option<Seq<char>>)
    ensures
        method_model(def, read) is Err <==> attrs_route(def.attrs@, read) is Err,
        method_model(def, read) matches Err(e) ==> attrs_route(def.attrs@, read) == Err::<
            Option<RouteModel>,
            AttrError,
        >(e),
        method_model(def, read) matches Ok(m) ==> {
            &&& m.name == def.name@
            &&& m.args == def.inputs@.filter(|a: Option<(String, String)>| a is Some).map_values(
                |a: Option<(String, String)>| (a->Some_0.0@, a->Some_0.1@),
            )
            &&& def.output is None ==> m.return_type == seq!['(', ')']
            &&& def.output matches Some(ty) ==> m.return_type == ty@
            &&& attrs_route(def.attrs@, read) == Ok::<Option<RouteModel>, AttrError>(m.http)
        },
{
    named_args_are_filtered(def.inputs@);
    reveal_strlit("()");
    assert("()"@ =~= seq!['(', ')']);
}

/// The arguments that are kept are those with a plain name.
proof fn named_args_are_filtered(inputs: Seq<Option<(String, String)>>)
    ensures
        named_args(inputs) == inputs.filter(|a: Option<(String, String)>| a is Some).map_values(
            |a: Option<(String, String)>| (a->Some_0.0@, a->Some_0.1@),
        ),
    decreases inputs.len(),
{
    let keep = |a: Option<(String, String)>| a is Some;
    let show = |a: Option<(String, String)>| (a->Some_0.0@, a->Some_0.1@);
    reveal(Seq::filter);
    if inputs.len() > 0 {
        named_args_are_filtered(inputs.drop_last());
        let before = inputs.drop_last().filter(keep);
        if inputs.last() is Some {
            assert(before.push(inputs.last()).map_values(show) =~= before.map_values(show).push(
                show(inputs.last()),
            ));
        }
    } else {
        assert(inputs.filter(keep).map_values(show) =~= Seq::empty());
    }
}

} // verus!
