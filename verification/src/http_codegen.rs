//! The code that is generated for methods with a route: the HTTP client, the
//! handlers of the HTTP server and the registration of their routes.

use crate::codegen::{declarations, methods_view, names, types, write_declarations, write_names,
    write_types, written_lists};
use crate::listing::{declared_text, listed_item_stands_in_the_text, lists, lists_grow, lists_nothing,
    named_text};
use crate::method::{args_view, MethodInfo, MethodModel};
use crate::naming::{pascal_case, to_pascal_case};
use crate::route::{braced, braced_path, braced_path_of_first, has_no_braces, is_tidy, param_is_a_piece,
    param_names, path_part, piece_is_a_param, pieces, pieces_are_tidy, route, HttpMethod, HttpRoute, Piece,
    RouteModel};
use crate::sequence::{filter_contains, push_contains, substring_before, substring_behind};
use crate::text::{contains, has_substring, join, joined, literal, occurs_at, replace, replaced, texts, texts_extend,
    to_literal};
use vstd::prelude::*;

verus! {

/// The arguments whose name is one of `wanted`.
pub open spec fn args_among(
    args: Seq<(Seq<char>, Seq<char>)>,
    wanted: Seq<Seq<char>>,
) -> Seq<(Seq<char>, Seq<char>)> {
    args.filter(|a: (Seq<char>, Seq<char>)| wanted.contains(a.0))
}

/// The first argument of the given name.
pub open spec fn arg_named(args: Seq<(Seq<char>, Seq<char>)>, name: Seq<char>) -> Option<
    (Seq<char>, Seq<char>),
>
    decreases args.len(),
{
    if args.len() == 0 {
        None
    } else if args[0].0 == name {
        Some(args[0])
    } else {
        arg_named(args.skip(1), name)
    }
}

/// The arguments that parameters stand for, in the order of the parameters.
pub open spec fn args_for(args: Seq<(Seq<char>, Seq<char>)>, params: Seq<Seq<char>>) -> Seq<
    (Seq<char>, Seq<char>),
>
    decreases params.len(),
{
    if params.len() == 0 {
        Seq::empty()
    } else {
        match arg_named(args, params.last()) {
            Some(arg) => args_for(args, params.drop_last()).push(arg),
            None => args_for(args, params.drop_last()),
        }
    }
}

/// The arguments that a path takes, in the order in which they stand in it.
pub open spec fn path_args(m: MethodModel, r: RouteModel) -> Seq<(Seq<char>, Seq<char>)> {
    args_for(m.args, r.path_params)
}

/// The arguments that a query takes.
pub open spec fn query_args(m: MethodModel, r: RouteModel) -> Seq<(Seq<char>, Seq<char>)> {
    args_among(m.args, r.query_params)
}

/// The arguments that a body takes: those that neither the path nor the query
/// takes.
pub open spec fn body_args(m: MethodModel, r: RouteModel) -> Seq<(Seq<char>, Seq<char>)> {
    m.args.filter(
        |a: (Seq<char>, Seq<char>)|
            !r.path_params.contains(a.0) && !r.query_params.contains(a.0),
    )
}

/// Selects the arguments whose name is one of `wanted`.
fn select_args(args: &Vec<(String, String)>, wanted: &Vec<String>) -> (selected: Vec<
    (String, String),
>)
    ensures
        args_view(selected@) == args_among(args_view(args@), texts(wanted@)),
{
    let mut selected: Vec<(String, String)> = Vec::new();
    let ghost all = args_view(args@);
    let ghost pred = |a: (Seq<char>, Seq<char>)| texts(wanted@).contains(a.0);
    let mut i: usize = 0;
    proof {
        reveal(Seq::filter);
        assert(args_view(selected@) =~= all.take(0).filter(pred));
    }
    while i < args.len()
        invariant
            i <= args@.len(),
            all == args_view(args@),
            pred == (|a: (Seq<char>, Seq<char>)| texts(wanted@).contains(a.0)),
            args_view(selected@) == all.take(i as int).filter(pred),
        decreases args.len() - i,
    {
        let ghost before = selected@;
        proof {
            reveal(Seq::filter);
            assert(all.take(i + 1).drop_last() =~= all.take(i as int));
            assert(all.take(i + 1).last() == all[i as int]);
        }
        if contains(wanted, &args[i].0) {
            selected.push((args[i].0.clone(), args[i].1.clone()));
            assert(args_view(selected@) =~= args_view(before).push(all[i as int]));
        }
        i = i + 1;
    }
    assert(all.take(i as int) =~= all);
    selected
}

/// Finds the first argument of the given name.
fn find_arg(args: &Vec<(String, String)>, name: &String) -> (found: Option<usize>)
    ensures
        match found {
            Some(i) => i < args@.len() && arg_named(args_view(args@), name@) == Some(
                (args@[i as int].0@, args@[i as int].1@),
            ),
            None => arg_named(args_view(args@), name@) is None,
        },
{
    let ghost all = args_view(args@);
    let mut i: usize = 0;
    assert(all.skip(0) =~= all);
    while i < args.len()
        invariant
            i <= args@.len(),
            all == args_view(args@),
            arg_named(all, name@) == arg_named(all.skip(i as int), name@),
        decreases args.len() - i,
    {
        assert(all.skip(i as int).skip(1) =~= all.skip(i + 1));
        if args[i].0 == *name {
            return Some(i);
        }
        i = i + 1;
    }
    None
}

/// Selects the arguments that parameters stand for, in the order of the
/// parameters.
fn select_in_order(args: &Vec<(String, String)>, params: &Vec<String>) -> (selected: Vec<
    (String, String),
>)
    ensures
        args_view(selected@) == args_for(args_view(args@), texts(params@)),
{
    let mut selected: Vec<(String, String)> = Vec::new();
    let ghost all = texts(params@);
    let mut i: usize = 0;
    assert(args_view(selected@) =~= args_for(args_view(args@), all.take(0)));
    while i < params.len()
        invariant
            i <= params@.len(),
            all == texts(params@),
            args_view(selected@) == args_for(args_view(args@), all.take(i as int)),
        decreases params.len() - i,
    {
        let ghost before = selected@;
        proof {
            assert(all.take(i + 1).drop_last() =~= all.take(i as int));
            assert(all.take(i + 1).last() == params@[i as int]@);
        }
        if let Some(k) = find_arg(args, &params[i]) {
            selected.push((args[k].0.clone(), args[k].1.clone()));
            assert(args_view(selected@) =~= args_view(before).push(
                (args@[k as int].0@, args@[k as int].1@),
            ));
        }
        i = i + 1;
    }
    assert(all.take(i as int) =~= all);
    selected
}

/// Selects the arguments that neither the path nor the query of a route takes.
fn select_body_args(args: &Vec<(String, String)>, r: &HttpRoute) -> (selected: Vec<
    (String, String),
>)
    ensures
        args_view(selected@) == args_view(args@).filter(
            |a: (Seq<char>, Seq<char>)|
                !r@.path_params.contains(a.0) && !r@.query_params.contains(a.0),
        ),
{
    let mut selected: Vec<(String, String)> = Vec::new();
    let ghost all = args_view(args@);
    let ghost pred = |a: (Seq<char>, Seq<char>)|
        !r@.path_params.contains(a.0) && !r@.query_params.contains(a.0);
    let mut i: usize = 0;
    proof {
        reveal(Seq::filter);
        assert(args_view(selected@) =~= all.take(0).filter(pred));
    }
    while i < args.len()
        invariant
            i <= args@.len(),
            all == args_view(args@),
            pred == (|a: (Seq<char>, Seq<char>)|
                !r@.path_params.contains(a.0) && !r@.query_params.contains(a.0)),
            args_view(selected@) == all.take(i as int).filter(pred),
        decreases args.len() - i,
    {
        let ghost before = selected@;
        proof {
            reveal(Seq::filter);
            assert(all.take(i + 1).drop_last() =~= all.take(i as int));
            assert(all.take(i + 1).last() == all[i as int]);
        }
        if !contains(&r.path_params, &args[i].0) && !contains(&r.query_params, &args[i].0) {
            selected.push((args[i].0.clone(), args[i].1.clone()));
            assert(args_view(selected@) =~= args_view(before).push(all[i as int]));
        }
        i = i + 1;
    }
    assert(all.take(i as int) =~= all);
    selected
}

/// A path with the parameters of the given names, one after the other,
/// replaced by the placeholder of a format string.
pub open spec fn format_string(path: Seq<char>, params: Seq<Seq<char>>) -> Seq<char>
    decreases params.len(),
{
    if params.len() == 0 {
        path
    } else {
        replaced(
            format_string(path, params.drop_last()),
            "{"@ + params.last() + "}"@,
            "{}"@,
        )
    }
}

/// Replaces the parameters of the given names by placeholders.
fn write_format_string(path: &str, params: &Vec<String>) -> (written: String)
    ensures
        written@ == format_string(path@, texts(params@)),
{
    let mut written = path.to_string();
    let ghost all = texts(params@);
    let mut i: usize = 0;
    while i < params.len()
        invariant
            i <= params@.len(),
            all == texts(params@),
            written@ == format_string(path@, all.take(i as int)),
        decreases params.len() - i,
    {
        proof {
            reveal_strlit("{");
            assert(all.take(i + 1).drop_last() =~= all.take(i as int));
            assert(all.take(i + 1).last() == params@[i as int]@);
        }
        let mut pattern = "{".to_string();
        pattern.push_str(&params[i]);
        pattern.push_str("}");
        written = replace(&written, &pattern, "{}");
        i = i + 1;
    }
    assert(all.take(i as int) =~= all);
    written
}

/// The expression for the path of a request.
pub open spec fn path_expression(m: MethodModel, r: RouteModel) -> Seq<char> {
    let params = names(""@, path_args(m, r));
    if params.len() == 0 {
        literal(r.path) + ".to_string()"@
    } else {
        "format!("@ + literal(format_string(r.path, params)) + ", "@ + joined(params, ", "@) + ")"@
    }
}

/// Writes the expression for the path of a request.
fn write_path(method: &MethodInfo, r: &HttpRoute) -> (code: String)
    ensures
        code@ == path_expression(method@, r@),
{
    let params = write_names("", &select_in_order(&method.args, &r.path_params));
    assert(texts(params@).len() == params@.len());
    if params.len() == 0 {
        let mut code = to_literal(&r.path);
        code.push_str(".to_string()");
        code
    } else {
        let mut code = "format!(".to_string();
        code.push_str(&to_literal(&write_format_string(&r.path, &params)));
        code.push_str(", ");
        code.push_str(&join(&params, ", "));
        code.push_str(")");
        code
    }
}

/// The expressions for the parameters of a query: name and value.
pub open spec fn query_pairs(params: Seq<Seq<char>>) -> Seq<Seq<char>> {
    params.map_values(|p: Seq<char>| "("@ + literal(p) + ", "@ + p + ".to_string())"@)
}

/// Writes the expressions for the parameters of a query.
fn write_query_pairs(params: &Vec<String>) -> (written: Vec<String>)
    ensures
        texts(written@) == query_pairs(texts(params@)),
{
    let mut written: Vec<String> = Vec::new();
    let ghost all = query_pairs(texts(params@));
    let mut i: usize = 0;
    assert(texts(written@) =~= all.take(0));
    while i < params.len()
        invariant
            i <= params@.len(),
            i == written@.len(),
            all == query_pairs(texts(params@)),
            texts(written@) == all.take(i as int),
        decreases params.len() - i,
    {
        let mut s = "(".to_string();
        s.push_str(&to_literal(&params[i]));
        s.push_str(", ");
        s.push_str(&params[i]);
        s.push_str(".to_string())");
        proof {
            texts_extend(written@, s, all);
        }
        written.push(s);
        i = i + 1;
    }
    assert(all.take(i as int) =~= all);
    written
}

/// The expression for the query of a request.
pub open spec fn query_expression(m: MethodModel, r: RouteModel) -> Seq<char> {
    let params = names(""@, query_args(m, r));
    if params.len() == 0 {
        "Vec::<(&str, String)>::new()"@
    } else {
        "vec!["@ + joined(query_pairs(params), ", "@) + "]"@
    }
}

/// Writes the expression for the query of a request.
fn write_query(method: &MethodInfo, r: &HttpRoute) -> (code: String)
    ensures
        code@ == query_expression(method@, r@),
{
    let params = write_names("", &select_args(&method.args, &r.query_params));
    assert(texts(params@).len() == params@.len());
    if params.len() == 0 {
        "Vec::<(&str, String)>::new()".to_string()
    } else {
        let mut code = "vec![".to_string();
        code.push_str(&join(&write_query_pairs(&params), ", "));
        code.push_str("]");
        code
    }
}

/// The expression for the body of a request: nothing, the only argument, or a
/// struct of the arguments.
pub open spec fn body_expression(m: MethodModel, r: RouteModel) -> Seq<char> {
    let args = body_args(m, r);
    if args.len() == 0 {
        "None::<&()>"@
    } else if args.len() == 1 {
        "Some(&"@ + args[0].0 + ")"@
    } else {
        "{ #[derive(::rsrpc::serde::Serialize)] struct __Body { "@ + joined(
            declarations(""@, args),
            ", "@,
        ) + " } Some(&__Body { "@ + joined(names(""@, args), ", "@) + " }) }"@
    }
}

/// Writes the expression for the body of a request.
fn write_body(method: &MethodInfo, r: &HttpRoute) -> (code: String)
    ensures
        code@ == body_expression(method@, r@),
{
    let args = select_body_args(&method.args, r);
    assert(args_view(args@).len() == args@.len());
    if args.len() == 0 {
        "None::<&()>".to_string()
    } else if args.len() == 1 {
        let mut code = "Some(&".to_string();
        code.push_str(&args[0].0);
        code.push_str(")");
        code
    } else {
        let mut code = "{ #[derive(::rsrpc::serde::Serialize)] struct __Body { ".to_string();
        code.push_str(&join(&write_declarations("", &args), ", "));
        code.push_str(" } Some(&__Body { ");
        code.push_str(&join(&write_names("", &args), ", "));
        code.push_str(" }) }");
        code
    }
}

/// The method of the HTTP client that makes a request.
pub open spec fn http_client_method(m: MethodModel, r: RouteModel) -> Seq<char> {
    "async fn "@ + m.name + "(&self, "@ + joined(declarations(""@, m.args), ", "@) + ") -> "@
        + m.return_type + " { let path = "@ + path_expression(m, r) + "; let query = "@
        + query_expression(m, r) + "; let body = "@ + body_expression(m, r) + "; self.request("@
        + r.method.constant() + ", &path, &query, body).await } "@
}

/// Generates the method of the HTTP client that makes a request, if the method
/// has a route.
pub fn generate_http_client_method(method: &MethodInfo) -> (code: Option<String>)
    ensures
        match method@.http {
            None => code is None,
            Some(r) => code matches Some(c) && c@ == http_client_method(method@, r),
        },
{
    match &method.http {
        None => None,
        Some(r) => {
            let mut code = "async fn ".to_string();
            code.push_str(&method.name);
            code.push_str("(&self, ");
            code.push_str(&join(&write_declarations("", &method.args), ", "));
            code.push_str(") -> ");
            code.push_str(&method.return_type);
            code.push_str(" { let path = ");
            code.push_str(&write_path(method, r));
            code.push_str("; let query = ");
            code.push_str(&write_query(method, r));
            code.push_str("; let body = ");
            code.push_str(&write_body(method, r));
            code.push_str("; self.request(");
            code.push_str(r.method.to_tokens());
            code.push_str(", &path, &query, body).await } ");
            Some(code)
        },
    }
}

/// The method of the HTTP client in the place of one without a route.
pub open spec fn http_client_stub(m: MethodModel) -> Seq<char> {
    "async fn "@ + m.name + "(&self, "@ + joined(declarations(""@, m.args), ", "@) + ") -> "@
        + m.return_type
        + " { panic!(\"Method '{}' is not available over HTTP. Use RPC client instead.\", "@
        + literal(m.name) + ") } "@
}

/// Generates the method of the HTTP client in the place of one without a
/// route.
pub fn generate_http_client_stub(method: &MethodInfo) -> (code: String)
    ensures
        code@ == http_client_stub(method@),
{
    let mut code = "async fn ".to_string();
    code.push_str(&method.name);
    code.push_str("(&self, ");
    code.push_str(&join(&write_declarations("", &method.args), ", "));
    code.push_str(") -> ");
    code.push_str(&method.return_type);
    code.push_str(
        " { panic!(\"Method '{}' is not available over HTTP. Use RPC client instead.\", ",
    );
    code.push_str(&to_literal(&method.name));
    code.push_str(") } ");
    code
}

/// The struct that the query of a request is read into.
pub open spec fn query_struct(m: MethodModel, r: RouteModel) -> Seq<char> {
    "#[derive(::rsrpc::serde::Deserialize)] struct __"@ + pascal_case(m.name) + "Query { "@
        + joined(declarations("pub "@, query_args(m, r)), ", "@) + " } "@
}

/// Generates the struct that the query of a request is read into, if the
/// method has a route with a query.
pub fn generate_query_struct(method: &MethodInfo) -> (code: Option<String>)
    ensures
        match method@.http {
            None => code is None,
            Some(r) => if r.query_params.len() == 0 {
                code is None
            } else {
                code matches Some(c) && c@ == query_struct(method@, r)
            },
        },
{
    match &method.http {
        None => None,
        Some(r) => {
            assert(r@.query_params.len() == r.query_params@.len());
            if r.query_params.len() == 0 {
                return None;
            }
            let mut code = "#[derive(::rsrpc::serde::Deserialize)] struct __".to_string();
            code.push_str(&to_pascal_case(&method.name));
            code.push_str("Query { ");
            code.push_str(
                &join(
                    &write_declarations("pub ", &select_args(&method.args, &r.query_params)),
                    ", ",
                ),
            );
            code.push_str(" } ");
            Some(code)
        },
    }
}

/// The struct that the body of a request is read into.
pub open spec fn body_struct(m: MethodModel, r: RouteModel) -> Seq<char> {
    "#[derive(::rsrpc::serde::Deserialize)] struct __"@ + pascal_case(m.name) + "Body { "@
        + joined(declarations("pub "@, body_args(m, r)), ", "@) + " } "@
}

/// Generates the struct that the body of a request is read into, if the method
/// has a route and the body takes more than one argument.
pub fn generate_body_struct(method: &MethodInfo) -> (code: Option<String>)
    ensures
        match method@.http {
            None => code is None,
            Some(r) => if body_args(method@, r).len() <= 1 {
                code is None
            } else {
                code matches Some(c) && c@ == body_struct(method@, r)
            },
        },
{
    match &method.http {
        None => None,
        Some(r) => {
            let args = select_body_args(&method.args, r);
            assert(args_view(args@).len() == args@.len());
            if args.len() > 1 {
                let mut code = "#[derive(::rsrpc::serde::Deserialize)] struct __".to_string();
                code.push_str(&to_pascal_case(&method.name));
                code.push_str("Body { ");
                code.push_str(&join(&write_declarations("pub ", &args), ", "));
                code.push_str(" } ");
                Some(code)
            } else {
                None
            }
        },
    }
}

/// The extractor of the service itself, which every handler has.
pub open spec fn state_extractor() -> Seq<char> {
    "::rsrpc::axum::extract::State(service): ::rsrpc::axum::extract::State<::std::sync::Arc<T>>"@
}

/// The names that the values in a path are bound to. A name that stands in the
/// path more than once is bound to the first of its values.
pub open spec fn path_patterns(args: Seq<(Seq<char>, Seq<char>)>) -> Seq<Seq<char>> {
    Seq::new(
        args.len(),
        |i: int|
            if exists|j: int| 0 <= j < i && (#[trigger] args[j]).0 == args[i].0 {
                "_"@
            } else {
                args[i].0
            },
    )
}

/// Writes the names that the values in a path are bound to.
fn write_path_patterns(args: &Vec<(String, String)>) -> (written: Vec<String>)
    ensures
        texts(written@) == path_patterns(args_view(args@)),
{
    let ghost all = path_patterns(args_view(args@));
    let mut written: Vec<String> = Vec::new();
    let mut i: usize = 0;
    assert(texts(written@) =~= all.take(0));
    while i < args.len()
        invariant
            i <= args@.len(),
            i == written@.len(),
            all == path_patterns(args_view(args@)),
            texts(written@) == all.take(i as int),
        decreases args.len() - i,
    {
        let mut repeated = false;
        let mut k: usize = 0;
        while k < i
            invariant
                k <= i < args@.len(),
                repeated == exists|j: int|
                    0 <= j < k && (#[trigger] args_view(args@)[j]).0 == args@[i as int].0@,
            decreases i - k,
        {
            if args[k].0 == args[i].0 {
                assert(args_view(args@)[k as int].0 == args@[i as int].0@);
                repeated = true;
            }
            k = k + 1;
        }
        let s = if repeated {
            "_".to_string()
        } else {
            args[i].0.clone()
        };
        proof {
            texts_extend(written@, s, all);
        }
        written.push(s);
        i = i + 1;
    }
    assert(all.take(i as int) =~= all);
    written
}

/// The extractor of the arguments in the path, if there are any.
pub open spec fn path_extractors(m: MethodModel, r: RouteModel) -> Seq<Seq<char>> {
    let args = path_args(m, r);
    if args.len() == 0 {
        Seq::empty()
    } else if args.len() == 1 {
        seq![
            "::rsrpc::axum::extract::Path("@ + args[0].0 + "): ::rsrpc::axum::extract::Path<"@
                + args[0].1 + ">"@,
        ]
    } else {
        seq![
            "::rsrpc::axum::extract::Path(("@ + joined(path_patterns(args), ", "@)
                + ")): ::rsrpc::axum::extract::Path<("@ + joined(types(args), ", "@) + ")>"@,
        ]
    }
}

/// The extractor of the query, if the route has one.
pub open spec fn query_extractors(m: MethodModel, r: RouteModel) -> Seq<Seq<char>> {
    if r.query_params.len() == 0 {
        Seq::empty()
    } else {
        seq![
            "::rsrpc::axum::extract::Query(query): ::rsrpc::axum::extract::Query<__"@
                + pascal_case(m.name) + "Query>"@,
        ]
    }
}

/// The extractor of the body, if there are arguments that it takes.
pub open spec fn body_extractors(m: MethodModel, r: RouteModel) -> Seq<Seq<char>> {
    let args = body_args(m, r);
    if args.len() == 0 {
        Seq::empty()
    } else if args.len() == 1 {
        seq![
            "::rsrpc::axum::extract::Json("@ + args[0].0 + "): ::rsrpc::axum::extract::Json<"@
                + args[0].1 + ">"@,
        ]
    } else {
        seq![
            "::rsrpc::axum::extract::Json(body): ::rsrpc::axum::extract::Json<__"@ + pascal_case(
                m.name,
            ) + "Body>"@,
        ]
    }
}

/// The extractors of a handler: the service, the path, the query, the body.
pub open spec fn extractors(m: MethodModel, r: RouteModel) -> Seq<Seq<char>> {
    seq![state_extractor()] + path_extractors(m, r) + query_extractors(m, r) + body_extractors(m, r)
}

/// Where a request carries the value of an argument.
pub enum Place {
    Path,
    Query,
    Body,
}

/// Where a request carries the value of the argument of the given name. The
/// path goes before the query.
pub open spec fn place_of(r: RouteModel, name: Seq<char>) -> Place {
    if r.path_params.contains(name) {
        Place::Path
    } else if r.query_params.contains(name) {
        Place::Query
    } else {
        Place::Body
    }
}

/// What a handler passes to the service for the argument of the given name.
pub open spec fn passed(m: MethodModel, r: RouteModel, name: Seq<char>) -> Seq<char> {
    match place_of(r, name) {
        Place::Path => name,
        Place::Query => "query."@ + name,
        Place::Body => if body_args(m, r).len() <= 1 {
            name
        } else {
            "body."@ + name
        },
    }
}

/// What a handler passes to the service: every argument in the order in which
/// the method declares them.
pub open spec fn call_args(m: MethodModel, r: RouteModel) -> Seq<Seq<char>> {
    m.args.map_values(|a: (Seq<char>, Seq<char>)| passed(m, r, a.0))
}

/// Appends a string to others.
fn append_one(strings: &mut Vec<String>, s: String)
    ensures
        texts(final(strings)@) == texts(old(strings)@) + seq![s@],
{
    let ghost before = strings@;
    strings.push(s);
    assert(texts(strings@) =~= texts(before) + seq![s@]);
}

/// Writes the extractors of a handler.
fn write_extractors(method: &MethodInfo, r: &HttpRoute) -> (written: Vec<String>)
    ensures
        texts(written@) == extractors(method@, r@),
{
    let path = select_in_order(&method.args, &r.path_params);
    let body = select_body_args(&method.args, r);
    let mut written: Vec<String> = Vec::new();
    proof {
        assert(args_view(path@).len() == path@.len());
        assert(args_view(body@).len() == body@.len());
        assert(r@.query_params.len() == r.query_params@.len());
    }
    append_one(
        &mut written,
        "::rsrpc::axum::extract::State(service): ::rsrpc::axum::extract::State<::std::sync::Arc<T>>".to_string(),
    );
    assert(texts(written@) =~= seq![state_extractor()]);
    if path.len() == 1 {
        let mut s = "::rsrpc::axum::extract::Path(".to_string();
        s.push_str(&path[0].0);
        s.push_str("): ::rsrpc::axum::extract::Path<");
        s.push_str(&path[0].1);
        s.push_str(">");
        append_one(&mut written, s);
    } else if path.len() > 1 {
        let mut s = "::rsrpc::axum::extract::Path((".to_string();
        s.push_str(&join(&write_path_patterns(&path), ", "));
        s.push_str(")): ::rsrpc::axum::extract::Path<(");
        s.push_str(&join(&write_types(&path), ", "));
        s.push_str(")>");
        append_one(&mut written, s);
    }
    assert(texts(written@) =~= seq![state_extractor()] + path_extractors(method@, r@));
    if r.query_params.len() > 0 {
        let mut s = "::rsrpc::axum::extract::Query(query): ::rsrpc::axum::extract::Query<__".to_string();
        s.push_str(&to_pascal_case(&method.name));
        s.push_str("Query>");
        append_one(&mut written, s);
    }
    assert(texts(written@) =~= seq![state_extractor()] + path_extractors(method@, r@)
        + query_extractors(method@, r@));
    if body.len() == 1 {
        let mut s = "::rsrpc::axum::extract::Json(".to_string();
        s.push_str(&body[0].0);
        s.push_str("): ::rsrpc::axum::extract::Json<");
        s.push_str(&body[0].1);
        s.push_str(">");
        append_one(&mut written, s);
    } else if body.len() > 1 {
        let mut s = "::rsrpc::axum::extract::Json(body): ::rsrpc::axum::extract::Json<__".to_string();
        s.push_str(&to_pascal_case(&method.name));
        s.push_str("Body>");
        append_one(&mut written, s);
    }
    assert(texts(written@) =~= extractors(method@, r@));
    written
}

/// Writes what a handler passes to the service.
fn write_call_args(method: &MethodInfo, r: &HttpRoute) -> (written: Vec<String>)
    ensures
        texts(written@) == call_args(method@, r@),
{
    let body = select_body_args(&method.args, r);
    let ghost all = call_args(method@, r@);
    let mut written: Vec<String> = Vec::new();
    let mut i: usize = 0;
    proof {
        assert(args_view(body@).len() == body@.len());
        assert(texts(written@) =~= all.take(0));
    }
    while i < method.args.len()
        invariant
            i <= method.args@.len(),
            i == written@.len(),
            all == call_args(method@, r@),
            body@.len() == body_args(method@, r@).len(),
            texts(written@) == all.take(i as int),
        decreases method.args.len() - i,
    {
        let name = &method.args[i].0;
        let mut s = if contains(&r.path_params, name) {
            String::new()
        } else if contains(&r.query_params, name) {
            "query.".to_string()
        } else if body.len() <= 1 {
            String::new()
        } else {
            "body.".to_string()
        };
        s.push_str(name);
        proof {
            assert(method@.args[i as int].0 == name@);
            assert(s@ =~= passed(method@, r@, name@));
            texts_extend(written@, s, all);
        }
        written.push(s);
        i = i + 1;
    }
    assert(all.take(i as int) =~= all);
    written
}

/// The handler of a method with a route.
pub open spec fn http_handler(m: MethodModel, r: RouteModel, trait_name: Seq<char>) -> Seq<char> {
    "async fn __"@ + m.name + "_handler<T: "@ + trait_name + ">("@ + joined(
        extractors(m, r),
        ", "@,
    ) + ") -> impl ::rsrpc::axum::response::IntoResponse { match service."@ + m.name + "("@
        + joined(call_args(m, r), ", "@)
        + ").await { Ok(v) => ::rsrpc::axum::Json(v).into_response(), Err(e) => (::rsrpc::axum::http::StatusCode::INTERNAL_SERVER_ERROR, e.to_string()).into_response(), } } "@
}

/// Generates the handler of a method, if it has a route.
pub fn generate_http_handler(method: &MethodInfo, trait_name: &str) -> (code: Option<String>)
    ensures
        match method@.http {
            None => code is None,
            Some(r) => code matches Some(c) && c@ == http_handler(method@, r, trait_name@),
        },
{
    match &method.http {
        None => None,
        Some(r) => {
            let mut code = "async fn __".to_string();
            code.push_str(&method.name);
            code.push_str("_handler<T: ");
            code.push_str(trait_name);
            code.push_str(">(");
            code.push_str(&join(&write_extractors(method, r), ", "));
            code.push_str(") -> impl ::rsrpc::axum::response::IntoResponse { match service.");
            code.push_str(&method.name);
            code.push_str("(");
            code.push_str(&join(&write_call_args(method, r), ", "));
            code.push_str(
                ").await { Ok(v) => ::rsrpc::axum::Json(v).into_response(), Err(e) => (::rsrpc::axum::http::StatusCode::INTERNAL_SERVER_ERROR, e.to_string()).into_response(), } } ",
            );
            Some(code)
        },
    }
}

/// The registration of a route.
pub open spec fn route_registration(m: MethodModel, r: RouteModel) -> Seq<char> {
    ".route("@ + literal(r.axum_path) + ", "@ + r.method.router() + "(__"@ + m.name
        + "_handler::<T>)) "@
}

/// Generates the registration of the route of a method, if it has one.
pub fn generate_route(method: &MethodInfo) -> (code: Option<String>)
    ensures
        match method@.http {
            None => code is None,
            Some(r) => code matches Some(c) && c@ == route_registration(method@, r),
        },
{
    match &method.http {
        None => None,
        Some(r) => {
            let mut code = ".route(".to_string();
            code.push_str(&to_literal(&r.axum_path));
            code.push_str(", ");
            code.push_str(r.method.to_axum_method());
            code.push_str("(__");
            code.push_str(&method.name);
            code.push_str("_handler::<T>)) ");
            Some(code)
        },
    }
}

/// Whether one of the methods has a route.
pub open spec fn has_http_methods(methods: Seq<MethodModel>) -> bool {
    exists|i: int| 0 <= i < methods.len() && (#[trigger] methods[i]).http is Some
}

/// Whether one of the methods has a route.
pub fn any_http(methods: &Vec<MethodInfo>) -> (any: bool)
    ensures
        any == has_http_methods(methods_view(methods@)),
{
    let mut i: usize = 0;
    while i < methods.len()
        invariant
            i <= methods@.len(),
            forall|j: int| 0 <= j < i ==> (#[trigger] methods_view(methods@)[j]).http is None,
        decreases methods.len() - i,
    {
        if methods[i].http.is_some() {
            assert(methods_view(methods@)[i as int].http is Some);
            return true;
        }
        i = i + 1;
    }
    false
}

/// The structs for the queries of the methods whose route has one.
pub open spec fn query_structs(methods: Seq<MethodModel>) -> Seq<char>
    decreases methods.len(),
{
    if methods.len() == 0 {
        Seq::empty()
    } else {
        let before = query_structs(methods.drop_last());
        match methods.last().http {
            Some(r) => if r.query_params.len() > 0 {
                before + query_struct(methods.last(), r)
            } else {
                before
            },
            None => before,
        }
    }
}

/// The structs for the bodies that take more than one argument.
pub open spec fn body_structs(methods: Seq<MethodModel>) -> Seq<char>
    decreases methods.len(),
{
    if methods.len() == 0 {
        Seq::empty()
    } else {
        let before = body_structs(methods.drop_last());
        match methods.last().http {
            Some(r) => if body_args(methods.last(), r).len() > 1 {
                before + body_struct(methods.last(), r)
            } else {
                before
            },
            None => before,
        }
    }
}

/// The handlers of the methods with a route.
pub open spec fn handlers(methods: Seq<MethodModel>, trait_name: Seq<char>) -> Seq<char>
    decreases methods.len(),
{
    if methods.len() == 0 {
        Seq::empty()
    } else {
        let before = handlers(methods.drop_last(), trait_name);
        match methods.last().http {
            Some(r) => before + http_handler(methods.last(), r, trait_name),
            None => before,
        }
    }
}

/// The registrations of the routes.
pub open spec fn registrations(methods: Seq<MethodModel>) -> Seq<char>
    decreases methods.len(),
{
    if methods.len() == 0 {
        Seq::empty()
    } else {
        let before = registrations(methods.drop_last());
        match methods.last().http {
            Some(r) => before + route_registration(methods.last(), r),
            None => before,
        }
    }
}

/// The function that makes a router of the routes of a service, with what it
/// needs; nothing if no method has a route.
pub open spec fn http_routes(
    methods: Seq<MethodModel>,
    trait_name: Seq<char>,
    trait_vis: Seq<char>,
) -> Seq<char> {
    if !has_http_methods(methods) {
        Seq::empty()
    } else {
        "#[cfg(feature = \"http\")] const _: () = { use ::rsrpc::axum::response::IntoResponse; "@
            + query_structs(methods) + body_structs(methods) + handlers(methods, trait_name)
            + "impl dyn "@ + trait_name
            + " { #[doc = \" Create an axum Router for HTTP endpoints.\"] "@ + trait_vis
            + " fn http_routes<T: "@ + trait_name
            + " + 'static>(service: ::std::sync::Arc<T>) -> ::rsrpc::axum::Router { ::rsrpc::axum::Router::new() "@
            + registrations(methods) + ".with_state(service) } } }; "@
    }
}

/// Generates the function that makes a router of the routes of a service.
pub fn generate_http_routes(methods: &Vec<MethodInfo>, trait_name: &str, trait_vis: &str) -> (code:
    String)
    ensures
        code@ == http_routes(methods_view(methods@), trait_name@, trait_vis@),
{
    if !any_http(methods) {
        return String::new();
    }
    let ghost all = methods_view(methods@);
    let mut queries = String::new();
    let mut bodies = String::new();
    let mut handling = String::new();
    let mut routes = String::new();
    let mut i: usize = 0;
    while i < methods.len()
        invariant
            i <= methods@.len(),
            all == methods_view(methods@),
            queries@ == query_structs(all.take(i as int)),
            bodies@ == body_structs(all.take(i as int)),
            handling@ == handlers(all.take(i as int), trait_name@),
            routes@ == registrations(all.take(i as int)),
        decreases methods.len() - i,
    {
        let method = &methods[i];
        proof {
            assert(all.take(i + 1).drop_last() =~= all.take(i as int));
            assert(all.take(i + 1).last() == method@);
        }
        if let Some(code) = generate_query_struct(method) {
            queries.push_str(&code);
        }
        if let Some(code) = generate_body_struct(method) {
            bodies.push_str(&code);
        }
        if let Some(code) = generate_http_handler(method, trait_name) {
            handling.push_str(&code);
        }
        if let Some(code) = generate_route(method) {
            routes.push_str(&code);
        }
        i = i + 1;
    }
    assert(all.take(i as int) =~= all);
    let mut code =
        "#[cfg(feature = \"http\")] const _: () = { use ::rsrpc::axum::response::IntoResponse; ".to_string();
    code.push_str(&queries);
    code.push_str(&bodies);
    code.push_str(&handling);
    code.push_str("impl dyn ");
    code.push_str(trait_name);
    code.push_str(" { #[doc = \" Create an axum Router for HTTP endpoints.\"] ");
    code.push_str(trait_vis);
    code.push_str(" fn http_routes<T: ");
    code.push_str(trait_name);
    code.push_str(
        " + 'static>(service: ::std::sync::Arc<T>) -> ::rsrpc::axum::Router { ::rsrpc::axum::Router::new() ",
    );
    code.push_str(&routes);
    code.push_str(".with_state(service) } } }; ");
    code
}

/// A parameter stands for an argument if there is one of its name.
proof fn args_for_names(args: Seq<(Seq<char>, Seq<char>)>, params: Seq<Seq<char>>, name: Seq<char>)
    ensures
        names(""@, args_for(args, params)).contains(name) <==> params.contains(name) && arg_named(
            args,
            name,
        ) is Some,
    decreases params.len(),
{
    if params.len() > 0 {
        let before = args_for(args, params.drop_last());
        let last = params.last();
        args_for_names(args, params.drop_last(), name);
        assert(params =~= params.drop_last().push(last));
        push_contains(params.drop_last(), last, name);
        if let Some(arg) = arg_named(args, last) {
            arg_named_has_the_name(args, last);
            reveal_strlit("");
            assert(names(""@, before.push(arg)) =~= names(""@, before).push(last)) by {
                assert(""@ + arg.0 =~= last);
            }
            push_contains(names(""@, before), last, name);
        }
    }
}

/// What is found by a name has that name.
proof fn arg_named_has_the_name(args: Seq<(Seq<char>, Seq<char>)>, name: Seq<char>)
    ensures
        arg_named(args, name) matches Some(arg) ==> arg.0 == name && args.contains(arg),
    decreases args.len(),
{
    if args.len() > 0 && args[0].0 != name {
        let rest = args.skip(1);
        arg_named_has_the_name(rest, name);
        if let Some(arg) = arg_named(rest, name) {
            let i = choose|i: int| 0 <= i < rest.len() && rest[i] == arg;
            assert(args[i + 1] == arg);
        }
    }
}

/// An argument is found by its name.
proof fn arg_is_named(args: Seq<(Seq<char>, Seq<char>)>, i: int)
    requires
        0 <= i < args.len(),
    ensures
        arg_named(args, args[i].0) is Some,
    decreases i,
{
    if args[0].0 != args[i].0 {
        assert(args.skip(1)[i - 1] == args[i]);
        arg_is_named(args.skip(1), i - 1);
    }
}

/// Every argument of a method with a route is in the path, in the query or in
/// the body. One in the body is in no other place.
pub proof fn every_argument_has_a_place(m: MethodModel, r: RouteModel, arg: (Seq<char>, Seq<char>))
    requires
        m.args.contains(arg),
    ensures
        names(""@, path_args(m, r)).contains(arg.0) <==> r.path_params.contains(arg.0),
        query_args(m, r).contains(arg) <==> r.query_params.contains(arg.0),
        body_args(m, r).contains(arg) <==> place_of(r, arg.0) is Body,
{
    let i = choose|i: int| 0 <= i < m.args.len() && m.args[i] == arg;
    arg_is_named(m.args, i);
    args_for_names(m.args, r.path_params, arg.0);
    filter_contains(m.args, |a: (Seq<char>, Seq<char>)| r.query_params.contains(a.0), arg);
    filter_contains(
        m.args,
        |a: (Seq<char>, Seq<char>)|
            !r.path_params.contains(a.0) && !r.query_params.contains(a.0),
        arg,
    );
}

/// What the client of a method sends, if the arguments have the given values:
/// the values for the placeholders of the path in their order, the parameters
/// of the query, and the values of the body, each with its name.
pub struct Sent<V> {
    pub path: Seq<V>,
    pub query: Seq<(Seq<char>, V)>,
    pub body: Seq<(Seq<char>, V)>,
}

/// The arguments by name, each with its value.
pub open spec fn valued<V>(
    args: Seq<(Seq<char>, Seq<char>)>,
    value: spec_fn(Seq<char>) -> V,
) -> Seq<(Seq<char>, V)> {
    args.map_values(|a: (Seq<char>, Seq<char>)| (a.0, value(a.0)))
}

/// What the client sends: `path_expression` lists the arguments of the path,
/// `query_expression` those of the query and `body_expression` those of the
/// body.
pub open spec fn sent<V>(m: MethodModel, r: RouteModel, value: spec_fn(Seq<char>) -> V) -> Sent<V> {
    Sent {
        path: valued(path_args(m, r), value).map_values(|p: (Seq<char>, V)| p.1),
        query: valued(query_args(m, r), value),
        body: valued(body_args(m, r), value),
    }
}

/// The value of the first pair of the given name.
pub open spec fn looked_up<V>(pairs: Seq<(Seq<char>, V)>, name: Seq<char>) -> Option<V>
    decreases pairs.len(),
{
    if pairs.len() == 0 {
        None
    } else if pairs[0].0 == name {
        Some(pairs[0].1)
    } else {
        looked_up(pairs.skip(1), name)
    }
}

/// The value that a handler passes for the argument of the given name:
/// `path_extractors` gives the values in the path, in their order, the names of
/// the arguments of the path, a repeated name to the first of its values; the
/// query is read by name, and so is the body.
pub open spec fn received<V>(m: MethodModel, r: RouteModel, s: Sent<V>, name: Seq<char>) -> Option<
    V,
> {
    match place_of(r, name) {
        Place::Path => looked_up(
            Seq::new(s.path.len(), |k: int| (path_args(m, r)[k].0, s.path[k])),
            name,
        ),
        Place::Query => looked_up(s.query, name),
        Place::Body => looked_up(s.body, name),
    }
}

/// The value of an argument is found by its name.
proof fn valued_is_looked_up<V>(
    args: Seq<(Seq<char>, Seq<char>)>,
    value: spec_fn(Seq<char>) -> V,
    name: Seq<char>,
)
    requires
        exists|i: int| 0 <= i < args.len() && (#[trigger] args[i]).0 == name,
    ensures
        looked_up(valued(args, value), name) == Some(value(name)),
    decreases args.len(),
{
    let i = choose|i: int| 0 <= i < args.len() && (#[trigger] args[i]).0 == name;
    if args[0].0 != name {
        let rest = args.skip(1);
        assert(rest[i - 1].0 == name);
        valued_is_looked_up(rest, value, name);
        assert(valued(args, value).skip(1) =~= valued(rest, value));
    }
}

/// The text for a path that takes the given arguments.
pub open spec fn sent_path(r: RouteModel, path: Seq<(Seq<char>, Seq<char>)>) -> Seq<char> {
    if path.len() == 0 {
        literal(r.path) + ".to_string()"@
    } else {
        "format!("@ + literal(format_string(r.path, Seq::new(path.len(), |i: int| path[i].0)))
            + ", "@ + named_text(""@, path) + ")"@
    }
}

/// The text for a query of the given arguments: each with its name and value.
pub open spec fn sent_query(query: Seq<(Seq<char>, Seq<char>)>) -> Seq<char> {
    if query.len() == 0 {
        "Vec::<(&str, String)>::new()"@
    } else {
        "vec!["@ + joined(
            Seq::new(
                query.len(),
                |i: int| "("@ + literal(query[i].0) + ", "@ + query[i].0 + ".to_string())"@,
            ),
            ", "@,
        ) + "]"@
    }
}

/// The text for a body of the given arguments.
pub open spec fn sent_body(body: Seq<(Seq<char>, Seq<char>)>) -> Seq<char> {
    if body.len() == 0 {
        "None::<&()>"@
    } else if body.len() == 1 {
        "Some(&"@ + body[0].0 + ")"@
    } else {
        "{ #[derive(::rsrpc::serde::Serialize)] struct __Body { "@ + declared_text(""@, body)
            + " } Some(&__Body { "@ + named_text(""@, body) + " }) }"@
    }
}

/// Whether a text is a client method that sends the given arguments in the
/// path, in the query and in the body.
pub open spec fn client_sends(
    text: Seq<char>,
    m: MethodModel,
    r: RouteModel,
    path: Seq<(Seq<char>, Seq<char>)>,
    query: Seq<(Seq<char>, Seq<char>)>,
    body: Seq<(Seq<char>, Seq<char>)>,
) -> bool {
    text == "async fn "@ + m.name + "(&self, "@ + declared_text(""@, m.args) + ") -> "@
        + m.return_type + " { let path = "@ + sent_path(r, path) + "; let query = "@ + sent_query(
        query,
    ) + "; let body = "@ + sent_body(body) + "; self.request("@ + r.method.constant()
        + ", &path, &query, body).await } "@
}

/// The texts of the extractors of a handler that takes the given arguments from
/// the path and from the body.
pub open spec fn taken(
    m: MethodModel,
    path: Seq<(Seq<char>, Seq<char>)>,
    query: bool,
    body: Seq<(Seq<char>, Seq<char>)>,
) -> Seq<Seq<char>> {
    seq![
        "::rsrpc::axum::extract::State(service): ::rsrpc::axum::extract::State<::std::sync::Arc<T>>"@,
    ] + (if path.len() == 0 {
        Seq::empty()
    } else if path.len() == 1 {
        seq![
            "::rsrpc::axum::extract::Path("@ + path[0].0 + "): ::rsrpc::axum::extract::Path<"@
                + path[0].1 + ">"@,
        ]
    } else {
        seq![
            "::rsrpc::axum::extract::Path(("@ + joined(path_patterns(path), ", "@)
                + ")): ::rsrpc::axum::extract::Path<("@ + joined(
                Seq::new(path.len(), |i: int| path[i].1),
                ", "@,
            ) + ")>"@,
        ]
    }) + (if !query {
        Seq::empty()
    } else {
        seq![
            "::rsrpc::axum::extract::Query(query): ::rsrpc::axum::extract::Query<__"@
                + pascal_case(m.name) + "Query>"@,
        ]
    }) + (if body.len() == 0 {
        Seq::empty()
    } else if body.len() == 1 {
        seq![
            "::rsrpc::axum::extract::Json("@ + body[0].0 + "): ::rsrpc::axum::extract::Json<"@
                + body[0].1 + ">"@,
        ]
    } else {
        seq![
            "::rsrpc::axum::extract::Json(body): ::rsrpc::axum::extract::Json<__"@ + pascal_case(
                m.name,
            ) + "Body>"@,
        ]
    })
}

/// Whether a text is a handler that takes the given arguments from the path and
/// from the body, and passes the given values to the service.
pub open spec fn handler_takes(
    text: Seq<char>,
    m: MethodModel,
    trait_name: Seq<char>,
    path: Seq<(Seq<char>, Seq<char>)>,
    query: bool,
    body: Seq<(Seq<char>, Seq<char>)>,
    values: Seq<Seq<char>>,
) -> bool {
    text == "async fn __"@ + m.name + "_handler<T: "@ + trait_name + ">("@ + joined(
        taken(m, path, query, body),
        ", "@,
    ) + ") -> impl ::rsrpc::axum::response::IntoResponse { match service."@ + m.name + "("@
        + joined(values, ", "@)
        + ").await { Ok(v) => ::rsrpc::axum::Json(v).into_response(), Err(e) => (::rsrpc::axum::http::StatusCode::INTERNAL_SERVER_ERROR, e.to_string()).into_response(), } } "@
}

/// Names behind nothing are the names.
proof fn plain_names(args: Seq<(Seq<char>, Seq<char>)>)
    ensures
        names(""@, args) == Seq::new(args.len(), |i: int| args[i].0),
        named_text(""@, args) == joined(Seq::new(args.len(), |i: int| args[i].0), ", "@),
{
    reveal_strlit("");
    assert forall|i: int| 0 <= i < args.len() implies ""@ + (#[trigger] args[i]).0 == args[i].0 by {
        assert(""@ + args[i].0 =~= args[i].0);
    }
    assert(names(""@, args) =~= Seq::new(args.len(), |i: int| args[i].0));
    assert(Seq::new(args.len(), |i: int| ""@ + args[i].0) =~= Seq::new(
        args.len(),
        |i: int| args[i].0,
    ));
}

/// The text of the client sends the arguments of the path, of the query and of
/// the body, all of each, whatever the HTTP method. There is no body exactly if
/// the path and the query take every argument.
pub proof fn client_sends_every_argument(m: MethodModel, r: RouteModel)
    ensures
        client_sends(
            http_client_method(m, r),
            m,
            r,
            path_args(m, r),
            query_args(m, r),
            body_args(m, r),
        ),
        body_expression(m, r) == "None::<&()>"@ <==> (forall|i: int|
            0 <= i < m.args.len() ==> r.path_params.contains((#[trigger] m.args[i]).0)
                || r.query_params.contains(m.args[i].0)),
        query_args(m, r) == m.args.filter(
            |a: (Seq<char>, Seq<char>)| r.query_params.contains(a.0),
        ),
        body_args(m, r) == m.args.filter(
            |a: (Seq<char>, Seq<char>)|
                !(r.path_params.contains(a.0) || r.query_params.contains(a.0)),
        ),
{
    let (path, query, body) = (path_args(m, r), query_args(m, r), body_args(m, r));
    plain_names(path);
    plain_names(query);
    written_lists(""@, m.args);
    written_lists(""@, path);
    written_lists(""@, body);
    assert(query_pairs(names(""@, query)) =~= Seq::new(
        query.len(),
        |i: int| "("@ + literal(query[i].0) + ", "@ + query[i].0 + ".to_string())"@,
    ));
    assert(path_expression(m, r) == sent_path(r, path));
    assert(query_expression(m, r) == sent_query(query));
    assert(body_expression(m, r) == sent_body(body));
    let in_body = |a: (Seq<char>, Seq<char>)|
        !r.path_params.contains(a.0) && !r.query_params.contains(a.0);
    let as_stated = |a: (Seq<char>, Seq<char>)|
        !(r.path_params.contains(a.0) || r.query_params.contains(a.0));
    assert(in_body =~= as_stated);
    reveal_strlit("None::<&()>");
    reveal_strlit("Some(&");
    reveal_strlit("{ #[derive(::rsrpc::serde::Serialize)] struct __Body { ");
    let text = body_expression(m, r);
    if body.len() == 1 {
        assert(text[0] == "Some(&"@[0]);
    } else if body.len() > 1 {
        assert(text[0] == "{ #[derive(::rsrpc::serde::Serialize)] struct __Body { "@[0]);
    }
    assert(body.len() == 0 <==> text == "None::<&()>"@);
    if body.len() == 0 {
        assert forall|i: int| 0 <= i < m.args.len() implies r.path_params.contains(
            (#[trigger] m.args[i]).0,
        ) || r.query_params.contains(m.args[i].0) by {
            filter_contains(m.args, in_body, m.args[i]);
            assert(m.args.contains(m.args[i]));
        }
    } else {
        filter_contains(m.args, in_body, body[0]);
        assert(body.contains(body[0]));
        let i = choose|i: int| 0 <= i < m.args.len() && m.args[i] == body[0];
        assert(!(r.path_params.contains(m.args[i].0) || r.query_params.contains(m.args[i].0)));
    }
}

/// The text of a handler takes from a request what the text of the client sends
/// in it: the same arguments of the path in the same order, the query if there
/// is one, and the same arguments of the body. It passes one value for each
/// argument of the method, in the order in which they are declared.
pub proof fn handler_takes_what_is_sent(m: MethodModel, r: RouteModel, trait_name: Seq<char>)
    ensures
        handler_takes(
            http_handler(m, r, trait_name),
            m,
            trait_name,
            path_args(m, r),
            r.query_params.len() > 0,
            body_args(m, r),
            Seq::new(
                m.args.len(),
                |i: int|
                    if r.path_params.contains(m.args[i].0) {
                        m.args[i].0
                    } else if r.query_params.contains(m.args[i].0) {
                        "query."@ + m.args[i].0
                    } else if body_args(m, r).len() <= 1 {
                        m.args[i].0
                    } else {
                        "body."@ + m.args[i].0
                    },
            ),
        ),
        query_struct(m, r) == "#[derive(::rsrpc::serde::Deserialize)] struct __"@ + pascal_case(
            m.name,
        ) + "Query { "@ + declared_text("pub "@, query_args(m, r)) + " } "@,
        body_struct(m, r) == "#[derive(::rsrpc::serde::Deserialize)] struct __"@ + pascal_case(
            m.name,
        ) + "Body { "@ + declared_text("pub "@, body_args(m, r)) + " } "@,
{
    let (path, body) = (path_args(m, r), body_args(m, r));
    written_lists("pub "@, query_args(m, r));
    written_lists("pub "@, body);
    written_lists(""@, path);
    assert(extractors(m, r) =~= taken(m, path, r.query_params.len() > 0, body));
    assert(call_args(m, r) =~= Seq::new(
        m.args.len(),
        |i: int|
            if r.path_params.contains(m.args[i].0) {
                m.args[i].0
            } else if r.query_params.contains(m.args[i].0) {
                "query."@ + m.args[i].0
            } else if body_args(m, r).len() <= 1 {
                m.args[i].0
            } else {
                "body."@ + m.args[i].0
            },
    ));
}

/// The value of the path at each place is bound to the name of the argument
/// there, but to nothing where the name was bound before.
pub proof fn path_values_are_bound_by_name(args: Seq<(Seq<char>, Seq<char>)>, i: int)
    requires
        0 <= i < args.len(),
    ensures
        path_patterns(args).len() == args.len(),
        (forall|j: int| 0 <= j < i ==> (#[trigger] args[j]).0 != args[i].0) ==> path_patterns(
            args,
        )[i] == args[i].0,
        (exists|j: int| 0 <= j < i && (#[trigger] args[j]).0 == args[i].0) ==> path_patterns(
            args,
        )[i] == seq!['_'],
{
    reveal_strlit("_");
    assert("_"@ =~= seq!['_']);
}

/// Parameters stand for arguments one by one: the arguments for some parameters
/// and then others are those for each.
pub proof fn parameters_are_taken_in_order(
    args: Seq<(Seq<char>, Seq<char>)>,
    a: Seq<Seq<char>>,
    b: Seq<Seq<char>>,
)
    ensures
        args_for(args, a + b) == args_for(args, a) + args_for(args, b),
    decreases b.len(),
{
    if b.len() == 0 {
        assert(a + b =~= a);
        assert(args_for(args, a) + args_for(args, b) =~= args_for(args, a));
    } else {
        parameters_are_taken_in_order(args, a, b.drop_last());
        assert((a + b).drop_last() =~= a + b.drop_last());
        assert((a + b).last() == b.last());
        assert(args_for(args, a + b) =~= args_for(args, a) + args_for(args, b));
    }
}

/// A parameter stands for the argument of its name, the first if there are
/// several, and for none if there is none.
pub proof fn parameter_stands_for_its_argument(
    args: Seq<(Seq<char>, Seq<char>)>,
    name: Seq<char>,
    i: int,
)
    requires
        0 <= i <= args.len(),
        forall|j: int| 0 <= j < i ==> (#[trigger] args[j]).0 != name,
        i < args.len() ==> args[i].0 == name,
    ensures
        args_for(args, seq![name]) == if i < args.len() {
            seq![args[i]]
        } else {
            Seq::empty()
        },
{
    arg_named_is_the_first(args, name, i);
    assert(seq![name].drop_last() =~= Seq::empty());
    reveal_with_fuel(args_for, 2);
    assert(args_for(args, seq![name]) =~= if i < args.len() {
        seq![args[i]]
    } else {
        Seq::empty()
    });
}

/// What is found by a name is the first of that name.
proof fn arg_named_is_the_first(args: Seq<(Seq<char>, Seq<char>)>, name: Seq<char>, i: int)
    requires
        0 <= i <= args.len(),
        forall|j: int| 0 <= j < i ==> (#[trigger] args[j]).0 != name,
        i < args.len() ==> args[i].0 == name,
    ensures
        arg_named(args, name) == if i < args.len() {
            Some(args[i])
        } else {
            None
        },
    decreases i,
{
    if i > 0 {
        let rest = args.skip(1);
        assert(args[0].0 != name);
        assert forall|j: int| 0 <= j < i - 1 implies (#[trigger] rest[j]).0 != name by {
            assert(rest[j] == args[j + 1]);
        }
        arg_named_is_the_first(rest, name, i - 1);
    }
}

/// Placeholders are put one parameter after the other, each by replacing the
/// parameter in its braces.
pub proof fn placeholders_are_put_one_by_one(path: Seq<char>, params: Seq<Seq<char>>, p: Seq<char>)
    ensures
        format_string(path, Seq::empty()) == path,
        format_string(path, params.push(p)) == replaced(
            format_string(path, params),
            seq!['{'] + p + seq!['}'],
            seq!['{', '}'],
        ),
{
    reveal_strlit("{");
    reveal_strlit("}");
    reveal_strlit("{}");
    assert(params.push(p).drop_last() =~= params);
    assert("{"@ + p + "}"@ =~= seq!['{'] + p + seq!['}']);
    assert("{}"@ =~= seq!['{', '}']);
}

/// Each value that the HTTP client sends reaches the parameter of its own name,
/// in whatever order the method declares its arguments. The text of the client
/// sends, and that of the handler takes, certain arguments in the path, in the
/// query and in the body; the handler passes as many values as there are
/// arguments, and the one at the place of an argument is the value that the
/// client was given for it.
pub proof fn arguments_arrive_by_name<V>(
    m: MethodModel,
    r: RouteModel,
    trait_name: Seq<char>,
    value: spec_fn(Seq<char>) -> V,
    i: int,
)
    requires
        0 <= i < m.args.len(),
    ensures
        client_sends(
            http_client_method(m, r),
            m,
            r,
            path_args(m, r),
            query_args(m, r),
            body_args(m, r),
        ),
        handler_takes(
            http_handler(m, r, trait_name),
            m,
            trait_name,
            path_args(m, r),
            r.query_params.len() > 0,
            body_args(m, r),
            call_args(m, r),
        ),
        call_args(m, r).len() == m.args.len(),
        call_args(m, r)[i] == passed(m, r, m.args[i].0),
        received(m, r, sent(m, r, value), m.args[i].0) == Some(value(m.args[i].0)),
{
    client_sends_every_argument(m, r);
    written_lists(""@, path_args(m, r));
    assert(extractors(m, r) =~= taken(
        m,
        path_args(m, r),
        r.query_params.len() > 0,
        body_args(m, r),
    ));
    let arg = m.args[i];
    let name = arg.0;
    assert(m.args.contains(arg));
    every_argument_has_a_place(m, r, arg);
    match place_of(r, name) {
        Place::Path => {
            let args = path_args(m, r);
            let s = sent(m, r, value);
            let plain = names(""@, args);
            let k = choose|k: int| 0 <= k < plain.len() && plain[k] == name;
            plain_names(args);
            valued_is_looked_up(args, value, name);
            assert(Seq::new(s.path.len(), |k: int| (args[k].0, s.path[k])) =~= valued(args, value));
        },
        Place::Query => {
            let args = query_args(m, r);
            let k = choose|k: int| 0 <= k < args.len() && args[k] == arg;
            assert(args[k].0 == name);
            valued_is_looked_up(args, value, name);
        },
        Place::Body => {
            let args = body_args(m, r);
            let k = choose|k: int| 0 <= k < args.len() && args[k] == arg;
            assert(args[k].0 == name);
            valued_is_looked_up(args, value, name);
        },
    }
}

/// A path with the parameters of the given names blank.
pub open spec fn blanked(ps: Seq<Piece>, params: Seq<Seq<char>>) -> Seq<Piece> {
    ps.map_values(
        |p: Piece|
            match p {
                Piece::Plain(text) => p,
                Piece::Param(name) => if params.contains(name) {
                    Piece::Param(Seq::empty())
                } else {
                    p
                },
            },
    )
}

/// Nothing is replaced in a text without the first character of the pattern.
proof fn replaced_behind(
    head: Seq<char>,
    rest: Seq<char>,
    pattern: Seq<char>,
    replacement: Seq<char>,
)
    requires
        pattern.len() > 0,
        !head.contains(pattern[0]),
    ensures
        replaced(head + rest, pattern, replacement) == head + replaced(rest, pattern, replacement),
    decreases head.len(),
{
    let s = head + rest;
    if head.len() == 0 {
        assert(s =~= rest);
    } else {
        let tail = head.skip(1);
        assert(head[0] != pattern[0]);
        if occurs_at(s, pattern, 0) {
            assert(s.subrange(0, pattern.len() as int)[0] == pattern[0]);
        }
        assert(!tail.contains(pattern[0])) by {
            if tail.contains(pattern[0]) {
                let i = choose|i: int| 0 <= i < tail.len() && tail[i] == pattern[0];
                assert(head[i + 1] == pattern[0]);
            }
        }
        replaced_behind(tail, rest, pattern, replacement);
        assert(s.skip(1) =~= tail + rest);
        assert(seq![s[0]] + (tail + replaced(rest, pattern, replacement)) =~= head + replaced(
            rest,
            pattern,
            replacement,
        ));
    }
}

/// In a tidy path a parameter is replaced where it stands and nowhere else.
proof fn parameter_is_replaced(ps: Seq<Piece>, name: Seq<char>)
    requires
        is_tidy(ps),
        has_no_braces(name),
    ensures
        replaced(braced_path(ps), "{"@ + name + "}"@, "{}"@) == braced_path(
            blanked(ps, seq![name]),
        ),
    decreases ps.len(),
{
    reveal_strlit("{");
    reveal_strlit("}");
    reveal_strlit("{}");
    let pattern = "{"@ + name + "}"@;
    if ps.len() == 0 {
        assert(braced_path(ps) =~= Seq::empty());
        assert(blanked(ps, seq![name]) =~= Seq::empty());
    } else {
        let first = ps[0];
        let rest = ps.skip(1);
        let behind = braced_path(rest);
        assert forall|i: int| 0 <= i < rest.len() implies match #[trigger] rest[i] {
            Piece::Plain(text) => !text.contains('{'),
            Piece::Param(name) => has_no_braces(name),
        } by {
            assert(rest[i] == ps[i + 1]);
        }
        parameter_is_replaced(rest, name);
        assert(ps =~= seq![first] + rest);
        braced_path_of_first(first, rest);
        let blank = blanked(seq![first], seq![name])[0];
        assert(blanked(ps, seq![name]) =~= seq![blank] + blanked(rest, seq![name]));
        braced_path_of_first(blank, blanked(rest, seq![name]));
        let s = braced_path(ps);
        match first {
            Piece::Plain(text) => {
                replaced_behind(text, behind, pattern, "{}"@);
            },
            Piece::Param(param) => {
                assert(s =~= seq!['{'] + param + seq!['}'] + behind);
                if param == name {
                    assert(seq![name].contains(name)) by {
                        assert(seq![name][0] == name);
                    }
                    assert(s.subrange(0, pattern.len() as int) =~= pattern);
                    assert(s.skip(pattern.len() as int) =~= behind);
                    assert(braced(blank) =~= "{}"@);
                } else {
                    assert(!seq![name].contains(param));
                    if occurs_at(s, pattern, 0) {
                        let found = s.subrange(0, pattern.len() as int);
                        if name.len() < param.len() {
                            assert(found[name.len() as int + 1] == '}');
                            assert(param[name.len() as int] == '}');
                        } else if name.len() > param.len() {
                            assert(found[param.len() as int + 1] == '}');
                            assert(name[param.len() as int] == '}');
                        } else {
                            assert forall|i: int| 0 <= i < name.len() implies name[i] == param[i] by {
                                assert(found[i + 1] == pattern[i + 1]);
                            }
                            assert(name =~= param);
                        }
                    }
                    let head = param + seq!['}'];
                    assert(!head.contains('{'));
                    replaced_behind(head, behind, pattern, "{}"@);
                    assert(s.skip(1) =~= head + behind);
                    assert(seq!['{'] + (head + replaced(behind, pattern, "{}"@)) =~= braced(first)
                        + replaced(behind, pattern, "{}"@));
                }
            },
        }
    }
}

/// The client builds the path of a request from the route as it was written:
/// the placeholders of its format string stand exactly where the parameters
/// stand that are arguments of the method, and everything else is kept.
pub proof fn placeholders_stand_for_parameters(ps: Seq<Piece>, params: Seq<Seq<char>>)
    requires
        is_tidy(ps),
        forall|i: int| 0 <= i < params.len() ==> has_no_braces(#[trigger] params[i]),
    ensures
        format_string(braced_path(ps), params) == braced_path(blanked(ps, params)),
    decreases params.len(),
{
    if params.len() == 0 {
        assert(blanked(ps, params) =~= ps);
    } else {
        let before = params.drop_last();
        let name = params.last();
        assert forall|i: int| 0 <= i < before.len() implies has_no_braces(#[trigger] before[i]) by {
            assert(before[i] == params[i]);
        }
        assert(has_no_braces(params[params.len() - 1]));
        placeholders_stand_for_parameters(ps, before);
        let half = blanked(ps, before);
        assert(is_tidy(half)) by {
            assert forall|i: int| 0 <= i < half.len() implies match #[trigger] half[i] {
                Piece::Plain(text) => !text.contains('{'),
                Piece::Param(name) => has_no_braces(name),
            } by {
                assert(match ps[i] {
                    Piece::Plain(text) => !text.contains('{'),
                    Piece::Param(name) => has_no_braces(name),
                });
            }
        }
        parameter_is_replaced(half, name);
        let whole = blanked(ps, params);
        let again = blanked(half, seq![name]);
        assert forall|i: int| 0 <= i < ps.len() implies #[trigger] again[i] == whole[i] by {
            if let Piece::Param(param) = ps[i] {
                assert(params =~= before.push(name));
                push_contains(before, name, param);
                push_contains(Seq::empty(), name, param);
                push_contains(Seq::empty(), name, Seq::empty());
                assert(Seq::<Seq<char>>::empty().push(name) =~= seq![name]);
                assert(!Seq::<Seq<char>>::empty().contains(param));
            }
        }
        assert(again =~= whole);
    }
}

/// What `format!` makes of a path whose nameless parameters are placeholders:
/// each is replaced by the next value.
pub open spec fn filled(ps: Seq<Piece>, values: Seq<Seq<char>>) -> Seq<char>
    decreases ps.len(),
{
    if ps.len() == 0 {
        Seq::empty()
    } else {
        match ps.last() {
            Piece::Param(name) => if name.len() == 0 && values.len() > 0 {
                filled(ps.drop_last(), values.drop_last()) + values.last()
            } else {
                filled(ps.drop_last(), values) + braced(ps.last())
            },
            Piece::Plain(text) => filled(ps.drop_last(), values) + text,
        }
    }
}

/// A path with each of the given parameters replaced by the value of its name.
pub open spec fn substituted(
    ps: Seq<Piece>,
    params: Seq<Seq<char>>,
    value: spec_fn(Seq<char>) -> Seq<char>,
) -> Seq<char>
    decreases ps.len(),
{
    if ps.len() == 0 {
        Seq::empty()
    } else {
        substituted(ps.drop_last(), params, value) + match ps.last() {
            Piece::Plain(text) => text,
            Piece::Param(name) => if params.contains(name) {
                value(name)
            } else {
                braced(ps.last())
            },
        }
    }
}

/// The values that stand for the parameters of a path, in their order, fill its
/// blanks each by the value of its name.
proof fn values_fill_their_places(
    ps: Seq<Piece>,
    args: Seq<(Seq<char>, Seq<char>)>,
    params: Seq<Seq<char>>,
    value: spec_fn(Seq<char>) -> Seq<char>,
)
    requires
        forall|i: int| 0 <= i < ps.len() ==> match #[trigger] ps[i] {
            Piece::Plain(_) => true,
            Piece::Param(name) => name.len() > 0 && (params.contains(name) <==> arg_named(
                args,
                name,
            ) is Some),
        },
    ensures
        filled(
            blanked(ps, params),
            names(""@, args_for(args, param_names(ps))).map_values(value),
        ) == substituted(ps, params, value),
    decreases ps.len(),
{
    if ps.len() > 0 {
        let before = ps.drop_last();
        assert forall|i: int| 0 <= i < before.len() implies match #[trigger] before[i] {
            Piece::Plain(_) => true,
            Piece::Param(name) => name.len() > 0 && (params.contains(name) <==> arg_named(
                args,
                name,
            ) is Some),
        } by {
            assert(before[i] == ps[i]);
        }
        values_fill_their_places(before, args, params, value);
        let blank = blanked(ps, params);
        assert(blank.drop_last() =~= blanked(before, params));
        let earlier = args_for(args, param_names(before));
        match ps.last() {
            Piece::Plain(text) => {
                assert(blank.last() == ps.last());
            },
            Piece::Param(name) => {
                assert(ps[ps.len() - 1] == Piece::Param(name));
                assert(param_names(ps).drop_last() =~= param_names(before));
                if let Some(arg) = arg_named(args, name) {
                    arg_named_has_the_name(args, name);
                    let values = names(""@, earlier).map_values(value);
                    reveal_strlit("");
                    assert(""@ + arg.0 =~= name);
                    assert(names(""@, earlier.push(arg)).map_values(value) =~= values.push(
                        value(name),
                    ));
                    assert(values.push(value(name)).drop_last() =~= values);
                    assert(blank.last() == Piece::Param(Seq::<char>::empty()));
                } else {
                    assert(blank.last() == ps.last());
                }
            },
        }
    } else {
        assert(blanked(ps, params) =~= Seq::empty());
    }
}

/// The client of a method asks for the path that its route string gives, with
/// each parameter that is an argument replaced by the value of the argument of
/// that name, in whatever order the method declares its arguments: the format
/// string has a placeholder for each, and the values are listed in the order of
/// the placeholders.
pub proof fn request_path_follows_the_route(
    s: Seq<char>,
    method: HttpMethod,
    m: MethodModel,
    value: spec_fn(Seq<char>) -> Seq<char>,
)
    requires
        forall|i: int| 0 <= i < pieces(path_part(s)).len() ==> match #[trigger] pieces(
            path_part(s),
        )[i] {
            Piece::Plain(_) => true,
            Piece::Param(name) => name.len() > 0 && !name.contains('{'),
        },
    ensures
        ({
            let r = route(s, method);
            let ps = pieces(path_part(s));
            let params = names(""@, path_args(m, r));
            &&& format_string(r.path, params) == braced_path(blanked(ps, params))
            &&& filled(blanked(ps, params), params.map_values(value)) == substituted(
                ps,
                params,
                value,
            )
            &&& forall|name: Seq<char>| #[trigger]
                params.contains(name) <==> r.path_params.contains(name) && arg_named(
                    m.args,
                    name,
                ) is Some
        }),
{
    let r = route(s, method);
    let ps = pieces(path_part(s));
    let params = names(""@, path_args(m, r));
    pieces_are_tidy(path_part(s));
    assert forall|name: Seq<char>| #[trigger]
        params.contains(name) <==> r.path_params.contains(name) && arg_named(
            m.args,
            name,
        ) is Some by {
        args_for_names(m.args, r.path_params, name);
    }
    assert forall|i: int| 0 <= i < params.len() implies has_no_braces(#[trigger] params[i]) by {
        assert(params.contains(params[i]));
        let k = param_is_a_piece(ps, params[i]);
        assert(match ps[k] {
            Piece::Plain(text) => !text.contains('{'),
            Piece::Param(name) => has_no_braces(name),
        });
    }
    placeholders_stand_for_parameters(ps, params);
    assert forall|i: int| 0 <= i < ps.len() implies match #[trigger] ps[i] {
        Piece::Plain(_) => true,
        Piece::Param(name) => name.len() > 0 && (params.contains(name) <==> arg_named(
            m.args,
            name,
        ) is Some),
    } by {
        piece_is_a_param(ps, i);
    }
    values_fill_their_places(ps, m.args, params, value);
}

/// A method without a route panics in the HTTP client, and says which method it
/// was.
pub proof fn method_without_a_route_panics(m: MethodModel)
    ensures
        http_client_stub(m) == "async fn "@ + m.name + "(&self, "@ + declared_text(""@, m.args)
            + ") -> "@ + m.return_type
            + " { panic!(\"Method '{}' is not available over HTTP. Use RPC client instead.\", "@
            + literal(m.name) + ") } "@,
{
    written_lists(""@, m.args);
}

/// A route is registered with its path for the router, its HTTP method and the
/// handler of its method.
pub proof fn route_is_registered_with_its_handler(m: MethodModel, r: RouteModel)
    ensures
        route_registration(m, r) == ".route("@ + literal(r.axum_path) + ", "@ + r.method.router()
            + "(__"@ + m.name + "_handler::<T>)) "@,
{
}

/// What is generated for the method at `i`: the part for its route, if it has
/// one that the part is for.
pub open spec fn route_parts(
    methods: Seq<MethodModel>,
    part: spec_fn(MethodModel, RouteModel) -> Seq<char>,
) -> Seq<Seq<char>> {
    Seq::new(
        methods.len(),
        |i: int|
            match methods[i].http {
                Some(r) => part(methods[i], r),
                None => Seq::empty(),
            },
    )
}

/// For every method with a route the code of the server has its handler, its
/// registration, the struct for its query if its route has one and the struct
/// for its body if that takes more than one argument: each once, in the order of
/// the methods, and nothing else.
pub proof fn every_route_is_served(methods: Seq<MethodModel>, trait_name: Seq<char>)
    ensures
        lists(
            registrations(methods),
            route_parts(methods, |m: MethodModel, r: RouteModel| route_registration(m, r)),
            Seq::empty(),
        ),
        lists(
            handlers(methods, trait_name),
            route_parts(methods, |m: MethodModel, r: RouteModel| http_handler(m, r, trait_name)),
            Seq::empty(),
        ),
        lists(
            query_structs(methods),
            route_parts(
                methods,
                |m: MethodModel, r: RouteModel|
                    if r.query_params.len() > 0 {
                        query_struct(m, r)
                    } else {
                        Seq::empty()
                    },
            ),
            Seq::empty(),
        ),
        lists(
            body_structs(methods),
            route_parts(
                methods,
                |m: MethodModel, r: RouteModel|
                    if body_args(m, r).len() > 1 {
                        body_struct(m, r)
                    } else {
                        Seq::empty()
                    },
            ),
            Seq::empty(),
        ),
    decreases methods.len(),
{
    let registration = |m: MethodModel, r: RouteModel| route_registration(m, r);
    let handler = |m: MethodModel, r: RouteModel| http_handler(m, r, trait_name);
    let query = |m: MethodModel, r: RouteModel|
        if r.query_params.len() > 0 {
            query_struct(m, r)
        } else {
            Seq::empty()
        };
    let body = |m: MethodModel, r: RouteModel|
        if body_args(m, r).len() > 1 {
            body_struct(m, r)
        } else {
            Seq::empty()
        };
    if methods.len() == 0 {
        lists_nothing();
        assert(route_parts(methods, registration) =~= Seq::empty());
        assert(route_parts(methods, handler) =~= Seq::empty());
        assert(route_parts(methods, query) =~= Seq::empty());
        assert(route_parts(methods, body) =~= Seq::empty());
    } else {
        let before = methods.drop_last();
        every_route_is_served(before, trait_name);
        parts_grow(methods, registration, registrations(before));
        parts_grow(methods, handler, handlers(before, trait_name));
        parts_grow(methods, query, query_structs(before));
        parts_grow(methods, body, body_structs(before));
        let none = Seq::<char>::empty();
        assert(registrations(before) + none =~= registrations(before));
        assert(handlers(before, trait_name) + none =~= handlers(before, trait_name));
        assert(query_structs(before) + none =~= query_structs(before));
        assert(body_structs(before) + none =~= body_structs(before));
    }
}

/// The parts for some methods and then the part for one more.
proof fn parts_grow(
    methods: Seq<MethodModel>,
    part: spec_fn(MethodModel, RouteModel) -> Seq<char>,
    text: Seq<char>,
)
    requires
        methods.len() > 0,
        lists(text, route_parts(methods.drop_last(), part), Seq::empty()),
    ensures
        lists(
            text + route_parts(methods, part).last(),
            route_parts(methods, part),
            Seq::empty(),
        ),
{
    let before = route_parts(methods.drop_last(), part);
    let last = route_parts(methods, part).last();
    lists_grow(text, before, last);
    assert(before.push(last) =~= route_parts(methods, part));
}

/// The function that makes the router registers the route of every method that
/// has one, and the code before it has the handler.
pub proof fn every_route_is_in_the_router(
    methods: Seq<MethodModel>,
    trait_name: Seq<char>,
    trait_vis: Seq<char>,
    i: int,
    r: RouteModel,
)
    requires
        0 <= i < methods.len(),
        methods[i].http == Some(r),
    ensures
        http_routes(methods, trait_name, trait_vis)
            == "#[cfg(feature = \"http\")] const _: () = { use ::rsrpc::axum::response::IntoResponse; "@
            + query_structs(methods) + body_structs(methods) + handlers(methods, trait_name)
            + "impl dyn "@ + trait_name
            + " { #[doc = \" Create an axum Router for HTTP endpoints.\"] "@ + trait_vis
            + " fn http_routes<T: "@ + trait_name
            + " + 'static>(service: ::std::sync::Arc<T>) -> ::rsrpc::axum::Router { ::rsrpc::axum::Router::new() "@
            + registrations(methods) + ".with_state(service) } } }; "@,
        has_substring(
            http_routes(methods, trait_name, trait_vis),
            route_registration(methods[i], r),
        ),
        has_substring(
            http_routes(methods, trait_name, trait_vis),
            http_handler(methods[i], r, trait_name),
        ),
{
    let registration = |m: MethodModel, r: RouteModel| route_registration(m, r);
    let handler = |m: MethodModel, r: RouteModel| http_handler(m, r, trait_name);
    every_route_is_served(methods, trait_name);
    listed_item_stands_in_the_text(
        registrations(methods),
        route_parts(methods, registration),
        Seq::empty(),
        i,
    );
    listed_item_stands_in_the_text(
        handlers(methods, trait_name),
        route_parts(methods, handler),
        Seq::empty(),
        i,
    );
    assert(route_parts(methods, registration)[i] == route_registration(methods[i], r));
    assert(route_parts(methods, handler)[i] == http_handler(methods[i], r, trait_name));
    let handling = http_handler(methods[i], r, trait_name);
    let registered = route_registration(methods[i], r);
    let t0 =
        "#[cfg(feature = \"http\")] const _: () = { use ::rsrpc::axum::response::IntoResponse; "@
        + query_structs(methods) + body_structs(methods);
    let t1 = t0 + handlers(methods, trait_name);
    let t2 = t1 + "impl dyn "@;
    let t3 = t2 + trait_name;
    let t4 = t3 + " { #[doc = \" Create an axum Router for HTTP endpoints.\"] "@;
    let t5 = t4 + trait_vis;
    let t6 = t5 + " fn http_routes<T: "@;
    let t7 = t6 + trait_name;
    let t8 = t7
        + " + 'static>(service: ::std::sync::Arc<T>) -> ::rsrpc::axum::Router { ::rsrpc::axum::Router::new() "@;
    let t9 = t8 + registrations(methods);
    substring_behind(t0, handlers(methods, trait_name), handling);
    substring_before(t1, "impl dyn "@, handling);
    substring_before(t2, trait_name, handling);
    substring_before(t3, " { #[doc = \" Create an axum Router for HTTP endpoints.\"] "@, handling);
    substring_before(t4, trait_vis, handling);
    substring_before(t5, " fn http_routes<T: "@, handling);
    substring_before(t6, trait_name, handling);
    substring_before(
        t7,
        " + 'static>(service: ::std::sync::Arc<T>) -> ::rsrpc::axum::Router { ::rsrpc::axum::Router::new() "@,
        handling,
    );
    substring_before(t8, registrations(methods), handling);
    substring_before(t9, ".with_state(service) } } }; "@, handling);
    substring_behind(t8, registrations(methods), registered);
    substring_before(t9, ".with_state(service) } } }; "@, registered);
}

} // verus!
