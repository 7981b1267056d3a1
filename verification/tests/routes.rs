use rsrpc::method::{
    check_route_string, find_http_attr, http_method_of, info_of_method, parse_http_attrs,
    parse_method, read_literal, route_of_attrs, AttrArgs, AttrDef, AttrError, AttrProblem,
    MethodDef,
};
use rsrpc::naming::{to_pascal_case, to_snake_case};
use rsrpc::route::{parse_route, HttpMethod};
use rsrpc::text::{contains, contains_text, find, join, replace, to_chars, to_decimal, to_literal, trim_end};

fn attr(path: &[&str], args: AttrArgs) -> AttrDef {
    AttrDef {
        path: path.iter().map(|s| s.to_string()).collect(),
        inner: false,
        args,
        text: format!("#[{}]", path.join("::")),
    }
}

fn tokens(text: &str) -> AttrArgs {
    AttrArgs::Tokens(text.to_string())
}

#[test]
fn names_in_snake_case() {
    assert_eq!(to_snake_case("LogService"), "log_service");
    assert_eq!(to_snake_case("worker"), "worker");
    assert_eq!(to_snake_case("HTTPServer"), "h_t_t_p_server");
    assert_eq!(to_snake_case("Already_Snake"), "already__snake");
    assert_eq!(to_snake_case(""), "");
    assert_eq!(to_snake_case("\u{c9}tat"), "\u{e9}tat");
    assert_eq!(to_snake_case("a\u{c9}"), "a_\u{e9}");
    assert_eq!(to_snake_case(&to_snake_case("UserService2")), to_snake_case("UserService2"));
}

#[test]
fn names_in_pascal_case() {
    assert_eq!(to_pascal_case("run_task"), "RunTask");
    assert_eq!(to_pascal_case("status"), "Status");
    assert_eq!(to_pascal_case("__private__name_"), "PrivateName");
    assert_eq!(to_pascal_case("getURL"), "GetURL");
    assert_eq!(to_pascal_case(""), "");
    assert_eq!(to_pascal_case("\u{e9}tat_\u{df}"), "\u{c9}tatS");
}

#[test]
fn http_methods_by_name() {
    assert_eq!(HttpMethod::from_str("get"), Some(HttpMethod::Get));
    assert_eq!(HttpMethod::from_str("POST"), Some(HttpMethod::Post));
    assert_eq!(HttpMethod::from_str("Put"), Some(HttpMethod::Put));
    assert_eq!(HttpMethod::from_str("patch"), Some(HttpMethod::Patch));
    assert_eq!(HttpMethod::from_str("DELete"), Some(HttpMethod::Delete));
    assert_eq!(HttpMethod::from_str("head"), None);
    assert_eq!(HttpMethod::from_str(""), None);
    assert_eq!(HttpMethod::from_str("g\u{c9}t"), None);
}

#[test]
fn http_methods_in_code() {
    let all = [
        (HttpMethod::Get, "GET", "get"),
        (HttpMethod::Post, "POST", "post"),
        (HttpMethod::Put, "PUT", "put"),
        (HttpMethod::Patch, "PATCH", "patch"),
        (HttpMethod::Delete, "DELETE", "delete"),
    ];
    for (method, constant, function) in all {
        assert_eq!(method.to_tokens(), format!("::rsrpc::http::Method::{constant}"));
        assert_eq!(method.to_axum_method(), format!("::rsrpc::axum::routing::{function}"));
    }
}

#[test]
fn route_with_parameters_and_query() {
    let route = parse_route("/logs/{id}/?limit", HttpMethod::Get);
    assert_eq!(route.method, HttpMethod::Get);
    assert_eq!(route.path, "/logs/{id}");
    assert_eq!(route.axum_path, "/logs/:id");
    assert_eq!(route.path_params, ["id"]);
    assert_eq!(route.query_params, ["limit"]);
}

#[test]
fn route_without_parameters() {
    let route = parse_route("/users", HttpMethod::Post);
    assert_eq!(route.path, "/users");
    assert_eq!(route.axum_path, "/users");
    assert!(route.path_params.is_empty());
    assert!(route.query_params.is_empty());
    let empty = parse_route("", HttpMethod::Get);
    assert_eq!((empty.path.as_str(), empty.axum_path.as_str()), ("", ""));
}

#[test]
fn queries_of_several_parameters() {
    for query in ["/x/?a&b", "/x/?a/?b", "/x/? a & b ", "/x/?&a?/b&"] {
        assert_eq!(parse_route(query, HttpMethod::Get).query_params, ["a", "b"], "{query}");
    }
    assert!(parse_route("/x/?", HttpMethod::Get).query_params.is_empty());
    assert!(parse_route("/x/?  &\u{2003}", HttpMethod::Get).query_params.is_empty());
    let plain = parse_route("/x?a", HttpMethod::Get);
    assert_eq!(plain.path, "/x?a");
    assert!(plain.query_params.is_empty());
}

#[test]
fn paths_with_odd_braces() {
    let open = parse_route("/a/{id", HttpMethod::Get);
    assert_eq!(open.path, "/a/{id}");
    assert_eq!(open.axum_path, "/a/:id");
    assert_eq!(open.path_params, ["id"]);
    let closing = parse_route("/a}/{x}{y}", HttpMethod::Get);
    assert_eq!(closing.path, "/a}/{x}{y}");
    assert_eq!(closing.axum_path, "/a}/:x:y");
    assert_eq!(closing.path_params, ["x", "y"]);
    let empty = parse_route("/{}", HttpMethod::Get);
    assert_eq!(empty.axum_path, "/:");
    assert_eq!(empty.path_params, [""]);
    let again = parse_route(&open.path, HttpMethod::Get);
    assert_eq!(again.path, open.path);
    assert_eq!(again.axum_path, open.axum_path);
}

#[test]
fn attributes_that_name_a_method() {
    assert_eq!(http_method_of(&attr(&["get"], AttrArgs::Absent)), Some(HttpMethod::Get));
    assert_eq!(http_method_of(&attr(&["web", "get"], AttrArgs::Absent)), None);
    assert_eq!(http_method_of(&attr(&["doc"], AttrArgs::Value)), None);
    let attrs = vec![
        attr(&["doc"], AttrArgs::Value),
        attr(&["put"], tokens("\"/a\"")),
        attr(&["get"], tokens("\"/b\"")),
    ];
    assert_eq!(find_http_attr(&attrs), Some((1, HttpMethod::Put)));
    assert_eq!(find_http_attr(&vec![]), None);
}

/// What is read from an attribute with the given tokens.
fn read(text: &str) -> Option<String> {
    read_literal(&vec![attr(&["get"], tokens(text))])
}

#[test]
fn route_strings_are_literals() {
    assert_eq!(read("\"/a/{id}\""), Some("/a/{id}".to_string()));
    assert_eq!(read("\"\""), Some(String::new()));
    assert_eq!(read("r#\"/r\"#"), Some("/r".to_string()));
    assert_eq!(read("\"\\x2fe\\\"\""), Some("/e\"".to_string()));
    assert_eq!(read("\"/\u{e9}\""), Some("/\u{e9}".to_string()));
    assert_eq!(read("r\"a\\n\""), Some("a\\n".to_string()));
    assert_eq!(read("r##\"a\"##"), Some("a".to_string()));
    assert_eq!(read("\"two\nlines\t\""), Some("two\nlines\t".to_string()));
    assert_eq!(
        read("\"\\n\\r\\t\\0\\\\\\'\\x7f\\u{E9}\\u{1f980}\""),
        Some("\n\r\t\0\\'\u{7f}\u{e9}\u{1f980}".to_string())
    );
    assert_eq!(read(""), None);
    assert_eq!(read("42"), None);
    assert_eq!(read("\"open"), None);
    assert_eq!(read("b\"a\""), None);
    assert_eq!(read("path = \"/a\""), None);
    assert_eq!(read("route = \"/a\""), None);
    assert_eq!(read("(\"/a\")"), None);
    assert_eq!(read("\"/a\","), None);
    assert_eq!(read("\"/a\" , x"), None);
    assert_eq!(read("\"/a\"\"/b\""), None);
    assert_eq!(read("\"/a\" b"), None);
    assert_eq!(read("r\"/a\", \"/b\""), None);
    assert_eq!(read("\"a\", \"b\""), None);
    assert_eq!(read_literal(&vec![attr(&["doc"], tokens("\"a\""))]), None);
    assert_eq!(read_literal(&vec![attr(&["get"], AttrArgs::Absent)]), None);
}

#[test]
fn attributes_without_a_literal_give_no_route() {
    let text = Some("/a".to_string());
    assert_eq!(check_route_string(&tokens("x"), text.clone()), Ok("/a".to_string()));
    assert_eq!(check_route_string(&tokens("x"), None), Err(AttrProblem::NoLiteral));
    assert_eq!(
        check_route_string(&AttrArgs::Absent, text.clone()),
        Err(AttrProblem::NoArguments)
    );
    assert_eq!(check_route_string(&AttrArgs::Value, text), Err(AttrProblem::NoParentheses));
}

#[test]
fn routes_follow_what_was_read() {
    let attrs = vec![attr(&["get"], tokens("r\"/x\""))];
    let route = route_of_attrs(&attrs, Some("/y/{z}".to_string())).unwrap().unwrap();
    assert_eq!(route.path, "/y/{z}");
    assert_eq!(
        route_of_attrs(&attrs, None).unwrap_err(),
        AttrError { index: 0, problem: AttrProblem::NoLiteral }
    );
}

#[test]
fn first_route_counts() {
    let attrs = vec![
        attr(&["doc"], AttrArgs::Value),
        attr(&["delete"], tokens("\"/a\"")),
        attr(&["get"], tokens("7")),
    ];
    let route = parse_http_attrs(&attrs).unwrap().unwrap();
    assert_eq!(route.method, HttpMethod::Delete);
    assert_eq!(route.path, "/a");
    let attrs = vec![attr(&["doc"], AttrArgs::Value), attr(&["get"], tokens("7"))];
    assert_eq!(
        parse_http_attrs(&attrs).unwrap_err(),
        AttrError { index: 1, problem: AttrProblem::NoLiteral }
    );
    assert!(parse_http_attrs(&vec![]).unwrap().is_none());
}

#[test]
fn methods_keep_named_arguments() {
    let def = MethodDef {
        name: "f".to_string(),
        attrs: vec![],
        inputs: vec![
            None,
            Some(("a".to_string(), "i32".to_string())),
            None,
            Some(("b".to_string(), "Vec<u8>".to_string())),
        ],
        output: None,
        signature: String::new(),
        body: None,
    };
    let info = parse_method(&def).unwrap();
    assert_eq!(info.name, "f");
    assert_eq!(info.return_type, "()");
    assert_eq!(info_of_method(&def, None).unwrap().args, info.args);
    assert!(info.http.is_none());
    assert_eq!(
        info.args,
        [
            ("a".to_string(), "i32".to_string()),
            ("b".to_string(), "Vec<u8>".to_string())
        ]
    );
}

#[test]
fn texts_are_searched_and_replaced() {
    let strings = vec!["a".to_string(), "b".to_string()];
    assert!(contains(&strings, &"b".to_string()));
    assert!(!contains(&strings, &"c".to_string()));
    assert_eq!(join(&strings, ", "), "a, b");
    assert_eq!(join(&vec![], ", "), "");
    assert_eq!(find(&to_chars("a/b/?c/?d"), &to_chars("/?")), Some(3));
    assert_eq!(find(&to_chars("abc"), &to_chars("")), Some(0));
    assert_eq!(find(&to_chars("ab"), &to_chars("abc")), None);
    assert!(contains_text("x ?Send y", "?Send"));
    assert!(!contains_text("? Send", "?Send"));
    assert_eq!(replace("/{id}/{id}x{ids}", "{id}", "{}"), "/{}/{}x{ids}");
    assert_eq!(replace("aaa", "aa", "b"), "ba");
    assert_eq!(trim_end("http://h//", '/'), "http://h");
    assert_eq!(trim_end("///", '/'), "");
    assert_eq!(trim_end("/x", '/'), "/x");
}

#[test]
fn numbers_and_literals() {
    for n in [0u16, 9, 10, 404, 65535] {
        assert_eq!(to_decimal(n), n.to_string());
    }
    assert_eq!(to_literal("a\"b\\c\n\r\0\td"), "\"a\\\"b\\\\c\\n\\r\\0\td\"");
    for text in ["", "/logs/{id}", "\"quoted\" \\ \n\r\0\t \u{e9}"] {
        let read: syn::LitStr = syn::parse_str(&to_literal(text)).unwrap();
        assert_eq!(read.value(), text);
    }
}
