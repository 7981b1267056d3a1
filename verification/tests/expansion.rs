use proc_macro2::TokenStream;
use rsrpc::codegen::{
    generate_client_method, generate_dispatch_arm, generate_method_id, generate_request_struct,
};
use rsrpc::http_codegen::{
    any_http, generate_body_struct, generate_http_client_method, generate_http_client_stub,
    generate_http_handler, generate_http_routes, generate_query_struct, generate_route,
};
use rsrpc::method::{
    AttrArgs, AttrDef, AttrError, AttrProblem, MethodDef, MethodInfo, TraitDef, TraitItemDef,
};
use rsrpc::route::{parse_route, HttpMethod};
use rsrpc::service;
use rsrpc::service::{
    collect_methods, expand, generate_service, read_literals, Expansion, MethodError,
};

fn method(name: &str, args: &[(&str, &str)], route: Option<(HttpMethod, &str)>) -> MethodInfo {
    MethodInfo {
        name: name.to_string(),
        args: args.iter().map(|(n, t)| (n.to_string(), t.to_string())).collect(),
        return_type: "Result<User>".to_string(),
        http: route.map(|(method, path)| parse_route(path, method)),
    }
}

fn method_def(name: &str, args: &[(&str, &str)], attrs: Vec<AttrDef>) -> MethodDef {
    let declared: Vec<String> = args.iter().map(|(n, t)| format!(", {n}: {t}")).collect();
    MethodDef {
        name: name.to_string(),
        attrs,
        inputs: std::iter::once(None)
            .chain(args.iter().map(|(n, t)| Some((n.to_string(), t.to_string()))))
            .collect(),
        output: Some("Result<User>".to_string()),
        signature: format!("async fn {name}(&self{}) -> Result<User>", declared.concat()),
        body: None,
    }
}

fn http_attr(name: &str, tokens: &str) -> AttrDef {
    AttrDef {
        path: vec![name.to_string()],
        inner: false,
        args: AttrArgs::Tokens(tokens.to_string()),
        text: format!("#[{name}({tokens})]"),
    }
}

fn doc_attr() -> AttrDef {
    AttrDef {
        path: vec!["doc".to_string()],
        inner: false,
        args: AttrArgs::Value,
        text: "#[doc = \"kept\"]".to_string(),
    }
}

fn trait_def(items: Vec<TraitItemDef>) -> TraitDef {
    TraitDef {
        name: "UserService".to_string(),
        vis: "pub".to_string(),
        generics: String::new(),
        supertraits: "Send + Sync + 'static".to_string(),
        items,
    }
}

fn code(expansion: Expansion) -> String {
    match expansion {
        Expansion::Code(code) => code,
        other => panic!("{other:?}"),
    }
}

/// Asserts that two texts are the same tokens.
fn assert_tokens(actual: &str, expected: &str) {
    let actual: TokenStream = actual.parse().unwrap();
    let expected: TokenStream = expected.parse().unwrap();
    assert_eq!(actual.to_string(), expected.to_string());
}

#[test]
fn request_structs() {
    assert_tokens(
        &generate_request_struct(&method("get_user", &[("id", "String"), ("full", "bool")], None)),
        "#[derive(Serialize, Deserialize)]
         struct __GetUserRequest { pub id: String, pub full: bool }",
    );
    assert_tokens(
        &generate_request_struct(&method("status", &[], None)),
        "#[derive(Serialize, Deserialize)] struct __StatusRequest;",
    );
}

#[test]
fn method_id_constants() {
    assert_tokens(
        &generate_method_id(&method("get_user", &[], None), 12),
        "const GET_USER_METHOD_ID: u16 = 12u16;",
    );
    assert_tokens(
        &generate_method_id(&method("stra\u{df}e", &[], None), 0),
        "const STRASSE_METHOD_ID: u16 = 0u16;",
    );
}

#[test]
fn client_methods() {
    assert_tokens(
        &generate_client_method(&method("status", &[], None), 1, "UserService"),
        "async fn status(&self) -> Result<User> {
            <Result<User> as ::rsrpc::ClientEncoding<dyn UserService>>::invoke(self, 1u16, &(),).await
        }",
    );
    assert_tokens(
        &generate_client_method(&method("f", &[("a", "i32"), ("b", "u8")], None), 65535, "S"),
        "async fn f(&self, a: i32, b: u8) -> Result<User> {
            #[derive(::rsrpc::serde::Serialize)]
            struct __Request { a: i32, b: u8 }
            <Result<User> as ::rsrpc::ClientEncoding<dyn S>>::invoke(
                self, 65535u16, &__Request { a, b },
            ).await
        }",
    );
}

#[test]
fn dispatch_arms() {
    assert_tokens(
        &generate_dispatch_arm(&method("status", &[], None), 1),
        "1u16 => {
            let result = service.status().await;
            ::rsrpc::ServerEncoding::into_dispatch(result)
        }",
    );
    assert_tokens(
        &generate_dispatch_arm(&method("run_task", &[("a", "i32"), ("b", "u8")], None), 2),
        "2u16 => {
            let req: __RunTaskRequest = match ::rsrpc::postcard::from_bytes(payload) {
                Ok(r) => r,
                Err(e) => return ::rsrpc::DispatchResult::Error(e.to_string()),
            };
            let result = service.run_task(req.a, req.b).await;
            ::rsrpc::ServerEncoding::into_dispatch(result)
        }",
    );
}

#[test]
fn http_client_methods() {
    let plain = method("list", &[], Some((HttpMethod::Get, "/users")));
    assert_tokens(
        &generate_http_client_method(&plain).unwrap(),
        "async fn list(&self,) -> Result<User> {
            let path = \"/users\".to_string();
            let query = Vec::<(&str, String)>::new();
            let body = None::<&()>;
            self.request(::rsrpc::http::Method::GET, &path, &query, body).await
        }",
    );
    let full = method(
        "change",
        &[("id", "u32"), ("limit", "u8"), ("user", "User")],
        Some((HttpMethod::Put, "/users/{id}/x/?limit")),
    );
    assert_tokens(
        &generate_http_client_method(&full).unwrap(),
        "async fn change(&self, id: u32, limit: u8, user: User) -> Result<User> {
            let path = format!(\"/users/{}/x\", id);
            let query = vec![(\"limit\", limit.to_string())];
            let body = Some(&user);
            self.request(::rsrpc::http::Method::PUT, &path, &query, body).await
        }",
    );
    let several = method(
        "create",
        &[("group", "u32"), ("id", "u32"), ("a", "A"), ("b", "B")],
        Some((HttpMethod::Post, "/g/{group}/u/{id}")),
    );
    assert_tokens(
        &generate_http_client_method(&several).unwrap(),
        "async fn create(&self, group: u32, id: u32, a: A, b: B) -> Result<User> {
            let path = format!(\"/g/{}/u/{}\", group, id);
            let query = Vec::<(&str, String)>::new();
            let body = {
                #[derive(::rsrpc::serde::Serialize)]
                struct __Body { a: A, b: B }
                Some(&__Body { a, b })
            };
            self.request(::rsrpc::http::Method::POST, &path, &query, body).await
        }",
    );
    assert!(generate_http_client_method(&method("f", &[], None)).is_none());
}

#[test]
fn http_client_stubs() {
    assert_tokens(
        &generate_http_client_stub(&method("f", &[("a", "i32")], None)),
        "async fn f(&self, a: i32) -> Result<User> {
            panic!(\"Method '{}' is not available over HTTP. Use RPC client instead.\", \"f\")
        }",
    );
}

#[test]
fn query_and_body_structs() {
    let m = method(
        "find_user",
        &[("a", "A"), ("limit", "u8"), ("b", "B")],
        Some((HttpMethod::Post, "/u/?limit&other")),
    );
    assert_tokens(
        &generate_query_struct(&m).unwrap(),
        "#[derive(::rsrpc::serde::Deserialize)] struct __FindUserQuery { pub limit: u8 }",
    );
    assert_tokens(
        &generate_body_struct(&m).unwrap(),
        "#[derive(::rsrpc::serde::Deserialize)] struct __FindUserBody { pub a: A, pub b: B }",
    );
    let single = method("f", &[("a", "A")], Some((HttpMethod::Post, "/u")));
    assert!(generate_query_struct(&single).is_none());
    assert!(generate_body_struct(&single).is_none());
    assert!(generate_query_struct(&method("f", &[], None)).is_none());
    assert!(generate_body_struct(&method("f", &[("a", "A"), ("b", "B")], None)).is_none());
}

#[test]
fn http_handlers() {
    let m = method("get_user", &[("id", "String")], Some((HttpMethod::Get, "/users/{id}")));
    assert_tokens(
        &generate_http_handler(&m, "UserService").unwrap(),
        "async fn __get_user_handler<T: UserService>(
            ::rsrpc::axum::extract::State(service): ::rsrpc::axum::extract::State<::std::sync::Arc<T>>,
            ::rsrpc::axum::extract::Path(id): ::rsrpc::axum::extract::Path<String>
        ) -> impl ::rsrpc::axum::response::IntoResponse {
            match service.get_user(id).await {
                Ok(v) => ::rsrpc::axum::Json(v).into_response(),
                Err(e) => (
                    ::rsrpc::axum::http::StatusCode::INTERNAL_SERVER_ERROR,
                    e.to_string()
                ).into_response(),
            }
        }",
    );
    let all = method(
        "f",
        &[("p", "P"), ("q", "Q"), ("limit", "u8"), ("a", "A"), ("b", "B")],
        Some((HttpMethod::Post, "/{p}/{q}/?limit")),
    );
    assert_tokens(
        &generate_http_handler(&all, "S").unwrap(),
        "async fn __f_handler<T: S>(
            ::rsrpc::axum::extract::State(service): ::rsrpc::axum::extract::State<::std::sync::Arc<T>>,
            ::rsrpc::axum::extract::Path((p, q)): ::rsrpc::axum::extract::Path<(P, Q)>,
            ::rsrpc::axum::extract::Query(query): ::rsrpc::axum::extract::Query<__FQuery>,
            ::rsrpc::axum::extract::Json(body): ::rsrpc::axum::extract::Json<__FBody>
        ) -> impl ::rsrpc::axum::response::IntoResponse {
            match service.f(p, q, query.limit, body.a, body.b).await {
                Ok(v) => ::rsrpc::axum::Json(v).into_response(),
                Err(e) => (
                    ::rsrpc::axum::http::StatusCode::INTERNAL_SERVER_ERROR,
                    e.to_string()
                ).into_response(),
            }
        }",
    );
    assert!(generate_http_handler(&method("f", &[], None), "S").is_none());
}

#[test]
fn handlers_pass_arguments_in_declared_order() {
    let m = method(
        "update",
        &[("user", "String"), ("id", "String")],
        Some((HttpMethod::Put, "/users/{id}")),
    );
    let handler = generate_http_handler(&m, "S").unwrap();
    assert!(handler.contains("service.update(user, id).await"));
    assert!(handler.contains("Path(id): ::rsrpc::axum::extract::Path<String>"));
    assert!(handler.contains("Json(user): ::rsrpc::axum::extract::Json<String>"));
    let mixed = method(
        "f",
        &[("a", "A"), ("limit", "u8"), ("id", "u32"), ("b", "B")],
        Some((HttpMethod::Post, "/{id}/?limit")),
    );
    let handler = generate_http_handler(&mixed, "S").unwrap();
    assert!(handler.contains("service.f(body.a, query.limit, id, body.b).await"));
    let both = method("g", &[("id", "u32")], Some((HttpMethod::Get, "/{id}/?id")));
    let handler = generate_http_handler(&both, "S").unwrap();
    assert!(handler.contains("service.g(id).await"));
}

#[test]
fn path_values_follow_the_path() {
    let m = method(
        "f",
        &[("y", "Y"), ("x", "X")],
        Some((HttpMethod::Get, "/a/{x}/b/{y}")),
    );
    let client = generate_http_client_method(&m).unwrap();
    assert!(client.contains("format!(\"/a/{}/b/{}\", x, y)"));
    let handler = generate_http_handler(&m, "S").unwrap();
    assert!(handler.contains("Path((x, y)): ::rsrpc::axum::extract::Path<(X, Y)>"));
    assert!(handler.contains("service.f(y, x).await"));
    let partly = method(
        "f",
        &[("b", "u32"), ("a", "u32")],
        Some((HttpMethod::Get, "/{a}/{b}/{ab}/{a}")),
    );
    let client = generate_http_client_method(&partly).unwrap();
    assert!(client.contains("format!(\"/{}/{}/{ab}/{}\", a, b, a)"));
}

#[test]
fn repeated_path_parameters_are_bound_once() {
    let m = method(
        "f",
        &[("x", "X"), ("id", "u32")],
        Some((HttpMethod::Get, "/u/{id}/p/{id}/{x}/{id}")),
    );
    let handler = generate_http_handler(&m, "S").unwrap();
    assert!(handler
        .contains("Path((id, _, x, _)): ::rsrpc::axum::extract::Path<(u32, u32, X, u32)>"));
    assert!(handler.contains("service.f(x, id).await"));
    let client = generate_http_client_method(&m).unwrap();
    assert!(client.contains("format!(\"/u/{}/p/{}/{}/{}\", id, id, x, id)"));
    let single = method("g", &[("id", "u32")], Some((HttpMethod::Get, "/{id}/{id}")));
    let handler = generate_http_handler(&single, "S").unwrap();
    assert!(handler.contains("Path((id, _)): ::rsrpc::axum::extract::Path<(u32, u32)>"));
    syn::parse_str::<syn::ItemFn>(&handler).unwrap();
}

#[test]
fn routes_are_registered() {
    let get = method("get_user", &[("id", "String")], Some((HttpMethod::Get, "/users/{id}")));
    assert_eq!(
        generate_route(&get).unwrap().trim_end(),
        ".route(\"/users/:id\", ::rsrpc::axum::routing::get(__get_user_handler::<T>))"
    );
    assert!(generate_route(&method("f", &[], None)).is_none());
    let methods = vec![method("f", &[], None), get];
    assert!(any_http(&methods));
    let routes = generate_http_routes(&methods, "UserService", "pub");
    assert!(routes.starts_with("#[cfg(feature = \"http\")] const _: () = {"));
    assert!(routes.contains("pub fn http_routes<T: UserService + 'static>(service: ::std::sync::Arc<T>)"));
    assert!(!routes.contains("__f_handler"));
    syn::parse_file(&routes).unwrap();
    let without = vec![method("f", &[], None)];
    assert!(!any_http(&without));
    assert_eq!(generate_http_routes(&without, "UserService", "pub"), "");
}

#[test]
fn service_without_routes() {
    let def = trait_def(vec![
        TraitItemDef::Other("const LIMIT: u8 = 3;".to_string()),
        TraitItemDef::Method(method_def("get_user", &[("id", "String")], vec![doc_attr()])),
    ]);
    assert_tokens(
        &code(service("", &def)),
        "#[::rsrpc::async_trait]
        pub trait UserService : Send + Sync + 'static {
            const LIMIT: u8 = 3;
            #[doc = \"kept\"]
            async fn get_user(&self, id: String) -> Result<User>;
        }
        #[doc(hidden)]
        mod __user_service_rpc_impl {
            use super::*;
            use ::rsrpc::serde::{Serialize, Deserialize};
            #[derive(Serialize, Deserialize)]
            struct __GetUserRequest { pub id: String }
            const GET_USER_METHOD_ID: u16 = 0u16;
            pub fn dispatch<'a, T: UserService + ?Sized>(
                service: &'a T, method_id: u16, payload: &'a [u8],
            ) -> ::std::pin::Pin<::std::boxed::Box<
                dyn ::std::future::Future<Output = ::rsrpc::DispatchResult> + Send + 'a
            >> {
                Box::pin(async move {
                    match method_id {
                        0u16 => {
                            let req: __GetUserRequest = match ::rsrpc::postcard::from_bytes(payload) {
                                Ok(r) => r,
                                Err(e) => return ::rsrpc::DispatchResult::Error(e.to_string()),
                            };
                            let result = service.get_user(req.id).await;
                            ::rsrpc::ServerEncoding::into_dispatch(result)
                        }
                        _ => ::rsrpc::DispatchResult::Error(
                            format!(\"Unknown method ID: {}\", method_id)
                        ),
                    }
                })
            }
        }
        #[::rsrpc::async_trait]
        impl UserService for ::rsrpc::Client<dyn UserService> {
            async fn get_user(&self, id: String) -> Result<User> {
                #[derive(::rsrpc::serde::Serialize)]
                struct __Request { id: String }
                <Result<User> as ::rsrpc::ClientEncoding<dyn UserService>>::invoke(
                    self, 0u16, &__Request { id },
                ).await
            }
        }
        #[doc = \" Extension trait for creating servers from service implementations.\"]
        impl dyn UserService {
            #[doc = \" Create a server that hosts this service.\"]
            pub fn serve<T: UserService + 'static>(service: T) -> ::rsrpc::Server<dyn UserService> {
                let service: ::std::sync::Arc<dyn UserService> = ::std::sync::Arc::new(service);
                ::rsrpc::Server::from_arc(service, __user_service_rpc_impl::dispatch)
            }
        }",
    );
}

#[test]
fn local_service() {
    let def = trait_def(vec![TraitItemDef::Method(method_def("status", &[], vec![]))]);
    let local = code(service("?Send", &def));
    assert_eq!(local.matches("#[::rsrpc::async_trait(?Send)]").count(), 2);
    assert!(local.contains("Output = ::rsrpc::DispatchResult> + 'a>>"));
    let shared = code(generate_service(&def, false));
    assert_eq!(shared.matches("#[::rsrpc::async_trait]").count(), 2);
    assert!(shared.contains("Output = ::rsrpc::DispatchResult> + Send + 'a>>"));
    syn::parse_file(&local).unwrap();
    syn::parse_file(&shared).unwrap();
}

#[test]
fn service_with_routes() {
    let def = trait_def(vec![
        TraitItemDef::Method(method_def(
            "get_user",
            &[("id", "String")],
            vec![doc_attr(), http_attr("get", "\"/users/{id}\""), http_attr("put", "\"/other\"")],
        )),
        TraitItemDef::Method(method_def("status", &[], vec![])),
    ]);
    let generated = code(service("", &def));
    syn::parse_file(&generated).unwrap();
    assert!(!generated.contains("#[get"));
    assert!(!generated.contains("#[put"));
    assert!(generated.contains("#[doc = \"kept\"] async fn get_user"));
    assert!(generated.contains(
        "#[cfg(feature = \"http\")] #[::rsrpc::async_trait] \
         impl UserService for ::rsrpc::HttpClient<dyn UserService> {"
    ));
    assert!(generated.contains("let path = format!(\"/users/{}\", id);"));
    assert!(generated.contains("panic!(\"Method '{}' is not available over HTTP."));
    assert!(generated.contains(".route(\"/users/:id\","));
}

#[test]
fn methods_are_numbered_alike_on_both_sides() {
    let items = (0..300)
        .map(|i| TraitItemDef::Method(method_def(&format!("m{i}"), &[], vec![])))
        .collect();
    let generated = code(service("", &trait_def(items)));
    for i in 0..300 {
        assert!(generated.contains(&format!("const M{i}_METHOD_ID: u16 = {i}u16;")));
        assert!(generated.contains(&format!("{i}u16 => {{ let result = service.m{i}().await;")));
        assert!(generated.contains(&format!(
            "async fn m{i}(&self) -> Result<User> {{ <Result<User> as \
             ::rsrpc::ClientEncoding<dyn UserService>>::invoke(self, {i}u16, &(),)"
        )));
    }
}

#[test]
fn first_invalid_attribute_is_reported() {
    let items = vec![
        TraitItemDef::Other("type T;".to_string()),
        TraitItemDef::Method(method_def("fine", &[], vec![http_attr("get", "\"/\"")])),
        TraitItemDef::Method(method_def(
            "bad",
            &[],
            vec![doc_attr(), http_attr("post", "3")],
        )),
        TraitItemDef::Method(method_def("worse", &[], vec![http_attr("get", "")])),
    ];
    let expected = MethodError {
        item: 2,
        error: AttrError { index: 1, problem: AttrProblem::NoLiteral },
    };
    let reads = read_literals(&items);
    assert_eq!(reads, [None, Some("/".to_string()), None, None]);
    assert_eq!(collect_methods(&items, &reads).unwrap_err(), expected);
    match service("", &trait_def(items)) {
        Expansion::Invalid(error) => assert_eq!(error, expected),
        other => panic!("{other:?}"),
    }
}

#[test]
fn methods_are_collected_in_order() {
    let items = vec![
        TraitItemDef::Method(method_def("a", &[], vec![])),
        TraitItemDef::Other("type T;".to_string()),
        TraitItemDef::Method(method_def("b", &[("x", "X")], vec![])),
    ];
    let methods = collect_methods(&items, &vec![None, None, None]).unwrap();
    let names: Vec<&str> = methods.iter().map(|m| m.name.as_str()).collect();
    assert_eq!(names, ["a", "b"]);
}

#[test]
fn raw_identifiers_are_refused() {
    let raw_method = trait_def(vec![TraitItemDef::Method(method_def("r#type", &[], vec![]))]);
    assert!(matches!(service("", &raw_method), Expansion::RawIdentifier));
    let mut raw_trait = trait_def(vec![TraitItemDef::Method(method_def(
        "bad",
        &[],
        vec![http_attr("get", "3")],
    ))]);
    raw_trait.name = "r#Trait".to_string();
    assert!(matches!(service("", &raw_trait), Expansion::RawIdentifier));
}

#[test]
fn service_without_methods() {
    let generated = code(service("", &trait_def(vec![])));
    syn::parse_file(&generated).unwrap();
    assert!(generated.contains("match method_id { _ => ::rsrpc::DispatchResult::Error("));
}

#[test]
fn expansion_follows_what_was_read() {
    let def = trait_def(vec![TraitItemDef::Method(method_def(
        "get_user",
        &[("id", "String")],
        vec![http_attr("get", "r\"/users/{id}\"")],
    ))]);
    let reads = vec![Some("/people/{id}".to_string())];
    let generated = code(expand(&def, &reads, false));
    assert!(generated.contains(".route(\"/people/:id\","));
    assert!(matches!(expand(&def, &vec![None], false), Expansion::Invalid(_)));
    assert_eq!(code(service("", &def)), code(expand(&def, &read_literals(&def.items), false)));
}

#[test]
fn default_bodies_keep_their_attributes() {
    let mut method = method_def("status", &[], vec![doc_attr(), http_attr("get", "\"/s\"")]);
    method.attrs.push(AttrDef {
        path: vec!["allow".to_string()],
        inner: true,
        args: AttrArgs::Tokens("unused".to_string()),
        text: "#![allow(unused)]".to_string(),
    });
    method.attrs.push(AttrDef {
        path: vec!["put".to_string()],
        inner: true,
        args: AttrArgs::Absent,
        text: "#![put]".to_string(),
    });
    method.body = Some("let x = 1; Ok(User)".to_string());
    let generated = code(service("", &trait_def(vec![TraitItemDef::Method(method)])));
    assert!(generated.contains(
        "#[doc = \"kept\"] async fn status(&self) -> Result<User> \
         { #![allow(unused)] let x = 1; Ok(User) }"
    ));
    assert!(!generated.contains("#![put]"));
    syn::parse_file(&generated).unwrap();
}
