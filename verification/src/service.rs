//! The expansion of a service trait.

use crate::codegen::{client_method, declarations, dispatch_arm, generate_client_method, generate_dispatch_arm,
    generate_method_id, generate_request_struct, method_id, method_id_constant, methods_view, names,
    request_struct};
use crate::http_codegen::{any_http, generate_http_client_method, generate_http_client_stub,
    generate_http_routes, has_http_methods, http_client_method, http_client_stub, http_routes};
use crate::listing::{lists, lists_grow, lists_nothing};
use crate::method::{attr_method, attrs_are_plain, attrs_may_read, attrs_route, first_http_attr,
    http_method_of, info_of_method, method_model, plain_attributes_are_read_alike, read_literal,
    text_view, AttrDef, AttrError, MethodDef, MethodInfo, MethodModel, TraitDef, TraitItemDef};
use crate::naming::{snake_case, to_snake_case};
use crate::route::RouteModel;
use crate::sequence::{filter_contains, part_is_substring};
use crate::text::{contains_text, decimal, decimal_is_injective, has_substring, joined, to_chars};
use vstd::prelude::*;

verus! {

/// A method of a trait whose attributes are in the way of the expansion.
#[derive(Debug, Clone, Copy, PartialEq, Eq, Structural)]
pub struct MethodError {
    /// The position of the method among the items of the trait.
    pub item: usize,
    pub error: AttrError,
}

/// What the expansion of a service trait gives.
#[derive(Debug)]
pub enum Expansion {
    /// The generated code.
    Code(String),
    /// An attribute of a method gives no route.
    Invalid(MethodError),
    /// The trait or one of its methods has a raw identifier for a name, of
    /// which the names of generated items cannot be made.
    RawIdentifier,
}

/// Whether a name is a raw identifier.
pub open spec fn is_raw(name: Seq<char>) -> bool {
    name.contains('#')
}

/// Whether a name is a raw identifier.
fn check_raw(name: &str) -> (raw: bool)
    ensures
        raw == is_raw(name@),
{
    let chars = to_chars(name);
    let mut i: usize = 0;
    while i < chars.len()
        invariant
            chars@ == name@,
            i <= chars@.len(),
            forall|j: int| 0 <= j < i ==> name@[j] != '#',
        decreases chars.len() - i,
    {
        if chars[i] == '#' {
            assert(name@[i as int] == '#');
            return true;
        }
        i = i + 1;
    }
    false
}

/// Whether `reads` may be what was read from the items of a trait: of each method
/// from its attributes, of any other item nothing.
pub open spec fn items_may_read(items: Seq<TraitItemDef>, reads: Seq<Option<Seq<char>>>) -> bool {
    &&& reads.len() == items.len()
    &&& forall|i: int| 0 <= i < items.len() ==> match #[trigger] items[i] {
        TraitItemDef::Method(def) => attrs_may_read(def.attrs@, reads[i]),
        TraitItemDef::Other(_) => reads[i] is None,
    }
}

/// The values of texts that may be absent.
pub open spec fn reads_view(reads: Seq<Option<String>>) -> Seq<Option<Seq<char>>> {
    reads.map_values(|r: Option<String>| text_view(r))
}

/// The methods among the items of a trait, or the first whose attributes are
/// in the way, if `reads` was read from the items.
pub open spec fn trait_methods(
    items: Seq<TraitItemDef>,
    reads: Seq<Option<Seq<char>>>,
) -> Result<Seq<MethodModel>, MethodError>
    decreases items.len(),
{
    if items.len() == 0 {
        Ok(Seq::empty())
    } else {
        match trait_methods(items.drop_last(), reads) {
            Err(e) => Err(e),
            Ok(methods) => match items.last() {
                TraitItemDef::Other(_) => Ok(methods),
                TraitItemDef::Method(def) => match method_model(def, reads[items.len() - 1]) {
                    Ok(m) => Ok(methods.push(m)),
                    Err(error) => Err(MethodError { item: (items.len() - 1) as usize, error }),
                },
            },
        }
    }
}

/// A method that is in the way at some item stays in the way.
proof fn trait_methods_error_stays(
    items: Seq<TraitItemDef>,
    reads: Seq<Option<Seq<char>>>,
    n: int,
)
    requires
        0 <= n <= items.len(),
        trait_methods(items.take(n), reads) is Err,
    ensures
        trait_methods(items, reads) == trait_methods(items.take(n), reads),
    decreases items.len() - n,
{
    if n < items.len() {
        assert(items.take(n + 1).drop_last() =~= items.take(n));
        trait_methods_error_stays(items, reads, n + 1);
    } else {
        assert(items.take(n) =~= items);
    }
}

/// Reads the string literals in the attributes of the methods among the items of
/// a trait.
pub fn read_literals(items: &Vec<TraitItemDef>) -> (reads: Vec<Option<String>>)
    ensures
        items_may_read(items@, reads_view(reads@)),
{
    let mut reads: Vec<Option<String>> = Vec::new();
    let mut i: usize = 0;
    while i < items.len()
        invariant
            i <= items@.len(),
            reads@.len() == i,
            forall|j: int| 0 <= j < i ==> match #[trigger] items@[j] {
                TraitItemDef::Method(def) => attrs_may_read(def.attrs@, text_view(reads@[j])),
                TraitItemDef::Other(_) => text_view(reads@[j]) is None,
            },
        decreases items.len() - i,
    {
        let read = match &items[i] {
            TraitItemDef::Method(def) => read_literal(&def.attrs),
            TraitItemDef::Other(_) => None,
        };
        reads.push(read);
        i = i + 1;
    }
    reads
}

/// Whether `collected` are the methods among the items of a trait, if `reads`
/// was read from them.
pub open spec fn are_methods_of(
    items: Seq<TraitItemDef>,
    reads: Seq<Option<Seq<char>>>,
    collected: Result<Vec<MethodInfo>, MethodError>,
) -> bool {
    trait_methods(items, reads) == match collected {
        Ok(methods) => Ok::<Seq<MethodModel>, MethodError>(methods_view(methods@)),
        Err(e) => Err::<Seq<MethodModel>, MethodError>(e),
    }
}

/// Collects the methods among the items of a trait, from which `reads` was read.
pub fn collect_methods(items: &Vec<TraitItemDef>, reads: &Vec<Option<String>>) -> (collected: Result<
    Vec<MethodInfo>,
    MethodError,
>)
    requires
        reads@.len() == items@.len(),
    ensures
        are_methods_of(items@, reads_view(reads@), collected),
{
    let mut methods: Vec<MethodInfo> = Vec::new();
    let ghost seen = reads_view(reads@);
    let mut i: usize = 0;
    assert(methods_view(methods@) =~= Seq::<MethodModel>::empty());
    while i < items.len()
        invariant
            i <= items@.len(),
            reads@.len() == items@.len(),
            seen == reads_view(reads@),
            trait_methods(items@.take(i as int), seen) == Ok::<Seq<MethodModel>, MethodError>(
                methods_view(methods@),
            ),
        decreases items.len() - i,
    {
        proof {
            assert(items@.take(i + 1).drop_last() =~= items@.take(i as int));
            assert(items@.take(i + 1).last() == items@[i as int]);
            assert(seen[i as int] == text_view(reads@[i as int]));
        }
        if let TraitItemDef::Method(def) = &items[i] {
            match info_of_method(def, reads[i].clone()) {
                Err(error) => {
                    proof {
                        trait_methods_error_stays(items@, seen, i + 1);
                    }
                    return Err(MethodError { item: i, error });
                },
                Ok(info) => {
                    let ghost before = methods@;
                    methods.push(info);
                    assert(methods_view(methods@) =~= methods_view(before).push(info@));
                },
            }
        }
        i = i + 1;
    }
    assert(items@.take(i as int) =~= items@);
    Ok(methods)
}

/// The attributes of a method without those that name an HTTP method.
pub open spec fn kept_attrs(attrs: Seq<AttrDef>) -> Seq<AttrDef> {
    attrs.filter(|a: AttrDef| attr_method(a) is None)
}

/// The attributes that stand inside the body of their method, or those that
/// stand before it, one after the other.
pub open spec fn attrs_text(attrs: Seq<AttrDef>, inner: bool) -> Seq<char>
    decreases attrs.len(),
{
    if attrs.len() == 0 {
        Seq::empty()
    } else if attrs.last().inner == inner {
        attrs_text(attrs.drop_last(), inner) + attrs.last().text@ + " "@
    } else {
        attrs_text(attrs.drop_last(), inner)
    }
}

/// An item of the trait as it stands in the expansion.
pub open spec fn clean_item(item: TraitItemDef) -> Seq<char> {
    match item {
        TraitItemDef::Other(text) => text@ + " "@,
        TraitItemDef::Method(def) => attrs_text(kept_attrs(def.attrs@), false) + def.signature@
            + match def.body {
            None => "; "@,
            Some(body) => " { "@ + attrs_text(kept_attrs(def.attrs@), true) + body@ + " } "@,
        },
    }
}

/// The items of the trait as they stand in the expansion.
pub open spec fn clean_items(items: Seq<TraitItemDef>) -> Seq<char>
    decreases items.len(),
{
    if items.len() == 0 {
        Seq::empty()
    } else {
        clean_items(items.drop_last()) + clean_item(items.last())
    }
}

/// Writes the attributes of a method without those that name an HTTP method:
/// those inside its body, or those before it.
fn write_kept_attrs(attrs: &Vec<AttrDef>, inner: bool) -> (code: String)
    ensures
        code@ == attrs_text(kept_attrs(attrs@), inner),
{
    let mut code = String::new();
    let mut i: usize = 0;
    proof {
        reveal(Seq::filter);
    }
    while i < attrs.len()
        invariant
            i <= attrs@.len(),
            code@ == attrs_text(kept_attrs(attrs@.take(i as int)), inner),
        decreases attrs.len() - i,
    {
        let ghost kept = kept_attrs(attrs@.take(i as int));
        proof {
            reveal(Seq::filter);
            assert(attrs@.take(i + 1).drop_last() =~= attrs@.take(i as int));
            assert(attrs@.take(i + 1).last() == attrs@[i as int]);
            assert(kept.push(attrs@[i as int]).drop_last() =~= kept);
        }
        if http_method_of(&attrs[i]).is_none() && attrs[i].inner == inner {
            code.push_str(&attrs[i].text);
            code.push_str(" ");
        }
        i = i + 1;
    }
    assert(attrs@.take(i as int) =~= attrs@);
    code
}

/// Writes an item of the trait as it stands in the expansion.
fn write_clean_item(item: &TraitItemDef) -> (code: String)
    ensures
        code@ == clean_item(*item),
{
    match item {
        TraitItemDef::Other(text) => {
            let mut code = text.clone();
            code.push_str(" ");
            code
        },
        TraitItemDef::Method(def) => {
            let mut code = write_kept_attrs(&def.attrs, false);
            code.push_str(&def.signature);
            match &def.body {
                None => {
                    code.push_str("; ");
                },
                Some(body) => {
                    let mut block = " { ".to_string();
                    block.push_str(&write_kept_attrs(&def.attrs, true));
                    block.push_str(body);
                    block.push_str(" } ");
                    code.push_str(&block);
                },
            }
            code
        },
    }
}

/// Writes the items of the trait as they stand in the expansion.
fn write_clean_items(items: &Vec<TraitItemDef>) -> (code: String)
    ensures
        code@ == clean_items(items@),
{
    let mut code = String::new();
    let mut i: usize = 0;
    while i < items.len()
        invariant
            i <= items@.len(),
            code@ == clean_items(items@.take(i as int)),
        decreases items.len() - i,
    {
        proof {
            assert(items@.take(i + 1).drop_last() =~= items@.take(i as int));
            assert(items@.take(i + 1).last() == items@[i as int]);
        }
        code.push_str(&write_clean_item(&items[i]));
        i = i + 1;
    }
    assert(items@.take(i as int) =~= items@);
    code
}

/// The structs that carry the arguments of calls.
pub open spec fn request_structs(methods: Seq<MethodModel>) -> Seq<char>
    decreases methods.len(),
{
    if methods.len() == 0 {
        Seq::empty()
    } else {
        request_structs(methods.drop_last()) + request_struct(methods.last())
    }
}

/// The constants that hold the numbers of the methods.
pub open spec fn method_id_constants(methods: Seq<MethodModel>) -> Seq<char>
    decreases methods.len(),
{
    if methods.len() == 0 {
        Seq::empty()
    } else {
        method_id_constants(methods.drop_last()) + method_id_constant(
            methods.last(),
            (methods.len() - 1) as nat,
        )
    }
}

/// The methods of the client.
pub open spec fn client_methods(methods: Seq<MethodModel>, trait_name: Seq<char>) -> Seq<char>
    decreases methods.len(),
{
    if methods.len() == 0 {
        Seq::empty()
    } else {
        client_methods(methods.drop_last(), trait_name) + client_method(
            methods.last(),
            (methods.len() - 1) as nat,
            trait_name,
        )
    }
}

/// The arms of the server that dispatch calls.
pub open spec fn dispatch_arms(methods: Seq<MethodModel>) -> Seq<char>
    decreases methods.len(),
{
    if methods.len() == 0 {
        Seq::empty()
    } else {
        dispatch_arms(methods.drop_last()) + dispatch_arm(
            methods.last(),
            (methods.len() - 1) as nat,
        )
    }
}

/// The methods of the HTTP client: those with a route make a request, the
/// others panic.
pub open spec fn http_client_methods(methods: Seq<MethodModel>) -> Seq<char>
    decreases methods.len(),
{
    if methods.len() == 0 {
        Seq::empty()
    } else {
        http_client_methods(methods.drop_last()) + match methods.last().http {
            Some(r) => http_client_method(methods.last(), r),
            None => http_client_stub(methods.last()),
        }
    }
}

/// The attribute that makes the methods of a trait or an impl asynchronous.
pub open spec fn async_attr(not_send: bool) -> Seq<char> {
    if not_send {
        "#[::rsrpc::async_trait(?Send)] "@
    } else {
        "#[::rsrpc::async_trait] "@
    }
}

/// The function of the server that dispatches calls by the number of their
/// method.
pub open spec fn dispatch_fn(
    methods: Seq<MethodModel>,
    trait_name: Seq<char>,
    not_send: bool,
) -> Seq<char> {
    "pub fn dispatch<'a, T: "@ + trait_name
        + " + ?Sized>(service: &'a T, method_id: u16, payload: &'a [u8],) -> ::std::pin::Pin<::std::boxed::Box<dyn ::std::future::Future<Output = ::rsrpc::DispatchResult>"@
        + (if not_send {
        " + 'a"@
    } else {
        " + Send + 'a"@
    }) + ">> { Box::pin(async move { match method_id { "@ + dispatch_arms(methods)
        + "_ => ::rsrpc::DispatchResult::Error(format!(\"Unknown method ID: {}\", method_id)), } }) } "@
}

/// The implementation of the trait for the HTTP client; nothing if no method
/// has a route.
pub open spec fn http_client_impl(
    methods: Seq<MethodModel>,
    trait_name: Seq<char>,
    not_send: bool,
) -> Seq<char> {
    if !has_http_methods(methods) {
        Seq::empty()
    } else {
        "#[cfg(feature = \"http\")] "@ + async_attr(not_send) + "impl "@ + trait_name
            + " for ::rsrpc::HttpClient<dyn "@ + trait_name + "> { "@ + http_client_methods(methods)
            + "} "@
    }
}

/// The code for a service trait with the given methods.
pub open spec fn service_code(
    def: TraitDef,
    methods: Seq<MethodModel>,
    not_send: bool,
) -> Seq<char> {
    let module = "__"@ + snake_case(def.name@) + "_rpc_impl"@;
    async_attr(not_send) + def.vis@ + " trait "@ + def.name@ + " "@ + def.generics@ + " : "@
        + def.supertraits@ + " { "@ + clean_items(def.items@) + "} #[doc(hidden)] mod "@ + module
        + " { use super::*; use ::rsrpc::serde::{Serialize, Deserialize}; "@ + request_structs(
        methods,
    ) + method_id_constants(methods) + dispatch_fn(methods, def.name@, not_send) + "} "@
        + async_attr(not_send) + "impl "@ + def.name@ + " for ::rsrpc::Client<dyn "@ + def.name@
        + "> { "@ + client_methods(methods, def.name@) + "} "@ + http_client_impl(
        methods,
        def.name@,
        not_send,
    )
        + "#[doc = \" Extension trait for creating servers from service implementations.\"] impl dyn "@
        + def.name@ + " { #[doc = \" Create a server that hosts this service.\"] "@ + def.vis@
        + " fn serve<T: "@ + def.name@ + " + 'static>(service: T) -> ::rsrpc::Server<dyn "@
        + def.name@ + "> { let service: ::std::sync::Arc<dyn "@ + def.name@
        + "> = ::std::sync::Arc::new(service); ::rsrpc::Server::from_arc(service, "@ + module
        + "::dispatch) } } "@ + http_routes(methods, def.name@, def.vis@)
}

/// Whether one of the methods has a raw identifier for a name.
pub open spec fn has_raw_names(methods: Seq<MethodModel>) -> bool {
    exists|i: int| 0 <= i < methods.len() && is_raw((#[trigger] methods[i]).name)
}

/// Whether `expansion` is that of a service trait, if `reads` was read from its
/// items.
pub open spec fn expands_to(
    def: TraitDef,
    reads: Seq<Option<Seq<char>>>,
    not_send: bool,
    expansion: Expansion,
) -> bool {
    if is_raw(def.name@) {
        expansion is RawIdentifier
    } else {
        match trait_methods(def.items@, reads) {
            Err(e) => expansion == Expansion::Invalid(e),
            Ok(methods) => if has_raw_names(methods) {
                expansion is RawIdentifier
            } else {
                expansion matches Expansion::Code(code) && code@ == service_code(
                    def,
                    methods,
                    not_send,
                )
            },
        }
    }
}

/// Whether one of the methods has a raw identifier for a name.
fn any_raw(methods: &Vec<MethodInfo>) -> (any: bool)
    ensures
        any == has_raw_names(methods_view(methods@)),
{
    let mut i: usize = 0;
    while i < methods.len()
        invariant
            i <= methods@.len(),
            forall|j: int| 0 <= j < i ==> !is_raw((#[trigger] methods_view(methods@)[j]).name),
        decreases methods.len() - i,
    {
        if check_raw(&methods[i].name) {
            assert(is_raw(methods_view(methods@)[i as int].name));
            return true;
        }
        i = i + 1;
    }
    false
}

/// The texts of the methods that go into the code for a service.
struct MethodTexts {
    requests: String,
    ids: String,
    clients: String,
    arms: String,
    http_clients: String,
}

/// Writes the texts of the methods.
#[verifier::spinoff_prover]
#[verifier::rlimit(50)]
fn write_methods(methods: &Vec<MethodInfo>, trait_name: &str) -> (written: MethodTexts)
    ensures
        written.requests@ == request_structs(methods_view(methods@)),
        written.ids@ == method_id_constants(methods_view(methods@)),
        written.clients@ == client_methods(methods_view(methods@), trait_name@),
        written.arms@ == dispatch_arms(methods_view(methods@)),
        written.http_clients@ == http_client_methods(methods_view(methods@)),
{
    let ghost all = methods_view(methods@);
    let mut requests = String::new();
    let mut ids = String::new();
    let mut clients = String::new();
    let mut arms = String::new();
    let mut http_clients = String::new();
    let mut i: usize = 0;
    while i < methods.len()
        invariant
            i <= methods@.len(),
            all == methods_view(methods@),
            requests@ == request_structs(all.take(i as int)),
            ids@ == method_id_constants(all.take(i as int)),
            clients@ == client_methods(all.take(i as int), trait_name@),
            arms@ == dispatch_arms(all.take(i as int)),
            http_clients@ == http_client_methods(all.take(i as int)),
        decreases methods.len() - i,
    {
        let method = &methods[i];
        let id: u16 = (i as u64 % 0x1_0000) as u16;
        proof {
            assert(all.take(i + 1).drop_last() =~= all.take(i as int));
            assert(all.take(i + 1).last() == method@);
        }
        requests.push_str(&generate_request_struct(method));
        ids.push_str(&generate_method_id(method, id));
        clients.push_str(&generate_client_method(method, id, trait_name));
        arms.push_str(&generate_dispatch_arm(method, id));
        match generate_http_client_method(method) {
            Some(code) => {
                http_clients.push_str(&code);
            },
            None => {
                http_clients.push_str(&generate_http_client_stub(method));
            },
        }
        i = i + 1;
    }
    assert(all.take(i as int) =~= all);
    MethodTexts { requests, ids, clients, arms, http_clients }
}

/// Writes the attribute that makes the methods of a trait or an impl
/// asynchronous.
fn write_async_attr(not_send: bool) -> (code: &'static str)
    ensures
        code@ == async_attr(not_send),
{
    if not_send {
        "#[::rsrpc::async_trait(?Send)] "
    } else {
        "#[::rsrpc::async_trait] "
    }
}

/// Writes the function of the server that dispatches calls.
fn write_dispatch_fn(
    methods: &Vec<MethodInfo>,
    arms: &str,
    trait_name: &str,
    not_send: bool,
) -> (code: String)
    requires
        arms@ == dispatch_arms(methods_view(methods@)),
    ensures
        code@ == dispatch_fn(methods_view(methods@), trait_name@, not_send),
{
    let mut code = "pub fn dispatch<'a, T: ".to_string();
    code.push_str(trait_name);
    code.push_str(
        " + ?Sized>(service: &'a T, method_id: u16, payload: &'a [u8],) -> ::std::pin::Pin<::std::boxed::Box<dyn ::std::future::Future<Output = ::rsrpc::DispatchResult>",
    );
    if not_send {
        code.push_str(" + 'a");
    } else {
        code.push_str(" + Send + 'a");
    }
    code.push_str(">> { Box::pin(async move { match method_id { ");
    code.push_str(arms);
    code.push_str(
        "_ => ::rsrpc::DispatchResult::Error(format!(\"Unknown method ID: {}\", method_id)), } }) } ",
    );
    code
}

/// Writes the implementation of the trait for the HTTP client.
fn write_http_client_impl(
    methods: &Vec<MethodInfo>,
    http_clients: &str,
    trait_name: &str,
    not_send: bool,
) -> (code: String)
    requires
        http_clients@ == http_client_methods(methods_view(methods@)),
    ensures
        code@ == http_client_impl(methods_view(methods@), trait_name@, not_send),
{
    if !any_http(methods) {
        return String::new();
    }
    let mut code = "#[cfg(feature = \"http\")] ".to_string();
    code.push_str(write_async_attr(not_send));
    code.push_str("impl ");
    code.push_str(trait_name);
    code.push_str(" for ::rsrpc::HttpClient<dyn ");
    code.push_str(trait_name);
    code.push_str("> { ");
    code.push_str(http_clients);
    code.push_str("} ");
    code
}

/// Writes the code for a service trait with the given methods.
fn write_service(def: &TraitDef, methods: &Vec<MethodInfo>, not_send: bool) -> (code: String)
    ensures
        code@ == service_code(*def, methods_view(methods@), not_send),
{
    let written = write_methods(methods, &def.name);
    let mut module = "__".to_string();
    module.push_str(&to_snake_case(&def.name));
    module.push_str("_rpc_impl");
    let mut code = write_async_attr(not_send).to_string();
    code.push_str(&def.vis);
    code.push_str(" trait ");
    code.push_str(&def.name);
    code.push_str(" ");
    code.push_str(&def.generics);
    code.push_str(" : ");
    code.push_str(&def.supertraits);
    code.push_str(" { ");
    code.push_str(&write_clean_items(&def.items));
    code.push_str("} #[doc(hidden)] mod ");
    code.push_str(&module);
    code.push_str(" { use super::*; use ::rsrpc::serde::{Serialize, Deserialize}; ");
    code.push_str(&written.requests);
    code.push_str(&written.ids);
    code.push_str(&write_dispatch_fn(methods, &written.arms, &def.name, not_send));
    code.push_str("} ");
    code.push_str(write_async_attr(not_send));
    code.push_str("impl ");
    code.push_str(&def.name);
    code.push_str(" for ::rsrpc::Client<dyn ");
    code.push_str(&def.name);
    code.push_str("> { ");
    code.push_str(&written.clients);
    code.push_str("} ");
    code.push_str(&write_http_client_impl(methods, &written.http_clients, &def.name, not_send));
    code.push_str(
        "#[doc = \" Extension trait for creating servers from service implementations.\"] impl dyn ",
    );
    code.push_str(&def.name);
    code.push_str(" { #[doc = \" Create a server that hosts this service.\"] ");
    code.push_str(&def.vis);
    code.push_str(" fn serve<T: ");
    code.push_str(&def.name);
    code.push_str(" + 'static>(service: T) -> ::rsrpc::Server<dyn ");
    code.push_str(&def.name);
    code.push_str("> { let service: ::std::sync::Arc<dyn ");
    code.push_str(&def.name);
    code.push_str("> = ::std::sync::Arc::new(service); ::rsrpc::Server::from_arc(service, ");
    code.push_str(&module);
    code.push_str("::dispatch) } } ");
    code.push_str(&generate_http_routes(methods, &def.name, &def.vis));
    code
}

/// Expands a service trait from whose items `reads` was read. Its futures need
/// not be `Send` if `not_send` is set.
pub fn expand(def: &TraitDef, reads: &Vec<Option<String>>, not_send: bool) -> (expansion: Expansion)
    requires
        reads@.len() == def.items@.len(),
    ensures
        expands_to(*def, reads_view(reads@), not_send, expansion),
{
    if check_raw(&def.name) {
        return Expansion::RawIdentifier;
    }
    match collect_methods(&def.items, reads) {
        Err(e) => Expansion::Invalid(e),
        Ok(methods) => {
            if any_raw(&methods) {
                Expansion::RawIdentifier
            } else {
                Expansion::Code(write_service(def, &methods, not_send))
            }
        },
    }
}

/// Expands a service trait. Its futures need not be `Send` if `not_send` is
/// set.
pub fn generate_service(def: &TraitDef, not_send: bool) -> (expansion: Expansion)
    ensures
        exists|reads: Seq<Option<Seq<char>>>| #[trigger]
            items_may_read(def.items@, reads) && expands_to(*def, reads, not_send, expansion),
{
    let reads = read_literals(&def.items);
    let expansion = expand(def, &reads, not_send);
    assert(items_may_read(def.items@, reads_view(reads@)) && expands_to(
        *def,
        reads_view(reads@),
        not_send,
        expansion,
    ));
    expansion
}

/// Expands a trait that is marked as a service. The argument `?Send` of the
/// mark allows futures that are not `Send`.
pub fn service(attr: &str, item: &TraitDef) -> (expansion: Expansion)
    ensures
        exists|reads: Seq<Option<Seq<char>>>| #[trigger]
            items_may_read(item.items@, reads) && expands_to(
                *item,
                reads,
                has_substring(attr@, "?Send"@),
                expansion,
            ),
{
    generate_service(item, contains_text(attr, "?Send"))
}

/// A trait whose attributes are all plain has one expansion: whatever may be
/// read from it is the same.
pub proof fn plain_traits_have_one_expansion(
    items: Seq<TraitItemDef>,
    one: Seq<Option<Seq<char>>>,
    other: Seq<Option<Seq<char>>>,
)
    requires
        forall|i: int| 0 <= i < items.len() ==> match #[trigger] items[i] {
            TraitItemDef::Method(def) => attrs_are_plain(def.attrs@),
            TraitItemDef::Other(_) => true,
        },
        items_may_read(items, one),
        items_may_read(items, other),
    ensures
        one == other,
{
    assert forall|i: int| 0 <= i < items.len() implies one[i] == other[i] by {
        if let TraitItemDef::Method(def) = items[i] {
            plain_attributes_are_read_alike(def.attrs@, one[i], other[i]);
        }
    }
    assert(one =~= other);
}

/// No attribute from `from` on names an HTTP method.
proof fn no_http_attr(attrs: Seq<AttrDef>, from: int)
    requires
        0 <= from,
        forall|i: int| 0 <= i < attrs.len() ==> attr_method(#[trigger] attrs[i]) is None,
    ensures
        first_http_attr(attrs, from) is None,
    decreases attrs.len() - from,
{
    if from < attrs.len() {
        no_http_attr(attrs, from + 1);
    }
}

/// The attributes that stay are those that name no HTTP method, and what stays
/// gives no route, whatever the method had and whatever is read.
pub proof fn kept_attributes_give_no_route(attrs: Seq<AttrDef>, read: Option<Seq<char>>)
    ensures
        forall|a: AttrDef| #[trigger]
            kept_attrs(attrs).contains(a) <==> attrs.contains(a) && attr_method(a) is None,
        attrs_route(kept_attrs(attrs), read) == Ok::<Option<RouteModel>, AttrError>(None),
{
    let pred = |a: AttrDef| attr_method(a) is None;
    let kept = kept_attrs(attrs);
    assert forall|a: AttrDef| #[trigger] kept.contains(a) <==> attrs.contains(a) && attr_method(
        a,
    ) is None by {
        filter_contains(attrs, pred, a);
    }
    assert forall|i: int| 0 <= i < kept.len() implies attr_method(#[trigger] kept[i]) is None by {
        assert(kept.contains(kept[i]));
    }
    no_http_attr(kept, 0);
}

/// The methods among the items of a trait as they are written, each with what
/// was read from its attributes.
pub open spec fn written_methods(
    items: Seq<TraitItemDef>,
    reads: Seq<Option<Seq<char>>>,
) -> Seq<(MethodDef, Option<Seq<char>>)>
    decreases items.len(),
{
    if items.len() == 0 {
        Seq::empty()
    } else {
        let before = written_methods(items.drop_last(), reads);
        match items.last() {
            TraitItemDef::Method(def) => before.push((def, reads[items.len() - 1])),
            TraitItemDef::Other(_) => before,
        }
    }
}

/// The methods of an expansion are those of the trait, all of them and in
/// order.
pub proof fn every_method_is_expanded(items: Seq<TraitItemDef>, reads: Seq<Option<Seq<char>>>)
    requires
        trait_methods(items, reads) is Ok,
    ensures
        trait_methods(items, reads)->Ok_0.len() == written_methods(items, reads).len(),
        forall|i: int|
            0 <= i < written_methods(items, reads).len() ==> method_model(
                (#[trigger] written_methods(items, reads)[i]).0,
                written_methods(items, reads)[i].1,
            ) == Ok::<MethodModel, AttrError>(trait_methods(items, reads)->Ok_0[i]),
    decreases items.len(),
{
    if items.len() > 0 {
        every_method_is_expanded(items.drop_last(), reads);
    }
}

/// The method that is reported is the first one whose attributes are in the
/// way.
pub proof fn first_invalid_method_is_reported(
    items: Seq<TraitItemDef>,
    reads: Seq<Option<Seq<char>>>,
)
    requires
        items.len() <= usize::MAX,
        trait_methods(items, reads) is Err,
    ensures
        ({
            let e = trait_methods(items, reads)->Err_0;
            &&& e.item < items.len()
            &&& items[e.item as int] matches TraitItemDef::Method(def) && method_model(
                def,
                reads[e.item as int],
            ) == Err::<MethodModel, AttrError>(e.error)
            &&& trait_methods(items.take(e.item as int), reads) is Ok
        }),
    decreases items.len(),
{
    let before = items.drop_last();
    if items.len() > 0 {
        assert(before =~= items.take(items.len() - 1));
        if trait_methods(before, reads) is Err {
            first_invalid_method_is_reported(before, reads);
            let e = trait_methods(before, reads)->Err_0;
            assert(before.take(e.item as int) =~= items.take(e.item as int));
            assert(before[e.item as int] == items[e.item as int]);
        }
    }
}

/// No two of the first 65536 methods of a trait have the same number.
pub proof fn method_numbers_differ(i: nat, j: nat)
    requires
        i < 0x1_0000,
        j < 0x1_0000,
        i != j,
    ensures
        method_id(i) != method_id(j),
{
    if method_id(i) == method_id(j) {
        let suffix = "u16"@;
        assert(decimal(i) =~= method_id(i).take(method_id(i).len() - suffix.len()));
        assert(decimal(j) =~= method_id(j).take(method_id(j).len() - suffix.len()));
        decimal_is_injective(i, j);
    }
}

/// The code for one method is in the code for all.
#[verifier::spinoff_prover]
#[verifier::rlimit(50)]
proof fn method_is_in_the_code(methods: Seq<MethodModel>, i: int, trait_name: Seq<char>)
    requires
        0 <= i < methods.len(),
    ensures
        exists|a: Seq<char>, b: Seq<char>|
            client_methods(methods, trait_name) == #[trigger] (a + client_method(
                methods[i],
                i as nat,
                trait_name,
            ) + b),
        exists|a: Seq<char>, b: Seq<char>|
            dispatch_arms(methods) == #[trigger] (a + dispatch_arm(methods[i], i as nat) + b),
        exists|a: Seq<char>, b: Seq<char>|
            request_structs(methods) == #[trigger] (a + request_struct(methods[i]) + b),
    decreases methods.len(),
{
    let before = methods.drop_last();
    let n = (methods.len() - 1) as nat;
    let client = client_method(methods[i], i as nat, trait_name);
    let arm = dispatch_arm(methods[i], i as nat);
    let request = request_struct(methods[i]);
    if i < n {
        method_is_in_the_code(before, i, trait_name);
        assert(before[i] == methods[i]);
        let (a, b) = choose|a: Seq<char>, b: Seq<char>|
            client_methods(before, trait_name) == #[trigger] (a + client + b);
        let tail = b + client_method(methods.last(), n, trait_name);
        assert(client_methods(methods, trait_name) =~= a + client + tail);
        let (a, b) = choose|a: Seq<char>, b: Seq<char>|
            dispatch_arms(before) == #[trigger] (a + arm + b);
        let tail = b + dispatch_arm(methods.last(), n);
        assert(dispatch_arms(methods) =~= a + arm + tail);
        let (a, b) = choose|a: Seq<char>, b: Seq<char>|
            request_structs(before) == #[trigger] (a + request + b);
        let tail = b + request_struct(methods.last());
        assert(request_structs(methods) =~= a + request + tail);
    } else {
        let none = Seq::<char>::empty();
        assert(client_methods(methods, trait_name) =~= client_methods(before, trait_name) + client
            + none);
        assert(dispatch_arms(methods) =~= dispatch_arms(before) + arm + none);
        assert(request_structs(methods) =~= request_structs(before) + request + none);
    }
}

/// Client and server agree on the number of each method: the client has a
/// method that makes its call with the number by which the server picks the
/// arm that calls it, and the server has a struct for its arguments.
#[verifier::spinoff_prover]
#[verifier::rlimit(50)]
pub proof fn client_and_server_agree(methods: Seq<MethodModel>, i: int, trait_name: Seq<char>)
    requires
        0 <= i < methods.len(),
    ensures
        ({
            let client = client_method(methods[i], i as nat, trait_name);
            let arm = dispatch_arm(methods[i], i as nat);
            &&& has_substring(client_methods(methods, trait_name), client)
            &&& has_substring(client, ">>::invoke(self, "@ + method_id(i as nat))
            &&& has_substring(dispatch_arms(methods), arm)
            &&& method_id(i as nat).is_prefix_of(arm)
            &&& has_substring(request_structs(methods), request_struct(methods[i]))
        }),
{
    let m = methods[i];
    let id = method_id(i as nat);
    let client = client_method(m, i as nat, trait_name);
    let arm = dispatch_arm(m, i as nat);
    method_is_in_the_code(methods, i, trait_name);
    let (a, b) = choose|a: Seq<char>, b: Seq<char>|
        client_methods(methods, trait_name) == #[trigger] (a + client + b);
    part_is_substring(a, client, b);
    let (a, b) = choose|a: Seq<char>, b: Seq<char>|
        dispatch_arms(methods) == #[trigger] (a + arm + b);
    part_is_substring(a, arm, b);
    let (a, b) = choose|a: Seq<char>, b: Seq<char>|
        request_structs(methods) == #[trigger] (a + request_struct(m) + b);
    part_is_substring(a, request_struct(m), b);
    assert(arm.take(id.len() as int) =~= id);
    let invoke = ">>::invoke(self, "@;
    if m.args.len() == 0 {
        let head = "async fn "@ + m.name + "(&self) -> "@ + m.return_type + " { <"@ + m.return_type
            + " as ::rsrpc::ClientEncoding<dyn "@ + trait_name;
        part_is_substring(head, invoke + id, ", &(),).await } "@);
        assert(client =~= head + (invoke + id) + ", &(),).await } "@);
    } else {
        let head = "async fn "@ + m.name + "(&self, "@ + joined(declarations(""@, m.args), ", "@)
            + ") -> "@ + m.return_type
            + " { #[derive(::rsrpc::serde::Serialize)] struct __Request { "@ + joined(
            declarations(""@, m.args),
            ", "@,
        ) + " } <"@ + m.return_type + " as ::rsrpc::ClientEncoding<dyn "@ + trait_name;
        let tail = ", &__Request { "@ + joined(names(""@, m.args), ", "@) + " },).await } "@;
        part_is_substring(head, invoke + id, tail);
        assert(client =~= head + (invoke + id) + tail);
    }
}

/// A trait none of whose methods has a route gets no HTTP code.
pub proof fn no_routes_no_http_code(
    methods: Seq<MethodModel>,
    trait_name: Seq<char>,
    trait_vis: Seq<char>,
    not_send: bool,
)
    requires
        forall|i: int| 0 <= i < methods.len() ==> (#[trigger] methods[i]).http is None,
    ensures
        http_client_impl(methods, trait_name, not_send).len() == 0,
        http_routes(methods, trait_name, trait_vis).len() == 0,
{
}

/// The code for the methods has a part for every method, once each and in the
/// order of the methods, and nothing else: the struct for its arguments, the
/// constant for its number, the method of the client, the arm of the server and
/// the method of the HTTP client. The number of a method is its place.
#[verifier::spinoff_prover]
#[verifier::rlimit(50)]
pub proof fn every_method_has_its_code(methods: Seq<MethodModel>, trait_name: Seq<char>)
    ensures
        lists(
            request_structs(methods),
            Seq::new(methods.len(), |i: int| request_struct(methods[i])),
            Seq::empty(),
        ),
        lists(
            method_id_constants(methods),
            Seq::new(methods.len(), |i: int| method_id_constant(methods[i], i as nat)),
            Seq::empty(),
        ),
        lists(
            client_methods(methods, trait_name),
            Seq::new(methods.len(), |i: int| client_method(methods[i], i as nat, trait_name)),
            Seq::empty(),
        ),
        lists(
            dispatch_arms(methods),
            Seq::new(methods.len(), |i: int| dispatch_arm(methods[i], i as nat)),
            Seq::empty(),
        ),
        lists(
            http_client_methods(methods),
            Seq::new(
                methods.len(),
                |i: int|
                    match methods[i].http {
                        Some(r) => http_client_method(methods[i], r),
                        None => http_client_stub(methods[i]),
                    },
            ),
            Seq::empty(),
        ),
    decreases methods.len(),
{
    let n = methods.len();
    let requests = Seq::new(n, |i: int| request_struct(methods[i]));
    let ids = Seq::new(n, |i: int| method_id_constant(methods[i], i as nat));
    let clients = Seq::new(n, |i: int| client_method(methods[i], i as nat, trait_name));
    let arms = Seq::new(n, |i: int| dispatch_arm(methods[i], i as nat));
    let http = Seq::new(
        n,
        |i: int|
            match methods[i].http {
                Some(r) => http_client_method(methods[i], r),
                None => http_client_stub(methods[i]),
            },
    );
    if n == 0 {
        lists_nothing();
        assert(requests =~= Seq::empty());
        assert(ids =~= Seq::empty());
        assert(clients =~= Seq::empty());
        assert(arms =~= Seq::empty());
        assert(http =~= Seq::empty());
    } else {
        let before = methods.drop_last();
        let k = before.len();
        every_method_has_its_code(before, trait_name);
        lists_grow(
            request_structs(before),
            Seq::new(k, |i: int| request_struct(before[i])),
            requests.last(),
        );
        assert(Seq::new(k, |i: int| request_struct(before[i])).push(requests.last()) =~= requests);
        lists_grow(
            method_id_constants(before),
            Seq::new(k, |i: int| method_id_constant(before[i], i as nat)),
            ids.last(),
        );
        assert(Seq::new(k, |i: int| method_id_constant(before[i], i as nat)).push(ids.last())
            =~= ids);
        lists_grow(
            client_methods(before, trait_name),
            Seq::new(k, |i: int| client_method(before[i], i as nat, trait_name)),
            clients.last(),
        );
        assert(Seq::new(k, |i: int| client_method(before[i], i as nat, trait_name)).push(
            clients.last(),
        ) =~= clients);
        lists_grow(
            dispatch_arms(before),
            Seq::new(k, |i: int| dispatch_arm(before[i], i as nat)),
            arms.last(),
        );
        assert(Seq::new(k, |i: int| dispatch_arm(before[i], i as nat)).push(arms.last()) =~= arms);
        let http_before = Seq::new(
            k,
            |i: int|
                match before[i].http {
                    Some(r) => http_client_method(before[i], r),
                    None => http_client_stub(before[i]),
                },
        );
        lists_grow(http_client_methods(before), http_before, http.last());
        assert(http_before.push(http.last()) =~= http);
    }
}

/// The server dispatches a call to the arm of its number, and answers a number
/// that no method has with an error that names it.
pub proof fn unknown_numbers_are_refused(
    methods: Seq<MethodModel>,
    trait_name: Seq<char>,
    not_send: bool,
)
    ensures
        dispatch_fn(methods, trait_name, not_send) == "pub fn dispatch<'a, T: "@ + trait_name
            + " + ?Sized>(service: &'a T, method_id: u16, payload: &'a [u8],) -> ::std::pin::Pin<::std::boxed::Box<dyn ::std::future::Future<Output = ::rsrpc::DispatchResult>"@
            + (if not_send {
            " + 'a"@
        } else {
            " + Send + 'a"@
        }) + ">> { Box::pin(async move { match method_id { "@ + dispatch_arms(methods)
            + "_ => ::rsrpc::DispatchResult::Error(format!(\"Unknown method ID: {}\", method_id)), } }) } "@,
{
}

/// A trait one of whose methods has a route is implemented for the HTTP client,
/// with a method for each of its own.
pub proof fn one_route_brings_the_http_client(
    methods: Seq<MethodModel>,
    trait_name: Seq<char>,
    not_send: bool,
    i: int,
)
    requires
        0 <= i < methods.len(),
        methods[i].http is Some,
    ensures
        http_client_impl(methods, trait_name, not_send) == "#[cfg(feature = \"http\")] "@ + (
        if not_send {
            "#[::rsrpc::async_trait(?Send)] "@
        } else {
            "#[::rsrpc::async_trait] "@
        }) + "impl "@ + trait_name + " for ::rsrpc::HttpClient<dyn "@ + trait_name + "> { "@
            + http_client_methods(methods) + "} "@,
{
}

/// The expansion of a trait is the trait itself, without what only the expansion
/// needs; a module with the structs for the arguments, the numbers and the
/// dispatching of all its methods; the trait for the client and, if there are
/// routes, for the HTTP client; the function that makes a server, which
/// dispatches by that module; and the router.
#[verifier::spinoff_prover]
#[verifier::rlimit(50)]
pub proof fn expansion_has_all_its_parts(
    def: TraitDef,
    methods: Seq<MethodModel>,
    not_send: bool,
)
    ensures
        ({
            let name = def.name@;
            let mark = if not_send {
                "#[::rsrpc::async_trait(?Send)] "@
            } else {
                "#[::rsrpc::async_trait] "@
            };
            let module = "__"@ + snake_case(name) + "_rpc_impl"@;
            service_code(def, methods, not_send) == mark + def.vis@ + " trait "@ + name + " "@
                + def.generics@ + " : "@ + def.supertraits@ + " { "@ + clean_items(def.items@)
                + "} #[doc(hidden)] mod "@ + module
                + " { use super::*; use ::rsrpc::serde::{Serialize, Deserialize}; "@
                + request_structs(methods) + method_id_constants(methods) + dispatch_fn(
                methods,
                name,
                not_send,
            ) + "} "@ + mark + "impl "@ + name + " for ::rsrpc::Client<dyn "@ + name + "> { "@
                + client_methods(methods, name) + "} "@ + http_client_impl(methods, name, not_send)
                + "#[doc = \" Extension trait for creating servers from service implementations.\"] impl dyn "@
                + name + " { #[doc = \" Create a server that hosts this service.\"] "@ + def.vis@
                + " fn serve<T: "@ + name + " + 'static>(service: T) -> ::rsrpc::Server<dyn "@ + name
                + "> { let service: ::std::sync::Arc<dyn "@ + name
                + "> = ::std::sync::Arc::new(service); ::rsrpc::Server::from_arc(service, "@ + module
                + "::dispatch) } } "@ + http_routes(methods, name, def.vis@)
        }),
{
}

/// Every item of a trait stands in its expansion, once each and in order: a
/// method with its signature and its body, any other item as it is.
pub proof fn every_item_is_kept(items: Seq<TraitItemDef>)
    ensures
        lists(
            clean_items(items),
            Seq::new(
                items.len(),
                |i: int|
                    match items[i] {
                        TraitItemDef::Other(text) => text@ + " "@,
                        TraitItemDef::Method(def) => attrs_text(kept_attrs(def.attrs@), false)
                            + def.signature@ + match def.body {
                            None => "; "@,
                            Some(body) => " { "@ + attrs_text(kept_attrs(def.attrs@), true) + body@
                                + " } "@,
                        },
                    },
            ),
            Seq::empty(),
        ),
    decreases items.len(),
{
    let all = Seq::new(items.len(), |i: int| clean_item(items[i]));
    assert(all =~= Seq::new(
        items.len(),
        |i: int|
            match items[i] {
                TraitItemDef::Other(text) => text@ + " "@,
                TraitItemDef::Method(def) => attrs_text(kept_attrs(def.attrs@), false)
                    + def.signature@ + match def.body {
                    None => "; "@,
                    Some(body) => " { "@ + attrs_text(kept_attrs(def.attrs@), true) + body@
                        + " } "@,
                },
            },
    ));
    clean_items_are_listed(items);
}

/// The items of the expansion are listed.
proof fn clean_items_are_listed(items: Seq<TraitItemDef>)
    ensures
        lists(
            clean_items(items),
            Seq::new(items.len(), |i: int| clean_item(items[i])),
            Seq::empty(),
        ),
    decreases items.len(),
{
    let all = Seq::new(items.len(), |i: int| clean_item(items[i]));
    if items.len() == 0 {
        lists_nothing();
        assert(all =~= Seq::empty());
    } else {
        let before = items.drop_last();
        let earlier = Seq::new(before.len(), |i: int| clean_item(before[i]));
        clean_items_are_listed(before);
        lists_grow(clean_items(before), earlier, all.last());
        assert(earlier.push(all.last()) =~= all);
    }
}

/// Attributes are written in order, each one that stands where it is asked for.
#[verifier::spinoff_prover]
#[verifier::rlimit(50)]
pub proof fn attributes_are_written_in_order(attrs: Seq<AttrDef>, inner: bool)
    ensures
        lists(
            attrs_text(attrs, inner),
            Seq::new(
                attrs.len(),
                |i: int|
                    if attrs[i].inner == inner {
                        attrs[i].text@ + " "@
                    } else {
                        Seq::empty()
                    },
            ),
            Seq::empty(),
        ),
    decreases attrs.len(),
{
    let all = Seq::new(
        attrs.len(),
        |i: int|
            if attrs[i].inner == inner {
                attrs[i].text@ + " "@
            } else {
                Seq::empty()
            },
    );
    if attrs.len() == 0 {
        lists_nothing();
        assert(all =~= Seq::empty());
    } else {
        let before = attrs.drop_last();
        let earlier = Seq::new(
            before.len(),
            |i: int|
                if before[i].inner == inner {
                    before[i].text@ + " "@
                } else {
                    Seq::empty()
                },
        );
        attributes_are_written_in_order(before, inner);
        lists_grow(attrs_text(before, inner), earlier, all.last());
        assert(earlier.push(all.last()) =~= all);
        assert(attrs_text(attrs, inner) =~= attrs_text(before, inner) + all.last());
    }
}

/// The attributes that are kept are all that name no HTTP method, in their
/// order.
pub proof fn other_attributes_are_kept_in_order(attrs: Seq<AttrDef>)
    ensures
        kept_attrs(attrs) == attrs.filter(|a: AttrDef| attr_method(a) is None),
{
}

/// A trait is expanded unless it or one of its methods has a raw identifier for
/// a name or an attribute is in the way. The name of the trait is looked at
/// first, then the attributes, and then the names of the methods.
pub proof fn traits_are_expanded_unless_something_is_wrong(
    def: TraitDef,
    reads: Seq<Option<Seq<char>>>,
    not_send: bool,
    expansion: Expansion,
)
    requires
        expands_to(def, reads, not_send, expansion),
    ensures
        expansion is RawIdentifier <==> def.name@.contains('#') || (trait_methods(
            def.items@,
            reads,
        ) matches Ok(methods) && exists|i: int|
            0 <= i < methods.len() && (#[trigger] methods[i]).name.contains('#')),
        expansion is Invalid <==> !def.name@.contains('#') && trait_methods(
            def.items@,
            reads,
        ) is Err,
        expansion matches Expansion::Invalid(e) ==> trait_methods(def.items@, reads) == Err::<
            Seq<MethodModel>,
            MethodError,
        >(e),
        expansion matches Expansion::Code(code) ==> code@ == service_code(
            def,
            trait_methods(def.items@, reads)->Ok_0,
            not_send,
        ),
{
    if let Ok(methods) = trait_methods(def.items@, reads) {
        if has_raw_names(methods) {
            let i = choose|i: int| 0 <= i < methods.len() && is_raw((#[trigger] methods[i]).name);
            assert(methods[i].name.contains('#'));
        } else {
            assert forall|i: int| 0 <= i < methods.len() implies !(
            #[trigger] methods[i]).name.contains('#') by {
                assert(!is_raw(methods[i].name));
            }
        }
    }
}

/// What may be read from a trait is what may be read from each of its methods.
pub proof fn traits_are_read_method_by_method(
    items: Seq<TraitItemDef>,
    reads: Seq<Option<Seq<char>>>,
    i: int,
)
    requires
        items_may_read(items, reads),
        0 <= i < items.len(),
    ensures
        reads.len() == items.len(),
        items[i] matches TraitItemDef::Method(def) ==> attrs_may_read(def.attrs@, reads[i]),
        items[i] is Other ==> reads[i] is None,
{
}

} // verus!
