//! The code that is generated for a service trait.
//!
//! Generated code is text. The names and types that it is made of are copied
//! into it as they stand in the trait.

use crate::listing::{declared_text, declared_text_lists, lists, named_text, named_text_lists};
use crate::method::{args_view, MethodInfo, MethodModel};
use crate::naming::{pascal_case, to_pascal_case, uppercase, uppercased};
use crate::text::{decimal, decimal_stands_for_its_number, join, joined, number_of, texts, texts_extend,
    to_decimal};
use vstd::prelude::*;

verus! {

/// The values of methods.
pub open spec fn methods_view(methods: Seq<MethodInfo>) -> Seq<MethodModel> {
    methods.map_values(|m: MethodInfo| m@)
}

/// The declarations of arguments: name, colon and type behind a prefix.
pub open spec fn declarations(prefix: Seq<char>, args: Seq<(Seq<char>, Seq<char>)>) -> Seq<
    Seq<char>,
> {
    args.map_values(|a: (Seq<char>, Seq<char>)| prefix + a.0 + ": "@ + a.1)
}

/// The names of arguments behind a prefix.
pub open spec fn names(prefix: Seq<char>, args: Seq<(Seq<char>, Seq<char>)>) -> Seq<Seq<char>> {
    args.map_values(|a: (Seq<char>, Seq<char>)| prefix + a.0)
}

/// The types of arguments.
pub open spec fn types(args: Seq<(Seq<char>, Seq<char>)>) -> Seq<Seq<char>> {
    args.map_values(|a: (Seq<char>, Seq<char>)| a.1)
}

/// Writes the declarations of arguments, each behind a prefix.
pub(crate) fn write_declarations(prefix: &str, args: &Vec<(String, String)>) -> (written: Vec<String>)
    ensures
        texts(written@) == declarations(prefix@, args_view(args@)),
{
    let mut written: Vec<String> = Vec::new();
    let mut i: usize = 0;
    assert(texts(written@) =~= declarations(prefix@, args_view(args@)).take(0));
    while i < args.len()
        invariant
            i <= args@.len(),
            i == written@.len(),
            texts(written@) == declarations(prefix@, args_view(args@)).take(i as int),
        decreases args.len() - i,
    {
        let mut s = prefix.to_string();
        s.push_str(&args[i].0);
        s.push_str(": ");
        s.push_str(&args[i].1);
        proof {
            texts_extend(written@, s, declarations(prefix@, args_view(args@)));
        }
        written.push(s);
        i = i + 1;
    }
    assert(declarations(prefix@, args_view(args@)).take(i as int) =~= declarations(prefix@, args_view(args@)));
    written
}

/// Writes the names of arguments, each behind a prefix.
pub(crate) fn write_names(prefix: &str, args: &Vec<(String, String)>) -> (written: Vec<String>)
    ensures
        texts(written@) == names(prefix@, args_view(args@)),
{
    let mut written: Vec<String> = Vec::new();
    let mut i: usize = 0;
    assert(texts(written@) =~= names(prefix@, args_view(args@)).take(0));
    while i < args.len()
        invariant
            i <= args@.len(),
            i == written@.len(),
            texts(written@) == names(prefix@, args_view(args@)).take(i as int),
        decreases args.len() - i,
    {
        let mut s = prefix.to_string();
        s.push_str(&args[i].0);
        proof {
            texts_extend(written@, s, names(prefix@, args_view(args@)));
        }
        written.push(s);
        i = i + 1;
    }
    assert(names(prefix@, args_view(args@)).take(i as int) =~= names(prefix@, args_view(args@)));
    written
}

/// Writes the types of arguments.
pub(crate) fn write_types(args: &Vec<(String, String)>) -> (written: Vec<String>)
    ensures
        texts(written@) == types(args_view(args@)),
{
    let mut written: Vec<String> = Vec::new();
    let mut i: usize = 0;
    assert(texts(written@) =~= types(args_view(args@)).take(0));
    while i < args.len()
        invariant
            i <= args@.len(),
            i == written@.len(),
            texts(written@) == types(args_view(args@)).take(i as int),
        decreases args.len() - i,
    {
        let s = args[i].1.clone();
        proof {
            texts_extend(written@, s, types(args_view(args@)));
        }
        written.push(s);
        i = i + 1;
    }
    assert(types(args_view(args@)).take(i as int) =~= types(args_view(args@)));
    written
}

/// The struct that carries the arguments of a call.
pub open spec fn request_struct(m: MethodModel) -> Seq<char> {
    if m.args.len() == 0 {
        "#[derive(Serialize, Deserialize)] struct __"@ + pascal_case(m.name) + "Request; "@
    } else {
        "#[derive(Serialize, Deserialize)] struct __"@ + pascal_case(m.name) + "Request { "@
            + joined(declarations("pub "@, m.args), ", "@) + " } "@
    }
}

/// Generates the struct that carries the arguments of a call.
pub fn generate_request_struct(method: &MethodInfo) -> (code: String)
    ensures
        code@ == request_struct(method@),
{
    let mut code = "#[derive(Serialize, Deserialize)] struct __".to_string();
    code.push_str(&to_pascal_case(&method.name));
    if method.args.len() == 0 {
        code.push_str("Request; ");
    } else {
        code.push_str("Request { ");
        code.push_str(&join(&write_declarations("pub ", &method.args), ", "));
        code.push_str(" } ");
    }
    code
}

/// The number of a method as a literal. Numbers have two bytes.
pub open spec fn method_id(index: nat) -> Seq<char> {
    decimal(index % 0x1_0000) + "u16"@
}

/// Writes the number of a method as a literal.
fn write_method_id(index: u16) -> (code: String)
    ensures
        code@ == method_id(index as nat),
{
    let mut code = to_decimal(index);
    code.push_str("u16");
    code
}

/// The constant that holds the number of a method.
pub open spec fn method_id_constant(m: MethodModel, index: nat) -> Seq<char> {
    "const "@ + uppercased(m.name) + "_METHOD_ID: u16 = "@ + method_id(index) + "; "@
}

/// Generates the constant that holds the number of a method.
pub fn generate_method_id(method: &MethodInfo, index: u16) -> (code: String)
    ensures
        code@ == method_id_constant(method@, index as nat),
{
    let mut code = "const ".to_string();
    code.push_str(&uppercase(&method.name));
    code.push_str("_METHOD_ID: u16 = ");
    code.push_str(&write_method_id(index));
    code.push_str("; ");
    code
}

/// The method of the client that makes a call.
pub open spec fn client_method(m: MethodModel, index: nat, trait_name: Seq<char>) -> Seq<char> {
    if m.args.len() == 0 {
        "async fn "@ + m.name + "(&self) -> "@ + m.return_type + " { <"@ + m.return_type
            + " as ::rsrpc::ClientEncoding<dyn "@ + trait_name + ">>::invoke(self, "@ + method_id(
            index,
        ) + ", &(),).await } "@
    } else {
        "async fn "@ + m.name + "(&self, "@ + joined(declarations(""@, m.args), ", "@) + ") -> "@
            + m.return_type + " { #[derive(::rsrpc::serde::Serialize)] struct __Request { "@
            + joined(declarations(""@, m.args), ", "@) + " } <"@ + m.return_type
            + " as ::rsrpc::ClientEncoding<dyn "@ + trait_name + ">>::invoke(self, "@ + method_id(
            index,
        ) + ", &__Request { "@ + joined(names(""@, m.args), ", "@) + " },).await } "@
    }
}

/// Generates the method of the client that makes a call.
pub fn generate_client_method(method: &MethodInfo, index: u16, trait_name: &str) -> (code: String)
    ensures
        code@ == client_method(method@, index as nat, trait_name@),
{
    let mut code = "async fn ".to_string();
    code.push_str(&method.name);
    if method.args.len() == 0 {
        code.push_str("(&self) -> ");
        code.push_str(&method.return_type);
        code.push_str(" { <");
        code.push_str(&method.return_type);
        code.push_str(" as ::rsrpc::ClientEncoding<dyn ");
        code.push_str(trait_name);
        code.push_str(">>::invoke(self, ");
        code.push_str(&write_method_id(index));
        code.push_str(", &(),).await } ");
    } else {
        let declared = join(&write_declarations("", &method.args), ", ");
        code.push_str("(&self, ");
        code.push_str(&declared);
        code.push_str(") -> ");
        code.push_str(&method.return_type);
        code.push_str(" { #[derive(::rsrpc::serde::Serialize)] struct __Request { ");
        code.push_str(&declared);
        code.push_str(" } <");
        code.push_str(&method.return_type);
        code.push_str(" as ::rsrpc::ClientEncoding<dyn ");
        code.push_str(trait_name);
        code.push_str(">>::invoke(self, ");
        code.push_str(&write_method_id(index));
        code.push_str(", &__Request { ");
        code.push_str(&join(&write_names("", &method.args), ", "));
        code.push_str(" },).await } ");
    }
    code
}

/// The arm of the server that dispatches a call.
pub open spec fn dispatch_arm(m: MethodModel, index: nat) -> Seq<char> {
    if m.args.len() == 0 {
        method_id(index) + " => { let result = service."@ + m.name
            + "().await; ::rsrpc::ServerEncoding::into_dispatch(result) } "@
    } else {
        method_id(index) + " => { let req: __"@ + pascal_case(m.name)
            + "Request = match ::rsrpc::postcard::from_bytes(payload) { Ok(r) => r, Err(e) => return ::rsrpc::DispatchResult::Error(e.to_string()), }; let result = service."@
            + m.name + "("@ + joined(names("req."@, m.args), ", "@)
            + ").await; ::rsrpc::ServerEncoding::into_dispatch(result) } "@
    }
}

/// Generates the arm of the server that dispatches a call.
pub fn generate_dispatch_arm(method: &MethodInfo, index: u16) -> (code: String)
    ensures
        code@ == dispatch_arm(method@, index as nat),
{
    let mut code = write_method_id(index);
    if method.args.len() == 0 {
        code.push_str(" => { let result = service.");
        code.push_str(&method.name);
        code.push_str("().await; ::rsrpc::ServerEncoding::into_dispatch(result) } ");
    } else {
        code.push_str(" => { let req: __");
        code.push_str(&to_pascal_case(&method.name));
        code.push_str(
            "Request = match ::rsrpc::postcard::from_bytes(payload) { Ok(r) => r, Err(e) => return ::rsrpc::DispatchResult::Error(e.to_string()), }; let result = service.",
        );
        code.push_str(&method.name);
        code.push_str("(");
        code.push_str(&join(&write_names("req.", &method.args), ", "));
        code.push_str(").await; ::rsrpc::ServerEncoding::into_dispatch(result) } ");
    }
    code
}

/// The value of a method shows what the method holds, argument by argument.
pub proof fn method_view_shows_every_field(info: MethodInfo)
    ensures
        info@.name == info.name@,
        info@.return_type == info.return_type@,
        info@.args.len() == info.args@.len(),
        forall|i: int|
            0 <= i < info.args@.len() ==> #[trigger] info@.args[i] == (
                info.args@[i].0@,
                info.args@[i].1@,
            ),
        info@.http is Some <==> info.http is Some,
        info.http matches Some(r) ==> info@.http->Some_0 == r@,
{
}

/// The values of methods are those of each of them, in order.
pub proof fn methods_view_shows_every_method(methods: Seq<MethodInfo>)
    ensures
        methods_view(methods).len() == methods.len(),
        forall|i: int| 0 <= i < methods.len() ==> #[trigger] methods_view(methods)[i] == methods[i]@,
{
}

/// What is written for a list of arguments is the arguments in their order.
pub(crate) proof fn written_lists(prefix: Seq<char>, args: Seq<(Seq<char>, Seq<char>)>)
    ensures
        joined(declarations(prefix, args), ", "@) == declared_text(prefix, args),
        joined(names(prefix, args), ", "@) == named_text(prefix, args),
        joined(types(args), ", "@) == joined(Seq::new(args.len(), |i: int| args[i].1), ", "@),
{
    assert(declarations(prefix, args) =~= Seq::new(
        args.len(),
        |i: int| prefix + args[i].0 + ": "@ + args[i].1,
    ));
    assert(names(prefix, args) =~= Seq::new(args.len(), |i: int| prefix + args[i].0));
    assert(types(args) =~= Seq::new(args.len(), |i: int| args[i].1));
}

/// The number of a method is written as its decimal digits, with the type of
/// numbers behind.
pub proof fn method_number_is_its_index(index: nat)
    requires
        index < 0x1_0000,
    ensures
        method_id(index).len() > 3,
        method_id(index).skip(method_id(index).len() - 3) == "u16"@,
        number_of(method_id(index).take(method_id(index).len() - 3)) == index,
{
    reveal_strlit("u16");
    decimal_stands_for_its_number(index);
    let id = method_id(index);
    assert(id.skip(id.len() - 3) =~= "u16"@);
    assert(id.take(id.len() - 3) =~= decimal(index));
}

/// Numbers have two bytes: they begin again behind the last.
pub proof fn method_numbers_wrap_around(index: nat)
    ensures
        method_id(index + 0x1_0000) == method_id(index),
{
    assert((index + 0x1_0000) % 0x1_0000 == index % 0x1_0000);
}

/// The constant for the number of a method has its name in capitals and its
/// number.
pub proof fn method_constant_holds_the_number(m: MethodModel, index: nat)
    ensures
        method_id_constant(m, index) == "const "@ + uppercased(m.name) + "_METHOD_ID: u16 = "@
            + method_id(index) + "; "@,
{
}

/// Arguments arrive by position. The struct that the client serializes and the
/// one that the server reads declare the arguments of the method, with the same
/// names and types and in the same order, the client fills it with all of them,
/// and the server calls the method of the service with as many values, the one
/// at each place being the field of the argument at that place. The call carries
/// the number of the method, and the server picks its arm by the same number.
pub proof fn arguments_arrive_by_position(m: MethodModel, index: nat, trait_name: Seq<char>)
    requires
        m.args.len() > 0,
    ensures
        request_struct(m) == "#[derive(Serialize, Deserialize)] struct __"@ + pascal_case(m.name)
            + "Request { "@ + declared_text("pub "@, m.args) + " } "@,
        client_method(m, index, trait_name) == "async fn "@ + m.name + "(&self, "@ + declared_text(
            ""@,
            m.args,
        ) + ") -> "@ + m.return_type
            + " { #[derive(::rsrpc::serde::Serialize)] struct __Request { "@ + declared_text(
            ""@,
            m.args,
        ) + " } <"@ + m.return_type + " as ::rsrpc::ClientEncoding<dyn "@ + trait_name
            + ">>::invoke(self, "@ + method_id(index) + ", &__Request { "@ + named_text(
            ""@,
            m.args,
        ) + " },).await } "@,
        dispatch_arm(m, index) == method_id(index) + " => { let req: __"@ + pascal_case(m.name)
            + "Request = match ::rsrpc::postcard::from_bytes(payload) { Ok(r) => r, Err(e) => return ::rsrpc::DispatchResult::Error(e.to_string()), }; let result = service."@
            + m.name + "("@ + named_text("req."@, m.args)
            + ").await; ::rsrpc::ServerEncoding::into_dispatch(result) } "@,
        lists(
            declared_text("pub "@, m.args),
            Seq::new(m.args.len(), |i: int| "pub "@ + m.args[i].0 + ": "@ + m.args[i].1),
            ", "@,
        ),
        lists(
            declared_text(""@, m.args),
            Seq::new(m.args.len(), |i: int| ""@ + m.args[i].0 + ": "@ + m.args[i].1),
            ", "@,
        ),
        lists(
            named_text(""@, m.args),
            Seq::new(m.args.len(), |i: int| ""@ + m.args[i].0),
            ", "@,
        ),
        lists(
            named_text("req."@, m.args),
            Seq::new(m.args.len(), |i: int| "req."@ + m.args[i].0),
            ", "@,
        ),
{
    written_lists("pub "@, m.args);
    written_lists(""@, m.args);
    written_lists("req."@, m.args);
    declared_text_lists("pub "@, m.args);
    declared_text_lists(""@, m.args);
    named_text_lists(""@, m.args);
    named_text_lists("req."@, m.args);
}

/// A method without arguments is called without any: the client sends the empty
/// value, and the server reads none.
pub proof fn calls_without_arguments_carry_none(
    m: MethodModel,
    index: nat,
    trait_name: Seq<char>,
)
    requires
        m.args.len() == 0,
    ensures
        request_struct(m) == "#[derive(Serialize, Deserialize)] struct __"@ + pascal_case(m.name)
            + "Request; "@,
        client_method(m, index, trait_name) == "async fn "@ + m.name + "(&self) -> "@
            + m.return_type + " { <"@ + m.return_type + " as ::rsrpc::ClientEncoding<dyn "@
            + trait_name + ">>::invoke(self, "@ + method_id(index) + ", &(),).await } "@,
        dispatch_arm(m, index) == method_id(index) + " => { let result = service."@ + m.name
            + "().await; ::rsrpc::ServerEncoding::into_dispatch(result) } "@,
{
}

} // verus!
