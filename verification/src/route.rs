//! Routes: the HTTP method and path that an attribute gives a service method.

use crate::naming::{char_is_space, is_ascii_text, is_space, lowercase, lowercased, uppercased};
use crate::text::{find, first_occurrence, first_occurrence_is_first, from_chars,
    has_substring, occurs_at, texts, to_chars};
use vstd::prelude::*;

verus! {

/// HTTP method of an endpoint.
#[derive(Debug, Clone, Copy, PartialEq, Eq, Structural)]
pub enum HttpMethod {
    Get,
    Post,
    Put,
    Patch,
    Delete,
}

impl HttpMethod {
    /// The method that an attribute name stands for, whatever its case.
    pub open spec fn named(s: Seq<char>) -> Option<HttpMethod> {
        let name = lowercased(s);
        if name == "get"@ {
            Some(HttpMethod::Get)
        } else if name == "post"@ {
            Some(HttpMethod::Post)
        } else if name == "put"@ {
            Some(HttpMethod::Put)
        } else if name == "patch"@ {
            Some(HttpMethod::Patch)
        } else if name == "delete"@ {
            Some(HttpMethod::Delete)
        } else {
            None
        }
    }

    /// The method that an attribute name stands for, if it stands for one.
    pub fn from_str(s: &str) -> (method: Option<HttpMethod>)
        ensures
            method == HttpMethod::named(s@),
    {
        let name = lowercase(s);
        if name == "get".to_string() {
            Some(HttpMethod::Get)
        } else if name == "post".to_string() {
            Some(HttpMethod::Post)
        } else if name == "put".to_string() {
            Some(HttpMethod::Put)
        } else if name == "patch".to_string() {
            Some(HttpMethod::Patch)
        } else if name == "delete".to_string() {
            Some(HttpMethod::Delete)
        } else {
            None
        }
    }

    /// The path of the constant of the `http` crate for the method.
    pub open spec fn constant(self) -> Seq<char> {
        match self {
            HttpMethod::Get => "::rsrpc::http::Method::GET"@,
            HttpMethod::Post => "::rsrpc::http::Method::POST"@,
            HttpMethod::Put => "::rsrpc::http::Method::PUT"@,
            HttpMethod::Patch => "::rsrpc::http::Method::PATCH"@,
            HttpMethod::Delete => "::rsrpc::http::Method::DELETE"@,
        }
    }

    /// The path of the function of the `axum` crate that routes the method.
    pub open spec fn router(self) -> Seq<char> {
        match self {
            HttpMethod::Get => "::rsrpc::axum::routing::get"@,
            HttpMethod::Post => "::rsrpc::axum::routing::post"@,
            HttpMethod::Put => "::rsrpc::axum::routing::put"@,
            HttpMethod::Patch => "::rsrpc::axum::routing::patch"@,
            HttpMethod::Delete => "::rsrpc::axum::routing::delete"@,
        }
    }

    /// The path of the constant of the `http` crate for the method.
    pub fn to_tokens(self) -> (path: &'static str)
        ensures
            path@ == self.constant(),
    {
        match self {
            HttpMethod::Get => "::rsrpc::http::Method::GET",
            HttpMethod::Post => "::rsrpc::http::Method::POST",
            HttpMethod::Put => "::rsrpc::http::Method::PUT",
            HttpMethod::Patch => "::rsrpc::http::Method::PATCH",
            HttpMethod::Delete => "::rsrpc::http::Method::DELETE",
        }
    }

    /// The path of the function of the `axum` crate that routes the method.
    pub fn to_axum_method(self) -> (path: &'static str)
        ensures
            path@ == self.router(),
    {
        match self {
            HttpMethod::Get => "::rsrpc::axum::routing::get",
            HttpMethod::Post => "::rsrpc::axum::routing::post",
            HttpMethod::Put => "::rsrpc::axum::routing::put",
            HttpMethod::Patch => "::rsrpc::axum::routing::patch",
            HttpMethod::Delete => "::rsrpc::axum::routing::delete",
        }
    }
}

/// A route as an attribute describes it.
#[derive(Debug)]
pub struct HttpRoute {
    pub method: HttpMethod,
    /// The path with its parameters in braces, for building URLs.
    pub path: String,
    /// The path with a colon before each parameter, for the router.
    pub axum_path: String,
    /// The parameters in the path.
    pub path_params: Vec<String>,
    /// The parameters behind the path.
    pub query_params: Vec<String>,
}

/// The value of a route.
pub struct RouteModel {
    pub method: HttpMethod,
    pub path: Seq<char>,
    pub axum_path: Seq<char>,
    pub path_params: Seq<Seq<char>>,
    pub query_params: Seq<Seq<char>>,
}

impl View for HttpRoute {
    type V = RouteModel;

    open spec fn view(&self) -> RouteModel {
        RouteModel {
            method: self.method,
            path: self.path@,
            axum_path: self.axum_path@,
            path_params: texts(self.path_params@),
            query_params: texts(self.query_params@),
        }
    }
}

/// A path is made of plain characters, each a text of its own, and parameters.
pub enum Piece {
    Plain(Seq<char>),
    Param(Seq<char>),
}

/// The length of the name of a parameter, which ends at the first closing
/// brace or at the end of the path.
pub open spec fn name_len(s: Seq<char>) -> nat
    decreases s.len(),
{
    if s.len() == 0 || s[0] == '}' {
        0
    } else {
        1 + name_len(s.skip(1))
    }
}

/// The pieces of a path: an opening brace begins a parameter.
pub open spec fn pieces(s: Seq<char>) -> Seq<Piece>
    decreases s.len(),
{
    if s.len() == 0 {
        Seq::empty()
    } else if s[0] == '{' {
        let n = name_len(s.skip(1));
        if n + 2 <= s.len() {
            seq![Piece::Param(s.subrange(1, 1 + n as int))] + pieces(s.skip(n as int + 2))
        } else {
            seq![Piece::Param(s.skip(1))]
        }
    } else {
        seq![Piece::Plain(seq![s[0]])] + pieces(s.skip(1))
    }
}

/// A piece with the parameter in braces.
pub open spec fn braced(piece: Piece) -> Seq<char> {
    match piece {
        Piece::Plain(text) => text,
        Piece::Param(name) => seq!['{'] + name + seq!['}'],
    }
}

/// A piece with a colon before the parameter.
pub open spec fn coloned(piece: Piece) -> Seq<char> {
    match piece {
        Piece::Plain(text) => text,
        Piece::Param(name) => seq![':'] + name,
    }
}

/// A path with its parameters in braces.
pub open spec fn braced_path(ps: Seq<Piece>) -> Seq<char>
    decreases ps.len(),
{
    if ps.len() == 0 {
        Seq::empty()
    } else {
        braced_path(ps.drop_last()) + braced(ps.last())
    }
}

/// A path with a colon before each parameter.
pub open spec fn coloned_path(ps: Seq<Piece>) -> Seq<char>
    decreases ps.len(),
{
    if ps.len() == 0 {
        Seq::empty()
    } else {
        coloned_path(ps.drop_last()) + coloned(ps.last())
    }
}

/// The names of the parameters of a path, in order.
pub open spec fn param_names(ps: Seq<Piece>) -> Seq<Seq<char>>
    decreases ps.len(),
{
    if ps.len() == 0 {
        Seq::empty()
    } else {
        match ps.last() {
            Piece::Plain(_) => param_names(ps.drop_last()),
            Piece::Param(name) => param_names(ps.drop_last()).push(name),
        }
    }
}

/// The path of a route, without the query behind the first `/?`.
pub open spec fn path_part(s: Seq<char>) -> Seq<char> {
    match first_occurrence(s, "/?"@, 0) {
        Some(i) => s.take(i),
        None => s,
    }
}

/// The query of a route, which stands behind the first `/?`; empty if there is
/// none.
pub open spec fn query_part(s: Seq<char>) -> Seq<char> {
    match first_occurrence(s, "/?"@, 0) {
        Some(i) => s.skip(i + 2),
        None => Seq::empty(),
    }
}

/// Whether a character separates the parameters of a query.
pub open spec fn is_separator(c: char) -> bool {
    c == '?' || c == '&' || c == '/'
}

/// The parts of a query between its separators.
pub open spec fn query_parts(s: Seq<char>) -> Seq<Seq<char>>
    decreases s.len(),
{
    if s.len() == 0 {
        seq![Seq::empty()]
    } else {
        let before = query_parts(s.drop_last());
        if is_separator(s.last()) {
            before.push(Seq::empty())
        } else {
            before.drop_last().push(before.last().push(s.last()))
        }
    }
}

/// A text without the white space around it.
pub open spec fn trimmed(s: Seq<char>) -> Seq<char>
    decreases s.len(),
{
    if s.len() > 0 && is_space(s[0]) {
        trimmed(s.skip(1))
    } else if s.len() > 0 && is_space(s.last()) {
        trimmed(s.drop_last())
    } else {
        s
    }
}

/// The texts without the white space around them, as far as something is left.
pub open spec fn nonempty_trimmed(parts: Seq<Seq<char>>) -> Seq<Seq<char>>
    decreases parts.len(),
{
    if parts.len() == 0 {
        Seq::empty()
    } else {
        let name = trimmed(parts.last());
        if name.len() == 0 {
            nonempty_trimmed(parts.drop_last())
        } else {
            nonempty_trimmed(parts.drop_last()).push(name)
        }
    }
}

/// The names of the parameters of a query, in order.
pub open spec fn query_names(s: Seq<char>) -> Seq<Seq<char>> {
    nonempty_trimmed(query_parts(s))
}

/// The route that a route string describes.
pub open spec fn route(s: Seq<char>, method: HttpMethod) -> RouteModel {
    let ps = pieces(path_part(s));
    RouteModel {
        method,
        path: braced_path(ps),
        axum_path: coloned_path(ps),
        path_params: param_names(ps),
        query_params: query_names(query_part(s)),
    }
}

/// The position of the first closing brace from `from` on, or the end.
fn name_end(chars: &Vec<char>, from: usize, end: usize) -> (at: usize)
    requires
        from <= end <= chars@.len(),
    ensures
        at == from + name_len(chars@.subrange(from as int, end as int)),
        from <= at <= end,
{
    let ghost whole = chars@.subrange(from as int, end as int);
    let mut i: usize = from;
    assert(whole.skip(0) =~= whole);
    while i < end && chars[i] != '}'
        invariant
            from <= i <= end <= chars@.len(),
            whole == chars@.subrange(from as int, end as int),
            name_len(whole) == (i - from) + name_len(whole.skip(i - from)),
        decreases end - i,
    {
        proof {
            assert(whole.skip(i - from).skip(1) =~= whole.skip(i - from + 1));
        }
        i = i + 1;
    }
    i
}

/// Removes the white space around a part of a text.
fn trim(chars: &Vec<char>, from: usize, to: usize) -> (result: String)
    requires
        from <= to <= chars@.len(),
    ensures
        result@ == trimmed(chars@.subrange(from as int, to as int)),
{
    let ghost whole = chars@.subrange(from as int, to as int);
    let mut low: usize = from;
    while low < to && char_is_space(chars[low])
        invariant
            from <= low <= to <= chars@.len(),
            trimmed(whole) == trimmed(chars@.subrange(low as int, to as int)),
        decreases to - low,
    {
        proof {
            assert(chars@.subrange(low as int, to as int).skip(1) =~= chars@.subrange(
                low + 1,
                to as int,
            ));
        }
        low = low + 1;
    }
    let mut high: usize = to;
    while low < high && char_is_space(chars[high - 1])
        invariant
            from <= low <= high <= to <= chars@.len(),
            low < to ==> !is_space(chars@[low as int]),
            trimmed(whole) == trimmed(chars@.subrange(low as int, high as int)),
        decreases high - low,
    {
        proof {
            assert(chars@.subrange(low as int, high as int).drop_last() =~= chars@.subrange(
                low as int,
                high - 1,
            ));
        }
        high = high - 1;
    }
    from_chars(chars, low, high)
}

/// Collects the names of the parameters of the query that begins at `from`.
fn parse_query(chars: &Vec<char>, from: usize) -> (params: Vec<String>)
    requires
        from <= chars@.len(),
    ensures
        texts(params@) == query_names(chars@.skip(from as int)),
{
    let ghost query = chars@.skip(from as int);
    let mut params: Vec<String> = Vec::new();
    let mut start: usize = from;
    let mut i: usize = from;
    let ghost mut done: Seq<Seq<char>> = Seq::empty();
    proof {
        assert(query.take(0) =~= Seq::<char>::empty());
        assert(chars@.subrange(start as int, i as int) =~= Seq::<char>::empty());
        assert(query_parts(query.take(0)) =~= done.push(
            chars@.subrange(start as int, i as int),
        ));
        assert(texts(params@) =~= nonempty_trimmed(done));
    }
    while i < chars.len()
        invariant
            from <= start <= i <= chars@.len(),
            query == chars@.skip(from as int),
            query_parts(query.take(i - from)) == done.push(
                chars@.subrange(start as int, i as int),
            ),
            texts(params@) == nonempty_trimmed(done),
        decreases chars.len() - i,
    {
        let c = chars[i];
        let ghost before = query_parts(query.take(i - from));
        proof {
            assert(query.take(i - from + 1).drop_last() =~= query.take(i - from));
            assert(before.drop_last() =~= done);
        }
        if c == '?' || c == '&' || c == '/' {
            let param = trim(chars, start, i);
            let ghost part = chars@.subrange(start as int, i as int);
            proof {
                assert(done.push(part).drop_last() =~= done);
            }
            if !param.as_str().is_empty() {
                let ghost old_params = params@;
                params.push(param);
                assert(texts(params@) =~= texts(old_params).push(trimmed(part)));
            }
            proof {
                done = done.push(part);
            }
            start = i + 1;
            assert(chars@.subrange(start as int, i + 1) =~= Seq::<char>::empty());
        } else {
            assert(chars@.subrange(start as int, i + 1) =~= chars@.subrange(
                start as int,
                i as int,
            ).push(c));
        }
        i = i + 1;
    }
    let param = trim(chars, start, i);
    let ghost part = chars@.subrange(start as int, i as int);
    proof {
        assert(query.take(i - from) =~= query);
        assert(done.push(part).drop_last() =~= done);
    }
    if !param.as_str().is_empty() {
        let ghost old_params = params@;
        params.push(param);
        assert(texts(params@) =~= texts(old_params).push(trimmed(part)));
    }
    params
}

/// Parses a route string such as `/logs/{id}/?limit` into its components.
pub fn parse_route(path: &str, method: HttpMethod) -> (parsed: HttpRoute)
    ensures
        parsed@ == route(path@, method),
{
    let chars = to_chars(path);
    let mark = to_chars("/?");
    proof {
        reveal_strlit("/?");
        first_occurrence_is_first(path@, "/?"@, 0);
    }
    let query_params: Vec<String>;
    let end: usize;
    match find(&chars, &mark) {
        Some(at) => {
            end = at;
            assert(at + 2 <= chars.len());
            query_params = parse_query(&chars, at + 2);
        },
        None => {
            end = chars.len();
            query_params = Vec::new();
            proof {
                no_query_has_no_names();
                assert(texts(query_params@) =~= Seq::<Seq<char>>::empty());
            }
        },
    }
    let ghost part = path_part(path@);
    assert(part =~= chars@.subrange(0, end as int));
    let mut clean_path = String::new();
    let mut axum_path = String::new();
    let mut path_params: Vec<String> = Vec::new();
    let mut i: usize = 0;
    let ghost mut done: Seq<Piece> = Seq::empty();
    proof {
        assert(part.skip(0) =~= part);
        assert(done + pieces(part) =~= pieces(part));
        assert(texts(path_params@) =~= param_names(done));
    }
    while i < end
        invariant
            i <= end <= chars@.len(),
            part == chars@.subrange(0, end as int),
            pieces(part) == done + pieces(part.skip(i as int)),
            clean_path@ == braced_path(done),
            axum_path@ == coloned_path(done),
            texts(path_params@) == param_names(done),
        decreases end - i,
    {
        let c = chars[i];
        let ghost rest = part.skip(i as int);
        if c == '{' {
            let close = name_end(&chars, i + 1, end);
            let param = from_chars(&chars, i + 1, close);
            let ghost piece = Piece::Param(param@);
            let ghost (old_clean, old_axum, old_params) = (clean_path@, axum_path@, path_params@);
            clean_path.push('{');
            clean_path.push_str(&param);
            clean_path.push('}');
            axum_path.push(':');
            axum_path.push_str(&param);
            path_params.push(param);
            let next: usize = if close < end {
                close + 1
            } else {
                end
            };
            proof {
                assert(rest.skip(1) =~= chars@.subrange(i + 1, end as int));
                let n = name_len(rest.skip(1));
                if close < end {
                    assert(rest.subrange(1, 1 + n as int) =~= chars@.subrange(i + 1, close as int));
                    assert(rest.skip(n as int + 2) =~= part.skip(next as int));
                    assert(pieces(rest) =~= seq![piece] + pieces(part.skip(next as int)));
                } else {
                    assert(rest.skip(1) =~= chars@.subrange(i + 1, close as int));
                    assert(part.skip(next as int) =~= Seq::<char>::empty());
                    assert(pieces(rest) =~= seq![piece] + pieces(part.skip(next as int)));
                }
                assert(done.push(piece).drop_last() =~= done);
                assert(done + pieces(rest) =~= done.push(piece) + pieces(part.skip(next as int)));
                assert(clean_path@ =~= old_clean + braced(piece));
                assert(axum_path@ =~= old_axum + coloned(piece));
                assert(texts(path_params@) =~= texts(old_params).push(piece->Param_0));
                done = done.push(piece);
            }
            i = next;
        } else {
            let ghost piece = Piece::Plain(seq![c]);
            let ghost (old_clean, old_axum) = (clean_path@, axum_path@);
            clean_path.push(c);
            axum_path.push(c);
            proof {
                assert(rest.skip(1) =~= part.skip(i + 1));
                assert(done.push(piece).drop_last() =~= done);
                assert(done + pieces(rest) =~= done.push(piece) + pieces(part.skip(i + 1)));
                assert(clean_path@ =~= old_clean + braced(piece));
                assert(axum_path@ =~= old_axum + coloned(piece));
                done = done.push(piece);
            }
            i = i + 1;
        }
    }
    proof {
        assert(done + pieces(part.skip(i as int)) =~= done);
    }
    HttpRoute { method, path: clean_path, axum_path, path_params, query_params }
}

/// No query has no parameters.
proof fn no_query_has_no_names()
    ensures
        query_names(Seq::empty()) == Seq::<Seq<char>>::empty(),
{
    let parts: Seq<Seq<char>> = seq![Seq::empty()];
    assert(query_parts(Seq::empty()) == parts);
    assert(parts.drop_last() =~= Seq::<Seq<char>>::empty());
    assert(parts.last() =~= Seq::<char>::empty());
    reveal_with_fuel(nonempty_trimmed, 2);
}

/// A path of some pieces and then others.
proof fn braced_path_of_sum(a: Seq<Piece>, b: Seq<Piece>)
    ensures
        braced_path(a + b) == braced_path(a) + braced_path(b),
    decreases b.len(),
{
    if b.len() == 0 {
        assert(a + b =~= a);
        assert(braced_path(a) + braced_path(b) =~= braced_path(a));
    } else {
        braced_path_of_sum(a, b.drop_last());
        assert((a + b).drop_last() =~= a + b.drop_last());
        assert(braced_path(a) + braced_path(b.drop_last()) + braced(b.last()) =~= braced_path(a)
            + braced_path(b));
    }
}

/// A path of one piece and then others.
pub(crate) proof fn braced_path_of_first(piece: Piece, rest: Seq<Piece>)
    ensures
        braced_path(seq![piece] + rest) == braced(piece) + braced_path(rest),
{
    braced_path_of_sum(seq![piece], rest);
    assert(seq![piece].drop_last() =~= Seq::<Piece>::empty());
    reveal_with_fuel(braced_path, 2);
    assert(braced_path(seq![piece]) =~= braced(piece));
}

/// Whether an opening brace of a path has no closing one behind it.
pub open spec fn is_unclosed(s: Seq<char>) -> bool
    decreases s.len(),
{
    if s.len() == 0 {
        false
    } else if s[0] == '{' {
        let n = name_len(s.skip(1));
        if n + 2 <= s.len() {
            is_unclosed(s.skip(n as int + 2))
        } else {
            true
        }
    } else {
        is_unclosed(s.skip(1))
    }
}

/// What stands at the end of the name of a parameter.
proof fn name_len_ends(s: Seq<char>)
    ensures
        name_len(s) <= s.len(),
        name_len(s) < s.len() ==> s[name_len(s) as int] == '}',
        forall|i: int| 0 <= i < name_len(s) ==> s[i] != '}',
    decreases s.len(),
{
    if s.len() > 0 && s[0] != '}' {
        let rest = s.skip(1);
        name_len_ends(rest);
        assert forall|i: int| 0 <= i < name_len(s) implies s[i] != '}' by {
            if i > 0 {
                assert(rest[i - 1] != '}');
            }
        }
    }
}

/// The path of a route is the path that was written; only a brace that was
/// left open is closed.
pub proof fn path_is_kept(s: Seq<char>)
    ensures
        braced_path(pieces(s)) == if is_unclosed(s) {
            s.push('}')
        } else {
            s
        },
    decreases s.len(),
{
    if s.len() == 0 {
        assert(braced_path(pieces(s)) =~= s);
    } else if s[0] == '{' {
        let n = name_len(s.skip(1));
        name_len_ends(s.skip(1));
        if n + 2 <= s.len() {
            let rest = s.skip(n as int + 2);
            let name = s.subrange(1, 1 + n as int);
            path_is_kept(rest);
            braced_path_of_first(Piece::Param(name), pieces(rest));
            assert(s.skip(1)[n as int] == '}');
            assert(seq!['{'] + name + seq!['}'] + rest =~= s);
            assert(seq!['{'] + name + seq!['}'] + rest.push('}') =~= s.push('}'));
        } else {
            let ps = seq![Piece::Param(s.skip(1))];
            braced_path_of_first(Piece::Param(s.skip(1)), Seq::empty());
            assert(ps + Seq::<Piece>::empty() =~= ps);
            assert(braced_path(ps) =~= s.push('}'));
        }
    } else {
        let rest = s.skip(1);
        path_is_kept(rest);
        braced_path_of_first(Piece::Plain(seq![s[0]]), pieces(rest));
        assert(seq![s[0]] + rest =~= s);
        assert(seq![s[0]] + rest.push('}') =~= s.push('}'));
    }
}

/// Closing the brace that was left open changes no piece.
proof fn closing_keeps_pieces(s: Seq<char>)
    requires
        is_unclosed(s),
    ensures
        pieces(s.push('}')) == pieces(s),
        !is_unclosed(s.push('}')),
    decreases s.len(),
{
    let t = s.push('}');
    if s[0] == '{' {
        let n = name_len(s.skip(1));
        name_len_ends(s.skip(1));
        assert(t.skip(1) =~= s.skip(1).push('}'));
        name_len_of_closed(s.skip(1));
        if n + 2 <= s.len() {
            closing_keeps_pieces(s.skip(n as int + 2));
            assert(t.skip(n as int + 2) =~= s.skip(n as int + 2).push('}'));
            assert(t.subrange(1, 1 + n as int) =~= s.subrange(1, 1 + n as int));
        } else {
            assert(t.skip(n as int + 2) =~= Seq::<char>::empty());
            assert(t.subrange(1, 1 + n as int) =~= s.skip(1));
            reveal_with_fuel(pieces, 2);
            reveal_with_fuel(is_unclosed, 2);
            assert(pieces(t) =~= pieces(s));
        }
    } else {
        closing_keeps_pieces(s.skip(1));
        assert(t.skip(1) =~= s.skip(1).push('}'));
    }
}

/// A closing brace at the end does not make a name longer.
proof fn name_len_of_closed(s: Seq<char>)
    ensures
        name_len(s.push('}')) == name_len(s),
    decreases s.len(),
{
    let t = s.push('}');
    if s.len() > 0 && s[0] != '}' {
        name_len_of_closed(s.skip(1));
        assert(t.skip(1) =~= s.skip(1).push('}'));
    }
}

/// The path of a route, taken as a route string again, gives the same path,
/// the same path for the router and the same parameters, and no query.
pub proof fn route_path_is_stable(s: Seq<char>, method: HttpMethod)
    ensures
        ({
            let once = route(s, method);
            let again = route(once.path, method);
            &&& again.path == once.path
            &&& again.axum_path == once.axum_path
            &&& again.path_params == once.path_params
            &&& again.query_params == Seq::<Seq<char>>::empty()
        }),
{
    let part = path_part(s);
    let path = braced_path(pieces(part));
    path_is_kept(part);
    if is_unclosed(part) {
        closing_keeps_pieces(part);
    }
    assert(pieces(path) == pieces(part));
    reveal_strlit("/?");
    first_occurrence_is_first(s, "/?"@, 0);
    first_occurrence_is_first(path, "/?"@, 0);
    assert forall|j: int| 0 <= j implies !occurs_at(path, "/?"@, j) by {
        if occurs_at(path, "/?"@, j) {
            let found = path.subrange(j, j + 2);
            assert(found[0] == '/' && found[1] == '?');
            assert(path[j] == '/' && path[j + 1] == '?');
            assert(part[j] == '/' && part[j + 1] == '?');
            assert(s.subrange(j, j + 2) =~= "/?"@);
            assert(occurs_at(s, "/?"@, j));
        }
    }
    assert(path_part(path) == path);
    no_query_has_no_names();
}

/// Whether a text has something in it, but no separator and no white space at
/// either end.
pub open spec fn is_clean_name(s: Seq<char>) -> bool {
    &&& s.len() > 0
    &&& forall|i: int| 0 <= i < s.len() ==> !is_separator(#[trigger] s[i])
    &&& !is_space(s.first())
    &&& !is_space(s.last())
}

/// The parameters of a query are not empty, have no separator in them and no
/// white space around them.
pub proof fn query_names_are_clean(s: Seq<char>)
    ensures
        forall|i: int| 0 <= i < query_names(s).len() ==> is_clean_name(#[trigger] query_names(s)[i]),
{
    query_parts_have_no_separators(s);
    nonempty_trimmed_are_clean(query_parts(s));
}

/// The parts between separators have no separators in them.
proof fn query_parts_have_no_separators(s: Seq<char>)
    ensures
        query_parts(s).len() > 0,
        forall|i: int, j: int|
            0 <= i < query_parts(s).len() && 0 <= j < query_parts(s)[i].len() ==> !is_separator(
                #[trigger] query_parts(s)[i][j],
            ),
    decreases s.len(),
{
    if s.len() > 0 {
        query_parts_have_no_separators(s.drop_last());
        let before = query_parts(s.drop_last());
        let parts = query_parts(s);
        assert forall|i: int, j: int|
            0 <= i < parts.len() && 0 <= j < parts[i].len() implies !is_separator(
            #[trigger] parts[i][j],
        ) by {
            if i < before.len() && j < before[i].len() {
                assert(!is_separator(before[i][j]));
            }
        }
    }
}

/// Trimming leaves a part of the text without white space at its ends.
proof fn trimmed_is_trimmed(s: Seq<char>)
    ensures
        trimmed(s).len() > 0 ==> !is_space(trimmed(s).first()) && !is_space(trimmed(s).last()),
        forall|i: int|
            0 <= i < trimmed(s).len() ==> #[trigger] s.contains(trimmed(s)[i]),
    decreases s.len(),
{
    let t = trimmed(s);
    if s.len() > 0 && is_space(s[0]) {
        trimmed_is_trimmed(s.skip(1));
        assert forall|i: int| 0 <= i < t.len() implies #[trigger] s.contains(t[i]) by {
            assert(s.skip(1).contains(t[i]));
            let k = choose|k: int| 0 <= k < s.skip(1).len() && s.skip(1)[k] == t[i];
            assert(s[k + 1] == t[i]);
        }
    } else if s.len() > 0 && is_space(s.last()) {
        trimmed_is_trimmed(s.drop_last());
        assert forall|i: int| 0 <= i < t.len() implies #[trigger] s.contains(t[i]) by {
            assert(s.drop_last().contains(t[i]));
            let k = choose|k: int| 0 <= k < s.drop_last().len() && s.drop_last()[k] == t[i];
            assert(s[k] == t[i]);
        }
    }
}

/// What is left of texts without separators is clean.
proof fn nonempty_trimmed_are_clean(parts: Seq<Seq<char>>)
    requires
        forall|i: int, j: int|
            0 <= i < parts.len() && 0 <= j < parts[i].len() ==> !is_separator(
                #[trigger] parts[i][j],
            ),
    ensures
        forall|i: int|
            0 <= i < nonempty_trimmed(parts).len() ==> is_clean_name(
                #[trigger] nonempty_trimmed(parts)[i],
            ),
    decreases parts.len(),
{
    if parts.len() > 0 {
        let before = parts.drop_last();
        assert forall|i: int, j: int|
            0 <= i < before.len() && 0 <= j < before[i].len() implies !is_separator(
            #[trigger] before[i][j],
        ) by {
            assert(!is_separator(parts[i][j]));
        }
        nonempty_trimmed_are_clean(before);
        let part = parts.last();
        let name = trimmed(part);
        trimmed_is_trimmed(part);
        assert forall|i: int| 0 <= i < name.len() implies !is_separator(#[trigger] name[i]) by {
            assert(part.contains(name[i]));
            let k = choose|k: int| 0 <= k < part.len() && part[k] == name[i];
            assert(!is_separator(parts[parts.len() - 1][k]));
        }
        let names = nonempty_trimmed(parts);
        let earlier = nonempty_trimmed(before);
        assert forall|i: int| 0 <= i < names.len() implies is_clean_name(#[trigger] names[i]) by {
            if i < earlier.len() {
                assert(is_clean_name(earlier[i]));
            } else {
                assert(names[i] == name);
            }
        }
    }
}

/// Every parameter of a path stands in it in braces, and in the path for the
/// router behind a colon.
pub proof fn params_stand_in_the_path(ps: Seq<Piece>, name: Seq<char>)
    requires
        param_names(ps).contains(name),
    ensures
        has_substring(braced_path(ps), seq!['{'] + name + seq!['}']),
        has_substring(coloned_path(ps), seq![':'] + name),
    decreases ps.len(),
{
    let before = ps.drop_last();
    let in_braces = seq!['{'] + name + seq!['}'];
    let behind_colon = seq![':'] + name;
    if ps.last() == Piece::Param(name) {
        let i = braced_path(before).len() as int;
        assert(braced_path(ps).subrange(i, i + in_braces.len()) =~= in_braces);
        assert(occurs_at(braced_path(ps), in_braces, i));
        let k = coloned_path(before).len() as int;
        assert(coloned_path(ps).subrange(k, k + behind_colon.len()) =~= behind_colon);
        assert(occurs_at(coloned_path(ps), behind_colon, k));
    } else {
        let names = param_names(ps);
        let at = choose|j: int| 0 <= j < names.len() && names[j] == name;
        assert(param_names(before).contains(name)) by {
            assert(param_names(before)[at] == name);
        }
        params_stand_in_the_path(before, name);
        let i = choose|i: int| occurs_at(braced_path(before), in_braces, i);
        assert(braced_path(ps).subrange(i, i + in_braces.len()) =~= braced_path(before).subrange(
            i,
            i + in_braces.len(),
        ));
        assert(occurs_at(braced_path(ps), in_braces, i));
        let k = choose|k: int| occurs_at(coloned_path(before), behind_colon, k);
        assert(coloned_path(ps).subrange(k, k + behind_colon.len()) =~= coloned_path(
            before,
        ).subrange(k, k + behind_colon.len()));
        assert(occurs_at(coloned_path(ps), behind_colon, k));
    }
}

/// Whether no brace stands in a text.
pub open spec fn has_no_braces(s: Seq<char>) -> bool {
    !s.contains('{') && !s.contains('}')
}

/// Whether braces stand in a path only where they enclose a parameter, but for
/// closing ones in plain text.
pub open spec fn is_tidy(ps: Seq<Piece>) -> bool {
    forall|i: int| 0 <= i < ps.len() ==> match #[trigger] ps[i] {
        Piece::Plain(text) => !text.contains('{'),
        Piece::Param(name) => has_no_braces(name),
    }
}

/// The pieces of a path are tidy if none of its parameters has an opening brace
/// in its name.
pub proof fn pieces_are_tidy(s: Seq<char>)
    requires
        forall|i: int| 0 <= i < pieces(s).len() ==> match #[trigger] pieces(s)[i] {
            Piece::Plain(_) => true,
            Piece::Param(name) => !name.contains('{'),
        },
    ensures
        is_tidy(pieces(s)),
    decreases s.len(),
{
    let ps = pieces(s);
    if s.len() == 0 {
    } else if s[0] == '{' {
        let n = name_len(s.skip(1));
        name_len_ends(s.skip(1));
        if n + 2 <= s.len() {
            let rest = pieces(s.skip(n as int + 2));
            let name = s.subrange(1, 1 + n as int);
            assert(ps[0] == Piece::Param(name));
            assert(!name.contains('}')) by {
                assert forall|i: int| 0 <= i < name.len() implies name[i] != '}' by {
                    assert(s.skip(1)[i] != '}');
                }
            }
            assert forall|i: int| 0 <= i < rest.len() implies match #[trigger] rest[i] {
                Piece::Plain(_) => true,
                Piece::Param(name) => !name.contains('{'),
            } by {
                assert(ps[i + 1] == rest[i]);
            }
            pieces_are_tidy(s.skip(n as int + 2));
            assert forall|i: int| 0 <= i < ps.len() implies match #[trigger] ps[i] {
                Piece::Plain(text) => !text.contains('{'),
                Piece::Param(name) => has_no_braces(name),
            } by {
                if i > 0 {
                    assert(ps[i] == rest[i - 1]);
                }
            }
        } else {
            let name = s.skip(1);
            assert(ps[0] == Piece::Param(name));
            assert(!name.contains('}'));
        }
    } else {
        let rest = pieces(s.skip(1));
        assert forall|i: int| 0 <= i < rest.len() implies match #[trigger] rest[i] {
            Piece::Plain(_) => true,
            Piece::Param(name) => !name.contains('{'),
        } by {
            assert(ps[i + 1] == rest[i]);
        }
        pieces_are_tidy(s.skip(1));
        assert forall|i: int| 0 <= i < ps.len() implies match #[trigger] ps[i] {
            Piece::Plain(text) => !text.contains('{'),
            Piece::Param(name) => has_no_braces(name),
        } by {
            if i > 0 {
                assert(ps[i] == rest[i - 1]);
            } else {
                assert(ps[0] == Piece::Plain(seq![s[0]]));
            }
        }
    }
}

/// Every parameter of a path is one of its pieces.
pub(crate) proof fn param_is_a_piece(ps: Seq<Piece>, name: Seq<char>) -> (i: int)
    requires
        param_names(ps).contains(name),
    ensures
        0 <= i < ps.len(),
        ps[i] == Piece::Param(name),
    decreases ps.len(),
{
    let before = ps.drop_last();
    if ps.last() == Piece::Param(name) {
        ps.len() - 1
    } else {
        let names = param_names(ps);
        let at = choose|j: int| 0 <= j < names.len() && names[j] == name;
        assert(param_names(before)[at] == name);
        param_is_a_piece(before, name)
    }
}

/// Every piece of a path that is a parameter is among its parameters.
pub(crate) proof fn piece_is_a_param(ps: Seq<Piece>, i: int)
    requires
        0 <= i < ps.len(),
    ensures
        ps[i] matches Piece::Param(name) ==> param_names(ps).contains(name),
    decreases ps.len(),
{
    let before = ps.drop_last();
    if let Piece::Param(name) = ps[i] {
        if i < before.len() {
            piece_is_a_param(before, i);
            let k = choose|k: int|
                0 <= k < param_names(before).len() && param_names(before)[k] == name;
            assert(param_names(ps)[k] == name);
        } else {
            assert(param_names(ps).last() == name);
        }
    }
}

/// A method is sent as the constant and routed by the function that have its
/// name, the one in uppercase and the other in lowercase.
#[verifier::spinoff_prover]
pub proof fn methods_are_sent_and_routed_by_their_names(s: Seq<char>, method: HttpMethod)
    requires
        HttpMethod::named(s) == Some(method),
        lowercased(s) == s,
    ensures
        method.constant() == "::rsrpc::http::Method::"@ + uppercased(s),
        method.router() == "::rsrpc::axum::routing::"@ + s,
{
    methods_go_by_their_lowercase_names(s);
    reveal_strlit("::rsrpc::http::Method::");
    reveal_strlit("::rsrpc::axum::routing::");
    reveal_strlit("get");
    reveal_strlit("GET");
    reveal_strlit("::rsrpc::http::Method::GET");
    reveal_strlit("::rsrpc::axum::routing::get");
    reveal_strlit("post");
    reveal_strlit("POST");
    reveal_strlit("::rsrpc::http::Method::POST");
    reveal_strlit("::rsrpc::axum::routing::post");
    reveal_strlit("put");
    reveal_strlit("PUT");
    reveal_strlit("::rsrpc::http::Method::PUT");
    reveal_strlit("::rsrpc::axum::routing::put");
    reveal_strlit("patch");
    reveal_strlit("PATCH");
    reveal_strlit("::rsrpc::http::Method::PATCH");
    reveal_strlit("::rsrpc::axum::routing::patch");
    reveal_strlit("delete");
    reveal_strlit("DELETE");
    reveal_strlit("::rsrpc::http::Method::DELETE");
    reveal_strlit("::rsrpc::axum::routing::delete");
    assert(is_ascii_text(s));
    match method {
        HttpMethod::Get => {
            assert(lowercased(s) =~= "get"@);
            assert(s =~= "get"@);
            assert(uppercased(s) =~= "GET"@);
            assert(method.constant() =~= "::rsrpc::http::Method::"@ + uppercased(s));
            assert(method.router() =~= "::rsrpc::axum::routing::"@ + s);
        },
        HttpMethod::Post => {
            assert(lowercased(s) =~= "post"@);
            assert(s =~= "post"@);
            assert(uppercased(s) =~= "POST"@);
            assert(method.constant() =~= "::rsrpc::http::Method::"@ + uppercased(s));
            assert(method.router() =~= "::rsrpc::axum::routing::"@ + s);
        },
        HttpMethod::Put => {
            assert(lowercased(s) =~= "put"@);
            assert(s =~= "put"@);
            assert(uppercased(s) =~= "PUT"@);
            assert(method.constant() =~= "::rsrpc::http::Method::"@ + uppercased(s));
            assert(method.router() =~= "::rsrpc::axum::routing::"@ + s);
        },
        HttpMethod::Patch => {
            assert(lowercased(s) =~= "patch"@);
            assert(s =~= "patch"@);
            assert(uppercased(s) =~= "PATCH"@);
            assert(method.constant() =~= "::rsrpc::http::Method::"@ + uppercased(s));
            assert(method.router() =~= "::rsrpc::axum::routing::"@ + s);
        },
        HttpMethod::Delete => {
            assert(lowercased(s) =~= "delete"@);
            assert(s =~= "delete"@);
            assert(uppercased(s) =~= "DELETE"@);
            assert(method.constant() =~= "::rsrpc::http::Method::"@ + uppercased(s));
            assert(method.router() =~= "::rsrpc::axum::routing::"@ + s);
        },
    }
}

/// The method that a name stands for goes by its lowercase letters alone.
pub proof fn methods_go_by_their_lowercase_names(s: Seq<char>)
    ensures
        HttpMethod::named(s) == Some(HttpMethod::Get) <==> lowercased(s) == seq!['g', 'e', 't'],
        HttpMethod::named(s) == Some(HttpMethod::Post) <==> lowercased(s) == seq![
            'p',
            'o',
            's',
            't',
        ],
        HttpMethod::named(s) == Some(HttpMethod::Put) <==> lowercased(s) == seq!['p', 'u', 't'],
        HttpMethod::named(s) == Some(HttpMethod::Patch) <==> lowercased(s) == seq![
            'p',
            'a',
            't',
            'c',
            'h',
        ],
        HttpMethod::named(s) == Some(HttpMethod::Delete) <==> lowercased(s) == seq![
            'd',
            'e',
            'l',
            'e',
            't',
            'e',
        ],
{
    reveal_strlit("get");
    reveal_strlit("post");
    reveal_strlit("put");
    reveal_strlit("patch");
    reveal_strlit("delete");
    assert("get"@ =~= seq!['g', 'e', 't']);
    assert("post"@ =~= seq!['p', 'o', 's', 't']);
    assert("put"@ =~= seq!['p', 'u', 't']);
    assert("patch"@ =~= seq!['p', 'a', 't', 'c', 'h']);
    assert("delete"@ =~= seq!['d', 'e', 'l', 'e', 't', 'e']);
    assert("get"@.len() == 3 && "post"@.len() == 4 && "put"@.len() == 3 && "patch"@.len() == 5
        && "delete"@.len() == 6);
    assert("get"@[0] == 'g' && "put"@[0] == 'p');
}

/// A path for the router of some pieces and then others.
proof fn coloned_path_of_sum(a: Seq<Piece>, b: Seq<Piece>)
    ensures
        coloned_path(a + b) == coloned_path(a) + coloned_path(b),
    decreases b.len(),
{
    if b.len() == 0 {
        assert(a + b =~= a);
        assert(coloned_path(a) + coloned_path(b) =~= coloned_path(a));
    } else {
        coloned_path_of_sum(a, b.drop_last());
        assert((a + b).drop_last() =~= a + b.drop_last());
        assert((a + b).last() == b.last());
        assert(coloned_path(a + b) =~= coloned_path(a) + coloned_path(b));
    }
}

/// The parameters of some pieces and then others.
proof fn param_names_of_sum(a: Seq<Piece>, b: Seq<Piece>)
    ensures
        param_names(a + b) == param_names(a) + param_names(b),
    decreases b.len(),
{
    if b.len() == 0 {
        assert(a + b =~= a);
        assert(param_names(a) + param_names(b) =~= param_names(a));
    } else {
        param_names_of_sum(a, b.drop_last());
        assert((a + b).drop_last() =~= a + b.drop_last());
        assert((a + b).last() == b.last());
        assert(param_names(a + b) =~= param_names(a) + param_names(b));
    }
}

/// The pieces of a plain text are its characters, and what follows it has the
/// pieces that it has alone.
proof fn pieces_behind_plain_text(a: Seq<char>, rest: Seq<char>)
    requires
        !a.contains('{'),
    ensures
        pieces(a + rest) == pieces(a) + pieces(rest),
        braced_path(pieces(a)) == a,
        coloned_path(pieces(a)) == a,
        param_names(pieces(a)) == Seq::<Seq<char>>::empty(),
    decreases a.len(),
{
    if a.len() == 0 {
        assert(a + rest =~= rest);
        assert(pieces(a) + pieces(rest) =~= pieces(rest));
        assert(braced_path(pieces(a)) =~= a);
        assert(coloned_path(pieces(a)) =~= a);
    } else {
        let tail = a.skip(1);
        let head = seq![Piece::Plain(seq![a[0]])];
        assert(a.contains(a[0]));
        assert(!tail.contains('{')) by {
            if tail.contains('{') {
                let i = choose|i: int| 0 <= i < tail.len() && tail[i] == '{';
                assert(a[i + 1] == '{');
            }
        }
        pieces_behind_plain_text(tail, rest);
        assert((a + rest).skip(1) =~= tail + rest);
        assert(pieces(a + rest) =~= head + (pieces(tail) + pieces(rest)));
        assert(pieces(a) + pieces(rest) =~= head + (pieces(tail) + pieces(rest)));
        braced_path_of_first(head[0], pieces(tail));
        coloned_path_of_sum(head, pieces(tail));
        param_names_of_sum(head, pieces(tail));
        assert(head.drop_last() =~= Seq::empty());
        reveal_with_fuel(coloned_path, 2);
        reveal_with_fuel(param_names, 2);
        assert(coloned_path(head) =~= seq![a[0]]);
        assert(param_names(head) =~= Seq::empty());
        assert(seq![a[0]] + tail =~= a);
    }
}

/// A name ends at the first closing brace.
proof fn name_ends_at_the_brace(name: Seq<char>, rest: Seq<char>)
    requires
        !name.contains('}'),
        rest.len() == 0 || rest[0] == '}',
    ensures
        name_len(name + rest) == name.len(),
    decreases name.len(),
{
    if name.len() == 0 {
        assert(name + rest =~= rest);
    } else {
        let tail = name.skip(1);
        assert(name.contains(name[0]));
        assert(!tail.contains('}')) by {
            if tail.contains('}') {
                let i = choose|i: int| 0 <= i < tail.len() && tail[i] == '}';
                assert(name[i + 1] == '}');
            }
        }
        name_ends_at_the_brace(tail, rest);
        assert((name + rest).skip(1) =~= tail + rest);
    }
}

/// The path and the path for the router of a single parameter.
proof fn one_parameter(name: Seq<char>)
    ensures
        braced_path(seq![Piece::Param(name)]) == seq!['{'] + name + seq!['}'],
        coloned_path(seq![Piece::Param(name)]) == seq![':'] + name,
        param_names(seq![Piece::Param(name)]) == seq![name],
{
    let ps = seq![Piece::Param(name)];
    assert(ps.drop_last() =~= Seq::empty());
    reveal_with_fuel(braced_path, 2);
    reveal_with_fuel(coloned_path, 2);
    reveal_with_fuel(param_names, 2);
    assert(braced_path(ps) =~= seq!['{'] + name + seq!['}']);
    assert(coloned_path(ps) =~= seq![':'] + name);
    assert(param_names(ps) =~= seq![name]);
}

/// Whether a route string has a query.
pub open spec fn has_query(s: Seq<char>) -> bool {
    exists|i: int| 0 <= i < s.len() - 1 && #[trigger] s[i] == '/' && s[i + 1] == '?'
}

/// A route string without a query is all path.
proof fn all_path(s: Seq<char>)
    requires
        !has_query(s),
    ensures
        path_part(s) == s,
        query_names(query_part(s)) == Seq::<Seq<char>>::empty(),
{
    reveal_strlit("/?");
    first_occurrence_is_first(s, "/?"@, 0);
    if let Some(i) = first_occurrence(s, "/?"@, 0) {
        let found = s.subrange(i, i + 2);
        assert(found[0] == '/' && found[1] == '?');
        assert(s[i] == '/' && s[i + 1] == '?');
    }
    no_query_has_no_names();
}

/// A route string without braces and query is its own path, for the client and
/// for the router, and has no parameters.
pub proof fn plain_route_is_its_own_path(s: Seq<char>, method: HttpMethod)
    requires
        !s.contains('{'),
        !has_query(s),
    ensures
        route(s, method).method == method,
        route(s, method).path == s,
        route(s, method).axum_path == s,
        route(s, method).path_params.len() == 0,
        route(s, method).query_params.len() == 0,
{
    all_path(s);
    pieces_behind_plain_text(s, Seq::empty());
}

/// A parameter in braces is a parameter of the route. In the path for the client
/// it stands in its braces and in that for the router behind a colon; the plain
/// text before it is the same in both, and what follows it is there what it is
/// alone.
pub proof fn parameter_in_braces_is_taken(
    before: Seq<char>,
    name: Seq<char>,
    rest: Seq<char>,
    method: HttpMethod,
)
    requires
        !before.contains('{'),
        !name.contains('}'),
        !has_query(before + (seq!['{'] + name + seq!['}']) + rest),
    ensures
        ({
            let whole = route(before + (seq!['{'] + name + seq!['}']) + rest, method);
            let behind = route(rest, method);
            &&& whole.method == method
            &&& whole.path == before + (seq!['{'] + name + seq!['}']) + behind.path
            &&& whole.axum_path == before + (seq![':'] + name) + behind.axum_path
            &&& whole.path_params == seq![name] + behind.path_params
            &&& whole.query_params.len() == 0
        }),
{
    let param = seq!['{'] + name + seq!['}'];
    let tail = param + rest;
    let s = before + param + rest;
    assert(s =~= before + tail);
    assert(!has_query(rest)) by {
        if has_query(rest) {
            let i = choose|i: int|
                0 <= i < rest.len() - 1 && #[trigger] rest[i] == '/' && rest[i + 1] == '?';
            let at = before.len() + param.len() + i;
            assert(s[at] == '/' && s[at + 1] == '?');
        }
    }
    all_path(s);
    all_path(rest);
    pieces_behind_plain_text(before, tail);
    let n = name.len() as int;
    assert(tail.skip(1) =~= name + (seq!['}'] + rest));
    name_ends_at_the_brace(name, seq!['}'] + rest);
    assert(tail.subrange(1, 1 + n) =~= name);
    assert(tail.skip(n + 2) =~= rest);
    let one = seq![Piece::Param(name)];
    assert(pieces(tail) == one + pieces(rest));
    one_parameter(name);
    braced_path_of_first(Piece::Param(name), pieces(rest));
    coloned_path_of_sum(one, pieces(rest));
    param_names_of_sum(one, pieces(rest));
    braced_path_of_sum(pieces(before), pieces(tail));
    coloned_path_of_sum(pieces(before), pieces(tail));
    param_names_of_sum(pieces(before), pieces(tail));
    let r = route(s, method);
    let behind = route(rest, method);
    assert(r.path =~= before + param + behind.path);
    assert(r.axum_path =~= before + (seq![':'] + name) + behind.axum_path);
    assert(r.path_params =~= seq![name] + behind.path_params);
}

/// A parameter whose brace is left open reaches to the end of the path.
pub proof fn open_parameter_is_closed(before: Seq<char>, name: Seq<char>, method: HttpMethod)
    requires
        !before.contains('{'),
        !name.contains('}'),
        !has_query(before + (seq!['{'] + name)),
    ensures
        ({
            let whole = route(before + (seq!['{'] + name), method);
            &&& whole.method == method
            &&& whole.path == before + (seq!['{'] + name + seq!['}'])
            &&& whole.axum_path == before + (seq![':'] + name)
            &&& whole.path_params == seq![name]
            &&& whole.query_params.len() == 0
        }),
{
    let tail = seq!['{'] + name;
    let s = before + tail;
    all_path(s);
    pieces_behind_plain_text(before, tail);
    assert(tail.skip(1) =~= name);
    name_ends_at_the_brace(name, Seq::empty());
    assert(name + Seq::<char>::empty() =~= name);
    let one = seq![Piece::Param(name)];
    assert(pieces(tail) =~= one);
    one_parameter(name);
    braced_path_of_sum(pieces(before), one);
    coloned_path_of_sum(pieces(before), one);
    param_names_of_sum(pieces(before), one);
    assert(route(s, method).path_params =~= seq![name]);
}

/// What stands behind the first `/?` is the query, and what stands before it is
/// a route of its own.
pub proof fn query_is_split_off(path: Seq<char>, query: Seq<char>, method: HttpMethod)
    requires
        !has_query(path),
    ensures
        ({
            let whole = route(path + seq!['/', '?'] + query, method);
            let alone = route(path, method);
            &&& whole.method == method
            &&& whole.path == alone.path
            &&& whole.axum_path == alone.axum_path
            &&& whole.path_params == alone.path_params
            &&& whole.query_params == query_names(query)
        }),
{
    let s = path + seq!['/', '?'] + query;
    let n = path.len() as int;
    all_path(path);
    reveal_strlit("/?");
    first_occurrence_is_first(s, "/?"@, 0);
    assert(s.subrange(n, n + 2) =~= "/?"@);
    assert(occurs_at(s, "/?"@, n));
    assert forall|j: int| 0 <= j < n implies !occurs_at(s, "/?"@, j) by {
        if occurs_at(s, "/?"@, j) {
            let found = s.subrange(j, j + 2);
            assert(found[0] == '/' && found[1] == '?');
            assert(s[j] == '/' && s[j + 1] == '?');
            if j < n - 1 {
                assert(path[j] == '/' && path[j + 1] == '?');
            } else {
                assert(s[n] == '/');
            }
        }
    }
    assert(first_occurrence(s, "/?"@, 0) == Some(n));
    assert(s.take(n) =~= path);
    assert(s.skip(n + 2) =~= query);
}

/// The names of the parameters of some texts and then others.
proof fn nonempty_trimmed_of_sum(a: Seq<Seq<char>>, b: Seq<Seq<char>>)
    ensures
        nonempty_trimmed(a + b) == nonempty_trimmed(a) + nonempty_trimmed(b),
    decreases b.len(),
{
    if b.len() == 0 {
        assert(a + b =~= a);
        assert(nonempty_trimmed(a) + nonempty_trimmed(b) =~= nonempty_trimmed(a));
    } else {
        nonempty_trimmed_of_sum(a, b.drop_last());
        assert((a + b).drop_last() =~= a + b.drop_last());
        assert((a + b).last() == b.last());
        assert(nonempty_trimmed(a + b) =~= nonempty_trimmed(a) + nonempty_trimmed(b));
    }
}

/// A separator parts a query.
proof fn query_parts_of_sum(a: Seq<char>, separator: char, b: Seq<char>)
    requires
        is_separator(separator),
    ensures
        query_parts(a + seq![separator] + b) == query_parts(a) + query_parts(b),
    decreases b.len(),
{
    let s = a + seq![separator] + b;
    if b.len() == 0 {
        assert(s.drop_last() =~= a);
        assert(s.last() == separator);
        assert(query_parts(s) =~= query_parts(a) + query_parts(b));
    } else {
        let less = b.drop_last();
        query_parts_of_sum(a, separator, less);
        query_parts_have_no_separators(less);
        query_parts_have_no_separators(a);
        assert(s.drop_last() =~= a + seq![separator] + less);
        assert(s.last() == b.last());
        let (pa, pl) = (query_parts(a), query_parts(less));
        assert((pa + pl).drop_last() =~= pa + pl.drop_last());
        assert((pa + pl).last() == pl.last());
        assert(query_parts(s) =~= pa + query_parts(b));
    }
}

/// A question mark, an ampersand or a slash parts the parameters of a query: the
/// names are those before it and then those behind it.
pub proof fn separators_part_the_names(a: Seq<char>, separator: char, b: Seq<char>)
    requires
        separator == '?' || separator == '&' || separator == '/',
    ensures
        query_names(a + seq![separator] + b) == query_names(a) + query_names(b),
{
    query_parts_of_sum(a, separator, b);
    nonempty_trimmed_of_sum(query_parts(a), query_parts(b));
}

/// A text without separators is one part.
proof fn query_parts_of_one(s: Seq<char>)
    requires
        forall|i: int| 0 <= i < s.len() ==> !is_separator(#[trigger] s[i]),
    ensures
        query_parts(s) == seq![s],
    decreases s.len(),
{
    if s.len() == 0 {
        assert(s =~= Seq::<char>::empty());
        assert(query_parts(s) =~= seq![s]);
    } else {
        let less = s.drop_last();
        assert forall|i: int| 0 <= i < less.len() implies !is_separator(#[trigger] less[i]) by {
            assert(less[i] == s[i]);
        }
        query_parts_of_one(less);
        assert(!is_separator(s[s.len() - 1]));
        assert(less.push(s.last()) =~= s);
        assert(query_parts(s) =~= seq![s]);
    }
}

/// A text without separators is one name, without the white space around it, or
/// none if nothing else is in it.
pub proof fn text_between_separators_is_a_name(
    left: Seq<char>,
    name: Seq<char>,
    right: Seq<char>,
)
    requires
        forall|i: int| 0 <= i < left.len() ==> is_space(#[trigger] left[i]),
        forall|i: int| 0 <= i < right.len() ==> is_space(#[trigger] right[i]),
        name.len() > 0 ==> !is_space(name.first()) && !is_space(name.last()),
        forall|i: int|
            0 <= i < (left + name + right).len() ==> (#[trigger] (left + name + right)[i]) != '?'
                && (left + name + right)[i] != '&' && (left + name + right)[i] != '/',
    ensures
        query_names(left + name + right) == if name.len() == 0 {
            Seq::empty()
        } else {
            seq![name]
        },
{
    let s = left + name + right;
    query_parts_of_one(s);
    trimmed_inside(left, name, right);
    assert(seq![s].drop_last() =~= Seq::empty());
    reveal_with_fuel(nonempty_trimmed, 2);
    assert(query_names(s) =~= if name.len() == 0 {
        Seq::empty()
    } else {
        seq![name]
    });
}

/// Trimming takes the white space at both ends and nothing else.
proof fn trimmed_inside(left: Seq<char>, name: Seq<char>, right: Seq<char>)
    requires
        forall|i: int| 0 <= i < left.len() ==> is_space(#[trigger] left[i]),
        forall|i: int| 0 <= i < right.len() ==> is_space(#[trigger] right[i]),
        name.len() > 0 ==> !is_space(name.first()) && !is_space(name.last()),
    ensures
        trimmed(left + name + right) == name,
    decreases left.len() + right.len(),
{
    let s = left + name + right;
    if left.len() > 0 {
        assert(is_space(left[0]));
        let less = left.skip(1);
        assert forall|i: int| 0 <= i < less.len() implies is_space(#[trigger] less[i]) by {
            assert(less[i] == left[i + 1]);
        }
        trimmed_inside(less, name, right);
        assert(s.skip(1) =~= less + name + right);
    } else if right.len() > 0 {
        assert(is_space(right[right.len() - 1]));
        if name.len() == 0 {
            assert(is_space(right[0]));
            let less = right.skip(1);
            assert forall|i: int| 0 <= i < less.len() implies is_space(#[trigger] less[i]) by {
                assert(less[i] == right[i + 1]);
            }
            trimmed_inside(left, name, less);
            assert(s.skip(1) =~= left + name + less);
        } else {
            let less = right.drop_last();
            assert forall|i: int| 0 <= i < less.len() implies is_space(#[trigger] less[i]) by {
                assert(less[i] == right[i]);
            }
            trimmed_inside(left, name, less);
            assert(s.drop_last() =~= left + name + less);
            assert(s[0] == name[0]);
        }
    } else {
        assert(s =~= name);
    }
}

} // verus!
