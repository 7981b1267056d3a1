//! The HTTP client: what it sends for a call and what it makes of the status
//! of the response.

use crate::text::{decimal, decimal_stands_for_its_number, number_of, to_decimal, trim_end, trimmed_end, trimmed_end_is_trimmed};
use vstd::prelude::*;

verus! {

/// A client that calls service methods over HTTP. `C` sends its requests.
#[derive(Debug)]
pub struct HttpClient<C> {
    base_url: String,
    client: C,
}

/// A request: `M` is the type of HTTP methods, `B` that of bodies.
#[derive(Debug)]
pub struct HttpRequest<M, B> {
    pub method: M,
    pub url: String,
    /// The parameters of the query, if there are any.
    pub query: Option<Vec<(String, String)>>,
    /// The value to send as JSON, if there is one.
    pub body: Option<B>,
}

impl<C> HttpClient<C> {
    /// What the paths of requests are put behind.
    pub closed spec fn base(self) -> Seq<char> {
        self.base_url@
    }

    /// What sends the requests.
    pub closed spec fn sender(self) -> C {
        self.client
    }

    /// Whether the base URL does not end in a slash.
    pub open spec fn wf(self) -> bool {
        self.base().len() > 0 ==> self.base().last() != '/'
    }

    /// Creates a client with the given base URL, without the slashes at its
    /// end.
    pub fn new(base_url: &str) -> (client: Self) where C: Default
        ensures
            client.wf(),
            client.base() == trimmed_end(base_url@, '/'),
            call_ensures(C::default, (), client.sender()),
    {
        Self::with_client(base_url, C::default())
    }

    /// Creates a client with the given base URL, without the slashes at its
    /// end, and the given sender.
    pub fn with_client(base_url: &str, client: C) -> (created: Self)
        ensures
            created.wf(),
            created.base() == trimmed_end(base_url@, '/'),
            created.sender() == client,
    {
        proof {
            trimmed_end_is_trimmed(base_url@, '/');
        }
        HttpClient { base_url: trim_end(base_url, '/'), client }
    }

    /// The base URL.
    pub fn base_url(&self) -> (base_url: &str)
        ensures
            base_url@ == self.base(),
    {
        &self.base_url
    }

    /// What sends the requests.
    pub fn client(&self) -> (client: &C)
        ensures
            *client == self.sender(),
    {
        &self.client
    }

    /// Prepares a request to the service. A query is sent only if it has
    /// parameters.
    pub fn request<M, B>(
        &self,
        method: M,
        path: &str,
        query: Vec<(String, String)>,
        body: Option<B>,
    ) -> (request: HttpRequest<M, B>)
        ensures
            request.method == method,
            request.url@ == self.base() + path@,
            request.query == if query@.len() == 0 {
                None
            } else {
                Some(query)
            },
            request.body == body,
    {
        let mut url = self.base_url.clone();
        url.push_str(path);
        let query = if query.len() == 0 {
            None
        } else {
            Some(query)
        };
        HttpRequest { method, url, query, body }
    }
}

impl<C: Clone> Clone for HttpClient<C> {
    fn clone(&self) -> (copy: Self)
        ensures
            copy.base() == self.base(),
            cloned::<C>(self.sender(), copy.sender()),
            self.wf() ==> copy.wf(),
    {
        HttpClient { base_url: self.base_url.clone(), client: self.client.clone() }
    }
}

/// Whether the body of a response with this status is read as the result of
/// the call.
pub fn is_success(status: u16) -> (success: bool)
    ensures
        success == (200 <= status < 300),
{
    200 <= status && status < 300
}

/// The text of the error for a response with any other status. Of a status the
/// number and its three digits are both given.
pub open spec fn failure_text(status: u16, body: Seq<char>) -> Seq<char> {
    "HTTP "@ + decimal(status as nat) + " "@ + decimal(status as nat) + ": "@ + body
}

/// Writes the text of the error for a response that is no success, from its
/// body as text if that could be read.
pub fn failure_message(status: u16, body: Option<String>) -> (text: String)
    ensures
        text@ == failure_text(
            status,
            match body {
                Some(b) => b@,
                None => Seq::empty(),
            },
        ),
{
    let digits = to_decimal(status);
    let mut text = "HTTP ".to_string();
    text.push_str(&digits);
    text.push_str(" ");
    text.push_str(&digits);
    text.push_str(": ");
    let body = match body {
        Some(b) => b,
        None => String::new(),
    };
    text.push_str(&body);
    text
}

/// Slashes at the end of a base URL make no difference: a client with them
/// and one without send their requests to the same URL.
pub proof fn trailing_slashes_are_ignored(base_url: Seq<char>, slashes: nat)
    ensures
        trimmed_end(base_url + Seq::new(slashes, |i: int| '/'), '/') == trimmed_end(base_url, '/'),
    decreases slashes,
{
    let s = base_url + Seq::new(slashes, |i: int| '/');
    if slashes > 0 {
        let fewer = (slashes - 1) as nat;
        trailing_slashes_are_ignored(base_url, fewer);
        assert(s.drop_last() =~= base_url + Seq::new(fewer, |i: int| '/'));
    } else {
        assert(s =~= base_url);
    }
}

/// A path that begins with a slash is put behind a base URL with just that
/// slash between.
pub proof fn one_slash_before_the_path(base_url: Seq<char>, path: Seq<char>)
    requires
        path.len() > 0,
        path[0] == '/',
    ensures
        ({
            let base = trimmed_end(base_url, '/');
            let url = base + path;
            &&& url[base.len() as int] == '/'
            &&& base.len() > 0 ==> url[base.len() - 1] != '/'
        }),
{
    trimmed_end_is_trimmed(base_url, '/');
}

/// The text of an error names the status twice, in decimal digits, and ends in
/// the body.
pub proof fn failure_text_names_the_status(status: u16, body: Seq<char>) -> (digits: Seq<char>)
    ensures
        number_of(digits) == status,
        forall|i: int| 0 <= i < digits.len() ==> '0' <= #[trigger] digits[i] <= '9',
        status > 0 ==> digits[0] != '0',
        failure_text(status, body) == "HTTP "@ + digits + " "@ + digits + ": "@ + body,
{
    decimal_stands_for_its_number(status as nat);
    decimal(status as nat)
}

} // verus!
