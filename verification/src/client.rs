//! The adapter between commands and the node: where a request goes, and
//! how a status and a body become a document or an error.
use crate::json::{json_of_text, Json};
use crate::text::{
    decimal, lemma_strip_prefix_result, lemma_strip_prefix_skips, lemma_strip_suffix_result,
    lemma_strip_suffix_skips, push_decimal, strip_prefix, strip_suffix, trim_end, trim_start,
    CharClass,
};
use vstd::prelude::*;
use vstd::string::*;

verus! {

/// The node that the tool asks where none is named.
pub const DEFAULT_RPC_URL: &'static str = "https://api.mainnet.aptoslabs.com/v1";

/// The base URL that a client keeps for `raw`: without surrounding
/// whitespace, then without trailing slashes.
pub open spec fn normalized_base(raw: Seq<char>) -> Seq<char> {
    strip_suffix(
        strip_suffix(strip_prefix(raw, CharClass::Whitespace), CharClass::Whitespace),
        CharClass::Slash,
    )
}

/// Where a request for `path` goes: the base, one slash, and the path
/// without its leading slashes.
pub open spec fn endpoint_of(base: Seq<char>, path: Seq<char>) -> Seq<char> {
    base + seq!['/'] + strip_prefix(path, CharClass::Slash)
}

/// Whether a response with this status carries the payload asked for:
/// 200 (OK) and 202 (Accepted) do.
pub open spec fn is_success(status: u16) -> bool {
    status == 200 || status == 202
}

/// The HTTP method of a request.
#[derive(Clone, Copy, Debug, PartialEq, Eq, Structural)]
pub enum Method {
    Get,
    Post,
}

impl Method {
    /// The method's name on the wire.
    pub open spec fn name_text(self) -> Seq<char> {
        match self {
            Method::Get => "GET"@,
            Method::Post => "POST"@,
        }
    }

    /// The method's name on the wire.
    pub fn name(self) -> (r: &'static str)
        ensures
            r@ == self.name_text(),
    {
        match self {
            Method::Get => "GET",
            Method::Post => "POST",
        }
    }
}

/// One call of the node's interface, ready to be sent.
#[derive(Debug, PartialEq, Eq)]
pub struct Request {
    pub method: Method,
    pub url: String,
    /// The JSON payload; a GET carries none.
    pub body: Option<Json>,
}

/// Why a call did not yield a document.
#[derive(Clone, Debug, PartialEq, Eq)]
pub enum ClientError {
    /// The base URL is empty once normalized.
    EmptyBaseUrl,
    /// The request could not be carried out.
    Transport { method: Method, url: String, detail: String },
    /// The node answered with a status other than 200 and 202.
    Api { status: u16, body: String },
    /// The node answered with success, and the body is no JSON document.
    Decode { detail: String },
}

impl ClientError {
    /// The text of the error as shown to the user.
    pub open spec fn message_text(self) -> Seq<char> {
        match self {
            ClientError::EmptyBaseUrl => "rpc url cannot be empty"@,
            ClientError::Transport { method, url, detail } => "request failed: "@
                + method.name_text() + " "@ + url@ + ": "@ + detail@,
            ClientError::Api { status, body } => "API error (status "@ + decimal(status as nat)
                + "): "@ + body@,
            ClientError::Decode { detail } => "failed to parse response JSON: "@ + detail@,
        }
    }

    /// The text of the error as shown to the user. That of an API error
    /// holds the status in decimal and, at its end, the body as received.
    pub fn message(&self) -> (r: String)
        ensures
            r@ == self.message_text(),
    {
        match self {
            ClientError::EmptyBaseUrl => String::from_str("rpc url cannot be empty"),
            ClientError::Transport { method, url, detail } => {
                let mut out = String::from_str("request failed: ");
                out.append(method.name());
                out.append(" ");
                out.append(url.as_str());
                out.append(": ");
                out.append(detail.as_str());
                out
            },
            ClientError::Api { status, body } => {
                let mut out = String::from_str("API error (status ");
                push_decimal(&mut out, *status as u64);
                out.append("): ");
                out.append(body.as_str());
                out
            },
            ClientError::Decode { detail } => {
                let mut out = String::from_str("failed to parse response JSON: ");
                out.append(detail.as_str());
                out
            },
        }
    }
}

/// The text of an API error holds the status in decimal, right behind its
/// opening words, and ends with the body as it was received.
pub proof fn lemma_api_message_holds_status_and_body(status: u16, body: String)
    ensures
        ({
            let message = (ClientError::Api { status, body }).message_text();
            let digits = decimal(status as nat);
            &&& message.len() == 18 + digits.len() + 3 + body@.len()
            &&& message.subrange(18, 18 + digits.len() as int) == digits
            &&& message.subrange(message.len() - body@.len(), message.len() as int) == body@
        }),
{
    reveal_strlit("API error (status ");
    reveal_strlit("): ");
    let message = (ClientError::Api { status, body }).message_text();
    let digits = decimal(status as nat);
    assert(message.subrange(18, 18 + digits.len() as int) =~= digits);
    assert(message.subrange(message.len() - body@.len(), message.len() as int) =~= body@);
}

/// What a body that was received with a success status yields, given
/// what the parser made of it: the document, or a decode error with the
/// parser's message.
pub fn decoded(parsed: Result<Json, String>) -> (r: Result<Json, ClientError>)
    ensures
        match parsed {
            Ok(document) => r == Ok::<Json, ClientError>(document),
            Err(detail) => r == Err::<Json, ClientError>((ClientError::Decode { detail })),
        },
{
    match parsed {
        Ok(document) => Ok(document),
        Err(detail) => Err(ClientError::Decode { detail }),
    }
}

/// A client of one node, known by its base URL.
#[derive(Debug)]
pub struct AptosClient {
    base_url: String,
}

impl View for AptosClient {
    type V = Seq<char>;

    /// The base URL.
    closed spec fn view(&self) -> Seq<char> {
        self.base_url@
    }
}

impl AptosClient {
    /// A base URL is kept only if it is not empty, does not begin with
    /// whitespace and does not end in a slash.
    pub open spec fn is_base(base: Seq<char>) -> bool {
        &&& base.len() > 0
        &&& !CharClass::Whitespace.contains(base[0])
        &&& !CharClass::Slash.contains(base.last())
    }

    #[verifier::type_invariant]
    spec fn kept(self) -> bool {
        Self::is_base(self.base_url@)
    }

    /// A client for the node at `base_url`, which is normalized first.
    /// Fails exactly when nothing is left of it then.
    pub fn new(base_url: &str) -> (r: Result<AptosClient, ClientError>)
        ensures
            match r {
                Ok(client) => client@ == normalized_base(base_url@) && Self::is_base(client@),
                Err(e) => e == ClientError::EmptyBaseUrl && normalized_base(base_url@).len() == 0,
            },
    {
        let inner = trim_end(trim_start(base_url, CharClass::Whitespace), CharClass::Whitespace);
        let base = trim_end(inner, CharClass::Slash);
        if base.unicode_len() == 0 {
            return Err(ClientError::EmptyBaseUrl);
        }
        proof {
            lemma_normalized_is_base(base_url@);
        }
        Ok(AptosClient { base_url: String::from_str(base) })
    }

    /// The base URL, as normalized when the client was made.
    pub fn base_url(&self) -> (r: &str)
        ensures
            r@ == self@,
            Self::is_base(r@),
    {
        proof {
            use_type_invariant(self);
        }
        self.base_url.as_str()
    }

    /// The URL of `path` at this node.
    pub fn endpoint(&self, path: &str) -> (r: String)
        ensures
            r@ == endpoint_of(self@, path@),
    {
        let mut url = String::from_str(self.base_url.as_str());
        proof {
            reveal_strlit("/");
        }
        url.append("/");
        url.append(trim_start(path, CharClass::Slash));
        assert("/"@ =~= seq!['/']);
        url
    }

    /// The GET request that fetches `path`.
    pub fn get_json(&self, path: &str) -> (r: Request)
        ensures
            r.method == Method::Get,
            r.url@ == endpoint_of(self@, path@),
            r.body.is_none(),
    {
        Request { method: Method::Get, url: self.endpoint(path), body: None }
    }

    /// The POST request that sends `body` to `path`.
    pub fn post_json(&self, path: &str, body: Json) -> (r: Request)
        ensures
            r.method == Method::Post,
            r.url@ == endpoint_of(self@, path@),
            r.body == Some(body),
    {
        Request { method: Method::Post, url: self.endpoint(path), body: Some(body) }
    }

    /// What a response means. Any status but 200 and 202 is an API error
    /// that keeps the status and the body as received. Otherwise the body
    /// is parsed: the result is its document, or a decode error.
    pub fn handle_response(&self, status: u16, text: String) -> (r: Result<Json, ClientError>)
        ensures
            !is_success(status) ==> r == Err::<Json, ClientError>(
                (ClientError::Api { status, body: text }),
            ),
            is_success(status) ==> match json_of_text(text@) {
                Some(document) => r matches Ok(j) && j@ == document,
                None => r matches Err(ClientError::Decode { .. }),
            },
    {
        if status == 200 || status == 202 {
            decoded(Json::parse(text.as_str()))
        } else {
            Err(ClientError::Api { status, body: text })
        }
    }
}

/// Whatever is left of a raw base URL after normalizing is a base URL
/// that a client keeps, unless nothing is left.
pub proof fn lemma_normalized_is_base(raw: Seq<char>)
    ensures
        normalized_base(raw).len() > 0 ==> AptosClient::is_base(normalized_base(raw)),
{
    let a = strip_prefix(raw, CharClass::Whitespace);
    let b = strip_suffix(a, CharClass::Whitespace);
    let c = strip_suffix(b, CharClass::Slash);
    lemma_strip_prefix_result(raw, CharClass::Whitespace);
    lemma_strip_suffix_result(a, CharClass::Whitespace);
    lemma_strip_suffix_result(b, CharClass::Slash);
}

/// Whitespace around a base URL and slashes behind it make no difference:
/// with any of them added, a client keeps the same base and sends a
/// request for any path to the same URL.
pub proof fn lemma_decoration_is_ignored(
    base: Seq<char>,
    lead: Seq<char>,
    slashes: Seq<char>,
    trail: Seq<char>,
    path: Seq<char>,
)
    requires
        AptosClient::is_base(base),
        !CharClass::Whitespace.contains(base.last()),
        CharClass::Whitespace.covers(lead),
        CharClass::Slash.covers(slashes),
        CharClass::Whitespace.covers(trail),
    ensures
        normalized_base(lead + base + slashes + trail) == base,
        endpoint_of(normalized_base(lead + base + slashes + trail), path) == endpoint_of(
            base,
            path,
        ),
{
    let ws = CharClass::Whitespace;
    let raw = lead + base + slashes + trail;
    let rest = base + slashes + trail;
    assert(raw =~= lead + rest);
    lemma_strip_prefix_skips(lead, rest, ws);
    assert(rest[0] == base[0]);
    assert(strip_prefix(rest, ws) == rest);
    assert(rest =~= (base + slashes) + trail);
    lemma_strip_suffix_skips(base + slashes, trail, ws);
    let inner = base + slashes;
    if slashes.len() > 0 {
        assert(inner.last() == slashes.last());
        assert(!ws.contains('/'));
    } else {
        assert(inner =~= base);
    }
    assert(strip_suffix(inner, ws) == inner);
    lemma_strip_suffix_skips(base, slashes, CharClass::Slash);
    assert(strip_suffix(base, CharClass::Slash) == base);
}

/// A base URL made of whitespace alone, the empty one among them, leaves
/// nothing when normalized, so that no client is made for it.
pub proof fn lemma_blank_base_is_empty(raw: Seq<char>)
    requires
        CharClass::Whitespace.covers(raw),
    ensures
        normalized_base(raw).len() == 0,
{
    let nothing = Seq::<char>::empty();
    assert(raw =~= raw + nothing);
    lemma_strip_prefix_skips(raw, nothing, CharClass::Whitespace);
}

} // verus!
