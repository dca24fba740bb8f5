//! The decisions of the HTTP verb proxy: which request a UI command makes of
//! the configured device, and what its outcome means to the caller.
use vstd::prelude::*;
use crate::codec::{json_accepts, json_problem};
use crate::settings::{address_in, Settings};

verus! {

pub open spec fn http_scheme() -> Seq<char> {
    seq!['h', 't', 't', 'p', ':', '/', '/']
}

pub open spec fn https_scheme() -> Seq<char> {
    seq!['h', 't', 't', 'p', 's', ':', '/', '/']
}

/// The address with a scheme: `http://` is put in front of one without.
pub open spec fn with_scheme(address: Seq<char>) -> Seq<char> {
    if http_scheme().is_prefix_of(address) || https_scheme().is_prefix_of(address) {
        address
    } else {
        http_scheme() + address
    }
}

/// The text without one trailing `/`.
pub open spec fn without_trailing_slash(s: Seq<char>) -> Seq<char> {
    if s.len() > 0 && s.last() == '/' {
        s.drop_last()
    } else {
        s
    }
}

/// The path with a leading `/`.
pub open spec fn rooted(path: Seq<char>) -> Seq<char> {
    if path.len() > 0 && path[0] == '/' {
        path
    } else {
        seq!['/'] + path
    }
}

/// The URL that a request for `path` goes to on the device at `address`.
pub open spec fn target_url(address: Seq<char>, path: Seq<char>) -> Seq<char> {
    without_trailing_slash(with_scheme(address)) + rooted(path)
}

/// A status in the success class.
pub open spec fn is_success(status: u16) -> bool {
    200 <= status <= 299
}

/// Whether `s` begins with `prefix`.
fn starts_with(s: &str, prefix: &str) -> (r: bool)
    ensures
        r == prefix@.is_prefix_of(s@),
{
    let n = s.unicode_len();
    let m = prefix.unicode_len();
    if m > n {
        return false;
    }
    let mut i: usize = 0;
    while i < m
        invariant
            m == prefix@.len(),
            n == s@.len(),
            m <= n,
            i <= m,
            forall|j: int| 0 <= j < i ==> s@[j] == prefix@[j],
        decreases m - i,
    {
        if s.get_char(i) != prefix.get_char(i) {
            return false;
        }
        i = i + 1;
    }
    assert(s@.subrange(0, m as int) =~= prefix@);
    true
}

/// The URL that a request for `path` goes to on the device at `address`.
pub fn build_url(address: &str, path: &str) -> (r: String)
    ensures
        r@ == target_url(address@, path@),
{
    let http = starts_with(address, "http://");
    let https = starts_with(address, "https://");
    proof {
        reveal_strlit("http://");
        reveal_strlit("https://");
        assert("http://"@ =~= http_scheme());
        assert("https://"@ =~= https_scheme());
    }
    let mut base = if http || https {
        String::from_str(address)
    } else {
        let mut b = String::from_str("http://");
        b.append(address);
        b
    };
    assert(base@ == with_scheme(address@));
    let n = base.unicode_len();
    if n > 0 && base.as_str().get_char(n - 1) == '/' {
        base = String::from_str(base.as_str().substring_char(0, n - 1));
        assert(base@ =~= without_trailing_slash(with_scheme(address@)));
    }
    let plen = path.unicode_len();
    if plen == 0 || path.get_char(0) != '/' {
        base.append("/");
        proof {
            reveal_strlit("/");
        }
    }
    base.append(path);
    assert(base@ =~= target_url(address@, path@));
    base
}

/// An HTTP method that the proxy forwards.
#[derive(Clone, Copy, Debug, PartialEq, Eq, Structural)]
pub enum Verb {
    Get,
    Post,
    Patch,
}

/// A request to make of the device.
#[derive(Clone, Debug, PartialEq, Eq)]
pub struct ProxyRequest {
    pub verb: Verb,
    pub url: String,
    pub body: Option<String>,
}

/// A response of the device: its status and its body, whatever its type.
#[derive(Clone, Debug, PartialEq, Eq)]
pub struct Envelope {
    pub status: u16,
    pub body: String,
}

/// What became of a request on the wire.
#[derive(Clone, Debug, PartialEq, Eq)]
pub enum Outcome {
    /// The device answered.
    Responded { status: u16, body: String },
    /// The device could not be reached (name lookup, refused, timed out).
    Failed { cause: String },
}

/// Why a proxied request failed.
#[derive(Clone, Debug, PartialEq, Eq)]
pub enum ProxyError {
    /// No target address is configured.
    NotConfigured,
    /// The device could not be reached.
    Network { cause: String },
    /// The device answered with a status outside the success class.
    Remote { status: u16, body: String },
    /// The device's answer is not a JSON document.
    Parse { message: String },
}

/// What a request for `path` with `verb` and `body` is, given the settings:
/// refused where no target is configured, else sent to the target's URL.
pub open spec fn prepared(
    settings: Map<Seq<char>, crate::settings::ScalarView>,
    verb: Verb,
    path: Seq<char>,
    body: Option<String>,
    r: Result<ProxyRequest, ProxyError>,
) -> bool {
    if address_in(settings) is Some {
        &&& r is Ok
        &&& r->Ok_0.verb == verb
        &&& r->Ok_0.url@ == target_url(address_in(settings)->Some_0, path)
        &&& r->Ok_0.body == body
    } else {
        r == Err::<ProxyRequest, ProxyError>(ProxyError::NotConfigured)
    }
}

fn prepare(settings: &Settings, verb: Verb, path: &str, body: Option<String>) -> (r: Result<
    ProxyRequest,
    ProxyError,
>)
    requires
        settings.wf(),
    ensures
        prepared(settings@, verb, path@, body, r),
{
    match settings.target_address() {
        None => Err(ProxyError::NotConfigured),
        Some(address) => Ok(ProxyRequest { verb, url: build_url(address.as_str(), path), body }),
    }
}

/// The GET request for `path` on the configured device.
pub fn prepare_get(settings: &Settings, path: &str) -> (r: Result<ProxyRequest, ProxyError>)
    requires
        settings.wf(),
    ensures
        prepared(settings@, Verb::Get, path@, None, r),
{
    prepare(settings, Verb::Get, path, None)
}

/// The POST request of `body` to `path` on the configured device.
pub fn prepare_post(settings: &Settings, path: &str, body: String) -> (r: Result<
    ProxyRequest,
    ProxyError,
>)
    requires
        settings.wf(),
    ensures
        prepared(settings@, Verb::Post, path@, Some(body), r),
{
    prepare(settings, Verb::Post, path, Some(body))
}

/// The PATCH request of `body` to `path` on the configured device.
pub fn prepare_patch(settings: &Settings, path: &str, body: String) -> (r: Result<
    ProxyRequest,
    ProxyError,
>)
    requires
        settings.wf(),
    ensures
        prepared(settings@, Verb::Patch, path@, Some(body), r),
{
    prepare(settings, Verb::Patch, path, Some(body))
}

/// The GET request for the JSON document at `path` on the configured device.
pub fn prepare_json(settings: &Settings, path: &str) -> (r: Result<ProxyRequest, ProxyError>)
    requires
        settings.wf(),
    ensures
        prepared(settings@, Verb::Get, path@, None, r),
{
    prepare(settings, Verb::Get, path, None)
}

/// What the caller of a verb request gets for an outcome: the envelope of a
/// success, the status and body of any other answer, or the cause of a
/// transport failure.
pub fn settle(outcome: Outcome) -> (r: Result<Envelope, ProxyError>)
    ensures
        match outcome {
            Outcome::Responded { status, body } => if is_success(status) {
                r == Ok::<Envelope, ProxyError>(Envelope { status, body })
            } else {
                r == Err::<Envelope, ProxyError>(ProxyError::Remote { status, body })
            },
            Outcome::Failed { cause } => r == Err::<Envelope, ProxyError>(
                ProxyError::Network { cause },
            ),
        },
{
    match outcome {
        Outcome::Responded { status, body } => {
            if 200 <= status && status <= 299 {
                Ok(Envelope { status, body })
            } else {
                Err(ProxyError::Remote { status, body })
            }
        },
        Outcome::Failed { cause } => Err(ProxyError::Network { cause }),
    }
}

/// What the caller of a JSON fetch gets for an outcome: as `settle`, and the
/// body of a success where it is a JSON document, else a parse error.
pub fn settle_json(outcome: Outcome) -> (r: Result<String, ProxyError>)
    ensures
        match outcome {
            Outcome::Responded { status, body } => if !is_success(status) {
                r == Err::<String, ProxyError>(ProxyError::Remote { status, body })
            } else if json_accepts(body@) {
                r == Ok::<String, ProxyError>(body)
            } else {
                r is Err && r->Err_0 is Parse
            },
            Outcome::Failed { cause } => r == Err::<String, ProxyError>(
                ProxyError::Network { cause },
            ),
        },
{
    match settle(outcome) {
        Ok(envelope) => match json_problem(envelope.body.as_str()) {
            None => Ok(envelope.body),
            Some(message) => Err(ProxyError::Parse { message }),
        },
        Err(e) => Err(e),
    }
}

/// What the UI can configure of the proxy: the current target address and
/// the methods that it forwards.
#[derive(Debug)]
pub struct ConfigOptions {
    pub target_address: Option<String>,
    pub verbs: Vec<Verb>,
}

/// The proxy's options as the settings configure them.
pub fn server_config_options(settings: &Settings) -> (r: ConfigOptions)
    requires
        settings.wf(),
    ensures
        r.target_address is Some <==> address_in(settings@) is Some,
        r.target_address is Some ==> r.target_address->Some_0@ == address_in(settings@)->Some_0,
        r.verbs@ == seq![Verb::Get, Verb::Post, Verb::Patch],
{
    let mut verbs: Vec<Verb> = Vec::new();
    verbs.push(Verb::Get);
    verbs.push(Verb::Post);
    verbs.push(Verb::Patch);
    ConfigOptions { target_address: settings.target_address(), verbs }
}

/// Requests for two different rooted paths on one device go to two
/// different URLs, so no answer can be matched to the wrong request.
pub proof fn lemma_distinct_paths_distinct_urls(address: Seq<char>, p: Seq<char>, q: Seq<char>)
    requires
        p.len() > 0 && p[0] == '/',
        q.len() > 0 && q[0] == '/',
        p != q,
    ensures
        target_url(address, p) != target_url(address, q),
{
    let b = without_trailing_slash(with_scheme(address));
    if target_url(address, p) == target_url(address, q) {
        assert((b + p).subrange(b.len() as int, (b + p).len() as int) =~= p);
        assert((b + q).subrange(b.len() as int, (b + q).len() as int) =~= q);
    }
}

} // verus!
