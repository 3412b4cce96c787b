//! From a plaintext request to the HTTPS URI it is redirected to, and from
//! there to the response of the plaintext listener.

use vstd::prelude::*;
use vstd::string::*;
use crate::ports::Ports;
use crate::substitution::{decimal, lemma_rewrite_without_port, occurs, rewrite_host, rewritten_host};

verus! {

/// `http::uri::InvalidUri`, the error of the `http` crate's parsers. It is
/// carried to the caller and never looked into.
#[verifier::external_type_specification]
#[verifier::external_body]
pub struct ExInvalidUri(http::uri::InvalidUri);

/// `http::Error`, the error of the `http` crate's builders. It is carried
/// to the caller and never looked into.
#[verifier::external_type_specification]
#[verifier::external_body]
pub struct ExHttpError(http::Error);

/// Whether the `http` crate takes `text` as the authority of a URI.
pub uninterp spec fn authority_accepted(text: Seq<char>) -> bool;

/// What the `http` crate builds from the scheme `https`, the authority and
/// the request target: the path and query of the URI and its text, in that
/// order, or `None` where it refuses them.
pub uninterp spec fn assembled(authority: Seq<char>, target: Seq<char>) -> Option<
    (Seq<char>, Seq<char>),
>;

/// An absolute URI with the scheme `https`.
#[derive(Debug)]
pub struct HttpsUri {
    /// Host and optional port.
    pub authority: String,
    /// Path and optional query.
    pub path_and_query: String,
    /// The whole URI, as it goes into a `Location` header.
    pub text: String,
}

/// Why a request could not be redirected; each variant carries the cause.
#[derive(Debug)]
pub enum RewriteError {
    /// The rewritten host header is not an authority.
    InvalidAuthority(http::uri::InvalidUri),
    /// Scheme, authority and request target do not make a URI.
    UriAssembly(http::Error),
}

/// What the plaintext listener answers.
#[derive(Debug)]
pub enum Response {
    /// Status 301, with the URI to go to.
    PermanentRedirect { location: String },
    /// Status 400, with an empty body.
    BadRequest,
}

/// The request target when there is one, else the root path.
pub open spec fn target_or_root(target: Option<&str>) -> Seq<char> {
    match target {
        Some(t) => t@,
        None => seq!['/'],
    }
}

/// The part of a request target before its first `#`.
pub open spec fn before_fragment(target: Seq<char>) -> Seq<char>
    decreases target.len(),
{
    if target.len() == 0 || target[0] == '#' {
        Seq::empty()
    } else {
        seq![target[0]] + before_fragment(target.drop_first())
    }
}

/// The path and query that a URI built from `target` shows: the target
/// without its fragment, and the root path where that leaves nothing.
pub open spec fn shown_target(target: Seq<char>) -> Seq<char> {
    let kept = before_fragment(target);
    if kept.len() == 0 {
        seq!['/']
    } else {
        kept
    }
}

/// The text of an HTTPS URI: scheme, authority, then the target without
/// its fragment, behind a `/` where it has no path of its own.
pub open spec fn https_text(authority: Seq<char>, target: Seq<char>) -> Seq<char> {
    let kept = before_fragment(target);
    let path = if kept.len() == 0 || kept[0] == '?' {
        seq!['/']
    } else {
        Seq::<char>::empty()
    };
    "https://"@ + authority + path + kept
}

/// Up to this many characters, the place of a target's `?` fits the 16 bits
/// in which the `http` crate keeps it.
pub const MAX_PLAIN_TARGET: usize = 65534;

/// `text` begins with `prefix`.
pub open spec fn begins_with(text: Seq<char>, prefix: Seq<char>) -> bool {
    prefix.len() <= text.len() && text.subrange(0, prefix.len() as int) == prefix
}

/// What holds of a URI that was built from the scheme `https`, `authority`
/// and `target`.
pub open spec fn built_from(authority: Seq<char>, target: Seq<char>, uri: HttpsUri) -> bool {
    &&& assembled(authority, target) == Some((uri.path_and_query@, uri.text@))
    &&& authority_accepted(authority)
    &&& uri.authority@ == authority
    &&& begins_with(uri.text@, "https://"@ + authority)
    &&& target.len() <= MAX_PLAIN_TARGET ==> uri.path_and_query@ == shown_target(target)
    &&& target.len() <= MAX_PLAIN_TARGET ==> uri.text@ == https_text(authority, target)
    &&& !target.contains('#') ==> uri.path_and_query@ == if target.len() == 0 {
        seq!['/']
    } else {
        target
    }
    &&& assembled(authority, uri.path_and_query@) == Some((uri.path_and_query@, uri.text@))
}

/// How the outcome of an assembly follows from the authority and the
/// request target that went into it.
pub open spec fn assembly_outcome(
    authority: Seq<char>,
    target: Seq<char>,
    outcome: Result<HttpsUri, RewriteError>,
) -> bool {
    match outcome {
        Ok(uri) => built_from(authority, target, uri),
        Err(RewriteError::UriAssembly(_)) => assembled(authority, target) is None,
        Err(RewriteError::InvalidAuthority(_)) => false,
    }
}

/// How a rewrite's outcome follows from the host header, the request
/// target and the ports.
pub open spec fn rewrite_outcome(
    host: Seq<char>,
    target: Seq<char>,
    ports: Ports,
    outcome: Result<HttpsUri, RewriteError>,
) -> bool {
    let authority = rewritten_host(host, ports);
    if authority_accepted(authority) {
        assembly_outcome(authority, target, outcome)
    } else {
        outcome matches Err(RewriteError::InvalidAuthority(_))
    }
}

/// The status code and `Location` of the answer to a rewrite's outcome.
pub open spec fn response_for(outcome: Result<HttpsUri, RewriteError>, response: Response) -> bool {
    match outcome {
        Ok(uri) => match response {
            Response::PermanentRedirect { location } => location@ == uri.text@,
            Response::BadRequest => false,
        },
        Err(_) => response is BadRequest,
    }
}

/// The path and query survive a rewrite: a request target that is not
/// empty and has no fragment is shown exactly as it came, whatever its
/// length, and a request without a target is shown the root path.
pub proof fn lemma_target_preserved(
    host: Seq<char>,
    target: Option<&str>,
    ports: Ports,
    uri: HttpsUri,
)
    requires
        target matches Some(t) ==> t@.len() > 0 && !t@.contains('#'),
        rewrite_outcome(host, target_or_root(target), ports, Ok(uri)),
    ensures
        uri.path_and_query@ == target_or_root(target),
        target is None ==> uri.path_and_query@ == seq!['/'],
{
    let t = target_or_root(target);
    if target is None {
        assert(!t.contains('#')) by {
            if t.contains('#') {
                let i = choose|i: int| 0 <= i < t.len() && t[i] == '#';
                assert(t[i] == '/');
            }
        }
    }
}

/// Every successful rewrite has the scheme `https`: the text of its URI
/// begins with `https://` and the rewritten host header.
pub proof fn lemma_scheme_is_https(host: Seq<char>, target: Seq<char>, ports: Ports, uri: HttpsUri)
    requires
        rewrite_outcome(host, target, ports, Ok(uri)),
    ensures
        begins_with(uri.text@, "https://"@),
        begins_with(uri.text@, "https://"@ + rewritten_host(host, ports)),
{
    let scheme = "https://"@;
    let prefix = scheme + rewritten_host(host, ports);
    assert(uri.text@.subrange(0, scheme.len() as int) =~= prefix.subrange(0, scheme.len() as int));
    assert(prefix.subrange(0, scheme.len() as int) =~= scheme);
}

/// A second rewrite is a no-op: where the authority of a successful
/// rewrite no longer holds the plaintext port's digits, rewriting that
/// authority with the path and query of the same URI succeeds and gives
/// the same authority, path and query, and text.
pub proof fn lemma_second_rewrite_is_noop(
    host: Seq<char>,
    target: Seq<char>,
    ports: Ports,
    first: HttpsUri,
    second: Result<HttpsUri, RewriteError>,
)
    requires
        rewrite_outcome(host, target, ports, Ok(first)),
        !occurs(first.authority@, decimal(ports.http as nat)),
        rewrite_outcome(first.authority@, first.path_and_query@, ports, second),
    ensures
        second matches Ok(again) && again.authority@ == first.authority@ && again.path_and_query@
            == first.path_and_query@ && again.text@ == first.text@,
{
    lemma_rewrite_without_port(first.authority@, ports);
}

/// A rewritten URI is rewritten to the same authority: where the authority
/// of a successful rewrite no longer holds the plaintext port's digits, a
/// second successful rewrite with that authority as its host header, and
/// with any request target, leaves the authority as it is.
pub proof fn lemma_second_rewrite_keeps_authority(
    host: Seq<char>,
    target: Seq<char>,
    ports: Ports,
    first: HttpsUri,
    next_target: Seq<char>,
    second: HttpsUri,
)
    requires
        rewrite_outcome(host, target, ports, Ok(first)),
        !occurs(first.authority@, decimal(ports.http as nat)),
        rewrite_outcome(first.authority@, next_target, ports, Ok(second)),
    ensures
        second.authority@ == first.authority@,
{
    lemma_rewrite_without_port(first.authority@, ports);
}

/// `http::uri::Authority`'s `FromStr`, through `str::parse`: the text is
/// taken or refused as a whole, and an authority that was taken reads back,
/// by `Authority::as_str`, as the text it was made from.
#[verifier::external_body]
fn parse_authority(text: &str) -> (parsed: Result<String, http::uri::InvalidUri>)
    ensures
        parsed is Ok <==> authority_accepted(text@),
        parsed matches Ok(authority) ==> authority@ == text@,
{
    match text.parse::<http::uri::Authority>() {
        Ok(authority) => Ok(authority.as_str().to_owned()),
        Err(cause) => Err(cause),
    }
}

/// `http::uri::Builder`, from `scheme`, `authority` and `path_and_query` to
/// `build`: the three are parsed and handed to `Uri::from_parts`. The URI
/// that comes back is read through `Uri::authority`, `Uri::path_and_query`
/// and its `Display`.
///
/// - The authority goes through the parser that `Authority`'s `FromStr`
///   uses, and reads back as the text given.
/// - `Display` writes the scheme, `://` and the authority before anything
///   else.
/// - The crate keeps the place of a target's `?` in 16 bits. For targets
///   up to `MAX_PLAIN_TARGET` characters it fits: the path and query is the
///   target up to the first `#`, or `/` where that is empty, and the text
///   is written out.
/// - A target of any length without a `#` is never cut: the path and query
///   is the target, or `/` for the empty one.
/// - The path and query of a URI holds only what the parser has let pass,
///   up to the fragment it found. Parsed again, the same bytes pass, the
///   same `?` is found and no fragment, so the same URI comes back.
#[verifier::external_body]
fn assemble(authority: &str, target: &str) -> (built: Result<HttpsUri, http::Error>)
    ensures
        built is Ok <==> assembled(authority@, target@) is Some,
        built matches Ok(uri) ==> built_from(authority@, target@, uri),
{
    let uri = http::Uri::builder().scheme("https").authority(authority).path_and_query(
        target,
    ).build()?;
    Ok(
        HttpsUri {
            authority: uri.authority().map_or("", http::uri::Authority::as_str).to_owned(),
            path_and_query: uri.path_and_query().map_or("", http::uri::PathAndQuery::as_str).to_owned(),
            text: uri.to_string(),
        },
    )
}

/// Builds the HTTPS URI that a plaintext request is redirected to.
///
/// The scheme is `https`. The authority is the host header with the
/// plaintext port's digits replaced by the TLS port's. The path and query
/// is the request target, or `/` where the request has none. A rewritten
/// host header that is no authority gives `InvalidAuthority`; parts that
/// make no URI give `UriAssembly`.
pub fn make_https(host: &str, target: Option<&str>, ports: Ports) -> (outcome: Result<
    HttpsUri,
    RewriteError,
>)
    ensures
        rewrite_outcome(host@, target_or_root(target), ports, outcome),
{
    let target: &str = match target {
        Some(t) => t,
        None => {
            proof {
                reveal_strlit("/");
                assert("/"@ =~= seq!['/']);
            }
            "/"
        },
    };
    let https_host = rewrite_host(host, ports);
    assemble_parsed(parse_authority(https_host.as_str()), target)
}

/// The rest of a rewrite, once the rewritten host header has been through
/// the authority parser: a refusal becomes `InvalidAuthority`, and an
/// authority is assembled with the scheme and the request target, where a
/// refusal becomes `UriAssembly`.
pub fn assemble_parsed(parsed: Result<String, http::uri::InvalidUri>, target: &str) -> (outcome:
    Result<HttpsUri, RewriteError>)
    ensures
        match parsed {
            Ok(authority) => assembly_outcome(authority@, target@, outcome),
            Err(_) => outcome matches Err(RewriteError::InvalidAuthority(_)),
        },
{
    match parsed {
        Err(cause) => Err(RewriteError::InvalidAuthority(cause)),
        Ok(authority) => match assemble(authority.as_str(), target) {
            Ok(uri) => Ok(uri),
            Err(cause) => Err(RewriteError::UriAssembly(cause)),
        },
    }
}

impl Response {
    /// 301 for a redirect, 400 for a refusal.
    pub open spec fn status_code(&self) -> u16 {
        match self {
            Response::PermanentRedirect { .. } => 301,
            Response::BadRequest => 400,
        }
    }

    /// The HTTP status code of this answer.
    pub fn status(&self) -> (code: u16)
        ensures
            code == self.status_code(),
    {
        match self {
            Response::PermanentRedirect { .. } => 301,
            Response::BadRequest => 400,
        }
    }
}

/// Answers a plaintext request from the outcome of its rewrite: a
/// permanent redirect to the URI's text, or a bad request that says
/// nothing of the cause.
pub fn respond(outcome: &Result<HttpsUri, RewriteError>) -> (response: Response)
    ensures
        response_for(*outcome, response),
        response.status_code() == if outcome is Ok {
            301u16
        } else {
            400u16
        },
{
    match outcome {
        Ok(uri) => Response::PermanentRedirect { location: uri.text.clone() },
        Err(_) => Response::BadRequest,
    }
}

} // verus!
