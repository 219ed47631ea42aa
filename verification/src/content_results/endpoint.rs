//! The one accepted spelling of a local model endpoint.

use vstd::prelude::*;
use super::error::{ContentSchemaError, SchemaProblem, violation, found, broken};
use crate::text::{
    trim, trimmed, lowered, lower_text, ends, ends_with, drop_leading, drop_trailing, without_leading,
    without_trailing, without_last, same, cat3, dec, decimal, opt_view, white, at,
};

verus! {

/// The parts of a URL that the endpoint rules read.
#[derive(Debug)]
pub struct UrlParts {
    pub scheme: String,
    pub username: String,
    pub password: Option<String>,
    pub host: Option<String>,
    pub port: Option<u16>,
    pub path: String,
    pub query: Option<String>,
    pub fragment: Option<String>,
}

/// The mathematical value of `UrlParts`.
pub struct UrlPartsView {
    pub scheme: Seq<char>,
    pub username: Seq<char>,
    pub password: Option<Seq<char>>,
    pub host: Option<Seq<char>>,
    pub port: Option<u16>,
    pub path: Seq<char>,
    pub query: Option<Seq<char>>,
    pub fragment: Option<Seq<char>>,
}

impl View for UrlParts {
    type V = UrlPartsView;

    open spec fn view(&self) -> UrlPartsView {
        UrlPartsView {
            scheme: self.scheme@,
            username: self.username@,
            password: opt_view(self.password),
            host: opt_view(self.host),
            port: self.port,
            path: self.path@,
            query: opt_view(self.query),
            fragment: opt_view(self.fragment),
        }
    }
}

/// The parts that `url::Url::parse` finds in a text, or nothing where it reports an error.
pub uninterp spec fn url_parts(input: Seq<char>) -> Option<UrlPartsView>;

/// A path that is `whole`, or `whole` up to one of its slashes.
pub open spec fn cut_back(path: Seq<char>, whole: Seq<char>) -> bool {
    &&& path.len() <= whole.len()
    &&& path == whole.take(path.len() as int)
    &&& path.len() < whole.len() ==> whole[path.len() as int] == '/'
}

/// What parsing finds again in the text of a URL of this machine without user, query and
/// fragment: its path is written in visible ASCII, and with the path cut back to any of its
/// slashes the text has the same parts, an empty path being the root.
pub open spec fn reads_back(u: UrlPartsView) -> bool {
    local_and_plain(u) ==> {
        &&& forall|i: int| 0 <= i < u.path.len() ==> 0x21 <= #[trigger] u.path[i] as int <= 0x7e
        &&& forall|path: Seq<char>| #[trigger]
            cut_back(path, u.path) ==> url_parts(spelling(u, path)) == Some(
                UrlPartsView { path: rooted(path), ..u },
            )
    }
}

/// `url::Url::parse`, with the parts of the parsed URL read out by its accessors of the
/// same names (`host_str` for the host). The parts are a function of the text alone. A parsed
/// path is percent-encoded and holds no dot segments, and parsing leaves such a path as it is,
/// whole or cut back to a slash; a host in its parsed spelling, and a port that is not the
/// scheme's own, are read as they are written.
#[verifier::external_body]
fn split_url(input: &str) -> (r: Option<UrlParts>)
    ensures
        opt_view(r) == url_parts(input@),
        r matches Some(u) ==> reads_back(u@),
{
    let url = url::Url::parse(input).ok()?;
    Some(UrlParts {
        scheme: url.scheme().to_string(),
        username: url.username().to_string(),
        password: url.password().map(str::to_string),
        host: url.host_str().map(str::to_string),
        port: url.port(),
        path: url.path().to_string(),
        query: url.query().map(str::to_string),
        fragment: url.fragment().map(str::to_string),
    })
}

/// The host without brackets, in lower case.
pub open spec fn bare_host(host: Seq<char>) -> Seq<char> {
    lowered(drop_trailing(drop_leading(host, '['), ']'))
}

/// The three names of this machine.
pub open spec fn local_host(host: Seq<char>) -> bool {
    host == "localhost"@ || host == "127.0.0.1"@ || host == "::1"@
}

/// A URL of this machine without user, query and fragment.
pub open spec fn local_and_plain(u: UrlPartsView) -> bool {
    &&& u.scheme == "http"@ || u.scheme == "https"@
    &&& u.username.len() == 0 && u.password is None
    &&& u.query is None && u.fragment is None
    &&& u.host matches Some(h) && local_host(bare_host(h))
}

/// A path without one slash or one protocol suffix at its end.
pub open spec fn without_ending(path: Seq<char>) -> Seq<char> {
    if path.len() > 0 && path.last() == '/' {
        path.drop_last()
    } else if ends(path, "/v1/chat/completions"@) {
        path.take(path.len() - "/v1/chat/completions"@.len())
    } else if ends(path, "/v1/messages"@) {
        path.take(path.len() - "/v1/messages"@.len())
    } else if ends(path, "/v1"@) {
        path.take(path.len() - "/v1"@.len())
    } else {
        path
    }
}

/// The path that is kept: without slashes and protocol suffixes at its end.
pub open spec fn kept_path(path: Seq<char>) -> Seq<char>
    decreases path.len(),
{
    if without_ending(path).len() < path.len() {
        kept_path(without_ending(path))
    } else {
        path
    }
}

/// The path of a URL whose text has this path.
pub open spec fn rooted(path: Seq<char>) -> Seq<char> {
    if path.len() == 0 {
        "/"@
    } else {
        path
    }
}

/// The port is the scheme's own.
pub open spec fn default_port(scheme: Seq<char>, port: u16) -> bool {
    (scheme == "http"@ && port == 80) || (scheme == "https"@ && port == 443)
}

/// The text of a local URL with a given path.
pub open spec fn spelling(u: UrlPartsView, path: Seq<char>) -> Seq<char> {
    u.scheme + "://"@ + (if bare_host(u.host->0) == "::1"@ {
        "[::1]"@
    } else {
        bare_host(u.host->0)
    }) + (match u.port {
        Some(p) if !default_port(u.scheme, p) => ":"@ + dec(p as nat),
        _ => Seq::empty(),
    }) + path
}

/// The canonical spelling of a URL, or what keeps it from being a local endpoint.
pub open spec fn canonical_of(parts: Option<UrlPartsView>) -> Result<Seq<char>, SchemaProblem> {
    match parts {
        None => Err(SchemaProblem::Invariant("endpoint is not a valid URL"@)),
        Some(u) => if u.scheme != "http"@ && u.scheme != "https"@ {
            Err(SchemaProblem::Invariant("endpoint scheme must be http or https"@))
        } else if u.username.len() > 0 || u.password is Some {
            Err(SchemaProblem::Invariant("endpoint must not contain userinfo"@))
        } else if u.query is Some || u.fragment is Some {
            Err(SchemaProblem::Invariant("endpoint must not contain query or fragment"@))
        } else {
            match u.host {
                None => Err(SchemaProblem::Invariant("endpoint must contain a host"@)),
                Some(h) => if !local_host(bare_host(h)) {
                    Err(SchemaProblem::Invariant("endpoint host must be localhost or loopback"@))
                } else {
                    Ok(spelling(u, kept_path(u.path)))
                },
            }
        },
    }
}

/// The value of a canonicalization.
pub open spec fn spelled(r: Result<String, ContentSchemaError>) -> Result<Seq<char>, SchemaProblem> {
    match r {
        Ok(s) => Ok(s@),
        Err(e) => Err(e@),
    }
}

/// How much a path ends in.
fn ending_len(path: &str) -> (n: usize)
    ensures
        n <= path@.len(),
        without_ending(path@).len() == path@.len() - n,
        without_ending(path@) == path@.take(path@.len() - n),
{
    proof {
        reveal_strlit("/v1/chat/completions");
        reveal_strlit("/v1/messages");
        reveal_strlit("/v1");
        assert(path@.take(path@.len() as int) =~= path@);
    }
    let len: usize = path.unicode_len();
    if len > 0 && path.get_char(len - 1) == '/' {
        assert(path@.drop_last() =~= path@.take(path@.len() - 1));
        1
    } else if ends_with(path, "/v1/chat/completions") {
        "/v1/chat/completions".unicode_len()
    } else if ends_with(path, "/v1/messages") {
        "/v1/messages".unicode_len()
    } else if ends_with(path, "/v1") {
        "/v1".unicode_len()
    } else {
        0
    }
}

fn keep_path(path: &str) -> (r: String)
    ensures
        r@ == kept_path(path@),
{
    let mut kept = path.to_owned();
    let mut n: usize = ending_len(kept.as_str());
    while n > 0
        invariant
            n <= kept@.len(),
            without_ending(kept@).len() == kept@.len() - n,
            without_ending(kept@) == kept@.take(kept@.len() - n),
            kept_path(path@) == kept_path(kept@),
        decreases kept@.len(),
    {
        kept = without_last(kept.as_str(), n).to_owned();
        n = ending_len(kept.as_str());
    }
    kept
}

/// The canonical spelling of a parsed URL, where it is a local endpoint without
/// credentials, query or fragment.
pub fn canonical_endpoint(parts: &UrlParts) -> (r: Result<String, ContentSchemaError>)
    ensures
        spelled(r) == canonical_of(Some(parts@)),
{
    let http = same(parts.scheme.as_str(), "http");
    let https = same(parts.scheme.as_str(), "https");
    if !http && !https {
        return Err(violation("endpoint scheme must be http or https"));
    }
    if !parts.username.as_str().is_empty() || parts.password.is_some() {
        return Err(violation("endpoint must not contain userinfo"));
    }
    if parts.query.is_some() || parts.fragment.is_some() {
        return Err(violation("endpoint must not contain query or fragment"));
    }
    match &parts.host {
        None => Err(violation("endpoint must contain a host")),
        Some(host) => {
            let bare = lower_text(without_trailing(without_leading(host.as_str(), '['), ']'));
            let six = same(bare.as_str(), "::1");
            if !same(bare.as_str(), "localhost") && !same(bare.as_str(), "127.0.0.1") && !six {
                return Err(violation("endpoint host must be localhost or loopback"));
            }
            let mut out = cat3(
                parts.scheme.as_str(),
                "://",
                if six {
                    "[::1]"
                } else {
                    bare.as_str()
                },
            );
            let mut port = String::new();
            if let Some(p) = parts.port {
                if !((http && p == 80) || (https && p == 443)) {
                    port.append(":");
                    port.append(decimal(p as u64).as_str());
                    assert(port@ =~= ":"@ + dec(p as nat));
                }
            }
            out.append(port.as_str());
            let kept = keep_path(parts.path.as_str());
            out.append(kept.as_str());
            Ok(out)
        },
    }
}

/// The canonical spelling of an endpoint that a user or a configuration gives. It is its own
/// canonical spelling, the one that may be stored, and does not end in a slash.
pub fn canonical_local_endpoint(endpoint: &str) -> (r: Result<String, ContentSchemaError>)
    ensures
        spelled(r) == canonical_of(url_parts(trimmed(endpoint@))),
        r matches Ok(c) ==> {
            &&& canonical_of(url_parts(trimmed(c@))) == Ok::<Seq<char>, SchemaProblem>(c@)
            &&& endpoint_problem(c@) is None
            &&& c@.last() != '/'
        },
{
    match split_url(trim(endpoint)) {
        None => Err(violation("endpoint is not a valid URL")),
        Some(parts) => {
            let r = canonical_endpoint(&parts);
            proof {
                if r is Ok {
                    a_spelling_settles(parts@);
                }
            }
            r
        },
    }
}

/// What is wrong with an endpoint whose canonical spelling is `canonical`.
pub open spec fn spelling_problem(
    endpoint: Seq<char>,
    canonical: Result<Seq<char>, SchemaProblem>,
) -> Option<SchemaProblem> {
    match canonical {
        Err(p) => Some(p),
        Ok(c) => if trimmed(endpoint) != c {
            broken("endpoint must use its canonical normalized spelling"@)
        } else {
            None
        },
    }
}

/// What is wrong with a stored endpoint.
pub open spec fn endpoint_problem(endpoint: Seq<char>) -> Option<SchemaProblem> {
    spelling_problem(endpoint, canonical_of(url_parts(trimmed(endpoint))))
}

/// Accepts an endpoint that equals the canonical spelling worked out for it.
pub fn require_spelling(
    endpoint: &str,
    canonical: Result<String, ContentSchemaError>,
) -> (r: Result<(), ContentSchemaError>)
    ensures
        found(r) == spelling_problem(endpoint@, spelled(canonical)),
{
    match canonical {
        Err(e) => Err(e),
        Ok(c) => {
            if !same(trim(endpoint), c.as_str()) {
                return Err(violation("endpoint must use its canonical normalized spelling"));
            }
            Ok(())
        },
    }
}

/// Accepts a stored endpoint only in its canonical spelling.
pub fn require_canonical_local_endpoint(endpoint: &str) -> (r: Result<(), ContentSchemaError>)
    ensures
        found(r) == endpoint_problem(endpoint@),
{
    require_spelling(endpoint, canonical_local_endpoint(endpoint))
}

// ---- Laws ----

/// A kept path is kept as it is, and does not end in a slash.
pub proof fn a_kept_path_settles(path: Seq<char>)
    ensures
        kept_path(kept_path(path)) == kept_path(path),
        kept_path(path).len() > 0 ==> kept_path(path).last() != '/',
    decreases path.len(),
{
    if without_ending(path).len() < path.len() {
        a_kept_path_settles(without_ending(path));
    }
}

/// A kept path is the whole path, or the path up to one of its slashes.
pub proof fn a_kept_path_is_cut_back(path: Seq<char>)
    ensures
        cut_back(kept_path(path), path),
    decreases path.len(),
{
    reveal_strlit("/v1/chat/completions");
    reveal_strlit("/v1/messages");
    reveal_strlit("/v1");
    let shorter = without_ending(path);
    if shorter.len() < path.len() {
        a_kept_path_is_cut_back(shorter);
        let kept = kept_path(path);
        assert(shorter =~= path.take(shorter.len() as int));
        let rest = path.subrange(shorter.len() as int, path.len() as int);
        assert(rest[0] == path[shorter.len() as int]);
        assert(rest[0] == '/');
        assert(kept =~= path.take(kept.len() as int));
        if kept.len() < shorter.len() {
            assert(shorter[kept.len() as int] == path[kept.len() as int]);
        }
    } else {
        assert(path =~= path.take(path.len() as int));
    }
}

proof fn no_white_around(s: Seq<char>)
    requires
        s.len() > 0,
        !white(s[0]),
        !white(s.last()),
    ensures
        trimmed(s) == s,
{
}

/// The canonical spelling of a URL that reads back is its own canonical spelling, may be stored,
/// and does not end in a slash.
pub proof fn a_spelling_settles(u: UrlPartsView)
    requires
        canonical_of(Some(u)) is Ok,
        reads_back(u),
    ensures
        ({
            let c = canonical_of(Some(u))->Ok_0;
            &&& canonical_of(url_parts(trimmed(c))) == Ok::<Seq<char>, SchemaProblem>(c)
            &&& endpoint_problem(c) is None
            &&& c.last() != '/'
        }),
{
    let kept = kept_path(u.path);
    let c = spelling(u, kept);
    a_kept_path_is_cut_back(u.path);
    a_kept_path_settles(u.path);
    reveal_strlit("http");
    reveal_strlit("https");
    reveal_strlit("://");
    reveal_strlit("localhost");
    reveal_strlit("127.0.0.1");
    reveal_strlit("[::1]");
    reveal_strlit(":");
    reveal_strlit("/");
    let v = UrlPartsView { path: rooted(kept), ..u };
    assert(url_parts(c) == Some(v));
    assert(kept_path(v.path) == kept) by {
        if kept.len() == 0 {
            assert("/"@.drop_last() =~= Seq::<char>::empty());
            assert(kept =~= Seq::<char>::empty());
            reveal_with_fuel(kept_path, 2);
        }
    }
    assert(c[0] == u.scheme[0]);
    if kept.len() > 0 {
        assert(c.last() == kept.last());
        assert(kept.last() == u.path[kept.len() - 1]);
    } else {
        match u.port {
            Some(p) if !default_port(u.scheme, p) => {
                crate::text::decimal_reads_back(p as nat);
                let d = dec(p as nat);
                assert(c.last() == d.last());
                assert(crate::text::digit(d[d.len() - 1]));
            },
            _ => {},
        }
    }
    no_white_around(c);
    assert(canonical_of(Some(v)) == Ok::<Seq<char>, SchemaProblem>(spelling(v, kept)));
    assert(spelling(v, kept) == c);
}

proof fn takes_off(base: Seq<char>, ending: Seq<char>)
    ensures
        ends(base + ending, ending),
        (base + ending).take((base + ending).len() - ending.len()) == base,
{
    assert((base + ending).subrange(base.len() as int, base.len() + ending.len() as int) =~= ending);
    assert((base + ending).take(base.len() as int) =~= base);
}

/// The endings under which the two interfaces are known, and slashes, say nothing about where a
/// service is: a path with one of them is kept as the path without it, and a path with none of
/// them as it is.
pub proof fn known_endings_are_left_out(base: Seq<char>)
    ensures
        kept_path(base + "/"@) == kept_path(base),
        kept_path(base + "/v1"@) == kept_path(base),
        kept_path(base + "/v1/messages"@) == kept_path(base),
        kept_path(base + "/v1/chat/completions"@) == kept_path(base),
        !ends(base, "/"@) && !ends(base, "/v1"@) && !ends(base, "/v1/messages"@) && !ends(
            base,
            "/v1/chat/completions"@,
        ) ==> kept_path(base) == base,
{
    reveal_strlit("/");
    reveal_strlit("/v1");
    reveal_strlit("/v1/messages");
    reveal_strlit("/v1/chat/completions");
    takes_off(base, "/"@);
    takes_off(base, "/v1"@);
    takes_off(base, "/v1/messages"@);
    takes_off(base, "/v1/chat/completions"@);
    assert((base + "/"@).drop_last() =~= base);
    let a = base + "/v1"@;
    let b = base + "/v1/messages"@;
    let c = base + "/v1/chat/completions"@;
    assert(a.last() == '1' && b.last() == 's' && c.last() == 's');
    assert(!ends(a, "/v1/chat/completions"@)) by {
        if ends(a, "/v1/chat/completions"@) {
            assert(a.subrange(a.len() - 20, a.len() as int)[19] == 's');
        }
    }
    assert(!ends(a, "/v1/messages"@)) by {
        if ends(a, "/v1/messages"@) {
            assert(a.subrange(a.len() - 12, a.len() as int)[11] == 's');
        }
    }
    assert(!ends(b, "/v1/chat/completions"@)) by {
        if ends(b, "/v1/chat/completions"@) {
            assert(b.subrange(b.len() - 20, b.len() as int)[18] == 'n');
            assert(b[b.len() - 2] == 'e');
        }
    }
    assert(without_ending(a) == base);
    assert(without_ending(b) == base);
    assert(without_ending(c) == base);
    assert(without_ending(base + "/"@) == base);
    if base.len() > 0 && base.last() == '/' {
        assert(base.subrange(base.len() - 1, base.len() as int) =~= "/"@);
        assert(ends(base, "/"@));
    }
}

/// An address is taken exactly where it is one of this machine, over HTTP, with no name or
/// password, query or fragment; and is spelled by its scheme, host, port unless it is the usual
/// one, and path.
pub proof fn an_address_of_this_machine_is_taken(u: UrlPartsView)
    ensures
        canonical_of(Some(u)) is Ok <==> {
            &&& u.scheme == "http"@ || u.scheme == "https"@
            &&& u.username.len() == 0
            &&& u.password is None
            &&& u.query is None
            &&& u.fragment is None
            &&& u.host is Some
            &&& bare_host(u.host->0) == "localhost"@ || bare_host(u.host->0) == "127.0.0.1"@ || bare_host(
                u.host->0,
            ) == "::1"@
        },
        canonical_of(None) is Err,
        canonical_of(Some(u)) is Ok && u.host == Some("localhost"@) && u.port is None ==> canonical_of(Some(u)) == Ok::<
            Seq<char>,
            SchemaProblem,
        >(u.scheme + "://"@ + "localhost"@ + kept_path(u.path)),
        canonical_of(Some(u)) is Ok && u.host == Some("localhost"@) && u.port is Some && !(u.scheme == "http"@ && u.port
            == Some(80u16)) && !(u.scheme == "https"@ && u.port == Some(443u16)) ==> canonical_of(Some(u)) == Ok::<
            Seq<char>,
            SchemaProblem,
        >(u.scheme + "://"@ + "localhost"@ + (":"@ + dec(u.port->0 as nat)) + kept_path(u.path)),
{
    reveal_strlit("localhost");
    reveal_strlit("::1");
    let l = "localhost"@;
    assert(drop_leading(l, '[') == l);
    assert(l.last() == 't');
    assert(drop_trailing(l, ']') == l);
    assert(lowered(l) =~= l);
    assert(bare_host(l) == l);
    assert(l.len() != "::1"@.len());
    let none = Seq::<char>::empty();
    assert(u.scheme + "://"@ + l + none + kept_path(u.path) =~= u.scheme + "://"@ + l + kept_path(u.path));
}

} // verus!
