//! Replaying a captured request: the overrides given on the command line applied
//! to the captured entry, and the choice of transport.

use vstd::prelude::*;
use crate::cli::{opt_text, ReplayArgs};
use crate::exchange::map_texts;
use crate::foreign::{to_upper, upper_case};
use crate::store::TrafficEntry;
use crate::text::{same_ignoring_ascii_case, split_first, split_first_spec, trim, trimmed};
use crate::textmap::without_like;

verus! {

/// Why a captured request cannot be replayed.
pub enum ReplayError {
    /// A header override was not written `key:value`.
    MalformedHeader,
    /// The method is not an HTTP method token.
    InvalidMethod,
    /// The URL is not one `hyper::Uri` accepts.
    InvalidUrl,
}

/// Whether `hyper::Uri`'s parser (`str::parse`) accepts a text.
pub uninterp spec fn uri_accepted(s: Seq<char>) -> bool;

/// `str::parse::<hyper::Uri>`, reduced to whether it succeeds: a function of the
/// text alone.
#[verifier::external_body]
fn parses_as_uri(s: &str) -> (r: bool)
    ensures
        r == uri_accepted(s@),
{
    s.parse::<hyper::Uri>().is_ok()
}

/// A character allowed in an HTTP method token: a letter, a digit, or one of
/// ``!#$%&'*+-.^_`|~``.
pub open spec fn is_token_char(c: char) -> bool {
    ('a' <= c && c <= 'z') || ('A' <= c && c <= 'Z') || ('0' <= c && c <= '9') || c == '!' || c
        == '#' || c == '$' || c == '%' || c == '&' || c == '\'' || c == '*' || c == '+' || c
        == '-' || c == '.' || c == '^' || c == '_' || c == '`' || c == '|' || c == '~'
}

/// A method `hyper::Method::from_bytes` accepts: a non-empty token.
pub open spec fn method_token(s: Seq<char>) -> bool {
    s.len() > 0 && forall|i: int| 0 <= i < s.len() ==> is_token_char(s[i])
}

/// Whether `method` is a non-empty HTTP method token.
pub fn is_method_token(method: &str) -> (r: bool)
    ensures
        r == method_token(method@),
{
    let cs = crate::text::chars_of(method);
    if cs.len() == 0 {
        return false;
    }
    let mut i: usize = 0;
    while i < cs.len()
        invariant
            cs@ == method@,
            i <= cs@.len(),
            forall|j: int| 0 <= j < i ==> is_token_char(cs@[j]),
        decreases cs@.len() - i,
    {
        let c = cs[i];
        let ok = ('a' <= c && c <= 'z') || ('A' <= c && c <= 'Z') || ('0' <= c && c <= '9') || c
            == '!' || c == '#' || c == '$' || c == '%' || c == '&' || c == '\'' || c == '*' || c
            == '+' || c == '-' || c == '.' || c == '^' || c == '_' || c == '`' || c == '|' || c
            == '~';
        if !ok {
            return false;
        }
        i = i + 1;
    }
    true
}

/// The name and value a header override sets: the trimmed texts before and after
/// its first `:`, or `None` when it holds no `:`.
pub open spec fn header_override(h: Seq<char>) -> Option<(Seq<char>, Seq<char>)> {
    match split_first_spec(h, ':') {
        Some(p) => Some((trimmed(p.0), trimmed(p.1))),
        None => None,
    }
}

/// Every header override holds a `:`.
pub open spec fn overrides_well_formed(hs: Seq<String>) -> bool {
    forall|i: int| 0 <= i < hs.len() ==> (#[trigger] header_override(hs[i]@)) is Some
}

/// The headers `m` after the overrides `hs`, applied in order: each override
/// removes every header whose name equals its name ignoring ASCII case, then sets
/// its own name to its value.
pub open spec fn overridden(m: Map<Seq<char>, Seq<char>>, hs: Seq<String>) -> Map<Seq<char>, Seq<char>>
    decreases hs.len(),
{
    if hs.len() == 0 {
        m
    } else {
        match header_override(hs.last()@) {
            Some(p) => without_like(overridden(m, hs.drop_last()), p.0).insert(p.0, p.1),
            None => overridden(m, hs.drop_last()),
        }
    }
}

/// `e` is `entry` with the overrides of `args`: the method in upper case, the
/// headers set, the body replaced; everything else as it was.
pub open spec fn overrides_applied(e: TrafficEntry, entry: TrafficEntry, args: ReplayArgs) -> bool {
    &&& e.id == entry.id
    &&& e.ts == entry.ts
    &&& e.host == entry.host
    &&& e.url == entry.url
    &&& e.method@ == match args.method {
        Some(m) => upper_case(m@),
        None => entry.method@,
    }
    &&& map_texts(e.req_headers@) == overridden(map_texts(entry.req_headers@), args.headers@)
    &&& opt_text(e.req_body) == match args.body {
        Some(b) => Some(b@),
        None => opt_text(entry.req_body),
    }
    &&& e.status == entry.status
    &&& e.res_headers == entry.res_headers
    &&& e.res_body == entry.res_body
    &&& e.duration_ms == entry.duration_ms
}

/// The captured entry with the method, header and body overrides of a replay.
/// Fails exactly when a header override holds no `:`.
pub fn apply_overrides(entry: TrafficEntry, args: &ReplayArgs) -> (r: Result<TrafficEntry, ReplayError>)
    ensures
        r is Ok <==> overrides_well_formed(args.headers@),
        r is Err ==> r matches Err(ReplayError::MalformedHeader),
        r matches Ok(e) ==> overrides_applied(e, entry, *args),
{
    let ghost original = entry;
    let mut entry = entry;
    match &args.method {
        Some(m) => {
            entry.method = to_upper(m.as_str());
        },
        None => {},
    }
    let mut i: usize = 0;
    assert(args.headers@.take(0) =~= Seq::<String>::empty());
    while i < args.headers.len()
        invariant
            i <= args.headers@.len(),
            forall|j: int| 0 <= j < i ==> (#[trigger] header_override(args.headers@[j]@)) is Some,
            map_texts(entry.req_headers@) == overridden(
                map_texts(original.req_headers@),
                args.headers@.take(i as int),
            ),
            entry.id == original.id,
            entry.ts == original.ts,
            entry.host == original.host,
            entry.url == original.url,
            entry.req_body == original.req_body,
            entry.status == original.status,
            entry.res_headers == original.res_headers,
            entry.res_body == original.res_body,
            entry.duration_ms == original.duration_ms,
            entry.method@ == match args.method {
                Some(m) => upper_case(m@),
                None => original.method@,
            },
        decreases args.headers@.len() - i,
    {
        let ghost hs = args.headers@.take(i + 1);
        assert(hs.drop_last() =~= args.headers@.take(i as int));
        assert(hs.last() == args.headers@[i as int]);
        match split_first(args.headers[i].as_str(), ':') {
            Some(p) => {
                let k = trim(p.0.as_str());
                let v = trim(p.1.as_str());
                let ghost before = entry.req_headers@;
                entry.req_headers.remove_ignoring_case(k.as_str());
                let ghost removed = entry.req_headers@;
                assert(map_texts(removed) =~= without_like(map_texts(before), k@));
                entry.req_headers.insert(k, v);
                assert(map_texts(entry.req_headers@) =~= map_texts(removed).insert(k@, v@));
            },
            None => {
                assert(header_override(args.headers@[i as int]@) is None);
                return Err(ReplayError::MalformedHeader);
            },
        }
        i = i + 1;
    }
    assert(args.headers@.take(args.headers@.len() as int) =~= args.headers@);
    match &args.body {
        Some(b) => {
            entry.req_body = Some(b.clone());
        },
        None => {},
    }
    Ok(entry)
}

/// The method a replay sends: the override in upper case, or the captured one.
pub open spec fn replay_method(entry: TrafficEntry, args: ReplayArgs) -> Seq<char> {
    match args.method {
        Some(m) => upper_case(m@),
        None => entry.method@,
    }
}

/// The request a replay sends: the captured entry with the overrides applied,
/// after checking that its method is a token and its URL parses. Each error comes
/// exactly when its check is the first to fail, in that order.
pub fn prepare_replay(entry: TrafficEntry, args: &ReplayArgs) -> (r: Result<TrafficEntry, ReplayError>)
    ensures
        r matches Err(ReplayError::MalformedHeader) <==> !overrides_well_formed(args.headers@),
        r matches Err(ReplayError::InvalidMethod) <==> overrides_well_formed(args.headers@)
            && !method_token(replay_method(entry, *args)),
        r matches Err(ReplayError::InvalidUrl) <==> overrides_well_formed(args.headers@)
            && method_token(replay_method(entry, *args)) && !uri_accepted(entry.url@),
        r matches Ok(e) ==> overrides_applied(e, entry, *args),
{
    let e = match apply_overrides(entry, args) {
        Ok(e) => e,
        Err(_) => {
            return Err(ReplayError::MalformedHeader);
        },
    };
    if !is_method_token(e.method.as_str()) {
        return Err(ReplayError::InvalidMethod);
    }
    if !parses_as_uri(e.url.as_str()) {
        return Err(ReplayError::InvalidUrl);
    }
    Ok(e)
}

/// Whether the replayed request goes over TLS: when the URL's scheme, `http` if
/// absent, is `https`.
pub fn needs_tls(scheme: Option<&str>) -> (r: bool)
    ensures
        r == match scheme {
            Some(s) => s@ == seq!['h', 't', 't', 'p', 's'],
            None => false,
        },
{
    proof {
        reveal_strlit("https");
    }
    assert("https"@ =~= seq!['h', 't', 't', 'p', 's']);
    match scheme {
        Some(s) => s.to_owned() == "https".to_owned(),
        None => false,
    }
}

} // verus!

verus! {

/// After overrides that end with a well-formed one, the request carries that last
/// override's value under its name, and no other header whose name equals it
/// ignoring ASCII case, whatever came before.
pub proof fn law_last_header_override_wins(m: Map<Seq<char>, Seq<char>>, hs: Seq<String>)
    requires
        hs.len() > 0,
        header_override(hs.last()@) is Some,
    ensures
        ({
            let (name, value) = header_override(hs.last()@)->0;
            &&& overridden(m, hs).contains_key(name)
            &&& overridden(m, hs)[name] == value
            &&& forall|q: Seq<char>|
                #![trigger overridden(m, hs).contains_key(q)]
                overridden(m, hs).contains_key(q) && same_ignoring_ascii_case(q, name) ==> q == name
        }),
{
}

} // verus!

verus! {

/// A replay without overrides sends the captured method, headers and body.
pub proof fn law_no_overrides_keep_request(e: TrafficEntry, entry: TrafficEntry, args: ReplayArgs)
    requires
        args.method is None,
        args.headers@.len() == 0,
        args.body is None,
        overrides_applied(e, entry, args),
    ensures
        e.method@ == entry.method@,
        map_texts(e.req_headers@) == map_texts(entry.req_headers@),
        opt_text(e.req_body) == opt_text(entry.req_body),
{
}

} // verus!

verus! {

/// A replay keeps the captured request's identity and URL; a `--body` replaces the
/// captured body whatever it was, and without one the captured body is sent as it
/// was; a `--method` of ASCII text is sent with its letters in upper case.
pub proof fn law_replay_overrides_body_and_method(e: TrafficEntry, entry: TrafficEntry, args: ReplayArgs)
    requires
        overrides_applied(e, entry, args),
    ensures
        e.id == entry.id,
        e.url == entry.url,
        e.host == entry.host,
        args.body matches Some(b) ==> e.req_body matches Some(x) && x@ == b@,
        args.body is None ==> (e.req_body is None <==> entry.req_body is None),
        args.body is None ==> forall|x: String, y: String|
            e.req_body == Some(x) && entry.req_body == Some(y) ==> x@ == y@,
        args.method matches Some(m) ==> (crate::text::is_ascii_text(m@) ==> e.method@.len()
            == m@.len() && forall|i: int|
            0 <= i < m@.len() ==> e.method@[i] == crate::text::ascii_upper(#[trigger] m@[i])),
        args.method is None ==> e.method@ == entry.method@,
{
}

} // verus!
