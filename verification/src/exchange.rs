//! What the proxy decides around each intercepted exchange: which requests it
//! records, how it names hosts and URLs, which headers it forwards, and the
//! traffic entry and client response it makes of a request and its upstream reply.

use vstd::prelude::*;
use crate::cli::opt_text;
use crate::foreign::{from_utf8_lossy, lossy_text};
use crate::store::TrafficEntry;
use crate::text::{concat_text, contains_text, has_substring, split_last, split_last_spec};
use crate::textmap::TextMap;

verus! {

/// A header value byte that `HeaderValue::to_str` accepts: visible ASCII or tab.
pub open spec fn visible_ascii(b: u8) -> bool {
    (32 <= b && b < 127) || b == 9
}

/// The text of a header value: its bytes as characters when all are visible ASCII,
/// else the empty text (`to_str().unwrap_or("")`).
pub open spec fn header_text(b: Seq<u8>) -> Seq<char> {
    if forall|i: int| 0 <= i < b.len() ==> visible_ascii(b[i]) {
        b.map_values(|x: u8| x as char)
    } else {
        seq![]
    }
}

/// The text of a header value, or the empty text when it is not all visible ASCII.
pub fn header_value_text(b: &[u8]) -> (r: String)
    ensures
        r@ == header_text(b@),
{
    let mut i: usize = 0;
    while i < b.len()
        invariant
            i <= b@.len(),
            forall|j: int| 0 <= j < i ==> visible_ascii(b@[j]),
        decreases b@.len() - i,
    {
        let x = b[i];
        if !((32 <= x && x < 127) || x == 9) {
            return String::new();
        }
        i = i + 1;
    }
    let mut r = String::new();
    let mut k: usize = 0;
    while k < b.len()
        invariant
            k <= b@.len(),
            r@ == b@.take(k as int).map_values(|x: u8| x as char),
        decreases b@.len() - k,
    {
        crate::foreign::push_char(&mut r, b[k] as char);
        assert(b@.take(k + 1).map_values(|x: u8| x as char) =~= b@.take(k as int).map_values(
            |x: u8| x as char,
        ).push(b@[k as int] as char));
        k = k + 1;
    }
    assert(b@.take(b@.len() as int) =~= b@);
    r
}

/// The header map that writing the pairs in order builds, each value as its text;
/// a later value of a name replaces an earlier one.
pub open spec fn header_texts(s: Seq<(String, Vec<u8>)>) -> Map<Seq<char>, Seq<char>>
    decreases s.len(),
{
    if s.len() == 0 {
        Map::empty()
    } else {
        header_texts(s.drop_last()).insert(s.last().0@, header_text(s.last().1@))
    }
}

/// The texts of a map of strings.
pub open spec fn map_texts(m: Map<Seq<char>, String>) -> Map<Seq<char>, Seq<char>> {
    m.map_values(|v: String| v@)
}

/// The headers of a request or response as a map from name to value text.
pub fn collect_headers(pairs: Vec<(String, Vec<u8>)>) -> (r: TextMap<String>)
    ensures
        map_texts(r@) == header_texts(pairs@),
{
    let ghost all = pairs@;
    let mut m: TextMap<String> = TextMap::new();
    assert(map_texts(m@) =~= Map::<Seq<char>, Seq<char>>::empty());
    for p in it: pairs.into_iter()
        invariant
            it.seq() == all,
            map_texts(m@) == header_texts(all.take(it.index() as int)),
    {
        let ghost n = it.index() as int;
        assert(all.take(n + 1).drop_last() =~= all.take(n));
        let ghost before = m@;
        let text = header_value_text(p.1.as_slice());
        let ghost name = p.0@;
        m.insert(p.0, text);
        assert(map_texts(m@) =~= map_texts(before).insert(name, text@));
    }
    assert(all.take(all.len() as int) =~= all);
    m
}

/// A header the proxy does not forward upstream: `host` and `proxy-connection`.
pub open spec fn is_dropped_header(name: Seq<char>) -> bool {
    name == seq!['h', 'o', 's', 't'] || name == seq![
        'p',
        'r',
        'o',
        'x',
        'y',
        '-',
        'c',
        'o',
        'n',
        'n',
        'e',
        'c',
        't',
        'i',
        'o',
        'n',
    ]
}

/// The pairs of `s` whose names are forwarded, in order.
pub open spec fn forwarded<V>(s: Seq<(String, V)>) -> Seq<(String, V)>
    decreases s.len(),
{
    if s.len() == 0 {
        seq![]
    } else {
        let rest = forwarded(s.drop_last());
        if is_dropped_header(s.last().0@) {
            rest
        } else {
            rest.push(s.last())
        }
    }
}

/// The headers to send upstream: all but `host` and `proxy-connection`, in order.
pub fn forwarded_headers<V>(headers: Vec<(String, V)>) -> (r: Vec<(String, V)>)
    ensures
        r@ == forwarded(headers@),
{
    proof {
        reveal_strlit("host");
        reveal_strlit("proxy-connection");
    }
    let host = "host".to_owned();
    let proxy_connection = "proxy-connection".to_owned();
    assert("host"@ =~= seq!['h', 'o', 's', 't']);
    assert("proxy-connection"@ =~= seq![
        'p',
        'r',
        'o',
        'x',
        'y',
        '-',
        'c',
        'o',
        'n',
        'n',
        'e',
        'c',
        't',
        'i',
        'o',
        'n',
    ]);
    let ghost all = headers@;
    let mut out: Vec<(String, V)> = Vec::new();
    for h in it: headers.into_iter()
        invariant
            it.seq() == all,
            is_dropped_header(host@),
            is_dropped_header(proxy_connection@),
            forall|k: Seq<char>| is_dropped_header(k) ==> k == host@ || k == proxy_connection@,
            out@ == forwarded(all.take(it.index() as int)),
    {
        let ghost n = it.index() as int;
        assert(all.take(n + 1).drop_last() =~= all.take(n));
        if !(h.0 == host || h.0 == proxy_connection) {
            out.push(h);
        }
    }
    assert(all.take(all.len() as int) =~= all);
    out
}

/// The host of a `host:port` authority: the text before its last `:`, or all of it.
pub open spec fn authority_host(a: Seq<char>) -> Seq<char> {
    match split_last_spec(a, ':') {
        Some(p) => p.0,
        None => a,
    }
}

/// The host of the authority of a CONNECT request.
pub fn host_of_authority(host_port: &str) -> (r: String)
    ensures
        r@ == authority_host(host_port@),
{
    match split_last(host_port, ':') {
        Some(p) => p.0,
        None => host_port.to_owned(),
    }
}

/// Whether a request with this method opens a tunnel (`CONNECT`) rather than
/// being forwarded as plain HTTP.
pub fn is_tunnel_request(method: &str) -> (r: bool)
    ensures
        r == (method@ == seq!['C', 'O', 'N', 'N', 'E', 'C', 'T']),
{
    proof {
        reveal_strlit("CONNECT");
    }
    let connect = "CONNECT".to_owned();
    assert("CONNECT"@ =~= seq!['C', 'O', 'N', 'N', 'E', 'C', 'T']);
    method.to_owned() == connect
}

/// An authority as an `https` URL writes it: without the port when the port is
/// the default one, 443.
pub open spec fn https_authority(host_port: Seq<char>) -> Seq<char> {
    match split_last_spec(host_port, ':') {
        Some(p) => if p.1 == seq!['4', '4', '3'] {
            p.0
        } else {
            host_port
        },
        None => host_port,
    }
}

/// The full URL of a request read inside a tunnel: `https://`, the authority
/// without a default port, then the path and query, or `/` when there is none.
pub open spec fn tunnel_url(host_port: Seq<char>, path_and_query: Option<Seq<char>>) -> Seq<char> {
    seq!['h', 't', 't', 'p', 's', ':', '/', '/'] + https_authority(host_port) + match path_and_query {
        Some(p) => p,
        None => seq!['/'],
    }
}

/// The full URL of a request read inside a tunnel to `host_port`.
pub fn mitm_url(host_port: &str, path_and_query: Option<&str>) -> (r: String)
    ensures
        r@ == tunnel_url(
            host_port@,
            match path_and_query {
                Some(p) => Some(p@),
                None => None,
            },
        ),
{
    proof {
        reveal_strlit("https://");
        reveal_strlit("/");
    }
    let path: &str = match path_and_query {
        Some(p) => p,
        None => "/",
    };
    let authority: String = match split_last(host_port, ':') {
        Some(p) => {
            proof {
                reveal_strlit("443");
            }
            if p.1 == "443".to_owned() {
                assert("443"@ =~= seq!['4', '4', '3']);
                p.0
            } else {
                assert("443"@ =~= seq!['4', '4', '3']);
                host_port.to_owned()
            }
        },
        None => host_port.to_owned(),
    };
    let head = concat_text("https://", &authority);
    assert("https://"@ =~= seq!['h', 't', 't', 'p', 's', ':', '/', '/']);
    assert("/"@ =~= seq!['/']);
    concat_text(&head, path)
}

/// Whether a request to `host` is recorded: always without a host filter, else
/// when the host contains the filter text.
pub open spec fn captured(host: Seq<char>, filter: Option<Seq<char>>) -> bool {
    match filter {
        Some(f) => has_substring(host, f),
        None => true,
    }
}

/// Whether a request to `host` is recorded under the `--filter-host` option.
pub fn should_capture(host: &str, filter: &Option<String>) -> (r: bool)
    ensures
        r == captured(host@, opt_text(*filter)),
{
    match filter {
        Some(f) => contains_text(host, f.as_str()),
        None => true,
    }
}

/// A body as recorded: `None` when empty, else its text, decoded leniently.
pub open spec fn body_text(b: Seq<u8>) -> Option<Seq<char>> {
    if b.len() == 0 {
        None
    } else {
        Some(lossy_text(b))
    }
}

/// A body as recorded: `None` when empty, else its text.
pub fn maybe_utf8(b: &[u8]) -> (r: Option<String>)
    ensures
        opt_text(r) == body_text(b@),
{
    if b.len() == 0 {
        None
    } else {
        Some(from_utf8_lossy(b))
    }
}

/// A request read from a client and about to be sent upstream.
pub struct CapturedRequest {
    pub host: String,
    pub method: String,
    pub url: String,
    /// Header names and raw values, in the order the request holds them.
    pub headers: Vec<(String, Vec<u8>)>,
    pub body: Vec<u8>,
}

/// What came back from upstream.
pub enum UpstreamReply {
    /// A response with its status, headers and body.
    Answered { status: u16, headers: Vec<(String, Vec<u8>)>, body: Vec<u8> },
    /// The request failed.
    Failed,
}

/// What the proxy answers the client with.
pub struct ClientResponse {
    pub status: u16,
    pub body: Vec<u8>,
}

/// The status the client receives: the upstream one, or 502 when upstream failed.
pub open spec fn answered_status(reply: UpstreamReply) -> u16 {
    match reply {
        UpstreamReply::Answered { status, .. } => status,
        UpstreamReply::Failed => 502,
    }
}

/// The headers, as texts, and the body bytes of the upstream reply, empty when it failed.
pub open spec fn reply_headers(reply: UpstreamReply) -> Map<Seq<char>, Seq<char>> {
    match reply {
        UpstreamReply::Answered { headers, .. } => header_texts(headers@),
        UpstreamReply::Failed => Map::empty(),
    }
}

/// The body bytes of the upstream reply, empty when it failed.
pub open spec fn reply_body(reply: UpstreamReply) -> Seq<u8> {
    match reply {
        UpstreamReply::Answered { body, .. } => body@,
        UpstreamReply::Failed => seq![],
    }
}

/// The recorded status: the upstream one, or `None` when upstream failed.
pub open spec fn reply_status(reply: UpstreamReply) -> Option<u16> {
    match reply {
        UpstreamReply::Answered { status, .. } => Some(status),
        UpstreamReply::Failed => None,
    }
}

/// `entry` and `resp` are what the proxy makes of `request` and `reply`, with the
/// given id, time and duration.
pub open spec fn records_exchange(
    entry: TrafficEntry,
    resp: ClientResponse,
    id: Seq<char>,
    ts: Seq<char>,
    request: CapturedRequest,
    reply: UpstreamReply,
    duration_ms: u64,
) -> bool {
    &&& entry.id@ == id
    &&& entry.ts@ == ts
    &&& entry.host == request.host
    &&& entry.method == request.method
    &&& entry.url == request.url
    &&& map_texts(entry.req_headers@) == header_texts(request.headers@)
    &&& opt_text(entry.req_body) == body_text(request.body@)
    &&& entry.status == reply_status(reply)
    &&& map_texts(entry.res_headers@) == reply_headers(reply)
    &&& opt_text(entry.res_body) == body_text(reply_body(reply))
    &&& entry.duration_ms == Some(duration_ms)
    &&& resp.status == answered_status(reply)
    &&& resp.body@ == reply_body(reply)
}

/// The traffic entry and the client response for an exchange, given the entry's
/// id (a fresh random UUID) and time (RFC 3339), which the caller draws.
pub fn record_exchange(
    id: String,
    ts: String,
    request: CapturedRequest,
    reply: UpstreamReply,
    duration_ms: u64,
) -> (r: (TrafficEntry, ClientResponse))
    ensures
        records_exchange(r.0, r.1, id@, ts@, request, reply, duration_ms),
{
    let ghost req0 = request;
    let ghost rep0 = reply;
    let req_body = maybe_utf8(request.body.as_slice());
    let req_headers = collect_headers(request.headers);
    let (status, res_headers, body): (Option<u16>, TextMap<String>, Vec<u8>) = match reply {
        UpstreamReply::Answered { status, headers, body } => (
            Some(status),
            collect_headers(headers),
            body,
        ),
        UpstreamReply::Failed => {
            let m: TextMap<String> = TextMap::new();
            assert(map_texts(m@) =~= Map::<Seq<char>, Seq<char>>::empty());
            (None, m, Vec::new())
        },
    };
    let res_body = maybe_utf8(body.as_slice());
    let entry = TrafficEntry {
        id,
        ts,
        host: request.host,
        method: request.method,
        url: request.url,
        req_headers,
        req_body,
        status,
        res_headers,
        res_body,
        duration_ms: Some(duration_ms),
    };
    let code: u16 = match status {
        Some(s) => s,
        None => 502,
    };
    (entry, ClientResponse { status: code, body })
}

} // verus!

verus! {

/// Without a host filter every request is recorded; with a filter `f`, a request to
/// `host` is recorded exactly when `f` occurs somewhere in `host`, at its start, in
/// its middle or at its end; in particular a filter equal to the host records it.
pub proof fn law_capture_exactly_when_filter_occurs(host: Seq<char>, f: Seq<char>)
    ensures
        captured(host, None),
        forall|i: int|
            0 <= i && i + f.len() <= host.len() && #[trigger] host.subrange(i, i + f.len()) == f
                ==> captured(host, Some(f)),
        captured(host, Some(f)) ==> exists|i: int|
            0 <= i && i + f.len() <= host.len() && #[trigger] host.subrange(i, i + f.len()) == f,
        captured(host, Some(host)),
{
    assert forall|i: int|
        0 <= i && i + f.len() <= host.len() && #[trigger] host.subrange(i, i + f.len()) == f
        implies captured(host, Some(f)) by {
        assert(crate::text::occurs_at(host, f, i));
    }
    assert(host.subrange(0, host.len() as int) =~= host);
    assert(crate::text::occurs_at(host, host, 0));
}

} // verus!
