//! Captured traffic entries, the JSON-lines log that holds them, and the
//! queries over it.

use vstd::prelude::*;
use crate::cli::{joined, join_path, LogsArgs};
use crate::foreign::{lower_case, to_lower, to_upper, upper_case};
use crate::text::{
    concat_text, contains_text, cuttable, decimal, decimal_text, has_substring, lines_from, lines_of, strip_cr,
    pad_right, padded,
    split_lines, texts, truncate, truncated,
};
use crate::textmap::TextMap;

verus! {

/// One captured request and its response.
pub struct TrafficEntry {
    /// Unique id of the capture.
    pub id: String,
    /// Capture time, in RFC 3339 form.
    pub ts: String,
    /// Host the request went to.
    pub host: String,
    /// HTTP method.
    pub method: String,
    /// Full request URL.
    pub url: String,
    /// Request headers.
    pub req_headers: TextMap<String>,
    /// Request body, when it was not empty.
    pub req_body: Option<String>,
    /// Response status, or `None` when the upstream request failed.
    pub status: Option<u16>,
    /// Response headers.
    pub res_headers: TextMap<String>,
    /// Response body, when it was not empty.
    pub res_body: Option<String>,
    /// Time between sending the request upstream and receiving the response.
    pub duration_ms: Option<u64>,
}

/// The file name of the traffic log inside the data directory.
pub open spec fn log_file_name() -> Seq<char> {
    seq!['t', 'r', 'a', 'f', 'f', 'i', 'c', '.', 'j', 's', 'o', 'n', 'l']
}

/// Appends traffic entries, one JSON document per line, to `traffic.jsonl`.
pub struct JsonLinesBackend {
    path: String,
}

impl JsonLinesBackend {
    /// The path of the log file.
    pub closed spec fn path_text(&self) -> Seq<char> {
        self.path@
    }

    /// The backend for the log file `traffic.jsonl` inside `data_dir`.
    pub fn new(data_dir: &str) -> (r: Self)
        ensures
            r.path_text() == joined(data_dir@, log_file_name()),
    {
        proof {
            reveal_strlit("traffic.jsonl");
        }
        JsonLinesBackend { path: join_path(data_dir, "traffic.jsonl") }
    }

    /// The path of the log file.
    pub fn path(&self) -> (r: &String)
        ensures
            r@ == self.path_text(),
    {
        &self.path
    }
}

/// The text appended to the log for one record: the record and a line break.
pub fn record_line(json: &str) -> (r: String)
    ensures
        r@ == json@.push('\n'),
{
    proof {
        reveal_strlit("\n");
    }
    concat_text(json, "\n")
}

/// Whether an entry passes the filters of a log query: its host contains the
/// host filter (both in lower case), its method equals the method filter in upper
/// case, and its status equals the status filter; an absent filter passes all.
pub open spec fn entry_matches(e: TrafficEntry, args: LogsArgs) -> bool {
    &&& match args.host {
        Some(h) => has_substring(lower_case(e.host@), lower_case(h@)),
        None => true,
    }
    &&& match args.method {
        Some(m) => e.method@ == upper_case(m@),
        None => true,
    }
    &&& match args.status {
        Some(s) => e.status == Some(s),
        None => true,
    }
}

/// The entries of `s` that pass the filters, in their order.
pub open spec fn matching(s: Seq<TrafficEntry>, args: LogsArgs) -> Seq<TrafficEntry>
    decreases s.len(),
{
    if s.len() == 0 {
        seq![]
    } else {
        let rest = matching(s.drop_last(), args);
        if entry_matches(s.last(), args) {
            rest.push(s.last())
        } else {
            rest
        }
    }
}

/// The last `n` items of `s`, in their order.
pub open spec fn last_n<A>(s: Seq<A>, n: nat) -> Seq<A> {
    if s.len() <= n {
        s
    } else {
        s.skip(s.len() - n)
    }
}

/// What a log query shows: the last `limit` entries that pass its filters, oldest first.
pub open spec fn query_result(s: Seq<TrafficEntry>, args: LogsArgs) -> Seq<TrafficEntry> {
    last_n(matching(s, args), args.limit as nat)
}

/// The entries a log query shows, oldest first.
pub fn select_entries(entries: Vec<TrafficEntry>, args: &LogsArgs) -> (r: Vec<TrafficEntry>)
    ensures
        r@ == query_result(entries@, *args),
{
    let host_filter: Option<String> = match &args.host {
        Some(h) => Some(to_lower(h.as_str())),
        None => None,
    };
    let method_filter: Option<String> = match &args.method {
        Some(m) => Some(to_upper(m.as_str())),
        None => None,
    };
    let ghost all = entries@;
    let mut out: Vec<TrafficEntry> = Vec::new();
    for e in it: entries.into_iter()
        invariant
            it.seq() == all,
            out@ == matching(all.take(it.index() as int), *args),
            match args.host {
                Some(h) => host_filter matches Some(hf) && hf@ == lower_case(h@),
                None => host_filter is None,
            },
            match args.method {
                Some(m) => method_filter matches Some(mf) && mf@ == upper_case(m@),
                None => method_filter is None,
            },
    {
        let ghost n = it.index() as int;
        assert(all.take(n + 1).drop_last() =~= all.take(n));
        let host_ok = match &host_filter {
            Some(hf) => {
                let lowered = to_lower(e.host.as_str());
                contains_text(lowered.as_str(), hf.as_str())
            },
            None => true,
        };
        let method_ok = match &method_filter {
            Some(mf) => e.method == *mf,
            None => true,
        };
        let status_ok = match args.status {
            Some(s) => match e.status {
                Some(t) => t == s,
                None => false,
            },
            None => true,
        };
        if host_ok && method_ok && status_ok {
            out.push(e);
        }
    }
    assert(all.take(all.len() as int) =~= all);
    if out.len() > args.limit {
        let cut: usize = out.len() - args.limit;
        let tail = out.split_off(cut);
        tail
    } else {
        out
    }
}

/// The first entry of `s` with id `id`.
pub open spec fn first_with_id(s: Seq<TrafficEntry>, id: Seq<char>) -> Option<TrafficEntry>
    decreases s.len(),
{
    if s.len() == 0 {
        None
    } else if s[0].id@ == id {
        Some(s[0])
    } else {
        first_with_id(s.drop_first(), id)
    }
}

/// The first entry with id `id`, if any.
pub fn find_entry(entries: Vec<TrafficEntry>, id: &str) -> (r: Option<TrafficEntry>)
    ensures
        r == first_with_id(entries@, id@),
{
    let wanted = id.to_owned();
    let ghost all = entries@;
    assert(all.skip(0) =~= all);
    for e in it: entries.into_iter()
        invariant
            it.seq() == all,
            wanted@ == id@,
            first_with_id(all, id@) == first_with_id(all.skip(it.index() as int), id@),
    {
        let ghost n = it.index() as int;
        assert(all.skip(n).drop_first() =~= all.skip(n + 1));
        assert(all.skip(n)[0] == e);
        if e.id == wanted {
            return Some(e);
        }
    }
    assert(all.skip(all.len() as int) =~= Seq::<TrafficEntry>::empty());
    None
}

} // verus!

verus! {

/// The non-empty texts of `s`, in order.
pub open spec fn non_empty(s: Seq<Seq<char>>) -> Seq<Seq<char>>
    decreases s.len(),
{
    if s.len() == 0 {
        seq![]
    } else {
        let rest = non_empty(s.drop_last());
        if s.last().len() > 0 {
            rest.push(s.last())
        } else {
            rest
        }
    }
}

/// The records a log holds: its non-empty lines.
pub open spec fn log_records(content: Seq<char>) -> Seq<Seq<char>> {
    non_empty(split_lines(content))
}

/// The records of a traffic log, one per non-empty line, in order.
pub fn records_of(content: &str) -> (r: Vec<String>)
    ensures
        texts(r@) == log_records(content@),
{
    let lines = lines_of(content);
    let ghost all = texts(lines@);
    let mut out: Vec<String> = Vec::new();
    for line in it: lines.into_iter()
        invariant
            it.seq() == lines@,
            all == texts(lines@),
            texts(out@) == non_empty(all.take(it.index() as int)),
    {
        let ghost n = it.index() as int;
        assert(all.take(n + 1).drop_last() =~= all.take(n));
        assert(all.take(n + 1).last() == line@);
        if line.unicode_len() > 0 {
            let ghost before = out@;
            out.push(line);
            assert(texts(out@) =~= texts(before).push(all[n]));
        }
    }
    assert(all.take(all.len() as int) =~= all);
    out
}

/// The text of a response status in the table: its decimal number, or `-`.
pub open spec fn status_text(s: Option<u16>) -> Seq<char> {
    match s {
        Some(n) => decimal_text(n as nat),
        None => seq!['-'],
    }
}

/// A table row: the cells left-aligned in fields of 36, 6, 20 and 6 characters,
/// two spaces apart, and the last cell as it is.
pub open spec fn row_text(
    id: Seq<char>,
    method: Seq<char>,
    host: Seq<char>,
    status: Seq<char>,
    url: Seq<char>,
) -> Seq<char> {
    padded(id, 36) + seq![' ', ' '] + padded(method, 6) + seq![' ', ' '] + padded(host, 20) + seq![
        ' ',
        ' ',
    ] + padded(status, 6) + seq![' ', ' '] + url
}

/// The heading row of the table.
pub open spec fn heading_text() -> Seq<char> {
    row_text(
        seq!['I', 'D'],
        seq!['M', 'E', 'T', 'H', 'O', 'D'],
        seq!['H', 'O', 'S', 'T'],
        seq!['S', 'T', 'A', 'T', 'U', 'S'],
        seq!['U', 'R', 'L'],
    )
}

/// The rule under the heading: 100 dashes.
pub open spec fn rule_text() -> Seq<char> {
    Seq::new(100, |i: int| '-')
}

/// The row of one entry: id, method, host cut to 20 bytes, status, URL cut to 60 bytes.
pub open spec fn entry_row(e: TrafficEntry) -> Seq<char> {
    row_text(e.id@, e.method@, truncated(e.host@, 20), status_text(e.status), truncated(e.url@, 60))
}

/// The entry can be shown in the table: its host and URL can be cut at 20 and 60 bytes.
pub open spec fn showable(e: TrafficEntry) -> bool {
    cuttable(e.host@, 20) && cuttable(e.url@, 60)
}

/// The lines of the table of `entries`: the heading, the rule, then one row per entry.
pub open spec fn table_text(entries: Seq<TrafficEntry>) -> Seq<Seq<char>> {
    seq![heading_text(), rule_text()] + entries.map_values(|e: TrafficEntry| entry_row(e))
}

fn join_row(id: &str, method: &str, host: &str, status: &str, url: &str) -> (r: String)
    ensures
        r@ == row_text(id@, method@, host@, status@, url@),
{
    proof {
        reveal_strlit("  ");
    }
    let sep = "  ";
    let r = pad_right(id, 36);
    let r = concat_text(&r, sep);
    let r = concat_text(&r, &pad_right(method, 6));
    let r = concat_text(&r, sep);
    let r = concat_text(&r, &pad_right(host, 20));
    let r = concat_text(&r, sep);
    let r = concat_text(&r, &pad_right(status, 6));
    let r = concat_text(&r, sep);
    let r = concat_text(&r, url);
    assert(sep@ =~= seq![' ', ' ']);
    r
}

/// The row of one entry.
pub fn render_row(e: &TrafficEntry) -> (r: String)
    requires
        showable(*e),
    ensures
        r@ == entry_row(*e),
{
    let status = match e.status {
        Some(n) => decimal(n as u64),
        None => {
            proof {
                reveal_strlit("-");
            }
            "-".to_owned()
        },
    };
    proof {
        reveal_strlit("-");
        assert("-"@ =~= seq!['-']);
    }
    join_row(
        e.id.as_str(),
        e.method.as_str(),
        truncate(e.host.as_str(), 20),
        status.as_str(),
        truncate(e.url.as_str(), 60),
    )
}

/// The lines of the table that `logs` prints for `entries`.
pub fn render_table(entries: &Vec<TrafficEntry>) -> (r: Vec<String>)
    requires
        forall|i: int| 0 <= i < entries@.len() ==> showable(#[trigger] entries@[i]),
    ensures
        texts(r@) == table_text(entries@),
{
    proof {
        reveal_strlit("ID");
        reveal_strlit("METHOD");
        reveal_strlit("HOST");
        reveal_strlit("STATUS");
        reveal_strlit("URL");
    }
    let heading = join_row("ID", "METHOD", "HOST", "STATUS", "URL");
    assert("ID"@ =~= seq!['I', 'D']);
    assert("METHOD"@ =~= seq!['M', 'E', 'T', 'H', 'O', 'D']);
    assert("HOST"@ =~= seq!['H', 'O', 'S', 'T']);
    assert("STATUS"@ =~= seq!['S', 'T', 'A', 'T', 'U', 'S']);
    assert("URL"@ =~= seq!['U', 'R', 'L']);
    let mut rule = String::new();
    let mut k: usize = 0;
    while k < 100
        invariant
            k <= 100,
            rule@ == Seq::new(k as nat, |i: int| '-'),
        decreases 100 - k,
    {
        crate::foreign::push_char(&mut rule, '-');
        assert(Seq::new((k + 1) as nat, |i: int| '-') =~= Seq::new(k as nat, |i: int| '-').push('-'));
        k = k + 1;
    }
    let mut out: Vec<String> = Vec::new();
    out.push(heading);
    out.push(rule);
    let mut i: usize = 0;
    while i < entries.len()
        invariant
            i <= entries@.len(),
            forall|j: int| 0 <= j < entries@.len() ==> showable(#[trigger] entries@[j]),
            texts(out@) == seq![heading_text(), rule_text()] + entries@.take(i as int).map_values(
                |e: TrafficEntry| entry_row(e),
            ),
        decreases entries@.len() - i,
    {
        let row = render_row(&entries[i]);
        let ghost before = out@;
        out.push(row);
        assert(entries@.take(i + 1).map_values(|e: TrafficEntry| entry_row(e)) =~= entries@.take(
            i as int,
        ).map_values(|e: TrafficEntry| entry_row(e)).push(entry_row(entries@[i as int])));
        assert(texts(out@) =~= texts(before).push(row@));
        i = i + 1;
    }
    assert(entries@.take(entries@.len() as int) =~= entries@);
    out
}

} // verus!

verus! {

/// `s` holds no line break.
pub open spec fn single_line(s: Seq<char>) -> bool {
    forall|i: int| 0 <= i < s.len() ==> s[i] != '\n'
}

proof fn lemma_lines_no_break(a: Seq<char>, b: Seq<char>, cur: Seq<char>)
    requires
        single_line(a),
    ensures
        lines_from(a + b, cur) == lines_from(b, cur + a),
    decreases a.len(),
{
    if a.len() == 0 {
        assert(a + b =~= b);
        assert(cur + a =~= cur);
    } else {
        assert((a + b).drop_first() =~= a.drop_first() + b);
        assert((a + b)[0] == a[0]);
        lemma_lines_no_break(a.drop_first(), b, cur.push(a[0]));
        assert(cur.push(a[0]) + a.drop_first() =~= cur + a);
    }
}

proof fn lemma_lines_after_break(a: Seq<char>, b: Seq<char>, cur: Seq<char>)
    requires
        a.len() > 0 ==> a.last() == '\n',
        a.len() == 0 ==> cur.len() == 0,
    ensures
        lines_from(a + b, cur) == lines_from(a, cur) + lines_from(b, seq![]),
    decreases a.len(),
{
    if a.len() == 0 {
        assert(a + b =~= b);
        assert(cur =~= Seq::<char>::empty());
        assert(lines_from(a, cur) =~= Seq::<Seq<char>>::empty());
        assert(Seq::<Seq<char>>::empty() + lines_from(b, seq![]) =~= lines_from(b, seq![]));
    } else {
        assert((a + b).drop_first() =~= a.drop_first() + b);
        assert((a + b)[0] == a[0]);
        if a[0] == '\n' {
            lemma_lines_after_break(a.drop_first(), b, seq![]);
            let x = seq![strip_cr(cur)];
            assert(x + (lines_from(a.drop_first(), seq![]) + lines_from(b, seq![])) =~= (x
                + lines_from(a.drop_first(), seq![])) + lines_from(b, seq![]));
        } else {
            assert(a.drop_first().len() > 0);
            assert(a.drop_first().last() == a.last());
            lemma_lines_after_break(a.drop_first(), b, cur.push(a[0]));
            assert(lines_from(a + b, cur) == lines_from(a.drop_first() + b, cur.push(a[0])));
            assert(lines_from(a, cur) == lines_from(a.drop_first(), cur.push(a[0])));
        }
    }
}

/// Appending one record to a log whose text is empty or ends with a line break
/// adds exactly that record after the ones it held, when the record is one line
/// that does not end with a carriage return.
pub proof fn law_append_then_read(content: Seq<char>, record: Seq<char>)
    requires
        content.len() == 0 || content.last() == '\n',
        single_line(record),
        record.len() == 0 || record.last() != '\r',
    ensures
        split_lines(content + record.push('\n')) == split_lines(content).push(record),
        record.len() > 0 ==> log_records(content + record.push('\n')) == log_records(content).push(
            record,
        ),
{
    let nl: Seq<char> = seq!['\n'];
    assert(record.push('\n') =~= record + nl);
    lemma_lines_after_break(content, record + nl, seq![]);
    lemma_lines_no_break(record, nl, seq![]);
    assert(Seq::<char>::empty() + record =~= record);
    assert(nl.drop_first() =~= Seq::<char>::empty());
    assert(nl[0] == '\n');
    assert(strip_cr(record) == record);
    assert(lines_from(nl.drop_first(), seq![]) =~= Seq::<Seq<char>>::empty());
    assert(lines_from(nl, record) =~= seq![record]);
    assert(split_lines(content + record.push('\n')) =~= split_lines(content).push(record));
    let ls = split_lines(content).push(record);
    assert(ls.drop_last() =~= split_lines(content));
}

} // verus!

verus! {

proof fn lemma_matching_members(s: Seq<TrafficEntry>, args: LogsArgs)
    ensures
        matching(s, args).len() <= s.len(),
        forall|i: int|
            0 <= i < matching(s, args).len() ==> entry_matches(#[trigger] matching(s, args)[i], args)
                && exists|j: int| 0 <= j < s.len() && s[j] == matching(s, args)[i],
    decreases s.len(),
{
    if s.len() > 0 {
        let rest = s.drop_last();
        lemma_matching_members(rest, args);
        assert forall|i: int| 0 <= i < matching(s, args).len() implies entry_matches(
            #[trigger] matching(s, args)[i],
            args,
        ) && exists|j: int| 0 <= j < s.len() && s[j] == matching(s, args)[i] by {
            if i < matching(rest, args).len() {
                let j = choose|j: int| 0 <= j < rest.len() && rest[j] == matching(rest, args)[i];
                assert(s[j] == matching(s, args)[i]);
            } else {
                assert(s[s.len() - 1] == matching(s, args)[i]);
            }
        }
    }
}

/// A log query shows only entries of the log that pass its filters, as many as
/// pass them but at most `limit`, and they are the last of those that pass, in order.
pub proof fn law_query_shows_last_matching(s: Seq<TrafficEntry>, args: LogsArgs)
    ensures
        forall|i: int|
            0 <= i < query_result(s, args).len() ==> entry_matches(
                #[trigger] query_result(s, args)[i],
                args,
            ) && exists|j: int| 0 <= j < s.len() && s[j] == query_result(s, args)[i],
        query_result(s, args).len() == if matching(s, args).len() <= args.limit {
            matching(s, args).len()
        } else {
            args.limit as nat
        },
        query_result(s, args) == matching(s, args).skip(
            matching(s, args).len() - query_result(s, args).len(),
        ),
{
    lemma_matching_members(s, args);
    let m = matching(s, args);
    let r = query_result(s, args);
    if m.len() <= args.limit {
        assert(m.skip(0) =~= m);
    } else {
        assert forall|i: int| 0 <= i < r.len() implies entry_matches(#[trigger] r[i], args)
            && exists|j: int| 0 <= j < s.len() && s[j] == r[i] by {
            assert(r[i] == m[i + m.len() - args.limit]);
        }
    }
}

/// A query with no filters and a limit of at least the log's length shows every entry.
pub proof fn law_unfiltered_query_shows_all(s: Seq<TrafficEntry>, args: LogsArgs)
    requires
        args.host is None,
        args.method is None,
        args.status is None,
        s.len() <= args.limit,
    ensures
        query_result(s, args) == s,
    decreases s.len(),
{
    if s.len() > 0 {
        law_unfiltered_query_shows_all(s.drop_last(), args);
        assert(s.drop_last().push(s.last()) =~= s);
    }
}

} // verus!

verus! {

/// Looking up an id finds the earliest entry of the log with that id, wherever in
/// the log it stands, the last entry included, and finds nothing only when no
/// entry has that id.
pub proof fn law_lookup_finds_earliest_with_id(s: Seq<TrafficEntry>, id: Seq<char>)
    ensures
        forall|i: int|
            0 <= i < s.len() && (#[trigger] s[i]).id@ == id && (forall|j: int| 0 <= j < i ==> s[j].id@ != id)
                ==> first_with_id(s, id) == Some(s[i]),
        (forall|i: int| 0 <= i < s.len() ==> s[i].id@ != id) <==> first_with_id(s, id) is None,
    decreases s.len(),
{
    if s.len() > 0 {
        let t = s.drop_first();
        law_lookup_finds_earliest_with_id(t, id);
        assert forall|i: int|
            0 <= i < s.len() && (#[trigger] s[i]).id@ == id && (forall|j: int| 0 <= j < i ==> s[j].id@ != id)
            implies first_with_id(s, id) == Some(s[i]) by {
            if i > 0 {
                assert(s[0].id@ != id);
                assert(t[i - 1] == s[i]);
                assert forall|j: int| 0 <= j < i - 1 implies t[j].id@ != id by {
                    assert(t[j] == s[j + 1]);
                }
            }
        }
        if s[0].id@ != id {
            if first_with_id(s, id) is None {
                assert forall|i: int| 0 <= i < s.len() implies s[i].id@ != id by {
                    if i > 0 {
                        assert(t[i - 1] == s[i]);
                    }
                }
            }
            if forall|i: int| 0 <= i < s.len() ==> s[i].id@ != id {
                assert forall|i: int| 0 <= i < t.len() implies t[i].id@ != id by {
                    assert(t[i] == s[i + 1]);
                }
            }
        }
    }
}

/// The entry captured last is found by its id when no earlier entry has that id.
pub proof fn law_latest_capture_is_found(s: Seq<TrafficEntry>, e: TrafficEntry)
    requires
        forall|i: int| 0 <= i < s.len() ==> s[i].id@ != e.id@,
    ensures
        first_with_id(s.push(e), e.id@) == Some(e),
{
    let t = s.push(e);
    law_lookup_finds_earliest_with_id(t, e.id@);
    assert(t[s.len() as int] == e);
    assert forall|j: int| 0 <= j < s.len() implies t[j].id@ != e.id@ by {
        assert(t[j] == s[j]);
    }
}

/// A row of the table starts with the entry's id, holds the entry's whole method,
/// however long, from the method column on (the id's field and two spaces), padded
/// with spaces to six characters when shorter, and ends with the URL cut to 60 bytes.
pub proof fn law_row_holds_whole_id_and_method(e: TrafficEntry)
    ensures
        ({
            let r = entry_row(e);
            let id = e.id@;
            let m = e.method@;
            let w: int = if id.len() < 36 { 36 } else { id.len() as int };
            let u = truncated(e.url@, 60);
            &&& r.subrange(0, id.len() as int) == id
            &&& forall|k: int| id.len() <= k < w + 2 ==> r[k] == ' '
            &&& r.subrange(w + 2, w + 2 + m.len()) == m
            &&& forall|k: int| w + 2 + m.len() <= k < w + 2 + 6 ==> r[k] == ' '
            &&& r.len() >= u.len()
            &&& r.subrange(r.len() - u.len(), r.len() as int) == u
        }),
{
    let r = entry_row(e);
    let id = e.id@;
    let m = e.method@;
    let w: int = if id.len() < 36 { 36 } else { id.len() as int };
    let u = truncated(e.url@, 60);
    let two: Seq<char> = seq![' ', ' '];
    let pid = padded(id, 36);
    let pm = padded(m, 6);
    let rest = padded(truncated(e.host@, 20), 20) + two + padded(status_text(e.status), 6) + two + u;
    assert(pid.len() == w);
    assert(pm.len() >= m.len());
    assert(r =~= pid + two + pm + two + rest);
    let a = pid + two;
    assert(r =~= a + (pm + (two + rest)));
    assert(a.len() == w + 2);
    assert forall|k: int| id.len() <= k < w + 2 implies r[k] == ' ' by {
        assert(r[k] == a[k]);
        if k < w {
            assert(a[k] == pid[k]);
        } else {
            assert(a[k] == two[k - w]);
        }
    }
    assert(r.subrange(0, id.len() as int) =~= id) by {
        assert forall|k: int| 0 <= k < id.len() implies r[k] == id[k] by {
            assert(r[k] == a[k]);
            assert(a[k] == pid[k]);
        }
    }
    let b = pm + (two + rest);
    assert(r.subrange(w + 2, w + 2 + m.len()) =~= m) by {
        assert forall|k: int| 0 <= k < m.len() implies r[w + 2 + k] == m[k] by {
            assert(r[w + 2 + k] == b[k]);
            assert(b[k] == pm[k]);
        }
    }
    assert forall|k: int| w + 2 + m.len() <= k < w + 2 + 6 implies r[k] == ' ' by {
        assert(r[k] == b[k - w - 2]);
        assert(b[k - w - 2] == pm[k - w - 2]);
    }
    let c = pid + two + pm + two + padded(truncated(e.host@, 20), 20) + two + padded(status_text(e.status), 6) + two;
    assert(r =~= c + u);
    assert(r.subrange(r.len() - u.len(), r.len() as int) =~= u);
}

} // verus!
