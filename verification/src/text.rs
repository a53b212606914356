//! Text helpers over character sequences: cutting, searching, splitting,
//! trimming, padding and decimal rendering.

use vstd::prelude::*;
use vstd::string::StringSliceAdditionalSpecFns;
use vstd::utf8::{decode_utf8, encode_utf8, is_char_boundary};
use crate::foreign::push_char;

verus! {

broadcast use vstd::utf8::encode_utf8_valid_utf8, vstd::utf8::encode_utf8_decode_utf8;

/// `s` can be cut after `max` bytes: it is no longer than that, or byte `max`
/// starts a character.
pub open spec fn cuttable(s: Seq<char>, max: nat) -> bool {
    encode_utf8(s).len() <= max || is_char_boundary(encode_utf8(s), max as int)
}

/// The characters that the first `max` bytes of the UTF-8 encoding of `s` hold.
pub open spec fn truncated(s: Seq<char>, max: nat) -> Seq<char> {
    if encode_utf8(s).len() <= max {
        s
    } else {
        decode_utf8(encode_utf8(s).subrange(0, max as int))
    }
}

/// The first `max` bytes of `s`, or `s` itself when it is no longer than `max` bytes.
/// The cut must fall on a character boundary.
pub fn truncate(s: &str, max: usize) -> (r: &str)
    requires
        cuttable(s@, max as nat),
    ensures
        r@ == truncated(s@, max as nat),
        r.spec_bytes().len() <= max,
{
    if s.as_bytes().len() <= max {
        s
    } else {
        let parts = s.split_at(max);
        assert(parts.0.spec_bytes() =~= s.spec_bytes().subrange(0, max as int));
        assert(decode_utf8(encode_utf8(parts.0@)) == parts.0@);
        parts.0
    }
}

/// The characters of `s`, in order.
pub fn chars_of(s: &str) -> (v: Vec<char>)
    ensures
        v@ == s@,
{
    broadcast use vstd::string::group_string_axioms;

    let mut v: Vec<char> = Vec::new();
    for c in it: s.chars()
        invariant
            v@ == it.seq().take(it.index() as int),
    {
        v.push(c);
    }
    v
}

/// A string made of the characters `cs[from..to]`.
pub fn string_of_range(cs: &[char], from: usize, to: usize) -> (r: String)
    requires
        from <= to <= cs@.len(),
    ensures
        r@ == cs@.subrange(from as int, to as int),
{
    let mut r = String::new();
    let mut i: usize = from;
    while i < to
        invariant
            from <= i <= to <= cs@.len(),
            r@ == cs@.subrange(from as int, i as int),
        decreases to - i,
    {
        push_char(&mut r, cs[i]);
        assert(cs@.subrange(from as int, i + 1) == cs@.subrange(from as int, i as int).push(cs@[i as int]));
        i = i + 1;
    }
    r
}

/// A string made of the characters `cs`.
pub fn string_of(cs: &[char]) -> (r: String)
    ensures
        r@ == cs@,
{
    let r = string_of_range(cs, 0, cs.len());
    assert(cs@.subrange(0, cs@.len() as int) == cs@);
    r
}

/// `s` followed by `t`.
pub fn concat_text(s: &str, t: &str) -> (r: String)
    ensures
        r@ == s@ + t@,
{
    let sc = chars_of(s);
    let tc = chars_of(t);
    let mut r = string_of(sc.as_slice());
    let mut i: usize = 0;
    while i < tc.len()
        invariant
            i <= tc@.len(),
            tc@ == t@,
            r@ == s@ + t@.take(i as int),
        decreases tc@.len() - i,
    {
        push_char(&mut r, tc[i]);
        assert(t@.take(i + 1) == t@.take(i as int).push(t@[i as int]));
        i = i + 1;
    }
    assert(t@.take(t@.len() as int) == t@);
    r
}

/// `n` occurs in `h` starting at index `i`.
pub open spec fn occurs_at(h: Seq<char>, n: Seq<char>, i: int) -> bool {
    0 <= i && i + n.len() <= h.len() && h.subrange(i, i + n.len()) == n
}

/// `n` occurs somewhere in `h` (the empty text occurs in every text).
pub open spec fn has_substring(h: Seq<char>, n: Seq<char>) -> bool {
    exists|i: int| occurs_at(h, n, i)
}

fn occurs_at_exec(h: &Vec<char>, n: &Vec<char>, i: usize) -> (r: bool)
    requires
        i + n@.len() <= h@.len(),
    ensures
        r == occurs_at(h@, n@, i as int),
{
    let mut j: usize = 0;
    while j < n.len()
        invariant
            i + n@.len() <= h@.len(),
            h@.len() == h.len(),
            j <= n@.len(),
            forall|k: int| 0 <= k < j ==> h@[i + k] == n@[k],
        decreases n@.len() - j,
    {
        if h[i + j] != n[j] {
            assert(h@.subrange(i as int, i + n@.len())[j as int] != n@[j as int]);
            return false;
        }
        j = j + 1;
    }
    assert(h@.subrange(i as int, i + n@.len()) =~= n@);
    true
}

/// Whether `needle` occurs in `hay`, as `str::contains` with a text pattern.
pub fn contains_text(hay: &str, needle: &str) -> (r: bool)
    ensures
        r == has_substring(hay@, needle@),
{
    let h = chars_of(hay);
    let n = chars_of(needle);
    if n.len() > h.len() {
        assert forall|i: int| !occurs_at(hay@, needle@, i) by {}
        return false;
    }
    let last: usize = h.len() - n.len();
    let mut i: usize = 0;
    while i < last
        invariant
            h@ == hay@,
            n@ == needle@,
            last == h@.len() - n@.len(),
            i <= last,
            forall|k: int| 0 <= k < i ==> !occurs_at(hay@, needle@, k),
        decreases last - i,
    {
        if occurs_at_exec(&h, &n, i) {
            return true;
        }
        i = i + 1;
    }
    if occurs_at_exec(&h, &n, last) {
        return true;
    }
    assert forall|k: int| !occurs_at(hay@, needle@, k) by {}
    false
}

} // verus!

verus! {

/// `line` without one trailing carriage return.
pub open spec fn strip_cr(line: Seq<char>) -> Seq<char> {
    if line.len() > 0 && line.last() == '\r' {
        line.drop_last()
    } else {
        line
    }
}

/// The lines of `s` when the current, unfinished line already holds `cur`.
pub open spec fn lines_from(s: Seq<char>, cur: Seq<char>) -> Seq<Seq<char>>
    decreases s.len(),
{
    if s.len() == 0 {
        if cur.len() == 0 {
            seq![]
        } else {
            seq![cur]
        }
    } else if s[0] == '\n' {
        seq![strip_cr(cur)] + lines_from(s.drop_first(), seq![])
    } else {
        lines_from(s.drop_first(), cur.push(s[0]))
    }
}

/// The lines of `s` as `str::lines` gives them: split after each `\n`, each
/// without its `\n` and a `\r` just before it; a last line without `\n` is kept as
/// it is, and no empty line follows a final `\n`.
pub open spec fn split_lines(s: Seq<char>) -> Seq<Seq<char>> {
    lines_from(s, seq![])
}

/// The texts of a sequence of strings.
pub open spec fn texts(v: Seq<String>) -> Seq<Seq<char>> {
    v.map_values(|l: String| l@)
}

/// The lines of `content`, as `str::lines` gives them.
pub fn lines_of(content: &str) -> (r: Vec<String>)
    ensures
        texts(r@) == split_lines(content@),
{
    let cs = chars_of(content);
    let mut out: Vec<String> = Vec::new();
    let mut start: usize = 0;
    let mut i: usize = 0;
    assert(cs@.skip(0) =~= cs@);
    assert(cs@.subrange(0, 0) =~= Seq::<char>::empty());
    assert(texts(out@) =~= Seq::<Seq<char>>::empty());
    assert(texts(out@) + split_lines(content@) =~= split_lines(content@));
    while i < cs.len()
        invariant
            cs@ == content@,
            start <= i <= cs@.len(),
            split_lines(content@) == texts(out@) + lines_from(cs@.skip(i as int), cs@.subrange(start as int, i as int)),
        decreases cs@.len() - i,
    {
        let ghost cur = cs@.subrange(start as int, i as int);
        assert(cs@.skip(i as int).drop_first() =~= cs@.skip(i + 1));
        assert(cs@.skip(i as int)[0] == cs@[i as int]);
        if cs[i] == '\n' {
            let end: usize = if i > start && cs[i - 1] == '\r' { i - 1 } else { i };
            let line = string_of_range(cs.as_slice(), start, end);
            assert(line@ == strip_cr(cur)) by {
                if i > start && cs@[i - 1] == '\r' {
                    assert(cur.drop_last() =~= cs@.subrange(start as int, i - 1));
                }
            }
            let ghost before = out@;
            out.push(line);
            assert(texts(out@) =~= texts(before) + seq![line@]);
            start = i + 1;
            assert(cs@.subrange(start as int, i + 1) =~= Seq::<char>::empty());
        } else {
            assert(cs@.subrange(start as int, i + 1) =~= cur.push(cs@[i as int]));
        }
        i = i + 1;
    }
    assert(cs@.skip(i as int) =~= Seq::<char>::empty());
    if start < cs.len() {
        let line = string_of_range(cs.as_slice(), start, cs.len());
        let ghost before = out@;
        out.push(line);
        assert(texts(out@) =~= texts(before) + seq![line@]);
    } else {
        assert(texts(out@) + Seq::<Seq<char>>::empty() =~= texts(out@));
    }
    out
}

/// The characters that `char::is_whitespace` accepts (the Unicode White_Space property).
pub open spec fn is_white(c: char) -> bool {
    let u = c as u32;
    (0x9 <= u <= 0xd) || u == 0x20 || u == 0x85 || u == 0xa0 || u == 0x1680 || (0x2000 <= u
        <= 0x200a) || u == 0x2028 || u == 0x2029 || u == 0x202f || u == 0x205f || u == 0x3000
}

fn is_white_exec(c: char) -> (r: bool)
    ensures
        r == is_white(c),
{
    let u: u32 = c as u32;
    (0x9 <= u && u <= 0xd) || u == 0x20 || u == 0x85 || u == 0xa0 || u == 0x1680 || (0x2000 <= u
        && u <= 0x200a) || u == 0x2028 || u == 0x2029 || u == 0x202f || u == 0x205f || u == 0x3000
}

/// `s` without its leading white space.
pub open spec fn trim_start(s: Seq<char>) -> Seq<char>
    decreases s.len(),
{
    if s.len() > 0 && is_white(s[0]) {
        trim_start(s.drop_first())
    } else {
        s
    }
}

/// `s` without its trailing white space.
pub open spec fn trim_end(s: Seq<char>) -> Seq<char>
    decreases s.len(),
{
    if s.len() > 0 && is_white(s.last()) {
        trim_end(s.drop_last())
    } else {
        s
    }
}

/// `s` without leading and trailing white space, as `str::trim` gives it.
pub open spec fn trimmed(s: Seq<char>) -> Seq<char> {
    trim_end(trim_start(s))
}

/// `s` without leading and trailing white space.
pub fn trim(s: &str) -> (r: String)
    ensures
        r@ == trimmed(s@),
{
    let cs = chars_of(s);
    let mut i: usize = 0;
    assert(s@.skip(0) =~= s@);
    while i < cs.len() && is_white_exec(cs[i])
        invariant
            cs@ == s@,
            i <= cs@.len(),
            trim_start(s@) == trim_start(s@.skip(i as int)),
        decreases cs@.len() - i,
    {
        assert(s@.skip(i as int).drop_first() =~= s@.skip(i + 1));
        i = i + 1;
    }
    assert(trim_start(s@.skip(i as int)) == s@.skip(i as int));
    let mut j: usize = cs.len();
    while j > i && is_white_exec(cs[j - 1])
        invariant
            cs@ == s@,
            i <= j <= cs@.len(),
            trim_end(s@.skip(i as int)) == trim_end(s@.subrange(i as int, j as int)),
        decreases j,
    {
        assert(s@.subrange(i as int, j as int).drop_last() =~= s@.subrange(i as int, j - 1));
        j = j - 1;
    }
    assert(s@.skip(i as int) =~= s@.subrange(i as int, s@.len() as int));
    string_of_range(cs.as_slice(), i, j)
}

/// The index of the first `c` in `s` at or after `i`, or -1.
pub open spec fn first_from(s: Seq<char>, c: char, i: int) -> int
    decreases s.len() - i,
{
    if i < 0 || i >= s.len() {
        -1
    } else if s[i] == c {
        i
    } else {
        first_from(s, c, i + 1)
    }
}

/// The index of the last `c` in `s` before index `j`, or -1.
pub open spec fn last_before(s: Seq<char>, c: char, j: int) -> int
    decreases j,
{
    if j <= 0 || j > s.len() {
        -1
    } else if s[j - 1] == c {
        j - 1
    } else {
        last_before(s, c, j - 1)
    }
}

/// `s` split around the character at index `i` (which is dropped), if `i` is an index.
pub open spec fn split_around(s: Seq<char>, i: int) -> Option<(Seq<char>, Seq<char>)> {
    if 0 <= i < s.len() {
        Some((s.take(i), s.skip(i + 1)))
    } else {
        None
    }
}

/// `s` split at its first `c`, as `str::split_once` with a character.
pub open spec fn split_first_spec(s: Seq<char>, c: char) -> Option<(Seq<char>, Seq<char>)> {
    split_around(s, first_from(s, c, 0))
}

/// `s` split at its last `c`, as `str::rsplit_once` with a character.
pub open spec fn split_last_spec(s: Seq<char>, c: char) -> Option<(Seq<char>, Seq<char>)> {
    split_around(s, last_before(s, c, s.len() as int))
}

/// The texts of an optional pair of strings.
pub open spec fn pair_texts(p: Option<(String, String)>) -> Option<(Seq<char>, Seq<char>)> {
    match p {
        Some(q) => Some((q.0@, q.1@)),
        None => None,
    }
}

fn split_at_index(cs: &Vec<char>, i: usize) -> (r: (String, String))
    requires
        i < cs.len(),
    ensures
        r.0@ == cs@.take(i as int),
        r.1@ == cs@.skip(i + 1),
{
    let a = string_of_range(cs.as_slice(), 0, i);
    let b = string_of_range(cs.as_slice(), i + 1, cs.len());
    assert(cs@.subrange(0, i as int) =~= cs@.take(i as int));
    assert(cs@.subrange(i + 1, cs@.len() as int) =~= cs@.skip(i + 1));
    (a, b)
}

/// `s` split at its first `c`: the text before it and the text after it.
pub fn split_first(s: &str, c: char) -> (r: Option<(String, String)>)
    ensures
        pair_texts(r) == split_first_spec(s@, c),
{
    let cs = chars_of(s);
    let mut i: usize = 0;
    while i < cs.len()
        invariant
            cs@ == s@,
            i <= cs@.len(),
            first_from(s@, c, 0) == first_from(s@, c, i as int),
        decreases cs@.len() - i,
    {
        if cs[i] == c {
            return Some(split_at_index(&cs, i));
        }
        i = i + 1;
    }
    None
}

/// `s` split at its last `c`: the text before it and the text after it.
pub fn split_last(s: &str, c: char) -> (r: Option<(String, String)>)
    ensures
        pair_texts(r) == split_last_spec(s@, c),
{
    let cs = chars_of(s);
    let mut j: usize = cs.len();
    while j > 0
        invariant
            cs@ == s@,
            j <= cs@.len(),
            last_before(s@, c, s@.len() as int) == last_before(s@, c, j as int),
        decreases j,
    {
        if cs[j - 1] == c {
            return Some(split_at_index(&cs, j - 1));
        }
        j = j - 1;
    }
    None
}

/// `n` spaces.
pub open spec fn spaces(n: nat) -> Seq<char> {
    Seq::new(n, |i: int| ' ')
}

/// `s` padded with spaces on the right to at least `width` characters.
pub open spec fn padded(s: Seq<char>, width: nat) -> Seq<char> {
    if s.len() < width {
        s + spaces((width - s.len()) as nat)
    } else {
        s
    }
}

/// `s` left-aligned in a field of `width` characters, as the format `{:<width}` gives it.
pub fn pad_right(s: &str, width: usize) -> (r: String)
    ensures
        r@ == padded(s@, width as nat),
{
    let cs = chars_of(s);
    let mut r = string_of(cs.as_slice());
    let mut n: usize = cs.len();
    while n < width
        invariant
            cs@ == s@,
            cs@.len() <= n <= width || (n == cs@.len() && n >= width),
            r@ == s@ + spaces((n - s@.len()) as nat),
        decreases width - n,
    {
        push_char(&mut r, ' ');
        assert(spaces((n + 1 - s@.len()) as nat) =~= spaces((n - s@.len()) as nat).push(' '));
        n = n + 1;
    }
    assert(s@.len() >= width ==> spaces((n - s@.len()) as nat) =~= Seq::<char>::empty());
    r
}

/// The decimal digit `d`.
pub open spec fn digit_char(d: nat) -> char {
    ((d + 48) as u8) as char
}

/// The decimal representation of `n`, without leading zeros.
pub open spec fn decimal_text(n: nat) -> Seq<char>
    decreases n,
{
    if n < 10 {
        seq![digit_char(n)]
    } else {
        decimal_text(n / 10).push(digit_char(n % 10))
    }
}

/// The decimal representation of `n`, as `to_string` gives it.
pub fn decimal(n: u64) -> (r: String)
    ensures
        r@ == decimal_text(n as nat),
    decreases n,
{
    let d: u8 = (n % 10) as u8;
    let c: char = (d + 48) as char;
    if n < 10 {
        let mut r = String::new();
        push_char(&mut r, c);
        r
    } else {
        let mut r = decimal(n / 10);
        push_char(&mut r, c);
        r
    }
}

} // verus!

verus! {

/// Cutting a text at a character boundary keeps a prefix of it, of at most the
/// given number of bytes.
pub proof fn law_truncate_is_prefix(s: Seq<char>, max: nat)
    requires
        cuttable(s, max),
    ensures
        truncated(s, max).len() <= s.len(),
        truncated(s, max) == s.take(truncated(s, max).len() as int),
        encode_utf8(truncated(s, max)).len() <= max,
{
    let b = encode_utf8(s);
    if b.len() > max {
        let t = decode_utf8(b.subrange(0, max as int));
        let u = decode_utf8(b.subrange(max as int, b.len() as int));
        vstd::utf8::decode_utf8_split(b, max as int);
        vstd::utf8::valid_utf8_split(b, max as int);
        vstd::utf8::decode_utf8_encode_utf8(b.subrange(0, max as int));
        assert(s == t + u);
        assert(t =~= s.take(t.len() as int));
    }
}

} // verus!

verus! {

/// `c` in ASCII lower case: `A`–`Z` become `a`–`z`, every other character stays.
pub open spec fn ascii_lower(c: char) -> char {
    if 'A' <= c && c <= 'Z' {
        ((c as u32) + 32) as char
    } else {
        c
    }
}

/// `c` in ASCII upper case: `a`–`z` become `A`–`Z`, every other character stays.
pub open spec fn ascii_upper(c: char) -> char {
    if 'a' <= c && c <= 'z' {
        ((c as u32) - 32) as char
    } else {
        c
    }
}

/// Every character of `s` is ASCII.
pub open spec fn is_ascii_text(s: Seq<char>) -> bool {
    forall|i: int| 0 <= i < s.len() ==> (s[i] as u32) < 128
}

/// `a` and `b` are the same text when ASCII letters are compared ignoring case
/// (as `str::eq_ignore_ascii_case`, and as HTTP compares header names).
pub open spec fn same_ignoring_ascii_case(a: Seq<char>, b: Seq<char>) -> bool {
    a.len() == b.len() && forall|i: int| 0 <= i < a.len() ==> ascii_lower(a[i]) == ascii_lower(b[i])
}

fn ascii_lower_exec(c: char) -> (r: char)
    ensures
        r == ascii_lower(c),
{
    if 'A' <= c && c <= 'Z' {
        let u: u32 = (c as u32) + 32;
        assert(0x61 <= u <= 0x7a);
        let b: u8 = u as u8;
        b as char
    } else {
        c
    }
}

/// Whether `a` and `b` are the same text, ignoring the case of ASCII letters.
pub fn eq_ignoring_ascii_case(a: &str, b: &str) -> (r: bool)
    ensures
        r == same_ignoring_ascii_case(a@, b@),
{
    let x = chars_of(a);
    let y = chars_of(b);
    if x.len() != y.len() {
        return false;
    }
    let mut i: usize = 0;
    while i < x.len()
        invariant
            x@ == a@,
            y@ == b@,
            x@.len() == y@.len(),
            i <= x@.len(),
            forall|j: int| 0 <= j < i ==> ascii_lower(a@[j]) == ascii_lower(b@[j]),
        decreases x@.len() - i,
    {
        if ascii_lower_exec(x[i]) != ascii_lower_exec(y[i]) {
            return false;
        }
        i = i + 1;
    }
    true
}

} // verus!
