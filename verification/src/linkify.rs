//! Detect bare `http://` / `https://` URLs in plain text.
//!
//! All positions are byte offsets into the UTF-8 encoding of the text. URL
//! bodies only ever hold ASCII bytes, so every span boundary falls on a
//! character boundary.

use vstd::prelude::*;
use vstd::string::*;
use vstd::utf8::*;

verus! {

broadcast use vstd::seq::group_seq_axioms;

/// A run of plain text or a bare URL within a string.
#[derive(Debug, Clone, Copy, PartialEq, Eq)]
pub enum Segment<'a> {
    Text(&'a str),
    Url(&'a str),
}

impl<'a> Segment<'a> {
    /// True for a URL run.
    pub open spec fn is_url_seg(self) -> bool {
        self is Url
    }

    /// The UTF-8 bytes of the run.
    pub open spec fn seg_bytes(self) -> Seq<u8> {
        match self {
            Segment::Text(t) => t.spec_bytes(),
            Segment::Url(u) => u.spec_bytes(),
        }
    }
}

/// Bytes a URL body may contain (ASCII letters, digits and the listed marks).
pub open spec fn is_url_body_byte(c: u8) -> bool {
    ||| (0x30 <= c && c <= 0x39)
    ||| (0x41 <= c && c <= 0x5a)
    ||| (0x61 <= c && c <= 0x7a)
    ||| c == '-' as u8 || c == '.' as u8 || c == '_' as u8 || c == '~' as u8 || c == ':' as u8 || c == '/' as u8
    ||| c == '?' as u8 || c == '#' as u8 || c == '[' as u8 || c == ']' as u8 || c == '@' as u8 || c == '!' as u8
    ||| c == '$' as u8 || c == '&' as u8 || c == '\'' as u8 || c == '(' as u8 || c == ')' as u8 || c == '*' as u8
    ||| c == '+' as u8 || c == ',' as u8 || c == ';' as u8 || c == '=' as u8 || c == '%' as u8
}

/// Punctuation that is never kept at the end of a URL.
pub open spec fn is_trailing_punct(c: u8) -> bool {
    c == '.' as u8 || c == ',' as u8 || c == ';' as u8 || c == ':' as u8 || c == '!' as u8 || c == '?' as u8 || c == '\'' as u8
        || c == '"' as u8
}

/// `https://`
pub open spec fn https_scheme() -> Seq<u8> {
    seq!['h' as u8, 't' as u8, 't' as u8, 'p' as u8, 's' as u8, ':' as u8, '/' as u8, '/' as u8]
}

/// `http://`
pub open spec fn http_scheme() -> Seq<u8> {
    seq!['h' as u8, 't' as u8, 't' as u8, 'p' as u8, ':' as u8, '/' as u8, '/' as u8]
}

/// `pat` occurs in `b` at byte `i`.
pub open spec fn occurs_at(b: Seq<u8>, pat: Seq<u8>, i: int) -> bool {
    0 <= i && i + pat.len() <= b.len() && b.subrange(i, i + pat.len()) == pat
}

/// First occurrence of `pat` in `b` at or after `from`.
pub open spec fn find_from(b: Seq<u8>, pat: Seq<u8>, from: int) -> Option<int>
    decreases b.len() - from,
{
    if from < 0 || from >= b.len() || from + pat.len() > b.len() {
        None
    } else if occurs_at(b, pat, from) {
        Some(from)
    } else {
        find_from(b, pat, from + 1)
    }
}

/// The earlier of the two scheme matches at or after `from`, with the scheme length.
pub open spec fn first_scheme(b: Seq<u8>, from: int) -> Option<(int, int)> {
    match (find_from(b, https_scheme(), from), find_from(b, http_scheme(), from)) {
        (Some(i), Some(j)) => if i <= j {
            Some((i, 8))
        } else {
            Some((j, 7))
        },
        (Some(i), None) => Some((i, 8)),
        (None, Some(j)) => Some((j, 7)),
        (None, None) => None,
    }
}

/// End of the run of URL body bytes starting at `i`.
pub open spec fn scan_end(b: Seq<u8>, i: int) -> int
    decreases b.len() - i,
{
    if 0 <= i < b.len() && is_url_body_byte(b[i]) {
        scan_end(b, i + 1)
    } else {
        i
    }
}

/// Number of bytes equal to `x` in `b[lo..hi]`.
pub open spec fn count_byte(b: Seq<u8>, lo: int, hi: int, x: u8) -> int
    decreases hi - lo,
{
    if hi <= lo {
        0
    } else {
        count_byte(b, lo, hi - 1, x) + if b[hi - 1] == x {
            1int
        } else {
            0int
        }
    }
}

/// The last byte of `b[start..end]` is dropped from a URL: trailing punctuation,
/// or a closing bracket that has no opening partner in the run.
pub open spec fn drops_last(b: Seq<u8>, start: int, end: int) -> bool {
    let c = b[end - 1];
    ||| is_trailing_punct(c)
    ||| (c == ')' as u8 && count_byte(b, start, end, ')' as u8) > count_byte(b, start, end, '(' as u8))
    ||| (c == ']' as u8 && count_byte(b, start, end, ']' as u8) > count_byte(b, start, end, '[' as u8))
}

/// End of the URL `b[start..end]` once trailing punctuation is trimmed.
pub open spec fn trim_punct(b: Seq<u8>, start: int, end: int) -> int
    decreases end - start,
{
    if end <= start {
        end
    } else if drops_last(b, start, end) {
        trim_punct(b, start, end - 1)
    } else {
        end
    }
}

/// A match found by `find_from` is the first one at or after `from`.
pub proof fn lemma_find_from_bounds(b: Seq<u8>, pat: Seq<u8>, from: int)
    ensures
        find_from(b, pat, from) matches Some(i) ==> from <= i && occurs_at(b, pat, i) && (
        forall|k: int| from <= k < i ==> !occurs_at(b, pat, k)),
    decreases b.len() - from,
{
    if from < 0 || from >= b.len() || from + pat.len() > b.len() {
    } else if occurs_at(b, pat, from) {
    } else {
        lemma_find_from_bounds(b, pat, from + 1);
    }
}

/// The chosen scheme match starts at or after `from` and fits in `b`.
pub proof fn lemma_first_scheme(b: Seq<u8>, from: int)
    ensures
        first_scheme(b, from) matches Some((s, l)) ==> from <= s && (l == 8 || l == 7) && s + l
            <= b.len(),
{
    lemma_find_from_bounds(b, https_scheme(), from);
    lemma_find_from_bounds(b, http_scheme(), from);
}

/// The first bare URL at or after `from`, as a byte range.
pub open spec fn next_url(b: Seq<u8>, from: int) -> Option<(int, int)>
    decreases b.len() - from,
{
    if from < 0 || from > b.len() {
        None
    } else {
        match first_scheme(b, from) {
            None => None,
            Some((start, sl)) => {
                proof {
                    lemma_first_scheme(b, from);
                }
                let body = start + sl;
                if body >= b.len() || !is_url_body_byte(b[body]) {
                    next_url(b, body)
                } else {
                    let end = trim_punct(b, start, scan_end(b, body));
                    if end <= body {
                        next_url(b, body)
                    } else {
                        Some((start, end))
                    }
                }
            },
        }
    }
}

/// The runs of `b` from `cursor` on: `(is_url, lo, hi)` byte ranges.
pub open spec fn spans_from(b: Seq<u8>, cursor: int) -> Seq<(bool, int, int)>
    decreases b.len() - cursor,
{
    if cursor < 0 || cursor > b.len() {
        seq![]
    } else {
        match next_url(b, cursor) {
            Some((s, e)) => {
                proof {
                    lemma_next_url_bounds(b, cursor);
                }
                (if s > cursor {
                    seq![(false, cursor, s)]
                } else {
                    seq![]
                }) + seq![(true, s, e)] + spans_from(b, e)
            },
            None => if cursor < b.len() {
                seq![(false, cursor, b.len() as int)]
            } else {
                seq![]
            },
        }
    }
}

/// The runs of the whole text.
pub open spec fn spans(b: Seq<u8>) -> Seq<(bool, int, int)> {
    spans_from(b, 0)
}

proof fn lemma_scan_end(b: Seq<u8>, i: int)
    requires
        0 <= i <= b.len(),
    ensures
        i <= scan_end(b, i) <= b.len(),
        forall|k: int| i <= k < scan_end(b, i) ==> is_url_body_byte(#[trigger] b[k]),
    decreases b.len() - i,
{
    if 0 <= i < b.len() && is_url_body_byte(b[i]) {
        lemma_scan_end(b, i + 1);
    }
}

proof fn lemma_trim_punct(b: Seq<u8>, start: int, end: int)
    ensures
        end <= start ==> trim_punct(b, start, end) == end,
        start <= end ==> start <= trim_punct(b, start, end) <= end,
        start < trim_punct(b, start, end) ==> !drops_last(b, start, trim_punct(b, start, end)),
    decreases end - start,
{
    if end <= start {
    } else if drops_last(b, start, end) {
        lemma_trim_punct(b, start, end - 1);
    }
}

/// Every URL found at or after `from` lies after `from`, keeps its scheme and at
/// least one body byte, and holds only URL body bytes.
pub proof fn lemma_next_url_bounds(b: Seq<u8>, from: int)
    ensures
        next_url(b, from) matches Some((s, e)) ==> {
            &&& 0 <= from <= s
            &&& e <= b.len()
            &&& (occurs_at(b, https_scheme(), s) && s + 8 < e) || (occurs_at(b, http_scheme(), s)
                && s + 7 < e)
            &&& forall|k: int| s <= k < e ==> is_url_body_byte(#[trigger] b[k])
            &&& !drops_last(b, s, e)
        },
    decreases b.len() - from,
{
    if from < 0 || from > b.len() {
    } else {
        lemma_first_scheme(b, from);
        lemma_find_from_bounds(b, https_scheme(), from);
        lemma_find_from_bounds(b, http_scheme(), from);
        match first_scheme(b, from) {
            None => {},
            Some((start, sl)) => {
                let body = start + sl;
                if body >= b.len() || !is_url_body_byte(b[body]) {
                    lemma_next_url_bounds(b, body);
                } else {
                    lemma_scan_end(b, body);
                    let se = scan_end(b, body);
                    lemma_trim_punct(b, start, se);
                    let end = trim_punct(b, start, se);
                    if end <= body {
                        lemma_next_url_bounds(b, body);
                    } else {
                        assert(b.subrange(start, start + sl) =~= if sl == 8 {
                            https_scheme()
                        } else {
                            http_scheme()
                        });
                        assert forall|k: int| start <= k < end implies is_url_body_byte(
                            #[trigger] b[k],
                        ) by {
                            if k < body {
                                assert(b[k] == b.subrange(start, start + sl)[k - start]);
                            }
                        }
                    }
                }
            },
        }
    }
}


/// In valid UTF-8, a position is a character boundary exactly when it is the
/// end or does not hold a continuation byte.
pub proof fn lemma_boundary_iff(b: Seq<u8>, i: int)
    requires
        valid_utf8(b),
        0 <= i <= b.len(),
    ensures
        is_char_boundary(b, i) <==> (i == b.len() || !is_continuation_byte(b[i])),
{
    if i == b.len() {
        is_char_boundary_start_end_of_seq(b);
    } else {
        is_char_boundary_iff_not_is_continuation_byte(b, i);
    }
}

/// In valid UTF-8, the position right after an ASCII byte is a character boundary.
pub proof fn lemma_after_ascii(b: Seq<u8>, i: int)
    requires
        valid_utf8(b),
        0 <= i < b.len(),
        b[i] <= 0x7f,
    ensures
        is_char_boundary(b, i + 1),
    decreases b.len(),
{
    let l = length_of_first_scalar(b);
    let tail = pop_first_scalar(b);
    if i < l {
        if i == 0 {
            assert(l == 1);
            assert(is_char_boundary(tail, 0));
            reveal_with_fuel(is_char_boundary, 2);
        } else {
            assert(is_continuation_byte(b[i]));
        }
    } else {
        assert(tail.len() == b.len() - l);
        assert(tail[i - l] == b[i]);
        lemma_after_ascii(tail, i - l);
        assert(i + 1 >= 1);
        reveal_with_fuel(is_char_boundary, 2);
    }
}

/// RFC 3986 `unreserved` characters: ASCII letters and digits, `-`, `.`,
/// `_` and `~`.
pub open spec fn rfc3986_unreserved(c: u8) -> bool {
    ||| ('a' as u8 <= c && c <= 'z' as u8)
    ||| ('A' as u8 <= c && c <= 'Z' as u8)
    ||| ('0' as u8 <= c && c <= '9' as u8)
    ||| c == '-' as u8
    ||| c == '.' as u8
    ||| c == '_' as u8
    ||| c == '~' as u8
}

/// RFC 3986 `gen-delims`: `:` `/` `?` `#` `[` `]` `@`.
pub open spec fn rfc3986_gen_delim(c: u8) -> bool {
    seq![':' as u8, '/' as u8, '?' as u8, '#' as u8, '[' as u8, ']' as u8, '@' as u8].contains(c)
}

/// RFC 3986 `sub-delims`: `!` `$` `&` `'` `(` `)` `*` `+` `,` `;` `=`.
pub open spec fn rfc3986_sub_delim(c: u8) -> bool {
    seq![
        '!' as u8,
        '$' as u8,
        '&' as u8,
        '\'' as u8,
        '(' as u8,
        ')' as u8,
        '*' as u8,
        '+' as u8,
        ',' as u8,
        ';' as u8,
        '=' as u8,
    ].contains(c)
}

/// A URL character of RFC 3986: unreserved, reserved (gen-delims and
/// sub-delims), or the `%` of a percent-encoding.
pub open spec fn rfc3986_char(c: u8) -> bool {
    rfc3986_unreserved(c) || rfc3986_gen_delim(c) || rfc3986_sub_delim(c) || c == '%' as u8
}

/// Law: the bytes a URL body may hold are exactly the URL characters of
/// RFC 3986 (so `&` and `=` of a query string are among them), and the body
/// characters are those bytes, as ASCII characters.
pub proof fn lemma_url_body_is_rfc3986(c: u8)
    ensures
        is_url_body_byte(c) <==> rfc3986_char(c),
{
    let g = seq![':' as u8, '/' as u8, '?' as u8, '#' as u8, '[' as u8, ']' as u8, '@' as u8];
    let d = seq![
        '!' as u8,
        '$' as u8,
        '&' as u8,
        '\'' as u8,
        '(' as u8,
        ')' as u8,
        '*' as u8,
        '+' as u8,
        ',' as u8,
        ';' as u8,
        '=' as u8,
    ];
    if g.contains(c) {
        let k = choose|k: int| 0 <= k < g.len() && g[k] == c;
        assert(0 <= k < 7);
    }
    if d.contains(c) {
        let k = choose|k: int| 0 <= k < d.len() && d[k] == c;
        assert(0 <= k < 11);
    }
    if c == ':' as u8 { assert(g[0] == c); }
    if c == '/' as u8 { assert(g[1] == c); }
    if c == '?' as u8 { assert(g[2] == c); }
    if c == '#' as u8 { assert(g[3] == c); }
    if c == '[' as u8 { assert(g[4] == c); }
    if c == ']' as u8 { assert(g[5] == c); }
    if c == '@' as u8 { assert(g[6] == c); }
    if c == '!' as u8 { assert(d[0] == c); }
    if c == '$' as u8 { assert(d[1] == c); }
    if c == '&' as u8 { assert(d[2] == c); }
    if c == '\'' as u8 { assert(d[3] == c); }
    if c == '(' as u8 { assert(d[4] == c); }
    if c == ')' as u8 { assert(d[5] == c); }
    if c == '*' as u8 { assert(d[6] == c); }
    if c == '+' as u8 { assert(d[7] == c); }
    if c == ',' as u8 { assert(d[8] == c); }
    if c == ';' as u8 { assert(d[9] == c); }
    if c == '=' as u8 { assert(d[10] == c); }
}

/// Law: the run of URL body bytes from `i` extends over every RFC 3986 URL
/// character and stops at the first byte that is not one (or at the end).
pub proof fn lemma_scan_end_rfc3986(b: Seq<u8>, i: int)
    requires
        0 <= i <= b.len(),
    ensures
        i <= scan_end(b, i) <= b.len(),
        forall|j: int| i <= j < scan_end(b, i) ==> rfc3986_char(#[trigger] b[j]),
        scan_end(b, i) < b.len() ==> !rfc3986_char(b[scan_end(b, i)]),
    decreases b.len() - i,
{
    if i < b.len() {
        lemma_url_body_is_rfc3986(b[i]);
        if is_url_body_byte(b[i]) {
            lemma_scan_end_rfc3986(b, i + 1);
        }
    }
}

/// True for the characters a bare URL body may contain.
pub fn is_url_body_char(c: char) -> (r: bool)
    ensures
        r == (c as u32 <= 0x7f && is_url_body_byte(c as u32 as u8)),
        r == (c as u32 <= 0x7f && rfc3986_char(c as u32 as u8)),
{
    proof {
        lemma_url_body_is_rfc3986(c as u32 as u8);
    }
    let u = c as u32;
    if u > 0x7f {
        return false;
    }
    let x = u as u8;
    (0x30 <= x && x <= 0x39) || (0x41 <= x && x <= 0x5a) || (0x61 <= x && x <= 0x7a) || x
        == '-' as u8 || x == '.' as u8 || x == '_' as u8 || x == '~' as u8 || x == ':' as u8 || x
        == '/' as u8 || x == '?' as u8 || x == '#' as u8 || x == '[' as u8 || x == ']' as u8 || x
        == '@' as u8 || x == '!' as u8 || x == '$' as u8 || x == '&' as u8 || x == '\'' as u8
        || x == '(' as u8 || x == ')' as u8 || x == '*' as u8 || x == '+' as u8 || x == ','
        as u8 || x == ';' as u8 || x == '=' as u8 || x == '%' as u8
}

/// The byte `x` may appear in a URL body.
fn body_byte(x: u8) -> (r: bool)
    ensures
        r == is_url_body_byte(x),
{
    let c = x as char;
    assert(c as u32 == x as u32);
    is_url_body_char(c)
}

/// `pat` occurs in `b` at `i`.
fn bytes_at(b: &[u8], pat: &[u8], i: usize) -> (r: bool)
    ensures
        r == occurs_at(b@, pat@, i as int),
{
    if i > b.len() || pat.len() > b.len() - i {
        return false;
    }
    let mut k: usize = 0;
    while k < pat.len()
        invariant
            i + pat@.len() <= b@.len(),
            b@.len() <= usize::MAX,
            k <= pat@.len(),
            forall|j: int| 0 <= j < k ==> b@[i + j] == pat@[j],
        decreases pat@.len() - k,
    {
        if b[i + k] != pat[k] {
            assert(b@.subrange(i as int, i + pat@.len())[k as int] != pat@[k as int]);
            return false;
        }
        k += 1;
    }
    assert(b@.subrange(i as int, i + pat@.len()) =~= pat@);
    true
}

proof fn lemma_find_from_skip(b: Seq<u8>, pat: Seq<u8>, from: int, p: int)
    requires
        0 <= from <= p,
        pat.len() > 0,
        forall|k: int| from <= k < p ==> !#[trigger] occurs_at(b, pat, k),
    ensures
        find_from(b, pat, from) == find_from(b, pat, p),
    decreases p - from,
{
    if from < p {
        if from >= b.len() || from + pat.len() > b.len() {
            lemma_find_from_none(b, pat, p);
        } else {
            assert(!occurs_at(b, pat, from));
            lemma_find_from_skip(b, pat, from + 1, p);
        }
    }
}

proof fn lemma_find_from_none(b: Seq<u8>, pat: Seq<u8>, p: int)
    requires
        0 <= p,
        pat.len() > 0,
        p >= b.len() || p + pat.len() > b.len(),
    ensures
        find_from(b, pat, p) is None,
{
}

/// The first scheme match at or after `from`: `(start, scheme length)`.
fn find_scheme(b: &[u8], from: usize) -> (r: Option<(usize, usize)>)
    requires
        from <= b@.len(),
    ensures
        match r {
            Some((s, l)) => first_scheme(b@, from as int) == Some((s as int, l as int)),
            None => first_scheme(b@, from as int) is None,
        },
{
    let https: [u8; 8] = [
        'h' as u8,
        't' as u8,
        't' as u8,
        'p' as u8,
        's' as u8,
        ':' as u8,
        '/' as u8,
        '/' as u8,
    ];
    let http: [u8; 7] = ['h' as u8, 't' as u8, 't' as u8, 'p' as u8, ':' as u8, '/' as u8, '/' as u8];
    proof {
        assert(https@ =~= https_scheme());
        assert(http@ =~= http_scheme());
    }
    let mut p = from;
    while p < b.len()
        invariant
            from <= p <= b@.len(),
            https@ == https_scheme(),
            http@ == http_scheme(),
            forall|k: int| from <= k < p ==> !#[trigger] occurs_at(b@, https_scheme(), k),
            forall|k: int| from <= k < p ==> !#[trigger] occurs_at(b@, http_scheme(), k),
        decreases b@.len() - p,
    {
        let s8 = bytes_at(b, https.as_slice(), p);
        let s7 = bytes_at(b, http.as_slice(), p);
        if s8 || s7 {
            proof {
                lemma_find_from_skip(b@, https_scheme(), from as int, p as int);
                lemma_find_from_skip(b@, http_scheme(), from as int, p as int);
                if s8 {
                    assert(b@.subrange(p as int, p + 8)[4] == 's' as u8);
                    assert(!occurs_at(b@, http_scheme(), p as int)) by {
                        if occurs_at(b@, http_scheme(), p as int) {
                            assert(b@.subrange(p as int, p + 7)[4] == ':' as u8);
                        }
                    }
                    lemma_find_from_skip(b@, http_scheme(), p as int, p + 1);
                    lemma_find_from_bounds(b@, http_scheme(), p + 1);
                } else {
                    lemma_find_from_skip(b@, https_scheme(), p as int, p + 1);
                    lemma_find_from_bounds(b@, https_scheme(), p + 1);
                }
            }
            if s8 {
                return Some((p, 8));
            } else {
                return Some((p, 7));
            }
        }
        p += 1;
    }
    proof {
        lemma_find_from_skip(b@, https_scheme(), from as int, p as int);
        lemma_find_from_skip(b@, http_scheme(), from as int, p as int);
    }
    None
}

/// End of the run of URL body bytes starting at `i`.
fn scan_body(b: &[u8], i: usize) -> (r: usize)
    requires
        i <= b@.len(),
    ensures
        r == scan_end(b@, i as int),
{
    let mut end = i;
    while end < b.len() && body_byte(b[end])
        invariant
            i <= end <= b@.len(),
            scan_end(b@, i as int) == scan_end(b@, end as int),
        decreases b@.len() - end,
    {
        end += 1;
    }
    end
}

/// Number of bytes equal to `x` in `b[lo..hi]`.
fn count_in(b: &[u8], lo: usize, hi: usize, x: u8) -> (r: usize)
    requires
        lo <= hi <= b@.len(),
    ensures
        r == count_byte(b@, lo as int, hi as int, x),
{
    let mut c: usize = 0;
    let mut k = lo;
    while k < hi
        invariant
            lo <= k <= hi <= b@.len(),
            c == count_byte(b@, lo as int, k as int, x),
            c <= k - lo,
        decreases hi - k,
    {
        if b[k] == x {
            c += 1;
        }
        k += 1;
    }
    c
}

/// Drop trailing punctuation, and closing brackets without an opening partner,
/// from the URL `b[start..end]`.
fn trim_trailing_punct(b: &[u8], start: usize, end0: usize) -> (r: usize)
    requires
        start <= end0 <= b@.len(),
    ensures
        r == trim_punct(b@, start as int, end0 as int),
{
    let mut end = end0;
    while end > start
        invariant
            start <= end <= b@.len(),
            trim_punct(b@, start as int, end as int) == trim_punct(b@, start as int, end0 as int),
        ensures
            end == trim_punct(b@, start as int, end0 as int),
        decreases end,
    {
        let c = b[end - 1];
        if c == '.' as u8 || c == ',' as u8 || c == ';' as u8 || c == ':' as u8 || c == '!' as u8
            || c == '?' as u8 || c == '\'' as u8 || c == '"' as u8 {
            end -= 1;
            continue;
        }
        if c == ')' as u8 {
            let opens = count_in(b, start, end, '(' as u8);
            let closes = count_in(b, start, end, ')' as u8);
            if closes > opens {
                end -= 1;
                continue;
            }
        }
        if c == ']' as u8 {
            let opens = count_in(b, start, end, '[' as u8);
            let closes = count_in(b, start, end, ']' as u8);
            if closes > opens {
                end -= 1;
                continue;
            }
        }
        break;
    }
    end
}


/// The first bare URL in `text` at or after byte `from`, as a byte range.
fn next_url_from(text: &str, from: usize) -> (r: Option<(usize, usize)>)
    requires
        from <= text.spec_bytes().len(),
    ensures
        match r {
            Some((s, e)) => next_url(text.spec_bytes(), from as int) == Some((s as int, e as int)),
            None => next_url(text.spec_bytes(), from as int) is None,
        },
{
    let b = text.as_bytes();
    let ghost bs = text.spec_bytes();
    let n = b.len();
    let mut pos = from;
    loop
        invariant
            b@ == bs,
            bs == text.spec_bytes(),
            n == bs.len(),
            pos <= b@.len(),
            next_url(bs, pos as int) == next_url(bs, from as int),
        decreases b@.len() - pos,
    {
        proof {
            lemma_first_scheme(bs, pos as int);
        }
        let found = find_scheme(b, pos);
        if found.is_none() {
            return None;
        }
        let (start, scheme_len) = found.unwrap();
        let body = start + scheme_len;
        if body >= b.len() || !body_byte(b[body]) {
            pos = body;
            continue;
        }
        let scanned = scan_body(b, body);
        proof {
            lemma_scan_end(bs, body as int);
        }
        let end = trim_trailing_punct(b, start, scanned);
        if end <= body {
            pos = body;
            continue;
        }
        return Some((start, end));
    }
}

/// One run of `text`, as a segment borrowing from it.
fn make_segment<'a>(text: &'a str, is_url: bool, lo: usize, hi: usize) -> (r: Segment<'a>)
    requires
        lo <= hi <= text.spec_bytes().len(),
        is_char_boundary(text.spec_bytes(), lo as int),
        is_char_boundary(text.spec_bytes(), hi as int),
    ensures
        r.is_url_seg() == is_url,
        r.seg_bytes() == text.spec_bytes().subrange(lo as int, hi as int),
{
    let part = crate::text::byte_slice(text, lo, hi);
    if is_url {
        Segment::Url(part)
    } else {
        Segment::Text(part)
    }
}

/// The byte ranges of the runs of `text`, in order.
fn spans_of(text: &str) -> (r: Vec<(bool, usize, usize)>)
    ensures
        r@.len() == spans(text.spec_bytes()).len(),
        forall|k: int|
            0 <= k < r@.len() ==> {
                let sp = #[trigger] spans(text.spec_bytes())[k];
                &&& r@[k].0 == sp.0
                &&& r@[k].1 == sp.1
                &&& r@[k].2 == sp.2
            },
{
    let ghost bs = text.spec_bytes();
    let len = text.as_bytes().len();
    let mut out: Vec<(bool, usize, usize)> = Vec::new();
    let mut cursor: usize = 0;
    let ghost mut acc: Seq<(bool, int, int)> = seq![];
    loop
        invariant_except_break
            acc + spans_from(bs, cursor as int) == spans(bs),
        invariant
            len == bs.len(),
            bs == text.spec_bytes(),
            cursor <= len,
            out@.len() == acc.len(),
            forall|k: int|
                0 <= k < acc.len() ==> {
                    &&& out@[k].0 == (#[trigger] acc[k]).0
                    &&& out@[k].1 == acc[k].1
                    &&& out@[k].2 == acc[k].2
                },
        ensures
            out@.len() == spans(bs).len(),
            forall|k: int|
                0 <= k < out@.len() ==> {
                    &&& out@[k].0 == (#[trigger] spans(bs)[k]).0
                    &&& out@[k].1 == spans(bs)[k].1
                    &&& out@[k].2 == spans(bs)[k].2
                },
        decreases len - cursor,
    {
        match next_url_from(text, cursor) {
            Some((start, end)) => {
                proof {
                    lemma_next_url_bounds(bs, cursor as int);
                }
                let ghost old_acc = acc;
                if start > cursor {
                    out.push((false, cursor, start));
                    proof {
                        acc = acc.push((false, cursor as int, start as int));
                    }
                }
                out.push((true, start, end));
                proof {
                    acc = acc.push((true, start as int, end as int));
                    assert(spans_from(bs, cursor as int) == (if start > cursor {
                        seq![(false, cursor as int, start as int)]
                    } else {
                        seq![]
                    }) + seq![(true, start as int, end as int)] + spans_from(bs, end as int));
                    assert(acc + spans_from(bs, end as int) =~= old_acc + spans_from(
                        bs,
                        cursor as int,
                    ));
                }
                cursor = end;
            },
            None => {
                let ghost old_acc = acc;
                if cursor < len {
                    out.push((false, cursor, len));
                    proof {
                        acc = acc.push((false, cursor as int, len as int));
                    }
                }
                proof {
                    assert(acc =~= old_acc + spans_from(bs, cursor as int));
                    assert(acc =~= spans(bs));
                }
                break;
            },
        }
    }
    out
}

/// Every span of a text is non-empty, the spans are contiguous, and together
/// they run from byte `cursor` to the end of the text.
pub proof fn lemma_spans_from_partition(b: Seq<u8>, cursor: int)
    requires
        0 <= cursor <= b.len(),
    ensures
        ({
            let sp = spans_from(b, cursor);
            &&& (sp.len() == 0 <==> cursor == b.len())
            &&& sp.len() > 0 ==> sp[0].1 == cursor && sp.last().2 == b.len()
            &&& forall|k: int| 0 <= k < sp.len() ==> (#[trigger] sp[k]).1 < sp[k].2
            &&& forall|k: int| 0 <= k < sp.len() - 1 ==> (#[trigger] sp[k]).2 == sp[k + 1].1
        }),
    decreases b.len() - cursor,
{
    lemma_next_url_bounds(b, cursor);
    match next_url(b, cursor) {
        Some((s, e)) => {
            lemma_spans_from_partition(b, e);
            let head: Seq<(bool, int, int)> = if s > cursor {
                seq![(false, cursor, s)]
            } else {
                seq![]
            };
            let rest = spans_from(b, e);
            let sp = spans_from(b, cursor);
            let mid = head + seq![(true, s, e)];
            assert(sp == mid + rest);
            assert(sp.len() == mid.len() + rest.len());
            assert forall|k: int| 0 <= k < sp.len() - 1 implies (#[trigger] sp[k]).2 == sp[k
                + 1].1 by {
                if k + 1 < mid.len() {
                } else if k + 1 == mid.len() {
                    assert(sp[k + 1] == rest[0]);
                } else {
                    assert(sp[k] == rest[k - mid.len()]);
                    assert(sp[k + 1] == rest[k + 1 - mid.len()]);
                }
            }
            assert forall|k: int| 0 <= k < sp.len() implies (#[trigger] sp[k]).1 < sp[k].2 by {
                if k >= mid.len() {
                    assert(sp[k] == rest[k - mid.len()]);
                }
            }
            if rest.len() > 0 {
                assert(sp.last() == rest.last());
            }
        },
        None => {},
    }
}

/// Law: the runs of a text cover it exactly, in order, without gaps or overlap.
pub proof fn lemma_spans_partition(b: Seq<u8>)
    ensures
        ({
            let sp = spans(b);
            &&& (sp.len() == 0 <==> b.len() == 0)
            &&& sp.len() > 0 ==> sp[0].1 == 0 && sp.last().2 == b.len()
            &&& forall|k: int| 0 <= k < sp.len() ==> (#[trigger] sp[k]).1 < sp[k].2
            &&& forall|k: int| 0 <= k < sp.len() - 1 ==> (#[trigger] sp[k]).2 == sp[k + 1].1
        }),
{
    lemma_spans_from_partition(b, 0);
}

/// Split `text` into plain runs and bare `http://` / `https://` URLs.
pub fn segments(text: &str) -> (r: Vec<Segment<'_>>)
    ensures
        r@.len() == spans(text.spec_bytes()).len(),
        forall|k: int|
            0 <= k < r@.len() ==> {
                let sp = #[trigger] spans(text.spec_bytes())[k];
                &&& r@[k].is_url_seg() == sp.0
                &&& r@[k].seg_bytes() == text.spec_bytes().subrange(sp.1, sp.2)
            },
{
    let ghost bs = text.spec_bytes();
    let sp = spans_of(text);
    proof {
        lemma_spans_partition(bs);
        encode_utf8_valid_utf8(text@);
    }
    let mut out: Vec<Segment<'_>> = Vec::new();
    let mut k: usize = 0;
    while k < sp.len()
        invariant
            sp@.len() == spans(bs).len(),
            forall|j: int|
                0 <= j < sp@.len() ==> {
                    &&& sp@[j].0 == (#[trigger] spans(bs)[j]).0
                    &&& sp@[j].1 == spans(bs)[j].1
                    &&& sp@[j].2 == spans(bs)[j].2
                },
            bs == text.spec_bytes(),
            valid_utf8(bs),
            k <= sp@.len(),
            out@.len() == k,
            forall|j: int|
                0 <= j < k ==> {
                    let s = #[trigger] spans(bs)[j];
                    &&& out@[j].is_url_seg() == s.0
                    &&& out@[j].seg_bytes() == bs.subrange(s.1, s.2)
                },
        decreases sp@.len() - k,
    {
        let (is_url, lo, hi) = sp[k];
        proof {
            lemma_spans_boundaries(bs, k as int);
        }
        out.push(make_segment(text, is_url, lo, hi));
        k += 1;
    }
    out
}

/// Each span of a valid UTF-8 text starts and ends on character boundaries.
pub proof fn lemma_spans_boundaries(b: Seq<u8>, k: int)
    requires
        valid_utf8(b),
        0 <= k < spans(b).len(),
    ensures
        0 <= spans(b)[k].1 <= spans(b)[k].2 <= b.len(),
        is_char_boundary(b, spans(b)[k].1),
        is_char_boundary(b, spans(b)[k].2),
{
    lemma_spans_from_boundaries(b, 0, k);
}

proof fn lemma_spans_from_boundaries(b: Seq<u8>, cursor: int, k: int)
    requires
        valid_utf8(b),
        0 <= cursor <= b.len(),
        is_char_boundary(b, cursor),
        0 <= k < spans_from(b, cursor).len(),
    ensures
        cursor <= spans_from(b, cursor)[k].1 <= spans_from(b, cursor)[k].2 <= b.len(),
        is_char_boundary(b, spans_from(b, cursor)[k].1),
        is_char_boundary(b, spans_from(b, cursor)[k].2),
    decreases b.len() - cursor,
{
    lemma_next_url_bounds(b, cursor);
    is_char_boundary_start_end_of_seq(b);
    match next_url(b, cursor) {
        Some((s, e)) => {
            let head: Seq<(bool, int, int)> = if s > cursor {
                seq![(false, cursor, s)]
            } else {
                seq![]
            };
            let rest = spans_from(b, e);
            let sp = spans_from(b, cursor);
            assert(sp == head + seq![(true, s, e)] + rest);
            assert(b[s] == 'h' as u8) by {
                if occurs_at(b, https_scheme(), s) {
                    assert(b.subrange(s, s + 8)[0] == b[s]);
                } else {
                    assert(b.subrange(s, s + 7)[0] == b[s]);
                }
            }
            lemma_boundary_iff(b, s);
            assert(is_url_body_byte(b[e - 1]));
            lemma_after_ascii(b, e - 1);
            if k >= head.len() + 1 {
                assert(sp[k] == rest[k - head.len() - 1]);
                lemma_spans_from_boundaries(b, e, k - head.len() - 1);
            }
        },
        None => {},
    }
}

/// Law: every URL run starts with `http://` or `https://` followed by at least
/// one more byte, holds only URL body bytes, and does not end in punctuation that
/// the trimming rule drops.
pub proof fn lemma_url_spans_well_formed(b: Seq<u8>, k: int)
    requires
        0 <= k < spans(b).len(),
        spans(b)[k].0,
    ensures
        ({
            let (u, s, e) = spans(b)[k];
            &&& (occurs_at(b, https_scheme(), s) && s + 8 < e) || (occurs_at(b, http_scheme(), s)
                && s + 7 < e)
            &&& forall|j: int| s <= j < e ==> is_url_body_byte(#[trigger] b[j])
            &&& !drops_last(b, s, e)
        }),
{
    lemma_url_spans_from(b, 0, k);
}

proof fn lemma_url_spans_from(b: Seq<u8>, cursor: int, k: int)
    requires
        0 <= cursor <= b.len(),
        0 <= k < spans_from(b, cursor).len(),
        spans_from(b, cursor)[k].0,
    ensures
        ({
            let (u, s, e) = spans_from(b, cursor)[k];
            &&& (occurs_at(b, https_scheme(), s) && s + 8 < e) || (occurs_at(b, http_scheme(), s)
                && s + 7 < e)
            &&& forall|j: int| s <= j < e ==> is_url_body_byte(#[trigger] b[j])
            &&& !drops_last(b, s, e)
        }),
    decreases b.len() - cursor,
{
    lemma_next_url_bounds(b, cursor);
    match next_url(b, cursor) {
        Some((s, e)) => {
            let head: Seq<(bool, int, int)> = if s > cursor {
                seq![(false, cursor, s)]
            } else {
                seq![]
            };
            let rest = spans_from(b, e);
            let sp = spans_from(b, cursor);
            assert(sp == head + seq![(true, s, e)] + rest);
            if k >= head.len() + 1 {
                assert(sp[k] == rest[k - head.len() - 1]);
                lemma_url_spans_from(b, e, k - head.len() - 1);
            }
        },
        None => {},
    }
}

/// The whole of `b` is a single URL run.
pub open spec fn is_single_url(b: Seq<u8>) -> bool {
    let sp = spans(b);
    sp.len() == 1 && sp[0].0 && b.subrange(sp[0].1, sp[0].2) == b
}

/// True when `text` itself is a single openable URL (optionally surrounded by whitespace).
pub fn is_url(text: &str) -> (r: bool)
    ensures
        r == is_single_url(encode_utf8(crate::text::trim_ws(text@))),
{
    let t = crate::text::trim(text);
    let sp = spans_of(t);
    let ghost tb = t.spec_bytes();
    if sp.len() != 1 {
        return false;
    }
    let (is_url, lo, hi) = sp[0];
    proof {
        lemma_spans_partition(tb);
        if tb.subrange(lo as int, hi as int) == tb {
            assert(tb.subrange(lo as int, hi as int).len() == tb.len());
        }
        if lo == 0 && hi == t.len() {
            assert(tb.subrange(lo as int, hi as int) =~= tb);
        }
    }
    is_url && lo == 0 && hi == t.len()
}

} // verus!
