//! Clipboard text handling: pasted text is cleaned before it reaches an
//! input field.

use vstd::prelude::*;
use vstd::string::*;

use crate::text::{chars_of, owned, trim, trim_ws};

verus! {

/// The byte order mark that some clipboards put before pasted text.
pub open spec fn is_bom(c: char) -> bool {
    c == '\u{feff}'
}

/// `s` without its leading byte order marks.
pub open spec fn strip_boms(s: Seq<char>) -> Seq<char>
    decreases s.len(),
{
    if s.len() > 0 && is_bom(s[0]) {
        strip_boms(s.drop_first())
    } else {
        s
    }
}

/// Trim BOM / surrounding whitespace from pasted clipboard text: leading
/// byte order marks go first, then leading and trailing white space.
pub fn normalize_paste(raw: &str) -> (r: String)
    ensures
        r@ == trim_ws(strip_boms(raw@)),
{
    let v = chars_of(raw);
    let mut i: usize = 0;
    assert(raw@.skip(0) =~= raw@);
    while i < v.len() && v[i] == '\u{feff}'
        invariant
            v@ == raw@,
            i <= v@.len(),
            strip_boms(raw@) == strip_boms(raw@.skip(i as int)),
        decreases v@.len() - i,
    {
        assert(raw@.skip(i as int).drop_first() =~= raw@.skip(i + 1));
        i += 1;
    }
    assert(raw@.skip(i as int) =~= raw@.subrange(i as int, raw@.len() as int));
    let rest = raw.substring_char(i, v.len());
    owned(trim(rest))
}

} // verus!
