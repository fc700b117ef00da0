//! The command line of the desktop host: `[--smoke] [RID]`.

use vstd::prelude::*;
use vstd::string::*;

use crate::text::{has_prefix, owned, starts_with_char};

verus! {

/// A RID argument is kept when it starts with `rad:` or with `z` (a bare
/// multibase id, which gets the `rad:` prefix).
pub open spec fn rid_arg_text(arg: Seq<char>) -> Option<Seq<char>> {
    if has_prefix(arg, "rad:"@) {
        Some(arg)
    } else if arg.len() > 0 && arg[0] == 'z' {
        Some("rad:"@ + arg)
    } else {
        None
    }
}

fn starts_with_rad(s: &str) -> (r: bool)
    ensures
        r == has_prefix(s@, "rad:"@),
{
    let v = crate::text::chars_of(s);
    let p = crate::text::chars_of("rad:");
    p.len() <= v.len() && crate::text::matches_at(&v, &p, 0)
}

/// The RID to open from a command-line argument, if it looks like one.
pub fn rid_from_arg(arg: Option<&str>) -> (r: Option<String>)
    ensures
        match arg {
            Some(a) => match rid_arg_text(a@) {
                Some(t) => r matches Some(s) && s@ == t,
                None => r is None,
            },
            None => r is None,
        },
{
    match arg {
        Some(a) => {
            if starts_with_rad(a) {
                Some(owned(a))
            } else if starts_with_char(a, 'z') {
                let mut s = owned("rad:");
                s.append(a);
                Some(s)
            } else {
                None
            }
        },
        None => None,
    }
}

/// The host's arguments: whether `--smoke` comes first, and the RID to open.
pub fn parse_args(args: &[String]) -> (r: (bool, Option<String>))
    ensures
        r.0 == (args@.len() > 0 && args@[0]@ == "--smoke"@),
        ({
            let rest = if r.0 {
                1int
            } else {
                0int
            };
            if rest < args@.len() {
                match rid_arg_text(args@[rest]@) {
                    Some(t) => r.1 matches Some(s) && s@ == t,
                    None => r.1 is None,
                }
            } else {
                r.1 is None
            }
        }),
{
    let smoke = args.len() > 0 && crate::text::str_eq(args[0].as_str(), "--smoke");
    let rest: usize = if smoke {
        1
    } else {
        0
    };
    let rid = if rest < args.len() {
        rid_from_arg(Some(args[rest].as_str()))
    } else {
        None
    };
    (smoke, rid)
}

} // verus!
