//! Shortening of long symbol names for display: a name over a byte-length
//! limit keeps its first characters, an ellipsis, and its tail. Each pane
//! picks its own limit; the widest is the default.

use vstd::prelude::*;

verus! {

/// The default byte length displayed unshortened.
pub const NAME_BYTE_LIMIT: usize = 120;

/// How many leading characters a shortened name keeps by default.
pub const NAME_HEAD_CHARS: usize = 24;

/// A name over the byte limit becomes its first characters, `...`, and its
/// tail (the characters after skipping one per byte over the limit); a name
/// within the limit stays as it is.
pub open spec fn limit_name_spec(
    s: Seq<char>,
    byte_len: int,
    max_bytes: int,
    head_chars: int,
) -> Seq<char> {
    if byte_len > max_bytes {
        let head = if s.len() < head_chars {
            s.len() as int
        } else {
            head_chars
        };
        let skip = if byte_len - max_bytes > s.len() {
            s.len() as int
        } else {
            byte_len - max_bytes
        };
        s.take(head) + "..."@ + s.skip(skip)
    } else {
        s
    }
}

/// Shorten a name for display if its byte length is over `max_bytes`.
pub fn limit_string_name_to(name: &str, max_bytes: usize, head_chars: usize) -> (r: String)
    ensures
        r@ == limit_name_spec(name@, name.len() as int, max_bytes as int, head_chars as int),
{
    let byte_len = name.len();
    if byte_len > max_bytes {
        let ulen = name.unicode_len();
        let head = if ulen < head_chars {
            ulen
        } else {
            head_chars
        };
        let over = byte_len - max_bytes;
        let skip = if over > ulen {
            ulen
        } else {
            over
        };
        let mut r = name.substring_char(0, head).to_owned();
        r.append("...");
        r.append(name.substring_char(skip, ulen));
        proof {
            assert(name@.subrange(0, head as int) =~= name@.take(head as int));
            assert(name@.subrange(skip as int, ulen as int) =~= name@.skip(skip as int));
            assert(r@ =~= limit_name_spec(
                name@,
                name.len() as int,
                max_bytes as int,
                head_chars as int,
            ));
        }
        r
    } else {
        name.to_owned()
    }
}

/// Shorten a name for display with the default limits.
pub fn limit_string_name(name: &str) -> (r: String)
    ensures
        r@ == limit_name_spec(
            name@,
            name.len() as int,
            NAME_BYTE_LIMIT as int,
            NAME_HEAD_CHARS as int,
        ),
{
    limit_string_name_to(name, NAME_BYTE_LIMIT, NAME_HEAD_CHARS)
}

} // verus!
