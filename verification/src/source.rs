//! The candidate source: lines of text, one candidate key on each.

use vstd::prelude::*;
use vstd::string::StringSliceAdditionalSpecFns;
use vstd::utf8::encode_utf8_valid_utf8;
use vstd::utf8::is_char_boundary_iff_not_is_continuation_byte;

verus! {

/// `text` without the line feed that ends it, and without the carriage
/// return before that line feed. Text that does not end in a line feed is
/// left as it is.
pub open spec fn without_line_ending(text: Seq<u8>) -> Seq<u8> {
    if text.len() > 0 && text.last() == 0x0a {
        let rest = text.drop_last();
        if rest.len() > 0 && rest.last() == 0x0d {
            rest.drop_last()
        } else {
            rest
        }
    } else {
        text
    }
}

/// Removes the line ending from a line as it was read: a final `\n`, and a
/// `\r` directly before it.
pub fn strip_line_ending(line: &str) -> (text: &str)
    ensures
        text.spec_bytes() == without_line_ending(line.spec_bytes()),
{
    let bytes = line.as_bytes();
    let n: usize = bytes.len();
    if n > 0 && bytes[n - 1] == 0x0a {
        let mut end: usize = n - 1;
        if end > 0 && bytes[end - 1] == 0x0d {
            end = end - 1;
        }
        proof {
            encode_utf8_valid_utf8(line@);
            is_char_boundary_iff_not_is_continuation_byte(line.spec_bytes(), end as int);
        }
        let (text, _) = line.split_at(end);
        assert(text.spec_bytes() =~= without_line_ending(line.spec_bytes()));
        text
    } else {
        line
    }
}

/// The candidate on a line that a read of `read` bytes has put into `buf`:
/// none when nothing was read, which is the end of the input; else the line
/// without its line ending.
pub fn next_candidate(read: usize, buf: &str) -> (candidate: Option<&str>)
    ensures
        read == 0 <==> candidate is None,
        candidate matches Some(text) ==> text.spec_bytes() == without_line_ending(buf.spec_bytes()),
{
    if read == 0 {
        None
    } else {
        Some(strip_line_ending(buf))
    }
}

} // verus!
