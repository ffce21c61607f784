use vstd::prelude::*;

use crate::clock::{local_now_formatted, writer_stamp_shape, WRITER_STAMP_FORMAT};

verus! {

/// One written line: the stamp, the prefix, a space, the text and a line
/// feed.
pub open spec fn stamped_line(stamp: Seq<char>, prefix: Seq<char>, line: Seq<char>) -> Seq<char> {
    stamp + prefix + seq![' '] + line + seq!['\n']
}

/// The text that [`decor_str`] gives when the clock reads `stamp`.
pub fn decor_str_at(stamp: &str, prefix: &str, line: &str) -> (r: String)
    ensures
        r@ == stamped_line(stamp@, prefix@, line@),
{
    let mut out = String::from_str(stamp);
    out.append(prefix);
    proof {
        reveal_strlit(" ");
        reveal_strlit("\n");
    }
    out.append(" ");
    out.append(line);
    out.append("\n");
    out
}

/// One line of text as the single-line writer writes it: led by the date and
/// time when `date` is set, then the prefix and a space, and ended by a line
/// feed.  The line is not wrapped.
pub fn decor_str(prefix: &str, date: bool, line: &str) -> (r: String)
    ensures
        !date ==> r@ == stamped_line(Seq::empty(), prefix@, line@),
        date ==> exists|stamp: Seq<char>|
            writer_stamp_shape(stamp) && r@ == #[trigger] stamped_line(stamp, prefix@, line@),
{
    if date {
        let stamp = local_now_formatted(WRITER_STAMP_FORMAT);
        let r = decor_str_at(stamp.as_str(), prefix, line);
        proof {
            assert(r@ == stamped_line(stamp@, prefix@, line@));
        }
        r
    } else {
        proof {
            reveal_strlit("");
        }
        decor_str_at("", prefix, line)
    }
}

} // verus!
