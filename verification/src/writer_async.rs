use vstd::prelude::*;

use crate::clock::decor_stamp_shape;
use crate::decor::{
    decor_result_view, decorated, finish_line, lemma_flatten_single, fullprefix, strings_view, Decor, DecorView,
};

verus! {

/// Joins the output lines of a decoration into one text.
pub fn join_lines(lines: &Vec<String>) -> (r: String)
    ensures
        r@ == strings_view(lines@).flatten(),
{
    let mut out = String::new();
    let n = lines.len();
    for i in 0..n
        invariant
            n == lines@.len(),
            out@ == strings_view(lines@.take(i as int)).flatten(),
    {
        let ghost before = out@;
        out.append(lines[i].as_str());
        proof {
            let taken = strings_view(lines@.take(i + 1));
            assert(taken.drop_last() =~= strings_view(lines@.take(i as int)));
            assert(taken.last() == lines@[i as int]@);
            taken.lemma_flatten_and_flatten_alt_are_equivalent();
            strings_view(lines@.take(i as int)).lemma_flatten_and_flatten_alt_are_equivalent();
        }
    }
    proof {
        assert(lines@.take(n as int) =~= lines@);
    }
    out
}

/// One line of text decorated without wrapping, as one text: led by the date
/// and time when `date` is set, then the prefix and a space, and ended by a
/// line feed unless the text already ends with one.
pub fn decor_str(prefix: &str, date: bool, line: &str) -> (r: String)
    ensures
        !date ==> r@ == finish_line(fullprefix(Seq::empty(), prefix@), line@),
        date ==> exists|stamp: Seq<char>|
            decor_stamp_shape(stamp) && r@ == #[trigger] finish_line(fullprefix(stamp, prefix@), line@),
{
    match Decor::new(prefix, date, None) {
        Ok(decor) => {
            let lines = decor.decorate(line);
            let r = join_lines(&lines);
            proof {
                assert(decor@ == (DecorView { prefix: prefix@, date, width: None }));
                assert forall|lead: Seq<char>|
                    decorated(lead, None, line@).flatten() == finish_line(lead, line@) by {
                    assert(decorated(lead, None, line@) =~= seq![finish_line(lead, line@)]);
                    lemma_flatten_single(finish_line(lead, line@));
                }
                if date {
                    let stamp = choose|stamp: Seq<char>|
                        decor_stamp_shape(stamp) && strings_view(lines@) == #[trigger] decorated(
                            fullprefix(stamp, prefix@),
                            None,
                            line@,
                        );
                    assert(r@ == finish_line(fullprefix(stamp, prefix@), line@));
                }
            }
            r
        },
        Err(e) => {
            proof {
                assert(decor_result_view(Err(e)) is Err);
            }
            String::new()
        },
    }
}

} // verus!
