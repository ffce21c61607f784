use vstd::prelude::*;

verus! {

/// Layout of the stamp that leads a decorated line: date and time to the
/// millisecond with the offset from UTC (ISO 8601), then a space.
pub const DECOR_STAMP_FORMAT: &'static str = "%Y-%m-%dT%H:%M:%S%.3f%:z ";

/// Layout of the stamp of the single-line writer: date, a space, time to
/// the microsecond, then a space.
pub const WRITER_STAMP_FORMAT: &'static str = "%Y-%m-%d %H:%M:%S%.6f ";

/// An ASCII decimal digit.
pub open spec fn is_digit(c: char) -> bool {
    '0' <= c && c <= '9'
}

/// `c` fits the template character `t`: `'n'` stands for a digit, `'s'` for
/// a sign (`+` or `-`), any other character for itself.
pub open spec fn fits_template_char(c: char, t: char) -> bool {
    if t == 'n' {
        is_digit(c)
    } else if t == 's' {
        c == '+' || c == '-'
    } else {
        c == t
    }
}

/// `s` has the length of the template `t` and fits it character by character.
pub open spec fn fits_template(s: Seq<char>, t: Seq<char>) -> bool {
    &&& s.len() == t.len()
    &&& forall|i: int| 0 <= i < s.len() ==> #[trigger] fits_template_char(s[i], t[i])
}

/// A year as chrono writes it for `%Y`: four digits for the years 0 to 9999,
/// otherwise a sign and at least four digits (at most six in chrono's range).
pub open spec fn year_shape(y: Seq<char>) -> bool {
    ||| y.len() == 4 && forall|i: int| 0 <= i < 4 ==> #[trigger] is_digit(y[i])
    ||| 5 <= y.len() <= 7 && (y[0] == '+' || y[0] == '-') && forall|i: int|
        1 <= i < y.len() ==> #[trigger] is_digit(y[i])
}

/// What follows the year in a stamp of `DECOR_STAMP_FORMAT`:
/// `-MM-DDThh:mm:ss.mmm+hh:mm ` (`n` a digit, `s` the sign of the offset).
pub open spec fn decor_stamp_tail() -> Seq<char> {
    seq![
        '-', 'n', 'n', '-', 'n', 'n', 'T', 'n', 'n', ':', 'n', 'n', ':', 'n', 'n', '.', 'n', 'n',
        'n', 's', 'n', 'n', ':', 'n', 'n', ' ',
    ]
}

/// What follows the year in a stamp of `WRITER_STAMP_FORMAT`:
/// `-MM-DD hh:mm:ss.uuuuuu ` (`n` a digit).
pub open spec fn writer_stamp_tail() -> Seq<char> {
    seq![
        '-', 'n', 'n', '-', 'n', 'n', ' ', 'n', 'n', ':', 'n', 'n', ':', 'n', 'n', '.', 'n', 'n',
        'n', 'n', 'n', 'n', ' ',
    ]
}

/// The text of any reading of the clock under `DECOR_STAMP_FORMAT`.
pub open spec fn decor_stamp_shape(s: Seq<char>) -> bool {
    &&& s.len() >= 26
    &&& year_shape(s.take(s.len() - 26))
    &&& fits_template(s.skip(s.len() - 26), decor_stamp_tail())
}

/// The text of any reading of the clock under `WRITER_STAMP_FORMAT`.
pub open spec fn writer_stamp_shape(s: Seq<char>) -> bool {
    &&& s.len() >= 23
    &&& year_shape(s.take(s.len() - 23))
    &&& fits_template(s.skip(s.len() - 23), writer_stamp_tail())
}

/// A stamp of the decor's layout has 30 to 33 characters, exactly 30 when
/// the year has four digits, and ends with a space.
pub proof fn lemma_decor_stamp_length(s: Seq<char>)
    requires
        decor_stamp_shape(s),
    ensures
        30 <= s.len() <= 33,
        s.take(s.len() - 26).len() == 4 <==> s.len() == 30,
        s.last() == ' ',
{
    let tail = s.skip(s.len() - 26);
    assert(fits_template_char(tail[25], decor_stamp_tail()[25]));
    assert(tail[25] == s.last());
}

/// A stamp of the writer's layout has 27 to 30 characters and ends with a
/// space.
pub proof fn lemma_writer_stamp_length(s: Seq<char>)
    requires
        writer_stamp_shape(s),
    ensures
        27 <= s.len() <= 30,
        s.last() == ' ',
{
    let tail = s.skip(s.len() - 23);
    assert(fits_template_char(tail[22], writer_stamp_tail()[22]));
    assert(tail[22] == s.last());
}

/// The current local date and time, written by `chrono::offset::Local::now`
/// followed by `DateTime::format(fmt)` and `to_string`.
///
/// Which date and time come back depends on the clock and on the machine's
/// time zone, so only the shape of the text is claimed.  chrono writes each
/// field with a fixed width (`%m`, `%d`, `%H`, `%M`, `%S` two digits, `%.3f`
/// and `%.6f` a point and three or six digits, `%:z` a sign and `hh:mm`) and
/// `%Y` as four digits for the years 0 to 9999 and otherwise as a sign and
/// the digits of the year; the shapes above say exactly that.
///
/// `to_string` panics when the layout holds an escape that chrono does not
/// know; the layouts are therefore limited to the two above.  `Local::now`
/// also panics when the system clock reads a time before 1970 or beyond chrono's
/// range, or when the local time zone cannot be read; these depend on the
/// machine, not on an argument, and no precondition can exclude them.
#[verifier::external_body]
pub(crate) fn local_now_formatted(fmt: &str) -> (r: String)
    requires
        fmt@ == DECOR_STAMP_FORMAT@ || fmt@ == WRITER_STAMP_FORMAT@,
    ensures
        fmt@ == DECOR_STAMP_FORMAT@ ==> decor_stamp_shape(r@),
        fmt@ == WRITER_STAMP_FORMAT@ ==> writer_stamp_shape(r@),
{
    chrono::offset::Local::now().format(fmt).to_string()
}

} // verus!
