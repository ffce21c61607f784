use vstd::prelude::*;

use vstd::utf8::encode_utf8;

use crate::clock::{decor_stamp_shape, lemma_decor_stamp_length, local_now_formatted, DECOR_STAMP_FORMAT};

verus! {

/// The pieces into which `s` is cut when every piece may hold at most `w`
/// characters: full pieces of exactly `w` characters are taken from the
/// front while more than `w` characters remain; what remains (possibly the
/// whole, possibly empty text) is the last piece.  A width of zero does not
/// cut.
pub open spec fn wrap_chunks(s: Seq<char>, w: nat) -> Seq<Seq<char>>
    decreases s.len(),
{
    if w > 0 && s.len() > w {
        seq![s.take(w as int)] + wrap_chunks(s.skip(w as int), w)
    } else {
        seq![s]
    }
}

/// The pieces of `s` under an optional width; no width leaves `s` whole.
pub open spec fn wrap_text(s: Seq<char>, width: Option<usize>) -> Seq<Seq<char>> {
    match width {
        Some(w) => wrap_chunks(s, w as nat),
        None => seq![s],
    }
}

/// The characters of an optional string slice.
pub open spec fn opt_str_view(o: Option<&str>) -> Option<Seq<char>> {
    match o {
        Some(s) => Some(s@),
        None => None,
    }
}

/// What a [`LineWrapper`] still holds: the text not handed out yet, if any,
/// and the width of the pieces.
pub struct LineWrapperView {
    pub rest: Option<Seq<char>>,
    pub width: Option<usize>,
}

impl LineWrapperView {
    /// The pieces that the wrapper will still hand out, in order.
    pub open spec fn pending(self) -> Seq<Seq<char>> {
        match self.rest {
            Some(r) => wrap_text(r, self.width),
            None => seq![],
        }
    }

    /// A measure that every step of the wrapper decreases.
    pub open spec fn measure(self) -> nat {
        match self.rest {
            Some(r) => r.len() + 1,
            None => 0,
        }
    }
}

/// Cuts a text into pieces of at most `width` characters.
#[derive(Debug)]
pub struct LineWrapper<'a> {
    rest: Option<&'a str>,
    width: Option<usize>,
}

impl<'a> View for LineWrapper<'a> {
    type V = LineWrapperView;

    closed spec fn view(&self) -> LineWrapperView {
        LineWrapperView { rest: opt_str_view(self.rest), width: self.width }
    }
}

impl<'a> LineWrapper<'a> {
    /// A wrapper that will hand out `text` in pieces of at most `width`
    /// characters (no width: in one piece).
    pub fn new(text: &'a str, width: Option<usize>) -> (r: Self)
        ensures
            r@ == (LineWrapperView { rest: Some(text@), width }),
    {
        LineWrapper { rest: Some(text), width }
    }

    /// Hands out the next piece.  While more than `width` characters are
    /// left, the next piece is the first `width` of them; otherwise it is
    /// all that is left, after which the wrapper is done.
    pub fn next(&mut self) -> (r: Option<&'a str>)
        ensures
            final(self)@.width == old(self)@.width,
            old(self)@.rest is None ==> r is None && final(self)@.rest is None,
            old(self)@.rest matches Some(rest) ==> match old(self)@.width {
                Some(w) if rest.len() > w => {
                    &&& opt_str_view(r) == Some(rest.take(w as int))
                    &&& final(self)@.rest == Some(rest.skip(w as int))
                },
                _ => {
                    &&& opt_str_view(r) == Some(rest)
                    &&& final(self)@.rest is None
                },
            },
            old(self)@.width != Some(0usize) ==> {
                &&& old(self)@.pending() == match r {
                    Some(piece) => seq![piece@] + final(self)@.pending(),
                    None => Seq::<Seq<char>>::empty(),
                }
                &&& (r is Some ==> final(self)@.measure() < old(self)@.measure())
            },
    {
        match self.rest {
            None => None,
            Some(rest) => {
                let n = rest.unicode_len();
                match self.width {
                    Some(w) => {
                        if n > w {
                            let current = rest.substring_char(0, w);
                            let tail = rest.substring_char(w, n);
                            self.rest = Some(tail);
                            proof {
                                assert(rest@.subrange(0, w as int) =~= rest@.take(w as int));
                                assert(rest@.subrange(w as int, n as int) =~= rest@.skip(w as int));
                            }
                            Some(current)
                        } else {
                            self.rest = None;
                            proof {
                                assert(seq![rest@] =~= seq![rest@] + Seq::<Seq<char>>::empty());
                            }
                            Some(rest)
                        }
                    },
                    None => {
                        self.rest = None;
                        proof {
                            assert(seq![rest@] =~= seq![rest@] + Seq::<Seq<char>>::empty());
                        }
                        Some(rest)
                    },
                }
            },
        }
    }
}


impl<'a> LineWrapper<'a> {
    /// Hands out all pieces that are left, in order.  A width of zero is
    /// left out: the wrapper would hand out empty pieces without end.
    pub fn collect_lines(self) -> (r: Vec<&'a str>)
        requires
            self@.width != Some(0usize),
        ensures
            r@.map_values(|s: &str| s@) == self@.pending(),
    {
        let mut wrapper = self;
        let mut out: Vec<&'a str> = Vec::new();
        let ghost all = self@.pending();
        loop
            invariant
                wrapper@.width == self@.width,
                self@.width != Some(0usize),
                all == self@.pending(),
                all == out@.map_values(|s: &str| s@) + wrapper@.pending(),
            decreases wrapper@.measure(),
        {
            let ghost before = out@.map_values(|s: &str| s@);
            let ghost pending_before = wrapper@.pending();
            match wrapper.next() {
                Some(piece) => {
                    out.push(piece);
                    proof {
                        assert(out@.map_values(|s: &str| s@) =~= before.push(piece@));
                        assert(before + (seq![piece@] + wrapper@.pending()) =~= before.push(piece@)
                            + wrapper@.pending());
                    }
                },
                None => {
                    proof {
                        assert(pending_before =~= Seq::<Seq<char>>::empty());
                        assert(all =~= out@.map_values(|s: &str| s@));
                    }
                    return out;
                },
            }
        }
    }
}

/// A sequence of one text flattens to that text.
pub proof fn lemma_flatten_single(s: Seq<char>)
    ensures
        seq![s].flatten() == s,
{
    assert(seq![s].drop_first() =~= Seq::<Seq<char>>::empty());
    assert(seq![s].flatten() =~= s + Seq::<Seq<char>>::empty().flatten());
}

/// Cutting loses and adds nothing: the pieces of a text, joined in order,
/// give back the text, whatever the width.
pub proof fn lemma_wrap_restores_text(s: Seq<char>, width: Option<usize>)
    ensures
        wrap_text(s, width).flatten() == s,
{
    match width {
        Some(w) => lemma_chunks_restore_text(s, w as nat),
        None => lemma_flatten_single(s),
    }
}

proof fn lemma_chunks_restore_text(s: Seq<char>, w: nat)
    ensures
        wrap_chunks(s, w).flatten() == s,
    decreases s.len(),
{
    if w > 0 && s.len() > w {
        lemma_chunks_restore_text(s.skip(w as int), w);
        let pieces = wrap_chunks(s, w);
        assert(pieces.first() == s.take(w as int));
        assert(pieces.drop_first() =~= wrap_chunks(s.skip(w as int), w));
        assert(s.take(w as int) + s.skip(w as int) =~= s);
    } else {
        lemma_flatten_single(s);
    }
}

/// With a positive width `w` there is at least one piece; no piece is longer
/// than `w`; every piece but the last has exactly `w` characters; and a
/// non-empty text gives no empty piece.
pub proof fn lemma_wrap_piece_lengths(s: Seq<char>, w: usize)
    requires
        w > 0,
    ensures
        wrap_chunks(s, w as nat).len() >= 1,
        forall|i: int| 0 <= i < wrap_chunks(s, w as nat).len()
            ==> #[trigger] wrap_chunks(s, w as nat)[i].len() <= w,
        forall|i: int| 0 <= i < wrap_chunks(s, w as nat).len() - 1
            ==> #[trigger] wrap_chunks(s, w as nat)[i].len() == w,
        s.len() > 0 ==> forall|i: int| 0 <= i < wrap_chunks(s, w as nat).len()
            ==> #[trigger] wrap_chunks(s, w as nat)[i].len() > 0,
    decreases s.len(),
{
    if s.len() > w {
        lemma_wrap_piece_lengths(s.skip(w as int), w);
        let rest = wrap_chunks(s.skip(w as int), w as nat);
        let pieces = wrap_chunks(s, w as nat);
        assert forall|i: int| 1 <= i < pieces.len() implies #[trigger] pieces[i] == rest[i - 1] by {}
    }
}

/// The number of pieces: one for a text of at most `w` characters, and
/// otherwise the number of `w`-character blocks needed to hold the text.
pub proof fn lemma_wrap_piece_count(s: Seq<char>, w: usize)
    requires
        w > 0,
    ensures
        wrap_chunks(s, w as nat).len() == if s.len() <= w {
            1
        } else {
            (s.len() + w - 1) / (w as int)
        },
    decreases s.len(),
{
    if s.len() > w {
        lemma_wrap_piece_count(s.skip(w as int), w);
        let n = s.len() as int;
        let k = w as int;
        assert(n - k <= k ==> (n + k - 1) / k == 2) by (nonlinear_arith)
            requires
                n > k,
                k > 0,
        ;
        assert(n - k > k ==> (n + k - 1) / k == (n - k + k - 1) / k + 1) by (nonlinear_arith)
            requires
                n > k,
                k > 0,
        ;
    }
}

/// The text that leads every decorated line: the stamp (empty when no date
/// is asked for) and the prefix, followed by one space unless both are empty.
pub open spec fn fullprefix(stamp: Seq<char>, prefix: Seq<char>) -> Seq<char> {
    let head = stamp + prefix;
    if head.len() == 0 {
        head
    } else {
        head.push(' ')
    }
}

/// How many characters of text fit on a line of `width` characters after a
/// lead of `lead_len` characters; no limit when there is no width or when
/// the lead leaves no room.
pub open spec fn content_width(lead_len: nat, width: Option<usize>) -> Option<usize> {
    match width {
        Some(w) => if lead_len < w {
            Some((w - lead_len) as usize)
        } else {
            None
        },
        None => None,
    }
}

/// True when `s` ends with a line feed.
pub open spec fn ends_with_newline(s: Seq<char>) -> bool {
    s.len() > 0 && s.last() == '\n'
}

/// One output line: the lead, the piece, and a line feed unless the piece
/// already ends with one.
pub open spec fn finish_line(lead: Seq<char>, piece: Seq<char>) -> Seq<char> {
    if ends_with_newline(piece) {
        lead + piece
    } else {
        lead + piece.push('\n')
    }
}

/// The lines that decorate `line` behind the lead `lead` on lines of
/// `width` characters.
pub open spec fn decorated(lead: Seq<char>, width: Option<usize>, line: Seq<char>) -> Seq<Seq<char>> {
    wrap_text(line, content_width(lead.len(), width)).map_values(|piece: Seq<char>| finish_line(lead, piece))
}

/// The characters of each string of a vector.
pub open spec fn strings_view(v: Seq<String>) -> Seq<Seq<char>> {
    v.map_values(|s: String| s@)
}

/// Every decorated line begins with the lead and ends with a line feed; a
/// line of text gives at least one decorated line; and when the lead leaves
/// room on lines of `w` characters, no decorated line shows more than `w`
/// characters before its line feed.
pub proof fn lemma_decorated_shape(lead: Seq<char>, width: Option<usize>, line: Seq<char>)
    ensures
        decorated(lead, width, line).len() >= 1,
        forall|i: int| 0 <= i < decorated(lead, width, line).len() ==> {
            &&& (#[trigger] decorated(lead, width, line)[i]).take(lead.len() as int) == lead
            &&& ends_with_newline(decorated(lead, width, line)[i])
        },
        width matches Some(w) ==> (lead.len() < w ==> forall|i: int|
            0 <= i < decorated(lead, width, line).len()
                ==> #[trigger] decorated(lead, width, line)[i].len() <= w + 1),
{
    let cw = content_width(lead.len(), width);
    let pieces = wrap_text(line, cw);
    if let Some(c) = cw {
        lemma_wrap_piece_lengths(line, c);
    }
    assert forall|i: int| 0 <= i < decorated(lead, width, line).len() implies {
        &&& (#[trigger] decorated(lead, width, line)[i]).take(lead.len() as int) == lead
        &&& ends_with_newline(decorated(lead, width, line)[i])
    } by {
        let piece = pieces[i];
        let o = finish_line(lead, piece);
        assert(decorated(lead, width, line)[i] == o);
        if ends_with_newline(piece) {
            assert(o.take(lead.len() as int) =~= lead);
            assert(o.last() == piece.last());
        } else {
            assert(o.take(lead.len() as int) =~= lead);
        }
    }
}

/// Joins the stamp and the prefix into the lead of a decorated line.
pub fn compose_fullprefix(stamp: &str, prefix: &str) -> (r: String)
    ensures
        r@ == fullprefix(stamp@, prefix@),
{
    let mut head = String::from_str(stamp);
    head.append(prefix);
    if head.unicode_len() == 0 {
        head
    } else {
        proof {
            reveal_strlit(" ");
        }
        head.append(" ");
        head
    }
}

fn str_ends_with_newline(s: &str) -> (r: bool)
    ensures
        r == ends_with_newline(s@),
{
    let n = s.unicode_len();
    if n == 0 {
        false
    } else {
        s.get_char(n - 1) == '\n'
    }
}

fn finish_piece(lead: &str, piece: &str) -> (r: String)
    ensures
        r@ == finish_line(lead@, piece@),
{
    let mut out = String::from_str(lead);
    out.append(piece);
    if !str_ends_with_newline(piece) {
        proof {
            reveal_strlit("\n");
        }
        out.append("\n");
        proof {
            assert(out@ =~= lead@ + piece@.push('\n'));
        }
    }
    out
}

/// Decorates one line of text behind the lead `lead`: the text is cut into
/// pieces that fit on lines of `width` characters after the lead, and each
/// piece becomes one output line.
pub fn decorate_line(lead: &str, width: Option<usize>, line: &str) -> (r: Vec<String>)
    ensures
        strings_view(r@) == decorated(lead@, width, line@),
        width matches Some(w) ==> (lead@.len() + line@.len() <= w ==> strings_view(r@) == seq![
            finish_line(lead@, line@),
        ]),
        width matches Some(w) ==> (lead@.len() < w ==> forall|i: int|
            0 <= i < r@.len() - 1 ==> #[trigger] r@[i]@.len() >= w),
{
    let lead_len = lead.unicode_len();
    let piece_width: Option<usize> = match width {
        Some(w) => if lead_len < w {
            Some(w - lead_len)
        } else {
            None
        },
        None => None,
    };
    let pieces = LineWrapper::new(line, piece_width).collect_lines();
    let ghost pieces_view = pieces@.map_values(|s: &str| s@);
    let mut out: Vec<String> = Vec::new();
    let n = pieces.len();
    for i in 0..n
        invariant
            n == pieces@.len(),
            pieces_view == pieces@.map_values(|s: &str| s@),
            pieces_view == wrap_text(line@, content_width(lead@.len(), width)),
            out@.len() == i,
            forall|j: int| 0 <= j < i ==> #[trigger] out@[j]@ == finish_line(lead@, pieces_view[j]),
    {
        out.push(finish_piece(lead, pieces[i]));
    }
    proof {
        assert(strings_view(out@) =~= decorated(lead@, width, line@));
        if let Some(w) = width {
            if lead@.len() < w {
                lemma_decorated_fills_width(lead@, w, line@);
                assert forall|i: int| 0 <= i < out@.len() - 1 implies #[trigger] out@[i]@.len() >= w by {
                    assert(strings_view(out@)[i] == out@[i]@);
                }
            } else {
                assert(content_width(lead@.len(), width) is None);
                assert(decorated(lead@, width, line@) =~= seq![finish_line(lead@, line@)]);
            }
        }
    }
    out
}

/// Errors of building a [`Decor`].
#[derive(Debug, Clone, Copy, PartialEq, Eq, Structural)]
pub enum DecorError {
    /// The lead of a line (stamp, prefix and separator) leaves no room for
    /// text on lines of `width` characters; `prefix_len` is the length of
    /// the prefix in bytes (UTF-8), as the error message reports it.
    PrefixTooLong { prefix_len: usize, width: usize },
}

/// The settings of a [`Decor`].
pub struct DecorView {
    pub prefix: Seq<char>,
    pub date: bool,
    pub width: Option<usize>,
}

/// Decorates lines with a prefix, optionally led by the current date and
/// time, wrapping them to a line width when one is given.
#[derive(Debug)]
pub struct Decor {
    prefix: String,
    date: bool,
    width: Option<usize>,
}

impl View for Decor {
    type V = DecorView;

    closed spec fn view(&self) -> DecorView {
        DecorView { prefix: self.prefix@, date: self.date, width: self.width }
    }
}

/// The stamp that a decor with or without date uses, given the clock's text.
pub open spec fn used_stamp(date: bool, stamp: Seq<char>) -> Seq<char> {
    if date {
        stamp
    } else {
        Seq::empty()
    }
}

/// What building a decor gives when the clock reads `stamp`.
pub open spec fn decor_outcome(prefix: Seq<char>, date: bool, width: Option<usize>, stamp: Seq<char>) -> Result<DecorView, DecorError> {
    match width {
        Some(w) if fullprefix(used_stamp(date, stamp), prefix).len() >= w => Err(
            DecorError::PrefixTooLong { prefix_len: encode_utf8(prefix).len() as usize, width: w },
        ),
        _ => Ok(DecorView { prefix, date, width }),
    }
}

/// The view of the result of building a decor.
pub open spec fn decor_result_view(r: Result<Decor, DecorError>) -> Result<DecorView, DecorError> {
    match r {
        Ok(d) => Ok(d@),
        Err(e) => Err(e),
    }
}

/// A decor built without date and with a width never shows more than that
/// many characters on a line before the line feed: the text is always cut to
/// what fits after the lead.
pub proof fn lemma_decor_lines_fit(prefix: Seq<char>, w: usize, line: Seq<char>)
    requires
        decor_outcome(prefix, false, Some(w), Seq::empty()) is Ok,
    ensures
        content_width(fullprefix(Seq::empty(), prefix).len(), Some(w)) is Some,
        forall|i: int| 0 <= i < decorated(fullprefix(Seq::empty(), prefix), Some(w), line).len()
            ==> #[trigger] decorated(fullprefix(Seq::empty(), prefix), Some(w), line)[i].len() <= w + 1,
{
    lemma_decorated_shape(fullprefix(Seq::empty(), prefix), Some(w), line);
}

/// Whether a dated decor can be built depends on the clock's text only
/// through its length: two stamps of the same length give the same outcome.
pub proof fn lemma_dated_outcome_by_stamp_length(
    prefix: Seq<char>,
    width: Option<usize>,
    s1: Seq<char>,
    s2: Seq<char>,
)
    requires
        s1.len() == s2.len(),
    ensures
        decor_outcome(prefix, true, width, s1) == decor_outcome(prefix, true, width, s2),
{
}

/// Every stamp of the decor's layout with a four-digit year (the years 1000
/// to 9999) has 30 characters, so whether a dated decor can be built does not
/// depend on the time at which it is built.
pub proof fn lemma_dated_outcome_independent_of_time(
    prefix: Seq<char>,
    width: Option<usize>,
    s1: Seq<char>,
    s2: Seq<char>,
)
    requires
        decor_stamp_shape(s1),
        decor_stamp_shape(s2),
        s1.take(s1.len() - 26).len() == 4,
        s2.take(s2.len() - 26).len() == 4,
    ensures
        s1.len() == 30,
        s2.len() == 30,
        decor_outcome(prefix, true, width, s1) == decor_outcome(prefix, true, width, s2),
{
    lemma_decor_stamp_length(s1);
    lemma_decor_stamp_length(s2);
}

/// A dated decor built with width `w` when the clock read `s1` cuts the text
/// of every later line whose stamp `s2` is no longer than `s1` (as with any
/// two stamps of four-digit years), and then shows at most `w` characters on
/// a line before the line feed.
pub proof fn lemma_dated_decor_lines_fit(
    prefix: Seq<char>,
    w: usize,
    s1: Seq<char>,
    s2: Seq<char>,
    line: Seq<char>,
)
    requires
        decor_outcome(prefix, true, Some(w), s1) is Ok,
        s2.len() <= s1.len(),
    ensures
        content_width(fullprefix(s2, prefix).len(), Some(w)) is Some,
        forall|i: int| 0 <= i < decorated(fullprefix(s2, prefix), Some(w), line).len()
            ==> #[trigger] decorated(fullprefix(s2, prefix), Some(w), line)[i].len() <= w + 1,
{
    lemma_decorated_shape(fullprefix(s2, prefix), Some(w), line);
}

/// Behind a lead of `l` characters on lines of `w > l` characters the text is
/// cut into pieces of exactly `w - l` characters: a text of at most `w - l`
/// characters gives the single line lead, text, line feed; every output line
/// but the last is filled to `w` characters (counting a line feed that ends
/// the text); and the number of lines is the number of `(w - l)`-character
/// blocks needed to hold the text.
pub proof fn lemma_decorated_fills_width(lead: Seq<char>, w: usize, line: Seq<char>)
    requires
        lead.len() < w,
    ensures
        lead.len() + line.len() <= w ==> decorated(lead, Some(w), line) == seq![
            finish_line(lead, line),
        ],
        forall|i: int| 0 <= i < decorated(lead, Some(w), line).len() - 1
            ==> #[trigger] decorated(lead, Some(w), line)[i].len() >= w,
        decorated(lead, Some(w), line).len() == if lead.len() + line.len() <= w {
            1
        } else {
            (line.len() + (w - lead.len()) - 1) / (w - lead.len())
        },
{
    let c = (w - lead.len()) as usize;
    assert(content_width(lead.len(), Some(w)) == Some(c));
    let pieces = wrap_chunks(line, c as nat);
    assert(decorated(lead, Some(w), line) == pieces.map_values(
        |piece: Seq<char>| finish_line(lead, piece),
    ));
    lemma_wrap_piece_lengths(line, c);
    lemma_wrap_piece_count(line, c);
    if lead.len() + line.len() <= w {
        assert(pieces == seq![line]);
        assert(decorated(lead, Some(w), line) =~= seq![finish_line(lead, line)]);
    }
    assert forall|i: int| 0 <= i < decorated(lead, Some(w), line).len() - 1
        implies #[trigger] decorated(lead, Some(w), line)[i].len() >= w by {
        assert(pieces[i].len() == c);
        assert(decorated(lead, Some(w), line)[i] == finish_line(lead, pieces[i]));
    }
}

/// A decor that is built keeps exactly the settings it was given: its prefix,
/// its date flag and its width.
pub proof fn lemma_built_decor_keeps_settings(
    prefix: Seq<char>,
    date: bool,
    width: Option<usize>,
    stamp: Seq<char>,
)
    ensures
        decor_outcome(prefix, date, width, stamp) matches Ok(v) ==> {
            &&& v.prefix == prefix
            &&& v.date == date
            &&& v.width == width
        },
{
}

/// When a decor can be built: always without a width; with a width `w`,
/// exactly when the stamp (used only with a date), the prefix and the
/// separating space (left out when both are empty) take fewer than `w`
/// characters.  Otherwise the error names the prefix's length in bytes and
/// the width.
pub proof fn lemma_decor_outcome_rule(
    prefix: Seq<char>,
    date: bool,
    width: Option<usize>,
    stamp: Seq<char>,
)
    ensures
        width is None ==> decor_outcome(prefix, date, width, stamp) is Ok,
        width matches Some(w) ==> {
            let head = (if date { stamp.len() } else { 0 }) + prefix.len();
            let lead_len = if head == 0 { 0 } else { head + 1 };
            &&& (decor_outcome(prefix, date, width, stamp) is Ok <==> lead_len < w)
            &&& (lead_len >= w ==> decor_outcome(prefix, date, width, stamp) == Err::<DecorView, DecorError>(
                DecorError::PrefixTooLong { prefix_len: encode_utf8(prefix).len() as usize, width: w },
            ))
        },
{
}

impl Decor {
    /// Well-formed: with a width, the lead without stamp leaves room for text.
    #[verifier::type_invariant]
    spec fn fits(self) -> bool {
        self.width matches Some(w) ==> fullprefix(Seq::empty(), self.prefix@).len() < w
    }

    /// Builds a decor as [`Decor::new`] does when the clock reads `stamp`.
    pub fn with_stamp(prefix: &str, date: bool, width: Option<usize>, stamp: &str) -> (r: Result<Self, DecorError>)
        ensures
            decor_result_view(r) == decor_outcome(prefix@, date, width, stamp@),
            r matches Ok(d) ==> d@ == (DecorView { prefix: prefix@, date, width }),
    {
        let used: &str = if date { stamp } else { "" };
        proof {
            reveal_strlit("");
            assert(used@ == used_stamp(date, stamp@));
        }
        if let Some(w) = width {
            let lead = compose_fullprefix(used, prefix);
            if lead.unicode_len() >= w {
                return Err(DecorError::PrefixTooLong { prefix_len: prefix.len(), width: w });
            }
        }
        Ok(Decor { prefix: String::from_str(prefix), date, width })
    }

    /// Builds a decor that leads each line with `prefix`, and with the date
    /// and time when `date` is set; with a `width`, lines are wrapped to that
    /// many characters.  Fails when the lead leaves no room for text; when a
    /// date is asked for, the lead's length depends on the clock's text.
    pub fn new(prefix: &str, date: bool, width: Option<usize>) -> (r: Result<Self, DecorError>)
        ensures
            r matches Ok(d) ==> d@ == (DecorView { prefix: prefix@, date, width }),
            width is None ==> r is Ok,
            !date ==> decor_result_view(r) == decor_outcome(prefix@, date, width, Seq::empty()),
            date ==> exists|stamp: Seq<char>|
                decor_stamp_shape(stamp) && decor_result_view(r) == #[trigger] decor_outcome(
                    prefix@,
                    date,
                    width,
                    stamp,
                ),
    {
        if date {
            let stamp = local_now_formatted(DECOR_STAMP_FORMAT);
            Self::with_stamp(prefix, date, width, stamp.as_str())
        } else {
            proof {
                reveal_strlit("");
            }
            Self::with_stamp(prefix, date, width, "")
        }
    }

    /// Decorates `line` as [`Decor::decorate`] does when the clock reads
    /// `stamp`.
    pub fn decorate_at(&self, stamp: &str, line: &str) -> (r: Vec<String>)
        ensures
            strings_view(r@) == decorated(
                fullprefix(used_stamp(self@.date, stamp@), self@.prefix),
                self@.width,
                line@,
            ),
    {
        let used: &str = if self.date { stamp } else { "" };
        proof {
            reveal_strlit("");
        }
        let lead = compose_fullprefix(used, self.prefix.as_str());
        decorate_line(lead.as_str(), self.width, line)
    }

    /// The output lines for one line of text: the lead (the stamp when a date
    /// is asked for, then the prefix, then a space unless both are empty) and
    /// as much of the text as fits on a line, repeated until the text is used
    /// up; each ends with a line feed.  When a fresh stamp leaves no room on a
    /// line, the text is not cut.
    pub fn decorate(&self, line: &str) -> (r: Vec<String>)
        ensures
            !self@.date ==> strings_view(r@) == decorated(fullprefix(Seq::empty(), self@.prefix), self@.width, line@),
            self@.date ==> exists|stamp: Seq<char>|
                decor_stamp_shape(stamp) && strings_view(r@) == #[trigger] decorated(
                    fullprefix(stamp, self@.prefix),
                    self@.width,
                    line@,
                ),
    {
        if self.date {
            let stamp = local_now_formatted(DECOR_STAMP_FORMAT);
            let r = self.decorate_at(stamp.as_str(), line);
            proof {
                assert(strings_view(r@) == decorated(fullprefix(stamp@, self@.prefix), self@.width, line@));
            }
            r
        } else {
            proof {
                reveal_strlit("");
            }
            self.decorate_at("", line)
        }
    }
}

} // verus!
