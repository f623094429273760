//! Terminal text layout by display width: measuring, truncating, padding and
//! wrapping mixed Chinese and English text. Widths come from `unicode-width`,
//! grapheme clusters from `unicode-segmentation`; the layout is verified on
//! top of them.

use crate::text::{chars_of, push_char, push_str, views};
use unicode_segmentation::UnicodeSegmentation;
use unicode_width::{UnicodeWidthChar, UnicodeWidthStr};
use vstd::prelude::*;

verus! {

broadcast use vstd::string::group_string_axioms;

/// Which side of a padded text the padding goes on.
#[derive(Debug, Clone, Copy, PartialEq, Eq, Structural)]
pub enum Align {
    Left,
    Right,
}

/// The display width in columns that `unicode_width` gives a string.
pub uninterp spec fn str_width(s: Seq<char>) -> usize;

/// The display width in columns that `unicode_width` gives a character,
/// 0 for control characters.
pub uninterp spec fn char_width(c: char) -> usize;

/// The extended grapheme clusters that `unicode_segmentation` splits a string
/// into.
pub uninterp spec fn grapheme_clusters(s: Seq<char>) -> Seq<Seq<char>>;

/// Printable ASCII (space to tilde).
pub open spec fn is_printable_ascii(c: char) -> bool {
    0x20 <= (c as u32) < 0x7F
}

/// The display width of `text` in terminal columns.
///
/// Trusted: calls `UnicodeWidthStr::width`. Claims that the result is the
/// crate's width of the string, and that a string of printable ASCII
/// characters is as wide as it is long (the crate's rules make a string's
/// width the sum of its characters' widths outside a list of ligatures and
/// emoji sequences, none of which is printable ASCII, and give each of
/// those characters width 1).
#[verifier::external_body]
pub fn display_width(text: &str) -> (w: usize)
    ensures
        w == str_width(text@),
        (forall|i: int| 0 <= i < text@.len() ==> is_printable_ascii(#[trigger] text@[i]))
            ==> w == text@.len(),
{
    UnicodeWidthStr::width(text)
}

/// Trusted: calls `UnicodeWidthChar::width`, mapping `None` (control
/// characters) to 0. Claims that the result is the crate's width of the
/// character, that it is at most 3 (the crate's tables store two-bit widths
/// and its one exception is 3), and that printable ASCII is 1 column wide.
#[verifier::external_body]
fn char_columns(c: char) -> (w: usize)
    ensures
        w == char_width(c),
        w <= 3,
        is_printable_ascii(c) ==> w == 1,
{
    UnicodeWidthChar::width(c).unwrap_or(0)
}

/// Trusted: calls `UnicodeSegmentation::graphemes` with extended clusters.
/// Claims that the result is the crate's segmentation of the string, that
/// the clusters are non-empty and that, joined in order, they give the
/// string back (the iterator hands out consecutive slices of the string
/// from its start to its end).
#[verifier::external_body]
fn clusters_of(text: &str) -> (gs: Vec<String>)
    ensures
        views(gs@) == grapheme_clusters(text@),
        views(gs@).flatten() == text@,
        forall|i: int| 0 <= i < gs@.len() ==> (#[trigger] gs@[i])@.len() > 0,
{
    text.graphemes(true).map(|g| g.to_string()).collect()
}


/// How many leading clusters of `gs` fit, one after the other, into
/// `budget` columns.
pub open spec fn fitting_count(gs: Seq<Seq<char>>, budget: int) -> nat
    decreases gs.len(),
{
    if gs.len() == 0 || str_width(gs[0]) > budget {
        0
    } else {
        1 + fitting_count(gs.drop_first(), budget - str_width(gs[0]))
    }
}

/// `text` cut to `width` columns: unchanged when it fits; otherwise the
/// leading grapheme clusters that fit into `width - 1` columns followed by
/// an ellipsis.
pub open spec fn truncated(text: Seq<char>, width: nat) -> Seq<char> {
    if str_width(text) <= width {
        text
    } else if width == 0 {
        Seq::empty()
    } else if width == 1 {
        seq!['…']
    } else {
        let gs = grapheme_clusters(text);
        gs.take(fitting_count(gs, width - 1) as int).flatten().push('…')
    }
}

/// `text` cut to at most `width` display columns, marked with an ellipsis
/// when something was cut.
pub fn truncate_to_width(text: &str, width: usize) -> (r: String)
    ensures
        r@ == truncated(text@, width as nat),
{
    if display_width(text) <= width {
        return text.to_string();
    }
    if width == 0 {
        return String::new();
    }
    if width == 1 {
        let mut out = String::new();
        push_char(&mut out, '…');
        assert(out@ =~= seq!['…']);
        return out;
    }
    let gs = clusters_of(text);
    let ghost g = grapheme_clusters(text@);
    let mut out = String::new();
    let budget = width - 1;
    let mut used: usize = 0;
    let mut i: usize = 0;
    assert(g.skip(0) =~= g);
    assert(g.take(0).flatten() =~= Seq::<char>::empty());
    while i < gs.len()
        invariant
            views(gs@) == g,
            i <= gs.len(),
            used <= budget,
            out@ == g.take(i as int).flatten(),
            fitting_count(g, budget as int) == i + fitting_count(g.skip(i as int), budget - used),
        ensures
            i <= gs.len(),
            used <= budget,
            out@ == g.take(i as int).flatten(),
            fitting_count(g, budget as int) == i + fitting_count(g.skip(i as int), budget - used),
            i == gs.len() || str_width(g[i as int]) > budget - used,
        decreases gs.len() - i,
    {
        let next = display_width(gs[i].as_str());
        assert(g.skip(i as int)[0] == g[i as int]);
        if next > budget - used {
            break;
        }
        push_str(&mut out, gs[i].as_str());
        proof {
            assert(g.skip(i as int).drop_first() =~= g.skip(i + 1));
            assert(g.take(i + 1) =~= g.take(i as int).push(g[i as int]));
            g.take(i as int).lemma_flatten_push(g[i as int]);
        }
        used = used + next;
        i += 1;
    }
    if i < gs.len() {
        assert(g.skip(i as int)[0] == g[i as int]);
    }
    assert(fitting_count(g.skip(i as int), budget - used) == 0);
    push_char(&mut out, '…');
    out
}

/// `n` spaces.
pub open spec fn spaces(n: nat) -> Seq<char> {
    Seq::new(n, |i: int| ' ')
}

/// `text` brought to exactly `width` columns as measured, padded with spaces
/// on the side that `align` leaves free, or truncated when it is too wide.
pub open spec fn padded(text: Seq<char>, width: nat, align: Align) -> Seq<char> {
    let current = str_width(text);
    if current >= width {
        truncated(text, width)
    } else {
        match align {
            Align::Left => text + spaces((width - current) as nat),
            Align::Right => spaces((width - current) as nat) + text,
        }
    }
}

fn space_string(n: usize) -> (s: String)
    ensures
        s@ == spaces(n as nat),
{
    let mut s = String::new();
    let mut i: usize = 0;
    while i < n
        invariant
            i <= n,
            s@ == spaces(i as nat),
        decreases n - i,
    {
        push_char(&mut s, ' ');
        i += 1;
        assert(s@ =~= spaces(i as nat));
    }
    s
}

/// `text` padded with spaces, or truncated, to `width` display columns.
pub fn pad_to_width(text: &str, width: usize, align: Align) -> (r: String)
    ensures
        r@ == padded(text@, width as nat, align),
{
    let current = display_width(text);
    if current >= width {
        return truncate_to_width(text, width);
    }
    let pad = space_string(width - current);
    match align {
        Align::Left => {
            let mut out = text.to_string();
            push_str(&mut out, pad.as_str());
            out
        },
        Align::Right => {
            let mut out = pad;
            push_str(&mut out, text);
            out
        },
    }
}


/// The width of a grapheme cluster as the sum of its characters' widths.
pub open spec fn cluster_cols(g: Seq<char>) -> int
    decreases g.len(),
{
    if g.len() == 0 {
        0
    } else {
        cluster_cols(g.drop_last()) + char_width(g.last())
    }
}

/// ASCII letters, digits and the underscore: what words are made of.
pub open spec fn is_word_char(c: char) -> bool {
    let u = c as u32;
    ||| 0x30 <= u <= 0x39
    ||| 0x41 <= u <= 0x5A
    ||| 0x61 <= u <= 0x7A
    ||| u == 0x5F
}

/// A cluster made only of word characters.
pub open spec fn is_word_cluster(g: Seq<char>) -> bool {
    forall|i: int| 0 <= i < g.len() ==> is_word_char(#[trigger] g[i])
}

/// How the lines of a wrapping were measured: the width of each finished
/// line, whether it holds a piece (a cluster or a whole word) wider than the
/// limit, and whether the line being filled holds one.
pub struct WrapMeasure {
    pub widths: Seq<int>,
    pub overs: Seq<bool>,
    pub line_over: bool,
}

/// The state of wrapping: the finished lines, the line being filled, its
/// width so far, the word still being collected, and the measures.
pub struct WrapState {
    pub lines: Seq<Seq<char>>,
    pub line: Seq<char>,
    pub line_width: int,
    pub word: Seq<char>,
    pub measure: WrapMeasure,
}

/// Ends the line being filled and starts an empty one.
pub open spec fn break_line(st: WrapState) -> WrapState {
    WrapState {
        lines: st.lines.push(st.line),
        line: Seq::empty(),
        line_width: 0,
        measure: WrapMeasure {
            widths: st.measure.widths.push(st.line_width),
            overs: st.measure.overs.push(st.measure.line_over),
            line_over: false,
        },
        ..st
    }
}

/// Appends `piece`, `piece_width` columns wide, to the line being filled.
pub open spec fn add_piece(st: WrapState, piece: Seq<char>, piece_width: int, width: int) -> WrapState {
    WrapState {
        line: st.line + piece,
        line_width: st.line_width + piece_width,
        measure: WrapMeasure { line_over: st.measure.line_over || piece_width > width, ..st.measure },
        ..st
    }
}

/// Starts a new line when `piece_width` more columns would not fit on a
/// non-empty line, then appends `piece`.
pub open spec fn place(st: WrapState, piece: Seq<char>, piece_width: int, width: int) -> WrapState {
    let st1 = if st.line_width > 0 && st.line_width + piece_width > width {
        break_line(st)
    } else {
        st
    };
    add_piece(st1, piece, piece_width, width)
}

/// Places one grapheme cluster, measured by its characters.
pub open spec fn place_cluster(st: WrapState, g: Seq<char>, width: int) -> WrapState {
    place(st, g, cluster_cols(g), width)
}

/// Places clusters one after the other.
pub open spec fn place_clusters(st: WrapState, gs: Seq<Seq<char>>, width: int) -> WrapState
    decreases gs.len(),
{
    if gs.len() == 0 {
        st
    } else {
        place_cluster(place_clusters(st, gs.drop_last(), width), gs.last(), width)
    }
}

/// Moves the pending word onto the line: whole when it is no wider than a
/// line (starting a new line first if it does not fit), otherwise cluster by
/// cluster.
pub open spec fn flushed(st: WrapState, width: int) -> WrapState {
    if st.word.len() == 0 {
        st
    } else {
        let ww = str_width(st.word) as int;
        let st1 = if st.line_width > 0 && st.line_width + ww > width {
            break_line(st)
        } else {
            st
        };
        let st2 = if ww <= width {
            add_piece(st1, st1.word, ww, width)
        } else {
            place_clusters(st1, grapheme_clusters(st.word), width)
        };
        WrapState { word: Seq::empty(), ..st2 }
    }
}

/// Takes one grapheme cluster of the text.
pub open spec fn wrap_step(st: WrapState, g: Seq<char>, width: int) -> WrapState {
    if g == seq!['\n'] {
        break_line(flushed(st, width))
    } else if is_word_cluster(g) {
        WrapState { word: st.word + g, ..st }
    } else {
        place_cluster(flushed(st, width), g, width)
    }
}

/// Takes the clusters one after the other.
pub open spec fn wrap_fold(st: WrapState, gs: Seq<Seq<char>>, width: int) -> WrapState
    decreases gs.len(),
{
    if gs.len() == 0 {
        st
    } else {
        wrap_step(wrap_fold(st, gs.drop_last(), width), gs.last(), width)
    }
}

/// The empty wrapping state.
pub open spec fn wrap_start() -> WrapState {
    WrapState {
        lines: Seq::empty(),
        line: Seq::empty(),
        line_width: 0,
        word: Seq::empty(),
        measure: empty_measure(),
    }
}

/// No line measured yet.
pub open spec fn empty_measure() -> WrapMeasure {
    WrapMeasure { widths: Seq::empty(), overs: Seq::empty(), line_over: false }
}

/// `text` broken into lines of at most `width` columns as measured: ASCII
/// words move to the next line whole when they fit on a line, other clusters
/// (Chinese among them) break anywhere, and newlines end lines.
pub open spec fn wrapped(text: Seq<char>, width: nat) -> Seq<Seq<char>> {
    if width == 0 {
        seq![Seq::empty()]
    } else {
        wrap_finish(wrap_end(text, width as int)).lines
    }
}

/// The state once every cluster of `text` is taken and the last word is
/// placed.
pub open spec fn wrap_end(text: Seq<char>, width: int) -> WrapState {
    flushed(wrap_fold(wrap_start(), grapheme_clusters(text), width), width)
}

/// Ends the last line unless it is empty and some line came before it.
pub open spec fn wrap_finish(st: WrapState) -> WrapState {
    if st.line.len() > 0 || st.lines.len() == 0 {
        break_line(st)
    } else {
        st
    }
}

/// The measures of the lines of [`wrapped`]: each line's width as the
/// wrapping measured it (a whole word by the crate's width of the word, any
/// other cluster by its characters' widths), and whether the line holds a
/// cluster or a word wider than `width`.
pub open spec fn wrapped_measure(text: Seq<char>, width: nat) -> WrapMeasure {
    if width == 0 {
        WrapMeasure { widths: seq![0], overs: seq![false], line_over: false }
    } else {
        wrap_finish(wrap_end(text, width as int)).measure
    }
}

/// Wrapping always gives at least one line.
pub proof fn lemma_wrapped_not_empty(text: Seq<char>, width: nat)
    ensures
        wrapped(text, width).len() >= 1,
{
}

/// A text that fits is not truncated, and truncating to zero columns gives
/// nothing.
pub proof fn lemma_truncate_fits(text: Seq<char>, width: nat)
    ensures
        str_width(text) <= width ==> truncated(text, width) == text,
        str_width(text) > width && width == 0 ==> truncated(text, width).len() == 0,
        str_width(text) > width && width > 0 ==> truncated(text, width).last() == '…',
{
}

/// The summed widths of clusters, each measured as a whole.
pub open spec fn cols_sum(gs: Seq<Seq<char>>) -> int
    decreases gs.len(),
{
    if gs.len() == 0 {
        0
    } else {
        str_width(gs[0]) + cols_sum(gs.drop_first())
    }
}

/// The leading clusters that fit into `budget` columns do fit, and the next
/// one, if any, would not.
proof fn lemma_fitting_count(gs: Seq<Seq<char>>, budget: int)
    requires
        budget >= 0,
    ensures
        fitting_count(gs, budget) <= gs.len(),
        cols_sum(gs.take(fitting_count(gs, budget) as int)) <= budget,
        fitting_count(gs, budget) < gs.len() ==> cols_sum(gs.take(fitting_count(gs, budget) as int))
            + str_width(gs[fitting_count(gs, budget) as int]) > budget,
    decreases gs.len(),
{
    let k = fitting_count(gs, budget) as int;
    if gs.len() == 0 || str_width(gs[0]) > budget {
        assert(gs.take(0) =~= Seq::<Seq<char>>::empty());
    } else {
        let rest = gs.drop_first();
        let b = budget - str_width(gs[0]);
        lemma_fitting_count(rest, b);
        assert(gs.take(k).drop_first() =~= rest.take(k - 1));
        assert(gs.take(k)[0] == gs[0]);
        if k < gs.len() {
            assert(gs[k] == rest[k - 1]);
        }
    }
}

/// A text too wide for `width` (at least two columns) keeps the leading
/// grapheme clusters that fit, measured one by one, into `width - 1`
/// columns, and the next cluster would not have fit; an ellipsis follows.
pub proof fn lemma_truncated_prefix_fits(text: Seq<char>, width: nat)
    requires
        str_width(text) > width,
        width >= 2,
    ensures
        ({
            let gs = grapheme_clusters(text);
            let k = fitting_count(gs, width - 1) as int;
            &&& k <= gs.len()
            &&& truncated(text, width) == gs.take(k).flatten().push('…')
            &&& cols_sum(gs.take(k)) <= width - 1
            &&& k < gs.len() ==> cols_sum(gs.take(k)) + str_width(gs[k]) > width - 1
        }),
{
    lemma_fitting_count(grapheme_clusters(text), width - 1);
}

/// Each finished line, and the line being filled, is no wider than `width`
/// or holds a piece wider than `width`; there is one measure per finished
/// line.
pub open spec fn fits_or_oversized(st: WrapState, width: int) -> bool {
    &&& st.measure.widths.len() == st.lines.len()
    &&& st.measure.overs.len() == st.lines.len()
    &&& forall|i: int|
        0 <= i < st.lines.len() ==> #[trigger] st.measure.widths[i] <= width || st.measure.overs[i]
    &&& st.line_width <= width || st.measure.line_over
}

proof fn lemma_break_keeps_fit(st: WrapState, width: int)
    requires
        fits_or_oversized(st, width),
        width >= 0,
    ensures
        fits_or_oversized(break_line(st), width),
{
    let b = break_line(st);
    assert forall|i: int| 0 <= i < b.lines.len() implies #[trigger] b.measure.widths[i] <= width
        || b.measure.overs[i] by {
        if i < st.lines.len() {
            assert(b.measure.widths[i] == st.measure.widths[i]);
            assert(b.measure.overs[i] == st.measure.overs[i]);
        } else {
            assert(b.measure.widths[i] == st.line_width);
            assert(b.measure.overs[i] == st.measure.line_over);
        }
    }
}

proof fn lemma_place_keeps_fit(st: WrapState, piece: Seq<char>, piece_width: int, width: int)
    requires
        fits_or_oversized(st, width),
        width >= 0,
    ensures
        fits_or_oversized(place(st, piece, piece_width, width), width),
{
    lemma_break_keeps_fit(st, width);
}

proof fn lemma_place_clusters_keeps_fit(st: WrapState, gs: Seq<Seq<char>>, width: int)
    requires
        fits_or_oversized(st, width),
        width >= 0,
    ensures
        fits_or_oversized(place_clusters(st, gs, width), width),
    decreases gs.len(),
{
    if gs.len() > 0 {
        lemma_place_clusters_keeps_fit(st, gs.drop_last(), width);
        lemma_place_keeps_fit(place_clusters(st, gs.drop_last(), width), gs.last(), cluster_cols(gs.last()), width);
    }
}

proof fn lemma_flushed_keeps_fit(st: WrapState, width: int)
    requires
        fits_or_oversized(st, width),
        width >= 0,
    ensures
        fits_or_oversized(flushed(st, width), width),
{
    if st.word.len() > 0 {
        lemma_break_keeps_fit(st, width);
        let ww = str_width(st.word) as int;
        let st1 = if st.line_width > 0 && st.line_width + ww > width {
            break_line(st)
        } else {
            st
        };
        if ww > width {
            lemma_place_clusters_keeps_fit(st1, grapheme_clusters(st.word), width);
        }
    }
}

proof fn lemma_fold_keeps_fit(gs: Seq<Seq<char>>, width: int)
    requires
        width >= 0,
    ensures
        fits_or_oversized(wrap_fold(wrap_start(), gs, width), width),
    decreases gs.len(),
{
    if gs.len() > 0 {
        lemma_fold_keeps_fit(gs.drop_last(), width);
        let st = wrap_fold(wrap_start(), gs.drop_last(), width);
        lemma_flushed_keeps_fit(st, width);
        lemma_break_keeps_fit(flushed(st, width), width);
        lemma_place_keeps_fit(flushed(st, width), gs.last(), cluster_cols(gs.last()), width);
    }
}

/// Every line of [`wrapped`] is, as the wrapping measured it, no wider than
/// `width`, unless it holds a single cluster or word that is wider than
/// `width` on its own.
pub proof fn lemma_wrapped_lines_fit(text: Seq<char>, width: nat)
    ensures
        wrapped_measure(text, width).widths.len() == wrapped(text, width).len(),
        wrapped_measure(text, width).overs.len() == wrapped(text, width).len(),
        forall|i: int|
            0 <= i < wrapped(text, width).len() ==> #[trigger] wrapped_measure(text, width).widths[i]
                <= width || wrapped_measure(text, width).overs[i],
{
    if width > 0 {
        let w = width as int;
        lemma_fold_keeps_fit(grapheme_clusters(text), w);
        lemma_flushed_keeps_fit(wrap_fold(wrap_start(), grapheme_clusters(text), w), w);
        lemma_break_keeps_fit(wrap_end(text, w), w);
    }
}

/// A word no wider than a line is never split: flushing it puts it whole at
/// the end of the line being filled, which is first ended when the word
/// does not fit after what it holds.
pub proof fn lemma_short_word_whole(st: WrapState, width: int)
    requires
        st.word.len() > 0,
        str_width(st.word) <= width,
    ensures
        (flushed(st, width).lines == st.lines && flushed(st, width).line == st.line + st.word)
            || (flushed(st, width).lines == st.lines.push(st.line) && flushed(st, width).line
            == st.word),
{
    assert(Seq::<char>::empty() + st.word =~= st.word);
}

/// Grapheme clusters made only of ASCII letters, digits and underscores are
/// collected, in order, into the pending word: nothing is placed on a line
/// while a word is being read, so a word reaches the lines only whole (or,
/// when wider than a line, cluster by cluster).
pub proof fn lemma_word_clusters_collect(st: WrapState, gs: Seq<Seq<char>>, width: int)
    requires
        forall|k: int, j: int|
            0 <= k < gs.len() && 0 <= j < gs[k].len() ==> {
                let c = #[trigger] gs[k][j];
                ('0' <= c && c <= '9') || ('A' <= c && c <= 'Z') || ('a' <= c && c <= 'z') || c == '_'
            },
    ensures
        wrap_fold(st, gs, width) == (WrapState { word: st.word + gs.flatten(), ..st }),
    decreases gs.len(),
{
    if gs.len() == 0 {
        assert(st.word + gs.flatten() =~= st.word);
    } else {
        let init = gs.drop_last();
        let g = gs.last();
        assert forall|k: int, j: int| 0 <= k < init.len() && 0 <= j < init[k].len() implies {
            let c = #[trigger] init[k][j];
            ('0' <= c && c <= '9') || ('A' <= c && c <= 'Z') || ('a' <= c && c <= 'z') || c == '_'
        } by {
            assert(init[k] == gs[k]);
            assert(init[k][j] == gs[k][j]);
        }
        lemma_word_clusters_collect(st, init, width);
        assert forall|j: int| 0 <= j < g.len() implies is_word_char(#[trigger] g[j]) by {
            assert(g[j] == gs[gs.len() - 1][j]);
        }
        if g == seq!['\n'] {
            assert(g[0] == gs[gs.len() - 1][0]);
            assert(false);
        }
        lemma_flatten_last(gs);
        assert(st.word + init.flatten() + g =~= st.word + gs.flatten());
    }
}

/// A cluster other than a newline that holds a character outside ASCII
/// letters, digits and underscores ends the pending word: the word is
/// placed and no word is pending afterwards.
pub proof fn lemma_other_cluster_ends_word(st: WrapState, g: Seq<char>, width: int, j: int)
    requires
        g != seq!['\n'],
        0 <= j < g.len(),
        ({
            let u = g[j] as u32;
            !((0x30 <= u && u <= 0x39) || (0x41 <= u && u <= 0x5A) || (0x61 <= u && u <= 0x7A) || u
                == 0x5F)
        }),
    ensures
        wrap_step(st, g, width).word.len() == 0,
{
    assert(!is_word_cluster(g));
}

/// Text narrower than `width` is kept as it is and padded with spaces on
/// the side that `align` leaves free, exactly as many as the columns it
/// lacks: `width - str_width(text)`.
pub proof fn lemma_pad_fills_missing_columns(text: Seq<char>, width: nat, align: Align)
    requires
        str_width(text) < width,
    ensures
        ({
            let r = padded(text, width, align);
            let n = width - str_width(text);
            &&& r.len() == text.len() + n
            &&& match align {
                Align::Left => r.take(text.len() as int) == text && forall|j: int|
                    text.len() <= j < r.len() ==> #[trigger] r[j] == ' ',
                Align::Right => r.skip(n) == text && forall|j: int| 0 <= j < n ==> #[trigger] r[j] == ' ',
            }
        }),
{
    let r = padded(text, width, align);
    let n = width - str_width(text);
    match align {
        Align::Left => {
            assert(r.take(text.len() as int) =~= text);
        },
        Align::Right => {
            assert(r.skip(n) =~= text);
        },
    }
}

/// The clusters of `gs` other than newlines, joined.
pub open spec fn kept(gs: Seq<Seq<char>>) -> Seq<char>
    decreases gs.len(),
{
    if gs.len() == 0 {
        Seq::empty()
    } else if gs.last() == seq!['\n'] {
        kept(gs.drop_last())
    } else {
        kept(gs.drop_last()) + gs.last()
    }
}


/// A cluster is no longer than the clusters joined.
proof fn lemma_cluster_len(gs: Seq<Seq<char>>, i: int)
    requires
        0 <= i < gs.len(),
    ensures
        gs[i].len() <= gs.flatten().len(),
    decreases gs.len(),
{
    if i > 0 {
        lemma_cluster_len(gs.drop_first(), i - 1);
    }
}

/// Joining clusters one more at the end.
proof fn lemma_flatten_last(gs: Seq<Seq<char>>)
    requires
        gs.len() > 0,
    ensures
        gs.flatten() == gs.drop_last().flatten() + gs.last(),
{
    gs.drop_last().lemma_flatten_push(gs.last());
    assert(gs.drop_last().push(gs.last()) =~= gs);
}

/// A prefix of the clusters joins to no more than all of them.
proof fn lemma_take_flatten_len(gs: Seq<Seq<char>>, i: int)
    requires
        0 <= i <= gs.len(),
    ensures
        gs.take(i).flatten().len() <= gs.flatten().len(),
{
    vstd::seq_lib::lemma_flatten_concat(gs.take(i), gs.skip(i));
    assert(gs.take(i) + gs.skip(i) =~= gs);
}

/// What is kept of the clusters is no longer than all of them.
proof fn lemma_kept_len(gs: Seq<Seq<char>>)
    ensures
        kept(gs).len() <= gs.flatten().len(),
    decreases gs.len(),
{
    if gs.len() > 0 {
        lemma_kept_len(gs.drop_last());
        lemma_flatten_last(gs);
    }
}

/// Placing a piece adds it to the end of what the lines hold.
proof fn lemma_place_content(st: WrapState, piece: Seq<char>, piece_width: int, width: int)
    ensures
        place(st, piece, piece_width, width).lines.flatten() + place(
            st,
            piece,
            piece_width,
            width,
        ).line == st.lines.flatten() + st.line + piece,
        place(st, piece, piece_width, width).word == st.word,
{
    if st.line_width > 0 && st.line_width + piece_width > width {
        st.lines.lemma_flatten_push(st.line);
    }
}

fn cluster_width(g: &str) -> (w: usize)
    requires
        3 * g@.len() <= usize::MAX,
    ensures
        w == cluster_cols(g@),
{
    let v = chars_of(g);
    let mut sum: usize = 0;
    let mut i: usize = 0;
    assert(v@.take(0) =~= Seq::<char>::empty());
    while i < v.len()
        invariant
            i <= v.len(),
            v@ == g@,
            3 * g@.len() <= usize::MAX,
            sum == cluster_cols(v@.take(i as int)),
            sum <= 3 * i,
        decreases v.len() - i,
    {
        let c = char_columns(v[i]);
        assert(v@.take(i + 1).drop_last() =~= v@.take(i as int));
        sum = sum + c;
        i += 1;
    }
    assert(v@.take(v.len() as int) =~= v@);
    sum
}

fn word_cluster(g: &str) -> (b: bool)
    ensures
        b == is_word_cluster(g@),
{
    let v = chars_of(g);
    let mut i: usize = 0;
    while i < v.len()
        invariant
            i <= v.len(),
            v@ == g@,
            forall|j: int| 0 <= j < i ==> is_word_char(#[trigger] v@[j]),
        decreases v.len() - i,
    {
        let u = v[i] as u32;
        if !((0x30 <= u && u <= 0x39) || (0x41 <= u && u <= 0x5A) || (0x61 <= u && u <= 0x7A) || u
            == 0x5F) {
            return false;
        }
        i += 1;
    }
    true
}

fn newline_cluster(g: &str) -> (b: bool)
    ensures
        b == (g@ == seq!['\n']),
{
    let v = chars_of(g);
    if v.len() == 1 && v[0] == '\n' {
        assert(v@ =~= seq!['\n']);
        true
    } else {
        assert(v@.len() == 1 ==> v@[0] != seq!['\n'][0]);
        false
    }
}

/// The wrapping state held by the exec variables.
pub open spec fn state_of(
    lines: Seq<String>,
    line: Seq<char>,
    line_width: usize,
    word: Seq<char>,
    measure: WrapMeasure,
) -> WrapState {
    WrapState { lines: views(lines), line, line_width: line_width as int, word, measure }
}

fn push_grapheme(
    grapheme: &str,
    line: &mut String,
    line_width: &mut usize,
    width: usize,
    lines: &mut Vec<String>,
)
    requires
        3 * grapheme@.len() <= usize::MAX,
    ensures
        ({
            let r = place_cluster(
                state_of(old(lines)@, old(line)@, *old(line_width), Seq::empty(), empty_measure()),
                grapheme@,
                width as int,
            );
            &&& views(final(lines)@) == r.lines
            &&& final(line)@ == r.line
            &&& *final(line_width) as int == r.line_width
        }),
        views(final(lines)@).flatten() + final(line)@ == views(old(lines)@).flatten() + old(line)@
            + grapheme@,
{
    proof {
        lemma_place_content(
            state_of(old(lines)@, old(line)@, *old(line_width), Seq::empty(), empty_measure()),
            grapheme@,
            cluster_cols(grapheme@),
            width as int,
        );
    }
    let gw = cluster_width(grapheme);
    if *line_width > 0 && (*line_width > width || gw > width - *line_width) {
        let ghost before = lines@;
        lines.push(line.clone());
        assert(views(lines@) =~= views(before).push(old(line)@));
        *line = String::new();
        *line_width = 0;
    }
    push_str(line, grapheme);
    *line_width = *line_width + gw;
}

fn flush_word(
    word: &mut String,
    line: &mut String,
    line_width: &mut usize,
    width: usize,
    lines: &mut Vec<String>,
    Ghost(m): Ghost<WrapMeasure>,
)
    requires
        3 * old(word)@.len() <= usize::MAX,
    ensures
        ({
            let r = flushed(state_of(old(lines)@, old(line)@, *old(line_width), old(word)@, m), width as int);
            state_of(final(lines)@, final(line)@, *final(line_width), final(word)@, r.measure) == r
        }),
        views(final(lines)@).flatten() + final(line)@ == views(old(lines)@).flatten() + old(line)@
            + old(word)@,
        final(word)@.len() == 0,
{
    let ghost st0 = state_of(lines@, line@, *line_width, word@, m);
    if word.as_str().is_empty() {
        assert(word@ =~= Seq::<char>::empty());
        assert(line@ + word@ =~= line@);
        return ;
    }
    let ghost mut gm = m;
    let ww = display_width(word.as_str());
    if *line_width > 0 && (*line_width > width || ww > width - *line_width) {
        let ghost before = lines@;
        lines.push(line.clone());
        assert(views(lines@) =~= views(before).push(st0.line));
        proof {
            views(before).lemma_flatten_push(st0.line);
            gm = break_line(st0).measure;
        }
        *line = String::new();
        *line_width = 0;
    }
    let ghost st1 = state_of(lines@, line@, *line_width, word@, gm);
    assert(views(lines@).flatten() + line@ =~= st0.lines.flatten() + st0.line);
    if ww <= width {
        push_str(line, word.as_str());
        *line_width = *line_width + ww;
        proof {
            gm = add_piece(st1, st1.word, ww as int, width as int).measure;
        }
    } else {
        let gs = clusters_of(word.as_str());
        let ghost g = grapheme_clusters(st0.word);
        let mut i: usize = 0;
        assert(g.take(0) =~= Seq::<Seq<char>>::empty());
        while i < gs.len()
            invariant
                views(gs@) == g,
                g.flatten() == st0.word,
                3 * st0.word.len() <= usize::MAX,
                i <= gs.len(),
                state_of(lines@, line@, *line_width, st0.word, gm) == place_clusters(
                    st1,
                    g.take(i as int),
                    width as int,
                ),
                views(lines@).flatten() + line@ == st0.lines.flatten() + st0.line + g.take(
                    i as int,
                ).flatten(),
            decreases gs.len() - i,
        {
            proof {
                lemma_cluster_len(g, i as int);
                assert(g.take(i + 1).drop_last() =~= g.take(i as int));
                lemma_flatten_last(g.take(i + 1));
            }
            let ghost mid = state_of(lines@, line@, *line_width, st0.word, gm);
            push_grapheme(gs[i].as_str(), line, line_width, width, lines);
            proof {
                let r = place_cluster(mid, g[i as int], width as int);
                let r0 = place_cluster(
                    WrapState { word: Seq::empty(), measure: empty_measure(), ..mid },
                    g[i as int],
                    width as int,
                );
                assert(r.lines == r0.lines && r.line == r0.line && r.line_width == r0.line_width);
                gm = r.measure;
                assert(r.word == st0.word);
            }
            i += 1;
        }
        assert(g.take(g.len() as int) =~= g);
    }
    *word = String::new();
}


/// `text` broken into lines that fit `width` display columns (see
/// [`wrapped`]). Every character of the text other than line breaks lands
/// in exactly one line, in order.
pub fn wrap_to_width(text: &str, width: usize) -> (lines: Vec<String>)
    requires
        3 * text@.len() <= usize::MAX,
    ensures
        views(lines@) == wrapped(text@, width as nat),
        width > 0 ==> views(lines@).flatten() == kept(grapheme_clusters(text@)),
{
    if width == 0 {
        let mut v: Vec<String> = Vec::new();
        v.push(String::new());
        assert(views(v@) =~= seq![Seq::<char>::empty()]);
        return v;
    }
    let gs = clusters_of(text);
    let ghost g = grapheme_clusters(text@);
    let mut lines: Vec<String> = Vec::new();
    let mut line = String::new();
    let mut line_width: usize = 0;
    let mut word = String::new();
    let mut i: usize = 0;
    let ghost mut m = empty_measure();
    assert(g.take(0) =~= Seq::<Seq<char>>::empty());
    assert(views(lines@) =~= Seq::<Seq<char>>::empty());
    assert(state_of(lines@, line@, line_width, word@, m) == wrap_start());
    while i < gs.len()
        invariant
            views(gs@) == g,
            g.flatten() == text@,
            3 * text@.len() <= usize::MAX,
            width > 0,
            i <= gs.len(),
            state_of(lines@, line@, line_width, word@, m) == wrap_fold(
                wrap_start(),
                g.take(i as int),
                width as int,
            ),
            views(lines@).flatten() + line@ + word@ == kept(g.take(i as int)),
        decreases gs.len() - i,
    {
        proof {
            lemma_cluster_len(g, i as int);
            assert(g.take(i + 1).drop_last() =~= g.take(i as int));
            assert(g.take(i + 1).last() == g[i as int]);
            lemma_kept_len(g.take(i as int));
            lemma_take_flatten_len(g, i as int);
        }
        let ghost st = state_of(lines@, line@, line_width, word@, m);
        let ghost before = views(lines@).flatten() + line@ + word@;
        let gr = gs[i].as_str();
        if newline_cluster(gr) {
            flush_word(&mut word, &mut line, &mut line_width, width, &mut lines, Ghost(m));
            proof {
                m = flushed(st, width as int).measure;
            }
            let ghost mid = lines@;
            let ghost fl = state_of(lines@, line@, line_width, word@, m);
            lines.push(line.clone());
            proof {
                assert(views(lines@) =~= views(mid).push(line@));
                views(mid).lemma_flatten_push(line@);
                m = break_line(fl).measure;
            }
            line = String::new();
            line_width = 0;
            assert(views(lines@).flatten() + line@ + word@ =~= before);
        } else if word_cluster(gr) {
            push_str(&mut word, gr);
            assert(views(lines@).flatten() + line@ + word@ =~= before + g[i as int]);
            assert(g[i as int] != seq!['\n']) by {
                if g[i as int] == seq!['\n'] {
                    assert(is_word_char(g[i as int][0]));
                }
            }
        } else {
            flush_word(&mut word, &mut line, &mut line_width, width, &mut lines, Ghost(m));
            proof {
                m = flushed(st, width as int).measure;
            }
            let ghost mid = state_of(lines@, line@, line_width, word@, m);
            push_grapheme(gr, &mut line, &mut line_width, width, &mut lines);
            proof {
                let r = place_cluster(mid, g[i as int], width as int);
                let r0 = place_cluster(
                    WrapState { word: Seq::empty(), measure: empty_measure(), ..mid },
                    g[i as int],
                    width as int,
                );
                assert(r.lines == r0.lines && r.line == r0.line && r.line_width == r0.line_width);
                assert(mid.word =~= Seq::<char>::empty());
                m = r.measure;
            }
            assert(views(lines@).flatten() + line@ + word@ =~= before + g[i as int]);
        }
        i += 1;
    }
    proof {
        assert(g.take(g.len() as int) =~= g);
        lemma_kept_len(g);
    }
    flush_word(&mut word, &mut line, &mut line_width, width, &mut lines, Ghost(m));
    if !line.as_str().is_empty() || lines.len() == 0 {
        let ghost mid = lines@;
        lines.push(line);
        proof {
            assert(views(lines@) =~= views(mid).push(line@));
            views(mid).lemma_flatten_push(line@);
        }
    } else {
        assert(line@ =~= Seq::<char>::empty());
        assert(views(lines@).flatten() + line@ =~= views(lines@).flatten());
    }
    lines
}

} // verus!
