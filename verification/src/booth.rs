//! The music booth modal's text: the queue rows with their fixed-width
//! columns, the now-playing line, the submit row and the key hints. Cell
//! widths follow `unicode-width`; the front end maps each tone to the
//! theme's colours.

use unicode_width::{UnicodeWidthChar, UnicodeWidthStr};
use vstd::prelude::*;

use crate::audio::{AudioMode, QueueItemView, SkipProgress};
use crate::text::{dec, push_char, push_decimal, push_str};

verus! {

// ---------------------------------------------------------------------------
// Display widths

/// The columns `UnicodeWidthStr::width` gives a string.
pub uninterp spec fn str_cells(s: Seq<char>) -> usize;

/// The columns `UnicodeWidthChar::width` gives a character (`None` for a
/// control character).
pub uninterp spec fn char_cells(c: char) -> Option<usize>;

/// Whether `c` is printable ASCII, a space through `~`.
pub open spec fn printable_ascii(c: char) -> bool {
    0x20 <= (c as u32) <= 0x7E
}

/// A character that takes one column wherever it stands: printable ASCII,
/// the ellipsis `…` and the marker `›`.
pub open spec fn narrow_plain(c: char) -> bool {
    printable_ascii(c) || c == '\u{2026}' || c == '\u{203a}'
}

/// Text made only of such characters.
pub open spec fn narrow_text(s: Seq<char>) -> bool {
    forall|i: int| 0 <= i < s.len() ==> narrow_plain(#[trigger] s[i])
}

/// Calls `UnicodeWidthStr::width(s)`, the displayed width of `s` in
/// columns (East Asian ambiguous characters count one). The contract names
/// it and states what the crate's right-to-left fold gives: text of
/// printable ASCII, `…` and `›` takes one column a character (none of them
/// starts or continues a special sequence), and spaces before or after
/// any text add one column each (a space never joins a sequence, and the
/// text beside it is measured as on its own).
#[verifier::external_body]
fn str_width(s: &str) -> (r: usize)
    ensures
        r == str_cells(s@),
        narrow_text(s@) ==> r == s@.len(),
        forall|k: int|
            0 <= k <= s@.len() && s@.skip(k) == spaces(s@.len() - k) && str_cells(
                #[trigger] s@.take(k),
            ) + (s@.len() - k) <= usize::MAX ==> r == str_cells(s@.take(k)) + (s@.len() - k),
        forall|k: int|
            0 <= k <= s@.len() && s@.take(k) == spaces(k) && k + str_cells(#[trigger] s@.skip(k))
                <= usize::MAX ==> r == k + str_cells(s@.skip(k)),
{
    UnicodeWidthStr::width(s)
}

/// Calls `UnicodeWidthChar::width(c)`: the character's displayed width in
/// columns, `None` for a control character. The contract names it, and
/// states that printable ASCII, `…` and `›` take one column.
#[verifier::external_body]
fn char_width(c: char) -> (r: Option<usize>)
    ensures
        r == char_cells(c),
        narrow_plain(c) ==> r == Some(1usize),
{
    UnicodeWidthChar::width(c)
}

/// `n` spaces.
pub open spec fn spaces(n: int) -> Seq<char> {
    Seq::new(if n > 0 {
        n as nat
    } else {
        0
    }, |i: int| ' ')
}

fn push_spaces(s: &mut String, n: usize)
    ensures
        final(s)@ == old(s)@ + spaces(n as int),
{
    let mut i: usize = 0;
    while i < n
        invariant
            i <= n,
            s@ == old(s)@ + spaces(i as int),
        decreases n - i,
    {
        push_char(s, ' ');
        i = i + 1;
        assert(s@ =~= old(s)@ + spaces(i as int));
    }
}

/// `text` followed by the spaces that bring it to `width` columns; it
/// then takes `width` columns, or as many as `text` when that is more.
pub fn pad_right(text: &str, width: usize) -> (r: String)
    ensures
        r@ == text@ + spaces(width - str_cells(text@)),
        str_cells(r@) == max_int(width as int, str_cells(text@) as int),
{
    let used = str_width(text);
    let mut out = String::new();
    push_str(&mut out, text);
    let gap: usize = if width > used {
        width - used
    } else {
        0
    };
    push_spaces(&mut out, gap);
    let total = str_width(out.as_str());
    proof {
        let k = text@.len() as int;
        assert(out@.take(k) =~= text@);
        assert(out@.skip(k) =~= spaces(gap as int));
        if gap == 0 {
            assert(out@ =~= text@);
        }
    }
    out
}

/// The spaces that bring `text` to `width` columns, then `text`; it then
/// takes `width` columns, or as many as `text` when that is more.
pub fn pad_left(text: &str, width: usize) -> (r: String)
    ensures
        r@ == spaces(width - str_cells(text@)) + text@,
        str_cells(r@) == max_int(width as int, str_cells(text@) as int),
{
    let used = str_width(text);
    let mut out = String::new();
    let gap: usize = if width > used {
        width - used
    } else {
        0
    };
    push_spaces(&mut out, gap);
    push_str(&mut out, text);
    let total = str_width(out.as_str());
    proof {
        let k = gap as int;
        assert(out@.take(k) =~= spaces(gap as int));
        assert(out@.skip(k) =~= text@);
        if gap == 0 {
            assert(out@ =~= text@);
        }
    }
    out
}

pub open spec fn max_int(a: int, b: int) -> int {
    if a < b {
        b
    } else {
        a
    }
}

pub open spec fn cells_or_zero(c: char) -> int {
    match char_cells(c) {
        Some(w) => w as int,
        None => 0,
    }
}

/// The leading characters of `s` that fit in fewer than `width` columns
/// once `used` are taken, stopping at the first that does not.
pub open spec fn fit_prefix(s: Seq<char>, width: int, used: int) -> Seq<char>
    decreases s.len(),
{
    if s.len() == 0 {
        Seq::empty()
    } else if used + cells_or_zero(s[0]) >= width {
        Seq::empty()
    } else {
        seq![s[0]] + fit_prefix(s.drop_first(), width, used + cells_or_zero(s[0]))
    }
}

/// `text` cut to `width` columns, an ellipsis marking the cut.
pub open spec fn truncated(s: Seq<char>, width: usize) -> Seq<char> {
    if width == 0 {
        Seq::empty()
    } else if str_cells(s) <= width {
        s
    } else if width == 1 {
        seq!['…']
    } else {
        fit_prefix(s, width as int, 0).push('…')
    }
}

/// `text` cut to `width` columns, with `…` in the last column when it
/// did not fit. Text of one-column characters is then exactly as wide as
/// it was, or `width` when it was wider.
pub fn truncate_to_width(text: &str, width: usize) -> (r: String)
    ensures
        r@ == truncated(text@, width),
        narrow_text(text@) ==> narrow_text(r@) && str_cells(r@) == min_int(
            str_cells(text@) as int,
            width as int,
        ),
{
    if width == 0 {
        let empty = String::new();
        let _cells = str_width(empty.as_str());
        return empty;
    }
    let whole = str_width(text);
    if whole <= width {
        return text.to_owned();
    }
    if width == 1 {
        let mut one = String::new();
        push_char(&mut one, '…');
        let _cells = str_width(one.as_str());
        return one;
    }
    let mut out = String::new();
    let n = text.unicode_len();
    let mut used: usize = 0;
    let mut i: usize = 0;
    assert(text@.skip(0) =~= text@);
    assert(out@ + fit_prefix(text@.skip(0), width as int, 0) =~= fit_prefix(text@, width as int, 0));
    while i < n
        invariant
            n == text@.len(),
            i <= n,
            used < width,
            whole == str_cells(text@),
            whole > width,
            narrow_text(text@) ==> whole == n,
            out@ == text@.take(i as int),
            narrow_text(text@) ==> used == i,
            out@ + fit_prefix(text@.skip(i as int), width as int, used as int) == fit_prefix(
                text@,
                width as int,
                0,
            ),
        ensures
            out@ == fit_prefix(text@, width as int, 0),
            narrow_text(text@) ==> out@.len() + 1 == width && narrow_text(out@),
        decreases n - i,
    {
        let ch = text.get_char(i);
        let cw: usize = match char_width(ch) {
            Some(w) => w,
            None => 0,
        };
        proof {
            assert(text@.skip(i as int)[0] == ch);
            assert(text@.skip(i as int).drop_first() =~= text@.skip(i + 1));
            if narrow_text(text@) {
                assert(narrow_plain(text@[i as int]));
                assert forall|j: int| 0 <= j < out@.len() implies narrow_plain(#[trigger] out@[j]) by {
                    assert(out@[j] == text@[j]);
                }
            }
        }
        let next = used.checked_add(cw);
        match next {
            Some(t) => {
                if t >= width {
                    assert(fit_prefix(text@.skip(i as int), width as int, used as int)
                        == Seq::<char>::empty());
                    assert(out@ =~= fit_prefix(text@, width as int, 0));
                    break ;
                }
                let ghost before = out@;
                push_char(&mut out, ch);
                used = t;
                assert(out@ + fit_prefix(text@.skip(i + 1), width as int, used as int)
                    =~= before + fit_prefix(text@.skip(i as int), width as int, (used - cw) as int));
                assert(out@ =~= text@.take(i + 1));
            },
            None => {
                assert(fit_prefix(text@.skip(i as int), width as int, used as int)
                    == Seq::<char>::empty());
                assert(out@ =~= fit_prefix(text@, width as int, 0));
                break ;
            },
        }
        i = i + 1;
        proof {
            if i == n {
                assert(text@.skip(n as int) =~= Seq::<char>::empty());
                assert(out@ =~= fit_prefix(text@, width as int, 0));
            }
        }
    }
    push_char(&mut out, '…');
    let _cells = str_width(out.as_str());
    out
}

// ---------------------------------------------------------------------------
// Rows

/// How a piece of booth text is drawn. Rows that are highlighted (the
/// selected queue row, the focused submit row) also get the selection
/// background; the front end maps each tone to the theme's colours.
#[derive(Clone, Copy, Debug, PartialEq, Eq, Structural)]
pub enum BoothTone {
    Plain,
    /// The row marker.
    Prefix,
    /// A queue row's title.
    Label,
    /// Duration and submitter columns.
    Meta,
    /// Gaps and the right padding.
    Trailing,
    /// A positive vote score.
    ScoreUp,
    /// A negative vote score.
    ScoreDown,
    /// The now-playing icon of a queued track.
    NowIcon,
    /// The now-playing title.
    NowTitle,
    /// Secondary text.
    Dim,
    /// Dim amber: icons and key names.
    AmberDim,
    /// A section heading's rules.
    HeadingRule,
    /// A section heading's title.
    HeadingTitle,
    /// The submit row's label.
    SubmitLabel,
    /// The submit row's text while submissions are off.
    ValueDisabled,
    /// The submit row's text while typing.
    ValueTyping,
    /// The submit row's placeholder.
    ValuePlaceholder,
    /// The submit row's typed text, not focused.
    ValueTyped,
}

/// One piece of a booth row.
#[derive(Clone, Debug)]
pub struct BoothCell {
    pub text: String,
    pub tone: BoothTone,
}

/// One row of the booth: its pieces and whether it is highlighted.
#[derive(Clone, Debug)]
pub struct BoothLine {
    pub cells: Vec<BoothCell>,
    pub highlighted: bool,
}

pub open spec fn cells_view(v: Seq<BoothCell>) -> Seq<(Seq<char>, BoothTone)> {
    v.map_values(|c: BoothCell| (c.text@, c.tone))
}

fn push_cell(v: &mut Vec<BoothCell>, text: String, tone: BoothTone)
    ensures
        cells_view(final(v)@) == cells_view(old(v)@).push((text@, tone)),
        narrow_text(text@) ==> str_cells(text@) == text@.len(),
{
    let _cells = str_width(text.as_str());
    let ghost t = text@;
    v.push(BoothCell { text, tone });
    assert(cells_view(v@) =~= cells_view(old(v)@).push((t, tone)));
}

fn push_cell_str(v: &mut Vec<BoothCell>, text: &str, tone: BoothTone)
    ensures
        cells_view(final(v)@) == cells_view(old(v)@).push((text@, tone)),
        narrow_text(text@) ==> str_cells(text@) == text@.len(),
{
    push_cell(v, text.to_owned(), tone);
}

/// Two decimal digits, zero-padded.
pub open spec fn two_digits(n: nat) -> Seq<char> {
    if n < 10 {
        seq!['0'] + dec(n)
    } else {
        dec(n)
    }
}

/// `live` for a stream, `m:ss` for a track of known positive length, and
/// nothing otherwise.
pub open spec fn queue_duration_text(item: QueueItemView) -> Seq<char> {
    if item.is_stream {
        "live"@
    } else {
        match item.duration_ms {
            Some(ms) => if ms > 0 {
                let secs = (ms as nat) / 1000;
                dec(secs / 60) + ":"@ + two_digits(secs % 60)
            } else {
                Seq::empty()
            },
            None => Seq::empty(),
        }
    }
}

/// A track's length as the booth shows it.
pub fn format_queue_duration(item: &QueueItemView) -> (r: String)
    ensures
        r@ == queue_duration_text(*item),
{
    if item.is_stream {
        return "live".to_owned();
    }
    let ms = match item.duration_ms {
        Some(ms) => ms,
        None => {
            return String::new();
        },
    };
    if ms <= 0 {
        return String::new();
    }
    let secs = (ms as u64) / 1000;
    let minutes = secs / 60;
    let seconds = secs % 60;
    let mut out = String::new();
    push_decimal(&mut out, minutes);
    push_char(&mut out, ':');
    if seconds < 10 {
        push_char(&mut out, '0');
    }
    push_decimal(&mut out, seconds);
    proof {
        reveal_strlit(":");
        assert(out@ =~= queue_duration_text(*item));
    }
    out
}

/// A vote score with its sign, as `{:+}` writes it.
pub open spec fn signed_score(n: i32) -> Seq<char> {
    if n < 0 {
        seq!['-'] + dec((-(n as int)) as nat)
    } else {
        seq!['+'] + dec(n as nat)
    }
}

fn score_text(n: i32) -> (r: String)
    ensures
        r@ == signed_score(n),
{
    let mut out = String::new();
    if n < 0 {
        push_char(&mut out, '-');
        push_decimal(&mut out, (-(n as i64)) as u64);
    } else {
        push_char(&mut out, '+');
        push_decimal(&mut out, n as u64);
    }
    assert(out@ =~= signed_score(n));
    out
}

/// A track's title, or `yt:` and its video id; locked tracks get a padlock.
pub open spec fn queue_label(item: QueueItemView) -> Seq<char> {
    let title = match item.title {
        Some(t) => t@,
        None => "yt:"@ + item.video_id@,
    };
    if item.unskippable {
        "🔒 "@ + title
    } else {
        title
    }
}

fn label_text(item: &QueueItemView) -> (r: String)
    ensures
        r@ == queue_label(*item),
{
    let mut out = String::new();
    if item.unskippable {
        push_str(&mut out, "🔒 ");
    }
    match &item.title {
        Some(t) => push_str(&mut out, t.as_str()),
        None => {
            push_str(&mut out, "yt:");
            push_str(&mut out, item.video_id.as_str());
        },
    }
    assert(out@ =~= queue_label(*item));
    out
}

pub open spec fn sat_sub(a: int, b: int) -> int {
    if a > b {
        a - b
    } else {
        0
    }
}

pub open spec fn min_int(a: int, b: int) -> int {
    if a < b {
        a
    } else {
        b
    }
}

/// Columns right of a queue row, kept free.
pub const RIGHT_PAD: usize = 3;

pub open spec fn inner_w(width: usize) -> int {
    sat_sub(width as int, RIGHT_PAD as int)
}

pub open spec fn duration_w(width: usize) -> int {
    min_int(5, sat_sub(inner_w(width), 7))
}

pub open spec fn score_w(width: usize) -> int {
    min_int(5, sat_sub(inner_w(width), 3 + duration_w(width) + 5))
}

pub open spec fn submitter_w(width: usize) -> int {
    min_int(20, sat_sub(inner_w(width), 3 + duration_w(width) + score_w(width) + 6))
}

pub open spec fn label_w(width: usize) -> int {
    sat_sub(inner_w(width), 3 + duration_w(width) + submitter_w(width) + score_w(width) + 3)
}

pub open spec fn fit_right(s: Seq<char>, w: int) -> Seq<char> {
    truncated(s, w as usize) + spaces(w - str_cells(truncated(s, w as usize)))
}

pub open spec fn fit_left(s: Seq<char>, w: int) -> Seq<char> {
    spaces(w - str_cells(truncated(s, w as usize))) + truncated(s, w as usize)
}

pub open spec fn score_tone(n: i32) -> BoothTone {
    if n > 0 {
        BoothTone::ScoreUp
    } else if n < 0 {
        BoothTone::ScoreDown
    } else {
        BoothTone::Meta
    }
}

/// A queue row `width` columns wide: marker, title, length, submitter and
/// score in columns that give way, narrowest first, as the row narrows.
pub open spec fn queue_line_spec(item: QueueItemView, active: bool, width: usize) -> Seq<
    (Seq<char>, BoothTone),
> {
    seq![
        (if active {
            " › "@
        } else {
            "   "@
        }, BoothTone::Prefix),
        (fit_right(queue_label(item), label_w(width)), BoothTone::Label),
        (" "@, BoothTone::Trailing),
        (fit_left(queue_duration_text(item), duration_w(width)), BoothTone::Meta),
        (" "@, BoothTone::Trailing),
        (fit_right(item.submitter@, submitter_w(width)), BoothTone::Meta),
        (" "@, BoothTone::Trailing),
        (fit_left(signed_score(item.vote_score), score_w(width)), score_tone(item.vote_score)),
        ("   "@, BoothTone::Trailing),
    ]
}

fn sat(a: usize, b: usize) -> (r: usize)
    ensures
        r == sat_sub(a as int, b as int),
{
    if a > b {
        a - b
    } else {
        0
    }
}

fn min_us(a: usize, b: usize) -> (r: usize)
    ensures
        r == min_int(a as int, b as int),
{
    if a < b {
        a
    } else {
        b
    }
}

/// The columns a row takes: the sum of its pieces' widths.
pub open spec fn cells_width(cells: Seq<(Seq<char>, BoothTone)>) -> int
    decreases cells.len(),
{
    if cells.len() == 0 {
        0
    } else {
        cells_width(cells.drop_last()) + str_cells(cells.last().0)
    }
}

/// Adding a piece adds its width.
proof fn lemma_cells_width_step(q: Seq<(Seq<char>, BoothTone)>, k: int)
    requires
        0 <= k < q.len(),
    ensures
        cells_width(q.take(k + 1)) == cells_width(q.take(k)) + str_cells(q[k].0),
{
    assert(q.take(k + 1).drop_last() =~= q.take(k));
}

/// Decimal digits take one column each.
proof fn lemma_dec_narrow(n: nat)
    ensures
        narrow_text(dec(n)),
    decreases n,
{
    if n >= 10 {
        lemma_dec_narrow(n / 10);
        let d = dec(n);
        assert forall|i: int| 0 <= i < d.len() implies narrow_plain(#[trigger] d[i]) by {
            if i < d.len() - 1 {
                assert(d[i] == dec(n / 10)[i]);
            }
        }
    }
}

/// The length and score columns hold digits, `:`, signs and `live` only.
proof fn lemma_numbers_narrow(item: QueueItemView)
    ensures
        narrow_text(queue_duration_text(item)),
        narrow_text(signed_score(item.vote_score)),
{
    reveal_strlit("live");
    reveal_strlit(":");
    if !item.is_stream {
        if let Some(ms) = item.duration_ms {
            if ms > 0 {
                let secs = (ms as nat) / 1000;
                lemma_dec_narrow(secs / 60);
                lemma_dec_narrow(secs % 60);
                let t = dec(secs / 60) + ":"@ + two_digits(secs % 60);
                assert forall|i: int| 0 <= i < t.len() implies narrow_plain(#[trigger] t[i]) by {
                    let a = dec(secs / 60).len() as int;
                    if i < a {
                        assert(t[i] == dec(secs / 60)[i]);
                    } else if i == a {
                        assert(t[i] == ':');
                    } else if secs % 60 < 10 {
                        if i > a + 1 {
                            assert(t[i] == dec(secs % 60)[i - a - 2]);
                        }
                    } else {
                        assert(t[i] == dec(secs % 60)[i - a - 1]);
                    }
                }
            }
        }
    }
    let n = item.vote_score;
    let m: nat = if n < 0 {
        (-(n as int)) as nat
    } else {
        n as nat
    };
    lemma_dec_narrow(m);
    let sc = signed_score(n);
    assert forall|i: int| 0 <= i < sc.len() implies narrow_plain(#[trigger] sc[i]) by {
        if i > 0 {
            assert(sc[i] == dec(m)[i - 1]);
        }
    }
}

/// One queue row, highlighted when `active`. Each padded column takes
/// exactly its width once its cut text fits in it, as it does for text of
/// one-column characters; a row at least 39 columns wide whose title (or
/// video id) and submitter are such text fills exactly `width` columns.
pub fn queue_line(item: &QueueItemView, active: bool, width: usize) -> (r: BoothLine)
    ensures
        cells_view(r.cells@) == queue_line_spec(*item, active, width),
        r.highlighted == active,
        str_cells(truncated(queue_label(*item), label_w(width) as usize)) <= label_w(width)
            ==> str_cells(cells_view(r.cells@)[1].0) == label_w(width),
        str_cells(truncated(queue_duration_text(*item), duration_w(width) as usize))
            <= duration_w(width) ==> str_cells(cells_view(r.cells@)[3].0) == duration_w(width),
        str_cells(truncated(item.submitter@, submitter_w(width) as usize)) <= submitter_w(width)
            ==> str_cells(cells_view(r.cells@)[5].0) == submitter_w(width),
        str_cells(truncated(signed_score(item.vote_score), score_w(width) as usize)) <= score_w(
            width,
        ) ==> str_cells(cells_view(r.cells@)[7].0) == score_w(width),
        width >= 39 && narrow_text(queue_label(*item)) && narrow_text(item.submitter@)
            ==> cells_width(cells_view(r.cells@)) == width,
{
    let inner_width = sat(width, RIGHT_PAD);
    let duration_width = min_us(5, sat(inner_width, 3 + 4));
    let score_width = min_us(5, sat(inner_width, 3 + duration_width + 5));
    let submitter_width = min_us(20, sat(inner_width, 3 + duration_width + score_width + 6));
    let label_width = sat(inner_width, 3 + duration_width + submitter_width + score_width + 3);
    let label = label_text(item);
    let duration_text = format_queue_duration(item);
    let score = score_text(item.vote_score);
    let mut v: Vec<BoothCell> = Vec::new();
    push_cell_str(&mut v, if active {
        " › "
    } else {
        "   "
    }, BoothTone::Prefix);
    push_cell(
        &mut v,
        pad_right(truncate_to_width(label.as_str(), label_width).as_str(), label_width),
        BoothTone::Label,
    );
    push_cell_str(&mut v, " ", BoothTone::Trailing);
    push_cell(
        &mut v,
        pad_left(
            truncate_to_width(duration_text.as_str(), duration_width).as_str(),
            duration_width,
        ),
        BoothTone::Meta,
    );
    push_cell_str(&mut v, " ", BoothTone::Trailing);
    push_cell(
        &mut v,
        pad_right(
            truncate_to_width(item.submitter.as_str(), submitter_width).as_str(),
            submitter_width,
        ),
        BoothTone::Meta,
    );
    push_cell_str(&mut v, " ", BoothTone::Trailing);
    let tone = if item.vote_score > 0 {
        BoothTone::ScoreUp
    } else if item.vote_score < 0 {
        BoothTone::ScoreDown
    } else {
        BoothTone::Meta
    };
    push_cell(
        &mut v,
        pad_left(truncate_to_width(score.as_str(), score_width).as_str(), score_width),
        tone,
    );
    push_cell_str(&mut v, "   ", BoothTone::Trailing);
    proof {
        assert(cells_view(v@) =~= queue_line_spec(*item, active, width));
        lemma_numbers_narrow(*item);
        let q = cells_view(v@);
        if width >= 39 && narrow_text(queue_label(*item)) && narrow_text(item.submitter@) {
            reveal_strlit(" › ");
            reveal_strlit("   ");
            reveal_strlit(" ");
            assert(narrow_text(" › "@));
            assert(narrow_text("   "@));
            assert(narrow_text(" "@));
            assert(q.take(0) =~= Seq::<(Seq<char>, BoothTone)>::empty());
            lemma_cells_width_step(q, 0);
            lemma_cells_width_step(q, 1);
            lemma_cells_width_step(q, 2);
            lemma_cells_width_step(q, 3);
            lemma_cells_width_step(q, 4);
            lemma_cells_width_step(q, 5);
            lemma_cells_width_step(q, 6);
            lemma_cells_width_step(q, 7);
            lemma_cells_width_step(q, 8);
            assert(q.take(9) =~= q);
        }
    }
    BoothLine { cells: v, highlighted: active }
}

/// The first visible queue row and the selection kept in range, for a list
/// of `len` rows shown `height` at a time: the selection stays in view,
/// and the window does not run past the end.
pub open spec fn queue_window_spec(selected: usize, len: usize, height: usize) -> (int, int) {
    let sel = min_int(selected as int, sat_sub(len as int, 1));
    let start = min_int(
        sat_sub(sel, sat_sub(height as int, 1)),
        sat_sub(len as int, min_int(height as int, len as int)),
    );
    (start, sel)
}

pub fn queue_window(selected: usize, len: usize, height: usize) -> (r: (usize, usize))
    ensures
        (r.0 as int, r.1 as int) == queue_window_spec(selected, len, height),
{
    let sel = min_us(selected, sat(len, 1));
    let start = min_us(sat(sel, sat(height, 1)), sat(len, min_us(height, len)));
    (start, sel)
}

/// Whether `rows` are the queue rows from `start` on, the row at `sel`
/// highlighted while the queue has focus.
pub open spec fn shows_window(
    rows: Seq<BoothLine>,
    queue: Seq<QueueItemView>,
    start: int,
    sel: int,
    focused: bool,
    width: usize,
) -> bool {
    forall|k: int|
        0 <= k < rows.len() ==> cells_view(#[trigger] rows[k].cells@) == queue_line_spec(
            queue[start + k],
            focused && start + k == sel,
            width,
        ) && rows[k].highlighted == (focused && start + k == sel)
}

/// The queue list: `queue empty` when there is nothing, else the rows of
/// the window `height` tall that keeps the selection in view, the selected
/// one highlighted while the queue has focus.
pub fn queue_rows(queue: &Vec<QueueItemView>, selected: usize, focused: bool, height: usize, width: usize) -> (r:
    Vec<BoothLine>)
    ensures
        queue@.len() == 0 ==> r@.len() == 1 && !r@[0].highlighted && cells_view(r@[0].cells@)
            == seq![("   "@, BoothTone::Plain), ("queue empty"@, BoothTone::Dim)],
        queue@.len() > 0 ==> r@.len() == min_int(
            height as int,
            queue@.len() - queue_window_spec(selected, queue@.len() as usize, height).0,
        ),
        queue@.len() > 0 ==> shows_window(
            r@,
            queue@,
            queue_window_spec(selected, queue@.len() as usize, height).0,
            queue_window_spec(selected, queue@.len() as usize, height).1,
            focused,
            width,
        ),
{
    let mut rows: Vec<BoothLine> = Vec::new();
    if queue.len() == 0 {
        let mut v: Vec<BoothCell> = Vec::new();
        push_cell_str(&mut v, "   ", BoothTone::Plain);
        push_cell_str(&mut v, "queue empty", BoothTone::Dim);
        rows.push(BoothLine { cells: v, highlighted: false });
        return rows;
    }
    let (start, sel) = queue_window(selected, queue.len(), height);
    let end = if height < queue.len() - start {
        start + height
    } else {
        queue.len()
    };
    let mut i = start;
    while i < end
        invariant
            start <= i <= end <= queue@.len(),
            end - start == min_int(height as int, queue@.len() - start),
            rows@.len() == i - start,
            shows_window(rows@, queue@, start as int, sel as int, focused, width),
        decreases end - i,
    {
        let line = queue_line(&queue[i], focused && i == sel, width);
        let ghost before = rows@;
        rows.push(line);
        proof {
            assert forall|k: int| 0 <= k < rows@.len() implies cells_view(
                #[trigger] rows@[k].cells@,
            ) == queue_line_spec(queue@[start + k], focused && start + k == sel, width)
                && rows@[k].highlighted == (focused && start + k == sel) by {
                if k < before.len() {
                    assert(rows@[k] == before[k]);
                }
            }
        }
        i = i + 1;
    }
    rows
}

/// The submit row's text while submissions are off.
pub open spec fn submit_disabled_text() -> Seq<char> {
    "server YouTube key is unset - staff /audio still works"@
}

/// The submit row: marker, label padded to 16 columns, the URL being typed
/// (with a block cursor while focused), a placeholder, or the notice that
/// submissions are off, then padding to `width`.
pub open spec fn submit_row_spec(focus_on_submit: bool, enabled: bool, typed: Seq<char>, width: usize) -> Seq<
    (Seq<char>, BoothTone),
> {
    let focused = focus_on_submit && enabled;
    let prefix = if focused {
        " › "@
    } else {
        "   "@
    };
    let label = if enabled {
        "YouTube URL     "@
    } else {
        "Disabled        "@
    };
    let (value, tone) = if !enabled {
        (submit_disabled_text(), BoothTone::ValueDisabled)
    } else if focused {
        (typed.push('█'), BoothTone::ValueTyping)
    } else if typed.len() == 0 {
        ("paste link…"@, BoothTone::ValuePlaceholder)
    } else {
        (typed, BoothTone::ValueTyped)
    };
    let used: int = (prefix.len() + label.len() + value.len()) as int;
    seq![
        (prefix, BoothTone::Prefix),
        (label, BoothTone::SubmitLabel),
        (value, tone),
        (spaces(width - min_int(used, width as int)), BoothTone::Trailing),
    ]
}

/// The submit row, highlighted while it has focus and submissions are on.
pub fn submit_row(focus_on_submit: bool, enabled: bool, typed: &str, width: usize) -> (r: BoothLine)
    requires
        typed@.len() + 64 <= usize::MAX,
    ensures
        cells_view(r.cells@) == submit_row_spec(focus_on_submit, enabled, typed@, width),
        r.highlighted == (focus_on_submit && enabled),
{
    let focused = focus_on_submit && enabled;
    let prefix = if focused {
        " › "
    } else {
        "   "
    };
    let label = if enabled {
        "YouTube URL     "
    } else {
        "Disabled        "
    };
    let (value, tone) = if !enabled {
        (
            "server YouTube key is unset - staff /audio still works".to_owned(),
            BoothTone::ValueDisabled,
        )
    } else if focused {
        let mut text = typed.to_owned();
        push_char(&mut text, '█');
        (text, BoothTone::ValueTyping)
    } else if typed.unicode_len() == 0 {
        ("paste link…".to_owned(), BoothTone::ValuePlaceholder)
    } else {
        (typed.to_owned(), BoothTone::ValueTyped)
    };
    proof {
        reveal_strlit(" › ");
        reveal_strlit("   ");
        reveal_strlit("YouTube URL     ");
        reveal_strlit("Disabled        ");
        reveal_strlit("server YouTube key is unset - staff /audio still works");
        reveal_strlit("paste link…");
    }
    let used = prefix.unicode_len() + label.unicode_len() + value.as_str().unicode_len();
    let shown = min_us(used, width);
    let mut v: Vec<BoothCell> = Vec::new();
    push_cell_str(&mut v, prefix, BoothTone::Prefix);
    push_cell_str(&mut v, label, BoothTone::SubmitLabel);
    push_cell(&mut v, value, tone);
    let mut pad = String::new();
    push_spaces(&mut pad, width - shown);
    push_cell(&mut v, pad, BoothTone::Trailing);
    proof {
        assert(cells_view(v@) =~= submit_row_spec(focus_on_submit, enabled, typed@, width));
    }
    BoothLine { cells: v, highlighted: focused }
}

/// The now-playing line: the queued track with its length, submitter and
/// skip progress; or, with nothing queued, what plays instead (the YouTube
/// fallback stream or the Icecast radio).
pub open spec fn now_playing_spec(current: Option<QueueItemView>, mode: AudioMode, skip: Option<SkipProgress>) -> Seq<
    (Seq<char>, BoothTone),
> {
    match current {
        None => seq![("   "@, BoothTone::Plain)] + match mode {
            AudioMode::Youtube => seq![
                ("▶ "@, BoothTone::AmberDim),
                ("fallback stream · YouTube"@, BoothTone::Dim),
            ],
            AudioMode::Icecast => seq![
                ("♪ "@, BoothTone::AmberDim),
                ("Icecast house radio"@, BoothTone::Dim),
            ],
        },
        Some(item) => seq![
            ("   "@, BoothTone::Plain),
            ("▶ "@, BoothTone::NowIcon),
            (match item.title {
                Some(t) => t@,
                None => "yt:"@ + item.video_id@,
            }, BoothTone::NowTitle),
        ] + (if queue_duration_text(item).len() > 0 {
            seq![("  "@ + queue_duration_text(item), BoothTone::Dim)]
        } else {
            Seq::empty()
        }) + (if item.submitter@.len() > 0 {
            seq![("  by "@ + item.submitter@, BoothTone::Dim)]
        } else {
            Seq::empty()
        }) + match skip {
            Some(p) => seq![
                (
                    "   skip "@ + dec(p.votes as nat) + "/"@ + dec(p.threshold as nat),
                    BoothTone::AmberDim,
                ),
            ],
            None => Seq::empty(),
        },
    }
}

pub fn now_playing_line(current: Option<&QueueItemView>, mode: AudioMode, skip: Option<SkipProgress>) -> (r:
    BoothLine)
    ensures
        cells_view(r.cells@) == now_playing_spec(
            match current {
                Some(i) => Some(*i),
                None => None,
            },
            mode,
            skip,
        ),
        !r.highlighted,
{
    let mut v: Vec<BoothCell> = Vec::new();
    push_cell_str(&mut v, "   ", BoothTone::Plain);
    match current {
        None => {
            match mode {
                AudioMode::Youtube => {
                    push_cell_str(&mut v, "▶ ", BoothTone::AmberDim);
                    push_cell_str(&mut v, "fallback stream · YouTube", BoothTone::Dim);
                },
                AudioMode::Icecast => {
                    push_cell_str(&mut v, "♪ ", BoothTone::AmberDim);
                    push_cell_str(&mut v, "Icecast house radio", BoothTone::Dim);
                },
            }
            assert(cells_view(v@) =~= now_playing_spec(None, mode, skip));
        },
        Some(item) => {
            push_cell_str(&mut v, "▶ ", BoothTone::NowIcon);
            let mut title = String::new();
            match &item.title {
                Some(t) => push_str(&mut title, t.as_str()),
                None => {
                    push_str(&mut title, "yt:");
                    push_str(&mut title, item.video_id.as_str());
                },
            }
            push_cell(&mut v, title, BoothTone::NowTitle);
            let ghost head = cells_view(v@);
            let duration_text = format_queue_duration(item);
            if duration_text.as_str().unicode_len() > 0 {
                let mut t = String::new();
                push_str(&mut t, "  ");
                push_str(&mut t, duration_text.as_str());
                push_cell(&mut v, t, BoothTone::Dim);
            }
            let ghost with_duration = cells_view(v@);
            if item.submitter.as_str().unicode_len() > 0 {
                let mut t = String::new();
                push_str(&mut t, "  by ");
                push_str(&mut t, item.submitter.as_str());
                push_cell(&mut v, t, BoothTone::Dim);
            }
            let ghost with_submitter = cells_view(v@);
            match skip {
                Some(p) => {
                    let mut t = String::new();
                    push_str(&mut t, "   skip ");
                    push_decimal(&mut t, p.votes as u64);
                    push_str(&mut t, "/");
                    push_decimal(&mut t, p.threshold as u64);
                    push_cell(&mut v, t, BoothTone::AmberDim);
                },
                None => {},
            }
            proof {
                assert(cells_view(v@) =~= now_playing_spec(Some(*item), mode, skip));
            }
        },
    }
    BoothLine { cells: v, highlighted: false }
}

/// The booth's key hints; the lock key shows for staff and the submit key
/// while submissions are on.
pub open spec fn footer_spec(submit_enabled: bool, is_staff: bool) -> Seq<(Seq<char>, BoothTone)> {
    seq![
        ("  "@, BoothTone::Plain),
        ("Tab"@, BoothTone::AmberDim),
        (" focus  "@, BoothTone::Dim),
        ("↑↓ Ctrl+J/K"@, BoothTone::AmberDim),
        (" select  "@, BoothTone::Dim),
        ("+/-/0"@, BoothTone::AmberDim),
        (" vote  "@, BoothTone::Dim),
        ("s"@, BoothTone::AmberDim),
        (" skip  "@, BoothTone::Dim),
        ("d"@, BoothTone::AmberDim),
        (" delete  "@, BoothTone::Dim),
    ] + (if is_staff {
        seq![("u"@, BoothTone::AmberDim), (" lock  "@, BoothTone::Dim)]
    } else {
        Seq::empty()
    }) + (if submit_enabled {
        seq![("↵"@, BoothTone::AmberDim), (" submit  "@, BoothTone::Dim)]
    } else {
        Seq::empty()
    }) + seq![("Esc/q"@, BoothTone::AmberDim), (" close"@, BoothTone::Dim)]
}

/// The staff footer is the other footer with the lock key inserted after
/// the delete key, whether or not submissions are on.
pub proof fn lemma_footer_lock_for_staff(submit_enabled: bool)
    ensures
        footer_spec(submit_enabled, true) == footer_spec(submit_enabled, false).take(11) + seq![
            ("u"@, BoothTone::AmberDim),
            (" lock  "@, BoothTone::Dim),
        ] + footer_spec(submit_enabled, false).skip(11),
{
    let with = footer_spec(submit_enabled, true);
    let without = footer_spec(submit_enabled, false);
    assert(with =~= without.take(11) + seq![("u"@, BoothTone::AmberDim), (" lock  "@, BoothTone::Dim)]
        + without.skip(11));
}

pub fn booth_footer(submit_enabled: bool, is_staff: bool) -> (r: BoothLine)
    ensures
        cells_view(r.cells@) == footer_spec(submit_enabled, is_staff),
        !r.highlighted,
{
    let mut v: Vec<BoothCell> = Vec::new();
    push_cell_str(&mut v, "  ", BoothTone::Plain);
    push_cell_str(&mut v, "Tab", BoothTone::AmberDim);
    push_cell_str(&mut v, " focus  ", BoothTone::Dim);
    push_cell_str(&mut v, "↑↓ Ctrl+J/K", BoothTone::AmberDim);
    push_cell_str(&mut v, " select  ", BoothTone::Dim);
    push_cell_str(&mut v, "+/-/0", BoothTone::AmberDim);
    push_cell_str(&mut v, " vote  ", BoothTone::Dim);
    push_cell_str(&mut v, "s", BoothTone::AmberDim);
    push_cell_str(&mut v, " skip  ", BoothTone::Dim);
    push_cell_str(&mut v, "d", BoothTone::AmberDim);
    push_cell_str(&mut v, " delete  ", BoothTone::Dim);
    let ghost base = cells_view(v@);
    if is_staff {
        push_cell_str(&mut v, "u", BoothTone::AmberDim);
        push_cell_str(&mut v, " lock  ", BoothTone::Dim);
    }
    let ghost staff = cells_view(v@);
    if submit_enabled {
        push_cell_str(&mut v, "↵", BoothTone::AmberDim);
        push_cell_str(&mut v, " submit  ", BoothTone::Dim);
    }
    push_cell_str(&mut v, "Esc/q", BoothTone::AmberDim);
    push_cell_str(&mut v, " close", BoothTone::Dim);
    assert(cells_view(v@) =~= footer_spec(submit_enabled, is_staff));
    BoothLine { cells: v, highlighted: false }
}

/// A section heading: the title between two rules.
pub fn section_heading(title: &str) -> (r: BoothLine)
    ensures
        cells_view(r.cells@) == seq![
            ("  ── "@, BoothTone::HeadingRule),
            (title@, BoothTone::HeadingTitle),
            (" ──"@, BoothTone::HeadingRule),
        ],
        !r.highlighted,
{
    let mut v: Vec<BoothCell> = Vec::new();
    push_cell_str(&mut v, "  ── ", BoothTone::HeadingRule);
    push_cell_str(&mut v, title, BoothTone::HeadingTitle);
    push_cell_str(&mut v, " ──", BoothTone::HeadingRule);
    BoothLine { cells: v, highlighted: false }
}

} // verus!
