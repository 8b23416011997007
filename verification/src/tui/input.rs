//! The chat input: a text area, and the inputs that were submitted before.

use crate::text;
use crate::tui::keys::{KeyCode, KeyPress};
use ratatui_textarea::TextArea;
use vstd::prelude::*;
use vstd::string::*;

verus! {

/// A text area of `ratatui_textarea`. Its contents are read only through the
/// functions below.
#[verifier::external_body]
pub struct Area {
    inner: TextArea<'static>,
}

/// The lines of a text area.
pub uninterp spec fn area_lines(t: Area) -> Seq<Seq<char>>;

/// Where the cursor of a text area is: the line, and the characters before it
/// in that line.
pub uninterp spec fn area_cursor(t: Area) -> (int, int);

/// Whether a text area has no selection and the settings that it was made with.
pub uninterp spec fn area_plain(t: Area) -> bool;

/// A cursor move.
#[derive(Clone, Copy, PartialEq, Eq, Structural, Debug)]
pub enum Motion {
    Back,
    Forward,
    Up,
    Down,
    WordBack,
    WordForward,
    Head,
    End,
    Bottom,
}

/// Where `TextArea::move_cursor` puts the cursor of a plain text area.
pub uninterp spec fn moved_cursor(
    lines: Seq<Seq<char>>,
    cursor: (int, int),
    motion: Motion,
) -> (int, int);

/// The lines and the cursor that `TextArea::delete_word` leaves.
pub uninterp spec fn word_deleted(lines: Seq<Seq<char>>, cursor: (int, int)) -> (
    Seq<Seq<char>>,
    (int, int),
);

/// The lines and the cursor that `TextArea::delete_next_word` leaves.
pub uninterp spec fn next_word_deleted(lines: Seq<Seq<char>>, cursor: (int, int)) -> (
    Seq<Seq<char>>,
    (int, int),
);

/// The lines and the cursor that `TextArea::delete_next_char` leaves.
pub uninterp spec fn next_char_deleted(lines: Seq<Seq<char>>, cursor: (int, int)) -> (
    Seq<Seq<char>>,
    (int, int),
);

/// How many spaces the tab key puts behind `before` in a plain text area.
pub uninterp spec fn tab_spaces(before: Seq<char>) -> int;

/// Whether lines and a cursor are those of a text area: there is a line, no line
/// holds a line feed, and the cursor is in a line.
pub open spec fn is_text(lines: Seq<Seq<char>>, cursor: (int, int)) -> bool {
    &&& lines.len() > 0
    &&& 0 <= cursor.0 < lines.len()
    &&& 0 <= cursor.1 <= lines[cursor.0].len()
    &&& forall|i: int| 0 <= i < lines.len() ==> !(#[trigger] lines[i]).contains('\n')
}

/// A plain text area.
pub open spec fn area_ok(t: Area) -> bool {
    area_plain(t) && is_text(area_lines(t), area_cursor(t))
}

/// The lines and the cursor with `piece` put in at the cursor, within its line.
pub open spec fn with_piece(lines: Seq<Seq<char>>, cursor: (int, int), piece: Seq<char>) -> (
    Seq<Seq<char>>,
    (int, int),
) {
    let (row, col) = cursor;
    let line = lines[row];
    (lines.update(row, line.take(col) + piece + line.skip(col)), (row, col + piece.len()))
}

/// The lines and the cursor with `pieces`, two or more, put in at the cursor, a
/// line each.
pub open spec fn with_pieces(
    lines: Seq<Seq<char>>,
    cursor: (int, int),
    pieces: Seq<Seq<char>>,
) -> (Seq<Seq<char>>, (int, int)) {
    let (row, col) = cursor;
    let line = lines[row];
    let first = line.take(col) + pieces[0];
    let last = pieces.last() + line.skip(col);
    (
        lines.take(row).push(first) + pieces.subrange(1, pieces.len() - 1) + seq![last]
            + lines.skip(row + 1),
        (row + pieces.len() - 1, pieces.last().len() as int),
    )
}

/// The lines of `s`, each without a carriage return at its end.
pub open spec fn pieces_of(s: Seq<char>) -> Seq<Seq<char>> {
    let parts = text::split_from(s, 0, seq!['\n']);
    Seq::new(parts.len(), |i: int| text::without_return(parts[i]))
}

/// The lines and the cursor with `s` put in at the cursor.
pub open spec fn with_str(lines: Seq<Seq<char>>, cursor: (int, int), s: Seq<char>) -> (
    Seq<Seq<char>>,
    (int, int),
) {
    let pieces = pieces_of(s);
    if pieces.len() == 1 {
        with_piece(lines, cursor, pieces[0])
    } else {
        with_pieces(lines, cursor, pieces)
    }
}

/// The lines and the cursor with the line cut at the cursor.
pub open spec fn with_newline(lines: Seq<Seq<char>>, cursor: (int, int)) -> (
    Seq<Seq<char>>,
    (int, int),
) {
    with_pieces(lines, cursor, seq![Seq::empty(), Seq::empty()])
}

/// The lines and the cursor with `c` put in at the cursor.
pub open spec fn with_char(lines: Seq<Seq<char>>, cursor: (int, int), c: char) -> (
    Seq<Seq<char>>,
    (int, int),
) {
    if c == '\n' || c == '\r' {
        with_newline(lines, cursor)
    } else {
        with_piece(lines, cursor, seq![c])
    }
}

/// The lines and the cursor without the character before the cursor. At the
/// start of a line, the line is put behind the one before it.
pub open spec fn without_char_before(lines: Seq<Seq<char>>, cursor: (int, int)) -> (
    Seq<Seq<char>>,
    (int, int),
) {
    let (row, col) = cursor;
    if col > 0 {
        let line = lines[row];
        (lines.update(row, line.take(col - 1) + line.skip(col)), (row, col - 1))
    } else if row > 0 {
        (
            lines.take(row - 1).push(lines[row - 1] + lines[row]) + lines.skip(row + 1),
            (row - 1, lines[row - 1].len() as int),
        )
    } else {
        (lines, cursor)
    }
}

/// `TextArea::default` with `set_cursor_line_style` to no style: one empty line,
/// the cursor in it, no selection.
#[verifier::external_body]
pub(crate) fn plain_textarea() -> (r: Area)
    ensures
        area_plain(r),
        area_ok(r),
        area_lines(r) == seq![Seq::<char>::empty()],
        area_cursor(r) == (0int, 0int),
{
    let mut inner = TextArea::default();
    inner.set_cursor_line_style(ratatui::style::Style::default());
    Area { inner }
}

/// `TextArea::lines`.
#[verifier::external_body]
pub(crate) fn lines_of(t: &Area) -> (r: Vec<String>)
    ensures
        text::texts(r@) == area_lines(*t),
{
    t.inner.lines().to_vec()
}

/// `TextArea::cursor`: the line, and the characters before it in that line.
#[verifier::external_body]
pub(crate) fn cursor_of(t: &Area) -> (r: (usize, usize))
    ensures
        (r.0 as int, r.1 as int) == area_cursor(*t),
{
    let c = t.inner.cursor();
    (c.0, c.1)
}

/// `TextArea::insert_str`: the text is split into lines, of which each loses a
/// carriage return at its end, and they are put in at the cursor, which comes
/// to stand behind them.
#[verifier::external_body]
pub(crate) fn insert_str(t: &mut Area, s: &str)
    requires
        area_ok(*old(t)),
    ensures
        area_ok(*final(t)),
        (area_lines(*final(t)), area_cursor(*final(t))) == with_str(
            area_lines(*old(t)),
            area_cursor(*old(t)),
            s@,
        ),
{
    t.inner.insert_str(s);
}

/// `TextArea::insert_char`: the character is put in at the cursor; a line feed
/// or a carriage return cuts the line there.
#[verifier::external_body]
pub(crate) fn insert_char(t: &mut Area, c: char)
    requires
        area_ok(*old(t)),
    ensures
        area_ok(*final(t)),
        (area_lines(*final(t)), area_cursor(*final(t))) == with_char(
            area_lines(*old(t)),
            area_cursor(*old(t)),
            c,
        ),
{
    t.inner.insert_char(c);
}

/// `TextArea::insert_newline`: the line is cut at the cursor, which comes to
/// stand at the start of the second part.
#[verifier::external_body]
pub(crate) fn insert_newline(t: &mut Area)
    requires
        area_ok(*old(t)),
    ensures
        area_ok(*final(t)),
        (area_lines(*final(t)), area_cursor(*final(t))) == with_newline(
            area_lines(*old(t)),
            area_cursor(*old(t)),
        ),
{
    t.inner.insert_newline();
}

/// `TextArea::move_cursor`. The text stays as it is. `Head` and `End` go to the
/// ends of the line, `Bottom` to the last line, as far in as before or as it
/// goes. Where the other moves go depends on how wide characters are drawn and
/// on what counts as a word; of them only the name of the result is told, and
/// that `Up` and `Down` go by at most one line.
#[verifier::external_body]
pub(crate) fn move_cursor(t: &mut Area, motion: Motion)
    requires
        area_ok(*old(t)),
    ensures
        area_ok(*final(t)),
        area_lines(*final(t)) == area_lines(*old(t)),
        area_cursor(*final(t)) == moved_cursor(area_lines(*old(t)), area_cursor(*old(t)), motion),
        motion == Motion::Head ==> area_cursor(*final(t)) == (area_cursor(*old(t)).0, 0int),
        motion == Motion::End ==> area_cursor(*final(t)) == (
            area_cursor(*old(t)).0,
            area_lines(*old(t))[area_cursor(*old(t)).0].len() as int,
        ),
        motion == Motion::Bottom ==> area_cursor(*final(t)) == ({
            let last = area_lines(*old(t)).last().len() as int;
            let col = area_cursor(*old(t)).1;
            (
                area_lines(*old(t)).len() - 1,
                if col <= last {
                    col
                } else {
                    last
                },
            )
        }),
        motion == Motion::Up ==> area_cursor(*final(t)).0 == (if area_cursor(*old(t)).0 > 0 {
            area_cursor(*old(t)).0 - 1
        } else {
            0
        }),
        motion == Motion::Down ==> area_cursor(*final(t)).0 == (if area_cursor(*old(t)).0 + 1
            < area_lines(*old(t)).len() {
            area_cursor(*old(t)).0 + 1
        } else {
            area_cursor(*old(t)).0
        }),
{
    t.inner.move_cursor(match motion {
        Motion::Back => ratatui_textarea::CursorMove::Back,
        Motion::Forward => ratatui_textarea::CursorMove::Forward,
        Motion::Up => ratatui_textarea::CursorMove::Up,
        Motion::Down => ratatui_textarea::CursorMove::Down,
        Motion::WordBack => ratatui_textarea::CursorMove::WordBack,
        Motion::WordForward => ratatui_textarea::CursorMove::WordForward,
        Motion::Head => ratatui_textarea::CursorMove::Head,
        Motion::End => ratatui_textarea::CursorMove::End,
        Motion::Bottom => ratatui_textarea::CursorMove::Bottom,
    });
}

/// `TextArea::delete_word`. What counts as a word is not told; the lines and the
/// cursor it leaves depend on those before alone.
#[verifier::external_body]
pub(crate) fn delete_word(t: &mut Area)
    requires
        area_ok(*old(t)),
    ensures
        area_ok(*final(t)),
        (area_lines(*final(t)), area_cursor(*final(t))) == word_deleted(
            area_lines(*old(t)),
            area_cursor(*old(t)),
        ),
{
    t.inner.delete_word();
}

/// `TextArea::delete_next_word`. What counts as a word is not told; the lines
/// and the cursor it leaves depend on those before alone.
#[verifier::external_body]
pub(crate) fn delete_next_word(t: &mut Area)
    requires
        area_ok(*old(t)),
    ensures
        area_ok(*final(t)),
        (area_lines(*final(t)), area_cursor(*final(t))) == next_word_deleted(
            area_lines(*old(t)),
            area_cursor(*old(t)),
        ),
{
    t.inner.delete_next_word();
}

/// `TextArea::delete_next_char`. Which character is next depends on how wide
/// characters are drawn; the lines and the cursor it leaves depend on those
/// before alone.
#[verifier::external_body]
pub(crate) fn delete_next_char(t: &mut Area)
    requires
        area_ok(*old(t)),
    ensures
        area_ok(*final(t)),
        (area_lines(*final(t)), area_cursor(*final(t))) == next_char_deleted(
            area_lines(*old(t)),
            area_cursor(*old(t)),
        ),
{
    t.inner.delete_next_char();
}

/// The lines and the cursor when a key was typed into them: a character that
/// comes without control or alt is put in, backspace takes out the character
/// before the cursor, the tab key puts in spaces, and any other key does
/// nothing.
pub open spec fn with_key(
    lines: Seq<Seq<char>>,
    cursor: (int, int),
    code: KeyCode,
    ctrl: bool,
    alt: bool,
) -> (Seq<Seq<char>>, (int, int)) {
    if code == KeyCode::Backspace {
        without_char_before(lines, cursor)
    } else if ctrl || alt {
        (lines, cursor)
    } else if code == KeyCode::Tab || code == KeyCode::BackTab {
        with_piece(
            lines,
            cursor,
            Seq::new(tab_spaces(lines[cursor.0].take(cursor.1)) as nat, |i: int| ' '),
        )
    } else {
        match code {
            KeyCode::Char(c) => with_char(lines, cursor, c),
            _ => (lines, cursor),
        }
    }
}

/// `TextArea::input_without_shortcuts`, for keys other than delete and enter. Of
/// the tab key it is told that it puts in one to four spaces; how many depends
/// on how wide the characters before the cursor are drawn.
#[verifier::external_body]
pub(crate) fn input_key(t: &mut Area, code: KeyCode, ctrl: bool, alt: bool, shift: bool)
    requires
        area_ok(*old(t)),
        code != KeyCode::Delete,
        code != KeyCode::Enter,
    ensures
        area_ok(*final(t)),
        (area_lines(*final(t)), area_cursor(*final(t))) == with_key(
            area_lines(*old(t)),
            area_cursor(*old(t)),
            code,
            ctrl,
            alt,
        ),
        code == KeyCode::Tab && !ctrl && !alt ==> ({
            let before = area_lines(*old(t))[area_cursor(*old(t)).0].take(area_cursor(*old(t)).1);
            1 <= tab_spaces(before) <= 4 && area_cursor(*final(t)).1 == area_cursor(*old(t)).1
                + tab_spaces(before)
        }),
{
    let key = match code {
        KeyCode::Char(c) => ratatui_textarea::Key::Char(c),
        KeyCode::Tab | KeyCode::BackTab => ratatui_textarea::Key::Tab,
        KeyCode::Backspace => ratatui_textarea::Key::Backspace,
        _ => ratatui_textarea::Key::Null,
    };
    t.inner.input_without_shortcuts(ratatui_textarea::Input { key, ctrl, alt, shift });
}

/// The chat input.
pub struct ChatInput {
    pub textarea: Area,
    /// The inputs that were submitted, oldest first.
    pub history: Vec<String>,
    /// Which of them is in the text area while they are looked through.
    pub position: Option<usize>,
    /// What was in the text area before they were looked through.
    pub draft: Option<String>,
}

/// What a [`ChatInput`] holds.
pub struct InputView {
    pub lines: Seq<Seq<char>>,
    pub cursor: (int, int),
    pub history: Seq<Seq<char>>,
    pub position: Option<int>,
    pub draft: Option<Seq<char>>,
}

impl View for ChatInput {
    type V = InputView;

    open spec fn view(&self) -> InputView {
        InputView {
            lines: area_lines(self.textarea),
            cursor: area_cursor(self.textarea),
            history: text::texts(self.history@),
            position: match self.position {
                Some(p) => Some(p as int),
                None => None,
            },
            draft: match self.draft {
                Some(d) => Some(d@),
                None => None,
            },
        }
    }
}

/// The text of lines, with a line feed between each two.
pub open spec fn text_of(lines: Seq<Seq<char>>) -> Seq<char> {
    text::joined(lines, seq!['\n'])
}

/// Whether lines hold nothing but white space.
pub open spec fn is_blank(lines: Seq<Seq<char>>) -> bool {
    forall|i: int| 0 <= i < lines.len() ==> text::trimmed(#[trigger] lines[i]).len() == 0
}

/// The lines and the cursor of an empty input.
pub open spec fn empty_text() -> (Seq<Seq<char>>, (int, int)) {
    (seq![Seq::empty()], (0int, 0int))
}

/// The lines and the cursor of an input that holds `s`, with the cursor at the
/// very end.
pub open spec fn entry_text(s: Seq<char>) -> (Seq<Seq<char>>, (int, int)) {
    let pieces = pieces_of(s);
    (pieces, (pieces.len() - 1, pieces.last().len() as int))
}

impl InputView {
    /// The input with these lines and this cursor.
    pub open spec fn with_text(self, t: (Seq<Seq<char>>, (int, int))) -> InputView {
        InputView { lines: t.0, cursor: t.1, ..self }
    }

    /// The input when `content` was submitted: it is remembered, unless it is
    /// the same as the one before, and the next look starts from the newest.
    pub open spec fn submitted(self, content: Seq<char>) -> InputView {
        InputView {
            history: if self.history.len() > 0 && self.history.last() == content {
                self.history
            } else {
                self.history.push(content)
            },
            position: None,
            draft: None,
            ..self
        }
    }

    /// The input one submission further back, where there is one. The first
    /// step back keeps what was in the text area.
    pub open spec fn previous(self) -> InputView {
        if self.history.len() == 0 {
            self
        } else {
            match self.position {
                Some(p) => if p == 0 {
                    self
                } else {
                    InputView { position: Some(p - 1), ..self.with_text(
                        entry_text(self.history[p - 1]),
                    ) }
                },
                None => {
                    let p = self.history.len() - 1;
                    InputView {
                        position: Some(p),
                        draft: Some(text_of(self.lines)),
                        ..self.with_text(entry_text(self.history[p]))
                    }
                },
            }
        }
    }

    /// The input one submission further on, and behind the newest what was in
    /// the text area before.
    pub open spec fn following(self) -> InputView {
        match self.position {
            Some(p) => if p + 1 < self.history.len() {
                InputView { position: Some(p + 1), ..self.with_text(
                    entry_text(self.history[p + 1]),
                ) }
            } else {
                InputView {
                    position: None,
                    draft: None,
                    ..self.with_text(
                        entry_text(
                            match self.draft {
                                Some(d) => d,
                                None => Seq::empty(),
                            },
                        ),
                    )
                }
            },
            None => self,
        }
    }

    /// The input with the cursor moved.
    pub open spec fn gone(self, motion: Motion) -> InputView {
        InputView { cursor: moved_cursor(self.lines, self.cursor, motion), ..self }
    }

    /// The input when a key was typed that means nothing else.
    pub open spec fn typed(self, k: KeyPress) -> InputView {
        self.with_text(with_key(self.lines, self.cursor, k.code, k.ctrl, k.alt))
    }

    /// The input when a key was pressed in it.
    ///
    /// A character that comes with control and alt, as the third level of a
    /// keyboard gives it, is put in. Up and down go through the submissions from
    /// the first and the last line, and move the cursor from another. Enter does
    /// nothing.
    pub open spec fn edited(self, k: KeyPress) -> InputView {
        match k.code {
            KeyCode::Char(c) => if k.ctrl && k.alt {
                self.with_text(with_char(self.lines, self.cursor, c))
            } else {
                self.typed(k)
            },
            KeyCode::Left => self.gone(
                if k.ctrl {
                    Motion::WordBack
                } else {
                    Motion::Back
                },
            ),
            KeyCode::Right => self.gone(
                if k.ctrl {
                    Motion::WordForward
                } else {
                    Motion::Forward
                },
            ),
            KeyCode::Up => if self.cursor.0 == 0 && self.history.len() > 0 {
                self.previous()
            } else {
                self.gone(Motion::Up)
            },
            KeyCode::Down => if self.cursor.0 + 1 >= self.lines.len() && self.position is Some {
                self.following()
            } else {
                self.gone(Motion::Down)
            },
            KeyCode::Home => self.gone(Motion::Head),
            KeyCode::End => self.gone(Motion::End),
            KeyCode::Backspace => if k.ctrl {
                self.with_text(word_deleted(self.lines, self.cursor))
            } else {
                self.typed(k)
            },
            KeyCode::Delete => if k.ctrl {
                self.with_text(next_word_deleted(self.lines, self.cursor))
            } else {
                self.with_text(next_char_deleted(self.lines, self.cursor))
            },
            KeyCode::Enter => self,
            _ => self.typed(k),
        }
    }

    /// Whether the position is one of a submission.
    pub open spec fn wf(self) -> bool {
        is_text(self.lines, self.cursor) && match self.position {
            Some(p) => 0 <= p < self.history.len(),
            None => true,
        }
    }
}

proof fn lemma_entry_from_empty(s: Seq<char>)
    ensures
        with_str(empty_text().0, empty_text().1, s) == entry_text(s),
        pieces_of(s).len() > 0,
    decreases s.len(),
{
    let lines = empty_text().0;
    let cursor = empty_text().1;
    let pieces = pieces_of(s);
    lemma_pieces(s, 0);
    let r = with_str(lines, cursor, s);
    if pieces.len() == 1 {
        assert(r.0 =~= pieces) by {
            assert(lines[0].take(0) + pieces[0] + lines[0].skip(0) =~= pieces[0]);
        }
    } else {
        assert(lines[0].take(0) + pieces[0] =~= pieces[0]);
        assert(pieces.last() + lines[0].skip(0) =~= pieces.last());
        assert(lines.take(0).push(pieces[0]) + pieces.subrange(1, pieces.len() - 1) + seq![
            pieces.last(),
        ] + lines.skip(1) =~= pieces);
    }
}

proof fn lemma_pieces(s: Seq<char>, pos: int)
    requires
        0 <= pos <= s.len(),
    ensures
        text::split_from(s, pos, seq!['\n']).len() > 0,
    decreases s.len() - pos,
{
    let sep = seq!['\n'];
    text::find_from_is_first(s, pos, sep);
    if let Some(i) = text::find_from(s, pos, sep) {
        lemma_pieces(s, i + 1);
    }
}

/// What is put into an empty input comes back: where no line ends with a
/// carriage return, the lines of a text are the lines it was joined from.
pub proof fn lines_come_back(lines: Seq<Seq<char>>)
    requires
        lines.len() > 0,
        forall|i: int| 0 <= i < lines.len() ==> !(#[trigger] lines[i]).contains('\n'),
        forall|i: int|
            0 <= i < lines.len() ==> (#[trigger] lines[i]).len() == 0 || lines[i].last() != '\r',
    ensures
        entry_text(text_of(lines)).0 == lines,
{
    text::split_undoes_join(lines, '\n');
    let parts = text::split_from(text_of(lines), 0, seq!['\n']);
    assert(parts == lines);
    assert forall|i: int| 0 <= i < lines.len() implies pieces_of(text_of(lines))[i] == #[trigger] lines[i] by {
        assert(text::without_return(parts[i]) == parts[i]);
    }
    assert(pieces_of(text_of(lines)) =~= lines);
}

/// The input after steps through what was submitted, each back where it is true
/// and on where it is false.
pub open spec fn walked(v: InputView, steps: Seq<bool>) -> InputView
    decreases steps.len(),
{
    if steps.len() == 0 {
        v
    } else {
        let before = walked(v, steps.drop_last());
        if steps.last() {
            before.previous()
        } else {
            before.following()
        }
    }
}

/// Whether the input looks back with the draft kept, or has it in its lines.
spec fn has_draft(v: InputView, w: InputView) -> bool {
    &&& w.history == v.history
    &&& match w.position {
        Some(p) => 0 <= p < v.history.len() && w.draft == Some(text_of(v.lines)),
        None => w.lines == v.lines && (w.draft == v.draft || w.draft is None) && (w.cursor
            == v.cursor || w.cursor == (v.lines.len() - 1, v.lines.last().len() as int)),
    }
}

proof fn lemma_walked(v: InputView, steps: Seq<bool>)
    requires
        v.wf(),
        v.position is None,
        forall|i: int|
            0 <= i < v.lines.len() ==> (#[trigger] v.lines[i]).len() == 0 || v.lines[i].last()
                != '\r',
    ensures
        has_draft(v, walked(v, steps)),
    decreases steps.len(),
{
    if steps.len() > 0 {
        lemma_walked(v, steps.drop_last());
        lines_come_back(v.lines);
    }
}

/// However one steps back and on through what was submitted, behind the newest
/// the draft comes back: the lines are what they were, and the cursor is where it
/// was or at their end. Nothing that was submitted changes, and while one looks
/// back the draft is kept. Lines that end with a carriage return lose it, so there
/// are none.
pub proof fn a_draft_survives_a_look_back(v: InputView, steps: Seq<bool>)
    requires
        v.wf(),
        v.position is None,
        forall|i: int|
            0 <= i < v.lines.len() ==> (#[trigger] v.lines[i]).len() == 0 || v.lines[i].last()
                != '\r',
    ensures
        walked(v, steps).history == v.history,
        walked(v, steps).position is None ==> walked(v, steps).lines == v.lines,
        walked(v, steps).position is None ==> walked(v, steps).cursor == v.cursor || walked(
            v,
            steps,
        ).cursor == (v.lines.len() - 1, v.lines.last().len() as int),
        walked(v, steps).position is None ==> walked(v, steps).draft == v.draft || walked(
            v,
            steps,
        ).draft is None,
        walked(v, steps).position is Some ==> walked(v, steps).draft == Some(text_of(v.lines)),
{
    lemma_walked(v, steps);
}

proof fn lemma_steps(v: InputView, n: nat)
    requires
        v.wf(),
        v.position is None,
        0 < n <= v.history.len(),
    ensures
        walked(v, Seq::new(n, |i: int| true)).position == Some(v.history.len() - n as int),
        walked(v, Seq::new(n, |i: int| true)).history == v.history,
    decreases n,
{
    let back = Seq::new(n, |i: int| true);
    let less = Seq::new((n - 1) as nat, |i: int| true);
    assert(back.drop_last() =~= less);
    assert(back.last());
    if n > 1 {
        lemma_steps(v, (n - 1) as nat);
    } else {
        assert(less =~= Seq::empty());
    }
}

proof fn lemma_on(v: InputView, n: nat, m: nat)
    requires
        v.wf(),
        v.position is None,
        m <= n <= v.history.len(),
        0 < n,
    ensures
        walked(v, there_and_back(n, m)).history == v.history,
        walked(v, there_and_back(n, m)).position == (if m < n {
            Some(v.history.len() - n as int + m)
        } else {
            None
        }),
    decreases m,
{
    let back = Seq::new(n, |i: int| true);
    lemma_steps(v, n);
    if m == 0 {
        assert(there_and_back(n, 0) =~= back);
    } else {
        lemma_on(v, n, (m - 1) as nat);
        assert(there_and_back(n, m).drop_last() =~= there_and_back(n, (m - 1) as nat));
        assert(!there_and_back(n, m).last());
    }
}

/// `n` steps back, and then `m` on.
pub open spec fn there_and_back(n: nat, m: nat) -> Seq<bool> {
    Seq::new(n + m, |i: int| i < n)
}

/// As many steps on as back lead out of what was submitted, to the draft.
pub proof fn as_many_steps_on_lead_back(v: InputView, n: nat)
    requires
        v.wf(),
        v.position is None,
        n <= v.history.len(),
    ensures
        walked(v, there_and_back(n, n)).position is None,
{
    if n > 0 {
        lemma_on(v, n, n);
    } else {
        assert(there_and_back(0, 0) =~= Seq::empty());
    }
}

/// Looking back never changes what was submitted, never runs past the oldest
/// submission, and one step back from the one after gives the same.
pub proof fn looking_back_keeps_the_history(v: InputView)
    requires
        v.wf(),
    ensures
        v.previous().history == v.history,
        v.following().history == v.history,
        v.position == Some(0int) ==> v.previous() == v,
        (v.position is Some && v.position.unwrap() + 1 < v.history.len()) ==> (
        v.following().previous().lines == entry_text(v.history[v.position.unwrap()]).0
            && v.following().previous().position == v.position),
{
}

/// Submitting the same input twice in a row remembers it once.
pub proof fn a_repeated_input_is_remembered_once(v: InputView, content: Seq<char>)
    ensures
        v.submitted(content).submitted(content).history == v.submitted(content).history,
        v.submitted(content).history.last() == content,
        v.submitted(content).position is None,
{
}

/// The arrows move the cursor, by a word with control; home and end go to the
/// ends of the line. Nothing else changes with them.
pub proof fn arrows_move_the_cursor(v: InputView, k: KeyPress)
    ensures
        ({
            let w = v.edited(k);
            let moved = w == (InputView { cursor: w.cursor, ..v });
            &&& k.code == KeyCode::Left ==> moved && w.cursor == moved_cursor(
                v.lines,
                v.cursor,
                if k.ctrl {
                    Motion::WordBack
                } else {
                    Motion::Back
                },
            )
            &&& k.code == KeyCode::Right ==> moved && w.cursor == moved_cursor(
                v.lines,
                v.cursor,
                if k.ctrl {
                    Motion::WordForward
                } else {
                    Motion::Forward
                },
            )
            &&& k.code == KeyCode::Home ==> moved && w.cursor == moved_cursor(
                v.lines,
                v.cursor,
                Motion::Head,
            )
            &&& k.code == KeyCode::End ==> moved && w.cursor == moved_cursor(
                v.lines,
                v.cursor,
                Motion::End,
            )
            &&& k.code == KeyCode::Up && (v.cursor.0 != 0 || v.history.len() == 0) ==> moved
                && w.cursor == moved_cursor(v.lines, v.cursor, Motion::Up)
            &&& k.code == KeyCode::Down && (v.cursor.0 + 1 < v.lines.len() || v.position is None)
                ==> moved && w.cursor == moved_cursor(v.lines, v.cursor, Motion::Down)
            &&& k.code == KeyCode::Enter ==> w == v
        }),
{
}

/// Backspace takes out what is before the cursor and delete what is behind it: a
/// character, or a word with control.
pub proof fn keys_take_text_out(v: InputView, k: KeyPress)
    ensures
        ({
            let w = v.edited(k);
            let text_changed = w == (InputView { lines: w.lines, cursor: w.cursor, ..v });
            &&& k.code == KeyCode::Backspace || k.code == KeyCode::Delete ==> text_changed
            &&& k.code == KeyCode::Backspace && !k.ctrl ==> (w.lines, w.cursor)
                == without_char_before(v.lines, v.cursor)
            &&& k.code == KeyCode::Backspace && k.ctrl ==> (w.lines, w.cursor) == word_deleted(
                v.lines,
                v.cursor,
            )
            &&& k.code == KeyCode::Delete && !k.ctrl ==> (w.lines, w.cursor) == next_char_deleted(
                v.lines,
                v.cursor,
            )
            &&& k.code == KeyCode::Delete && k.ctrl ==> (w.lines, w.cursor) == next_word_deleted(
                v.lines,
                v.cursor,
            )
        }),
{
}

/// A line break cuts the line at the cursor, and to take out what is before the
/// cursor puts it together again.
pub proof fn a_line_break_is_taken_back(lines: Seq<Seq<char>>, cursor: (int, int))
    requires
        is_text(lines, cursor),
    ensures
        ({
            let w = with_newline(lines, cursor);
            &&& w.0.len() == lines.len() + 1
            &&& w.1 == (cursor.0 + 1, 0int)
            &&& w.0[cursor.0] + w.0[cursor.0 + 1] == lines[cursor.0]
            &&& w.0[cursor.0].len() == cursor.1
            &&& without_char_before(w.0, w.1) == (lines, cursor)
        }),
{
    let (row, col) = cursor;
    let w = with_newline(lines, cursor);
    assert(w.0[row] =~= lines[row].take(col));
    assert(w.0[row + 1] =~= lines[row].skip(col));
    assert(w.0[row] + w.0[row + 1] =~= lines[row]);
    assert(without_char_before(w.0, w.1).0 =~= lines);
}

/// From the first line the key for up shows the submission before, from the
/// newest to the oldest, and keeps what was there; from the last line the key for
/// down goes back towards it.
pub proof fn submissions_are_gone_through(v: InputView, k: KeyPress)
    requires
        v.wf(),
    ensures
        k.code == KeyCode::Up && v.cursor.0 == 0 && v.history.len() > 0 ==> {
            let w = v.edited(k);
            &&& w.history == v.history
            &&& w != v ==> w.cursor == (w.lines.len() - 1, w.lines.last().len() as int)
            &&& v.position is None ==> {
                &&& w.position == Some(v.history.len() - 1)
                &&& w.draft == Some(text::joined(v.lines, seq!['\n']))
                &&& w.lines == pieces_of(v.history.last())
            }
            &&& v.position matches Some(p) ==> {
                &&& p > 0 ==> w.position == Some(p - 1) && w.lines == pieces_of(v.history[p - 1])
                &&& p == 0 ==> w == v
                &&& w.draft == v.draft
            }
        },
        k.code == KeyCode::Down && v.cursor.0 + 1 >= v.lines.len() ==> (v.position matches Some(p)
            ==> {
            let w = v.edited(k);
            &&& w.history == v.history
            &&& w.cursor == (w.lines.len() - 1, w.lines.last().len() as int)
            &&& p + 1 < v.history.len() ==> w.position == Some(p + 1) && w.draft == v.draft
                && w.lines == pieces_of(v.history[p + 1])
            &&& p + 1 >= v.history.len() ==> w.position is None && w.draft is None
            &&& p + 1 >= v.history.len() ==> (v.draft matches Some(d) ==> w.lines == pieces_of(d))
        }),
{
}

/// A character goes in at the cursor, in its line and nowhere else, and the
/// cursor stands behind it. Taking out the character before the cursor undoes
/// that. With control or alt alone a character is not put in.
pub proof fn a_character_goes_in_at_the_cursor(v: InputView, k: KeyPress, c: char)
    requires
        v.wf(),
        k.code == KeyCode::Char(c),
        c != '\n',
        c != '\r',
    ensures
        ({
            let w = v.edited(k);
            let (row, col) = v.cursor;
            let line = v.lines[row];
            &&& k.ctrl == k.alt ==> {
                &&& w == (InputView { lines: w.lines, cursor: (row, col + 1), ..v })
                &&& w.lines.len() == v.lines.len()
                &&& w.lines[row] == line.take(col) + seq![c] + line.skip(col)
                &&& forall|i: int|
                    0 <= i < v.lines.len() && i != row ==> #[trigger] w.lines[i] == v.lines[i]
                &&& without_char_before(w.lines, w.cursor) == (v.lines, v.cursor)
            }
            &&& k.ctrl != k.alt ==> w == v
        }),
{
    let w = v.edited(k);
    let (row, col) = v.cursor;
    let line = v.lines[row];
    if k.ctrl == k.alt {
        let longer = w.lines[row];
        assert(longer.take(col) + longer.skip(col + 1) =~= line);
        assert(without_char_before(w.lines, w.cursor).0 =~= v.lines);
    }
}

impl ChatInput {
    /// The text area is plain, and the position is one of a submission.
    pub open spec fn wf(&self) -> bool {
        area_ok(self.textarea) && self@.wf()
    }

    /// An empty input.
    pub fn new() -> (r: Self)
        ensures
            r.wf(),
            r@ == (InputView {
                lines: empty_text().0,
                cursor: empty_text().1,
                history: Seq::empty(),
                position: None,
                draft: None,
            }),
    {
        let r = ChatInput {
            textarea: plain_textarea(),
            history: Vec::new(),
            position: None,
            draft: None,
        };
        assert(r@.history =~= Seq::empty());
        r
    }

    /// The whole text.
    pub fn input_text(&self) -> (r: String)
        ensures
            r@ == text_of(self@.lines),
    {
        proof {
            reveal_strlit("\n");
            assert("\n"@ =~= seq!['\n']);
        }
        let lines = lines_of(&self.textarea);
        text::join(&lines, "\n")
    }

    /// The lines.
    pub fn lines(&self) -> (r: Vec<String>)
        ensures
            text::texts(r@) == self@.lines,
    {
        lines_of(&self.textarea)
    }

    /// Where the cursor is: the line, and the characters before it in that line.
    pub fn cursor(&self) -> (r: (usize, usize))
        ensures
            (r.0 as int, r.1 as int) == self@.cursor,
    {
        cursor_of(&self.textarea)
    }

    /// Whether the text is nothing but white space.
    pub fn input_is_blank(&self) -> (r: bool)
        ensures
            r == is_blank(self@.lines),
    {
        let lines = lines_of(&self.textarea);
        let mut i: usize = 0;
        while i < lines.len()
            invariant
                i <= lines@.len(),
                text::texts(lines@) == self@.lines,
                forall|k: int| 0 <= k < i ==> text::trimmed(#[trigger] self@.lines[k]).len() == 0,
            decreases lines@.len() - i,
        {
            let t = text::trim(lines[i].as_str());
            assert(self@.lines[i as int] == lines@[i as int]@);
            if !t.as_str().is_empty() {
                return false;
            }
            i = i + 1;
        }
        true
    }

    /// Whether the text is empty.
    pub fn is_empty(&self) -> (r: bool)
        ensures
            r == (self@.lines == seq![Seq::<char>::empty()]),
    {
        let lines = lines_of(&self.textarea);
        if lines.len() == 1 && lines[0].as_str().is_empty() {
            assert(self@.lines[0] =~= Seq::empty());
            assert(self@.lines =~= seq![Seq::<char>::empty()]);
            true
        } else {
            proof {
                if self@.lines == seq![Seq::<char>::empty()] {
                    assert(self@.lines.len() == 1);
                    assert(self@.lines[0] == lines@[0]@);
                }
            }
            false
        }
    }

    /// Empties the text.
    pub fn clear_input(&mut self)
        requires
            old(self).wf(),
        ensures
            final(self).wf(),
            final(self)@ == old(self)@.with_text(empty_text()),
    {
        self.textarea = plain_textarea();
    }

    /// Replaces the text by `s`.
    pub fn set_input_text(&mut self, s: &str)
        requires
            old(self).wf(),
        ensures
            final(self).wf(),
            final(self)@ == old(self)@.with_text(entry_text(s@)),
    {
        self.textarea = plain_textarea();
        insert_str(&mut self.textarea, s);
        proof {
            lemma_entry_from_empty(s@);
        }
    }

    /// Puts `s` in at the cursor.
    pub fn insert(&mut self, s: &str)
        requires
            old(self).wf(),
        ensures
            final(self).wf(),
            final(self)@ == old(self)@.with_text(
                with_str(old(self)@.lines, old(self)@.cursor, s@),
            ),
    {
        insert_str(&mut self.textarea, s);
    }

    /// Puts `c` in at the cursor.
    pub fn insert_one(&mut self, c: char)
        requires
            old(self).wf(),
        ensures
            final(self).wf(),
            final(self)@ == old(self)@.with_text(
                with_char(old(self)@.lines, old(self)@.cursor, c),
            ),
    {
        insert_char(&mut self.textarea, c);
    }

    /// Cuts the line at the cursor.
    pub fn newline(&mut self)
        requires
            old(self).wf(),
        ensures
            final(self).wf(),
            final(self)@ == old(self)@.with_text(
                with_newline(old(self)@.lines, old(self)@.cursor),
            ),
    {
        insert_newline(&mut self.textarea);
    }

    /// Moves the cursor.
    pub fn go(&mut self, motion: Motion)
        requires
            old(self).wf(),
        ensures
            final(self).wf(),
            final(self)@ == old(self)@.gone(motion),
            motion == Motion::Head ==> final(self)@.cursor == (old(self)@.cursor.0, 0int),
            motion == Motion::End ==> final(self)@.cursor == (
                old(self)@.cursor.0,
                old(self)@.lines[old(self)@.cursor.0].len() as int,
            ),
    {
        move_cursor(&mut self.textarea, motion);
    }

    /// Takes out the word before the cursor.
    pub fn remove_word(&mut self)
        requires
            old(self).wf(),
        ensures
            final(self).wf(),
            final(self)@ == old(self)@.with_text(
                word_deleted(old(self)@.lines, old(self)@.cursor),
            ),
    {
        delete_word(&mut self.textarea);
    }

    /// Takes out the word behind the cursor.
    pub fn remove_next_word(&mut self)
        requires
            old(self).wf(),
        ensures
            final(self).wf(),
            final(self)@ == old(self)@.with_text(
                next_word_deleted(old(self)@.lines, old(self)@.cursor),
            ),
    {
        delete_next_word(&mut self.textarea);
    }

    /// Takes out the character behind the cursor.
    pub fn remove_next_char(&mut self)
        requires
            old(self).wf(),
        ensures
            final(self).wf(),
            final(self)@ == old(self)@.with_text(
                next_char_deleted(old(self)@.lines, old(self)@.cursor),
            ),
    {
        delete_next_char(&mut self.textarea);
    }

    /// Types a key other than delete and enter.
    pub fn type_key(&mut self, code: KeyCode, ctrl: bool, alt: bool, shift: bool)
        requires
            old(self).wf(),
            code != KeyCode::Delete,
            code != KeyCode::Enter,
        ensures
            final(self).wf(),
            final(self)@ == old(self)@.with_text(
                with_key(old(self)@.lines, old(self)@.cursor, code, ctrl, alt),
            ),
    {
        input_key(&mut self.textarea, code, ctrl, alt, shift);
    }

    /// Whether the cursor is in the first line.
    pub fn cursor_on_first_line(&self) -> (r: bool)
        ensures
            r == (self@.cursor.0 == 0),
    {
        cursor_of(&self.textarea).0 == 0
    }

    /// Whether the cursor is in the last line.
    pub fn cursor_on_last_line(&self) -> (r: bool)
        requires
            self.wf(),
        ensures
            r == (self@.cursor.0 + 1 >= self@.lines.len()),
    {
        let lines = lines_of(&self.textarea);
        let row = cursor_of(&self.textarea).0;
        assert(lines@.len() == self@.lines.len());
        row >= lines.len() - 1
    }

    /// Remembers `content`, which was submitted.
    pub fn push_input_history(&mut self, content: &str)
        requires
            old(self).wf(),
        ensures
            final(self).wf(),
            final(self)@ == old(self)@.submitted(content@),
    {
        let ghost before = self@.history;
        let n: usize = self.history.len();
        let repeated = n > 0 && text::same(self.history[n - 1].as_str(), content);
        proof {
            if n > 0 {
                assert(before.last() == self.history@[n - 1]@);
            }
        }
        if !repeated {
            self.history.push(content.to_string());
            assert(text::texts(self.history@) =~= before.push(content@));
        }
        self.position = None;
        self.draft = None;
    }

    /// Puts a submission into the text area, with the cursor at its very end.
    fn load_history_entry(&mut self, entry: &str)
        requires
            old(self).wf(),
        ensures
            final(self).wf(),
            final(self)@ == old(self)@.with_text(entry_text(entry@)),
    {
        self.set_input_text(entry);
        move_cursor(&mut self.textarea, Motion::Bottom);
        move_cursor(&mut self.textarea, Motion::End);
        proof {
            lemma_entry_from_empty(entry@);
        }
    }

    /// Steps back to the submission before. There is nothing to step back to
    /// before anything was submitted; then the result is false.
    pub fn history_prev(&mut self) -> (r: bool)
        requires
            old(self).wf(),
        ensures
            final(self).wf(),
            r == (old(self)@.history.len() > 0),
            final(self)@ == old(self)@.previous(),
    {
        let n: usize = self.history.len();
        assert(self@.history.len() == n);
        if n == 0 {
            return false;
        }
        let next: usize = match self.position {
            Some(p) => {
                if p == 0 {
                    return true;
                }
                p - 1
            },
            None => {
                let kept = self.input_text();
                self.draft = Some(kept);
                n - 1
            },
        };
        self.position = Some(next);
        let entry = self.history[next].clone();
        assert(self@.history[next as int] == entry@);
        self.load_history_entry(entry.as_str());
        true
    }

    /// Steps on to the submission after, and behind the newest back to what was
    /// in the text area. Where no submission is in it, the result is false.
    pub fn history_next(&mut self) -> (r: bool)
        requires
            old(self).wf(),
        ensures
            final(self).wf(),
            r == (old(self)@.position is Some),
            final(self)@ == old(self)@.following(),
    {
        let p: usize = match self.position {
            Some(p) => p,
            None => {
                return false;
            },
        };
        let n: usize = self.history.len();
        assert(self@.history.len() == n);
        if p < n - 1 {
            self.position = Some(p + 1);
            let entry = self.history[p + 1].clone();
            assert(self@.history[p + 1] == entry@);
            self.load_history_entry(entry.as_str());
        } else {
            self.position = None;
            let draft = match &self.draft {
                Some(d) => d.clone(),
                None => String::new(),
            };
            assert(old(self).draft is None ==> draft@ =~= Seq::empty());
            self.draft = None;
            self.load_history_entry(draft.as_str());
        }
        true
    }

    /// Takes a key that was pressed in the input.
    pub fn edit(&mut self, k: &KeyPress)
        requires
            old(self).wf(),
        ensures
            final(self).wf(),
            final(self)@ == old(self)@.edited(*k),
    {
        match k.code {
            KeyCode::Char(c) => {
                if k.ctrl && k.alt {
                    self.insert_one(c);
                } else {
                    self.type_key(k.code, k.ctrl, k.alt, k.shift);
                }
            },
            KeyCode::Left => {
                self.go(
                    if k.ctrl {
                        Motion::WordBack
                    } else {
                        Motion::Back
                    },
                );
            },
            KeyCode::Right => {
                self.go(
                    if k.ctrl {
                        Motion::WordForward
                    } else {
                        Motion::Forward
                    },
                );
            },
            KeyCode::Up => {
                if !(self.cursor_on_first_line() && self.history_prev()) {
                    self.go(Motion::Up);
                }
            },
            KeyCode::Down => {
                if !(self.cursor_on_last_line() && self.history_next()) {
                    self.go(Motion::Down);
                }
            },
            KeyCode::Home => {
                self.go(Motion::Head);
            },
            KeyCode::End => {
                self.go(Motion::End);
            },
            KeyCode::Backspace => {
                if k.ctrl {
                    self.remove_word();
                } else {
                    self.type_key(k.code, k.ctrl, k.alt, k.shift);
                }
            },
            KeyCode::Delete => {
                if k.ctrl {
                    self.remove_next_word();
                } else {
                    self.remove_next_char();
                }
            },
            KeyCode::Enter => {},
            _ => {
                self.type_key(k.code, k.ctrl, k.alt, k.shift);
            },
        }
    }
}

} // verus!
