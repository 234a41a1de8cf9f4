//! The entry screen's input box holds a `tui_textarea::TextArea`. Its lines,
//! cursor and whether a selection is under way are named here, and each
//! method the screen calls states what it does to them.

use vstd::prelude::*;

use tui_textarea::{Input, Key as TKey, TextArea};

use crate::entry::{Key, KeyCode};

verus! {

/// The entry screen's input box: a `tui_textarea::TextArea`, opaque here.
#[verifier::external_body]
pub struct InputBox {
    area: TextArea<'static>,
}

/// The lines a text area holds.
pub uninterp spec fn textarea_lines(t: InputBox) -> Seq<Seq<char>>;

/// The cursor of a text area: its row and its column, in characters.
pub uninterp spec fn textarea_cursor(t: InputBox) -> (nat, nat);

/// Whether a selection is under way in a text area.
pub uninterp spec fn textarea_selecting(t: InputBox) -> bool;

/// `line` with `s` inserted before the character at `col` (at the end when
/// `col` is past it).
pub open spec fn insert_at(line: Seq<char>, col: nat, s: Seq<char>) -> Seq<char> {
    let k: int = if col <= line.len() {
        col as int
    } else {
        line.len() as int
    };
    line.take(k) + s + line.skip(k)
}

/// `TextArea::default()`: one empty line, the cursor at its start, nothing selected.
#[verifier::external_body]
pub(crate) fn textarea_empty() -> (t: InputBox)
    ensures
        textarea_lines(t) == seq![Seq::<char>::empty()],
        textarea_cursor(t) == (0nat, 0nat),
        !textarea_selecting(t),
{
    InputBox { area: TextArea::default() }
}

/// `TextArea::from([line])`: that one line, the cursor at its start, nothing selected.
#[verifier::external_body]
pub(crate) fn textarea_of_line(line: &str) -> (t: InputBox)
    ensures
        textarea_lines(t) == seq![line@],
        textarea_cursor(t) == (0nat, 0nat),
        !textarea_selecting(t),
{
    InputBox { area: TextArea::from([line.to_string()]) }
}

/// `TextArea::lines().len()`.
#[verifier::external_body]
pub(crate) fn textarea_line_count(t: &InputBox) -> (n: usize)
    ensures
        n == textarea_lines(*t).len(),
{
    t.area.lines().len()
}

/// The first line of `TextArea::lines()`, or an empty one if there is none.
#[verifier::external_body]
pub(crate) fn textarea_first_line(t: &InputBox) -> (r: String)
    ensures
        textarea_lines(*t).len() > 0 ==> r@ == textarea_lines(*t)[0],
        textarea_lines(*t).len() == 0 ==> r@ == Seq::<char>::empty(),
{
    t.area.lines().first().cloned().unwrap_or_default()
}

/// The column of `TextArea::cursor()`.
#[verifier::external_body]
pub(crate) fn textarea_cursor_col(t: &InputBox) -> (c: usize)
    ensures
        c == textarea_cursor(*t).1,
{
    t.area.cursor().1
}

/// `TextArea::insert_str`. It first deletes a selection under way, so
/// nothing is selected afterwards, and the cursor stays on a line. Without
/// a selection, text holding no line break goes into the cursor's line
/// before the cursor's character, and the cursor moves past it.
#[verifier::external_body]
pub(crate) fn textarea_insert_str(t: &mut InputBox, s: &str) -> (modified: bool)
    ensures
        !textarea_selecting(*final(t)),
        textarea_cursor(*final(t)).0 < textarea_lines(*final(t)).len(),
        !textarea_selecting(*old(t)) && textarea_cursor(*old(t)).0 < textarea_lines(*old(t)).len()
            && !s@.contains('\n') && !s@.contains('\r') ==> textarea_lines(*final(t))
            == textarea_lines(*old(t)).update(
            textarea_cursor(*old(t)).0 as int,
            insert_at(
                textarea_lines(*old(t))[textarea_cursor(*old(t)).0 as int],
                textarea_cursor(*old(t)).1,
                s@,
            ),
        ) && textarea_cursor(*final(t)) == (
            textarea_cursor(*old(t)).0,
            textarea_cursor(*old(t)).1 + s@.len(),
        ),
{
    t.area.insert_str(s)
}

/// Whether a key types its character: a character other than a line
/// break, without Ctrl or Alt.
pub open spec fn types_char(key: Key) -> bool {
    key.code matches KeyCode::Char(c) && c != '\n' && c != '\r' && !key.ctrl && !key.alt
}

/// `TextArea::input` with the key as `tui_textarea::Input`. A key that types
/// its character deletes a selection under way, then inserts the character
/// at the cursor and moves the cursor one column on; stated here when
/// nothing is selected. Other keys may depend on state this library does
/// not follow (the undo history, the yanked text), so for them only that
/// the cursor stays on a line is stated.
#[verifier::external_body]
pub(crate) fn textarea_input(t: &mut InputBox, key: Key) -> (modified: bool)
    ensures
        textarea_cursor(*final(t)).0 < textarea_lines(*final(t)).len(),
        types_char(key) ==> !textarea_selecting(*final(t)),
        types_char(key) && !textarea_selecting(*old(t)) && textarea_cursor(*old(t)).0
            < textarea_lines(*old(t)).len() ==> (key.code matches KeyCode::Char(c) && textarea_lines(
            *final(t),
        ) == textarea_lines(*old(t)).update(
            textarea_cursor(*old(t)).0 as int,
            insert_at(
                textarea_lines(*old(t))[textarea_cursor(*old(t)).0 as int],
                textarea_cursor(*old(t)).1,
                seq![c],
            ),
        ) && textarea_cursor(*final(t)) == (
            textarea_cursor(*old(t)).0,
            textarea_cursor(*old(t)).1 + 1,
        )),
{
    let k = match key.code {
        KeyCode::Char(c) => TKey::Char(c), KeyCode::Backspace => TKey::Backspace,
        KeyCode::Enter => TKey::Enter, KeyCode::Left => TKey::Left, KeyCode::Right => TKey::Right,
        KeyCode::Up => TKey::Up, KeyCode::Down => TKey::Down, KeyCode::Tab => TKey::Tab,
        KeyCode::Delete => TKey::Delete, KeyCode::Home => TKey::Home, KeyCode::End => TKey::End,
        KeyCode::PageUp => TKey::PageUp, KeyCode::PageDown => TKey::PageDown,
        KeyCode::Esc => TKey::Esc, KeyCode::F(n) => TKey::F(n), KeyCode::Other => TKey::Null,
    };
    t.area.input(Input { key: k, ctrl: key.ctrl, alt: key.alt, shift: key.shift })
}

} // verus!
