//! Keys, and the line of text that they edit.

use vstd::prelude::*;

verus! {

/// A key, as far as it means something here.
#[derive(Clone, Copy, Debug, PartialEq, Eq, Structural)]
pub enum KeyCode {
    Backspace,
    Delete,
    Left,
    Right,
    Home,
    End,
    Up,
    Down,
    Tab,
    Enter,
    Esc,
    Char(char),
    Other,
}

/// What happened to a key.
#[derive(Clone, Copy, Debug, PartialEq, Eq, Structural)]
pub enum KeyKind {
    Press,
    Repeat,
    Release,
}

/// The shift key among the modifiers.
pub const SHIFT: u8 = 1;

/// The control key among the modifiers.
pub const CONTROL: u8 = 2;

/// The alternate key among the modifiers.
pub const ALT: u8 = 4;

/// Something that happened to a key, with the modifiers that were held: one bit each.
#[derive(Clone, Copy, Debug, PartialEq, Eq, Structural)]
pub struct Key {
    pub code: KeyCode,
    pub modifiers: u8,
    pub kind: KeyKind,
}

impl Key {
    /// A key that was pressed.
    pub fn new(code: KeyCode, modifiers: u8) -> (key: Self)
        ensures
            key == (Key { code, modifiers, kind: KeyKind::Press }),
    {
        Key { code, modifiers, kind: KeyKind::Press }
    }

    /// The shift key was held.
    pub open spec fn shift(self) -> bool {
        self.modifiers & SHIFT != 0
    }

    /// The control key was held.
    pub open spec fn control(self) -> bool {
        self.modifiers & CONTROL != 0
    }

    /// Whether the shift key was held.
    pub fn has_shift(&self) -> (held: bool)
        ensures
            held == self.shift(),
    {
        self.modifiers & SHIFT != 0
    }

    /// Whether the control key was held.
    pub fn has_control(&self) -> (held: bool)
        ensures
            held == self.control(),
    {
        self.modifiers & CONTROL != 0
    }
}

/// The keys that can edit a line.
#[derive(Clone, Copy, Debug, PartialEq, Eq, Structural)]
pub enum EditKey {
    Backspace,
    Delete,
    Left,
    Right,
    Home,
    End,
    Char(char),
}

/// What a key is to a line: nothing when it was released, or is not one that edits.
pub open spec fn edit_of(key: Key) -> Option<EditKey> {
    if key.kind == KeyKind::Release {
        None
    } else {
        match key.code {
            KeyCode::Backspace => Some(EditKey::Backspace),
            KeyCode::Delete => Some(EditKey::Delete),
            KeyCode::Left => Some(EditKey::Left),
            KeyCode::Right => Some(EditKey::Right),
            KeyCode::Home => Some(EditKey::Home),
            KeyCode::End => Some(EditKey::End),
            KeyCode::Char(c) => Some(EditKey::Char(c)),
            _ => None,
        }
    }
}

/// What a key is to a line.
pub fn edit_key(key: Key) -> (edit: Option<EditKey>)
    ensures
        edit == edit_of(key),
{
    if key.kind == KeyKind::Release {
        return None;
    }
    match key.code {
        KeyCode::Backspace => Some(EditKey::Backspace),
        KeyCode::Delete => Some(EditKey::Delete),
        KeyCode::Left => Some(EditKey::Left),
        KeyCode::Right => Some(EditKey::Right),
        KeyCode::Home => Some(EditKey::Home),
        KeyCode::End => Some(EditKey::End),
        KeyCode::Char(c) => Some(EditKey::Char(c)),
        _ => None,
    }
}

/// A line that is edited, `tui_input::Input`.
#[verifier::external_type_specification]
#[verifier::external_body]
pub struct OutsideInput(tui_input::Input);

/// What a line holds: its text, how many characters stand in front of the cursor, what was last
/// cut, and whether the last edit cut something.
#[verifier::ext_equal]
pub ghost struct LineView {
    pub text: Seq<char>,
    pub cursor: nat,
    pub cut: Seq<char>,
    pub cutting: bool,
}

impl LineView {
    /// A line with this text and the cursor behind it.
    pub open spec fn of(text: Seq<char>) -> LineView {
        LineView { text, cursor: text.len(), cut: Seq::empty(), cutting: false }
    }
}

/// What a `tui_input::Input` holds.
pub uninterp spec fn line_of(input: tui_input::Input) -> LineView;

/// Makes a line with `tui_input::Input::new`: it holds the text, with the cursor behind it and
/// nothing cut.
#[verifier::external_body]
pub(crate) fn new_line(text: String) -> (input: tui_input::Input)
    ensures
        line_of(input) == LineView::of(text@),
{
    tui_input::Input::new(text)
}

/// The text of a line by `tui_input::Input::value`.
#[verifier::external_body]
pub(crate) fn line_text(input: &tui_input::Input) -> (text: &str)
    ensures
        text@ == line_of(*input).text,
{
    input.value()
}

/// The cursor of a line by `tui_input::Input::cursor`: how many characters stand in front of it.
#[verifier::external_body]
pub(crate) fn line_cursor(input: &tui_input::Input) -> (cursor: usize)
    ensures
        cursor == line_of(*input).cursor,
        cursor <= line_of(*input).text.len(),
{
    input.cursor()
}

/// A text of printable ASCII characters, each of which fills one column.
pub open spec fn is_plain(text: Seq<char>) -> bool {
    forall|i: int| 0 <= i < text.len() ==> ' ' <= #[trigger] text[i] <= '~'
}

/// The column of the cursor that `tui_input` computes.
pub uninterp spec fn cursor_column(text: Seq<char>, cursor: nat) -> nat;

/// The column of the cursor by `tui_input::Input::visual_cursor`. It depends on the text and the
/// cursor alone. In printable ASCII text each character fills one column; how many columns others
/// fill, the Unicode standard says and is not restated here.
#[verifier::external_body]
pub(crate) fn line_column(input: &tui_input::Input) -> (column: usize)
    ensures
        column == cursor_column(line_of(*input).text, line_of(*input).cursor),
        is_plain(line_of(*input).text) ==> column == line_of(*input).cursor,
{
    input.visual_cursor()
}

/// The columns that `tui_input` leaves out at the front of a line in so many columns.
pub uninterp spec fn scroll_columns(text: Seq<char>, cursor: nat, width: nat) -> nat;

/// How many columns are left out at the front of a line, so that the cursor is seen in `width`
/// columns, by `tui_input::Input::visual_scroll`. It depends on the text, the cursor and the width
/// alone. In printable ASCII text it is by how much the cursor is beyond the width; elsewhere only
/// whole characters are left out, and their widths are not restated here.
#[verifier::external_body]
pub(crate) fn line_scroll(input: &tui_input::Input, width: usize) -> (scroll: usize)
    ensures
        scroll == scroll_columns(line_of(*input).text, line_of(*input).cursor, width as nat),
        is_plain(line_of(*input).text) ==> scroll == (if line_of(*input).cursor > width {
            line_of(*input).cursor - width
        } else {
            0
        }),
{
    input.visual_scroll(width)
}

/// What `tui_input` makes of a line when a key is pressed: whether something changed, and the line.
pub uninterp spec fn key_pressed(line: LineView, key: EditKey, modifiers: u8) -> (bool, LineView);

/// Types a key into a line with `tui_input::backend::crossterm::EventHandler::handle_event`. What
/// becomes of the line depends on the line, the key and the modifiers alone. A character that is
/// typed as it is, or with the shift key, is inserted at the cursor; the keys that move the cursor
/// leave the text alone; without a change the text and the cursor are what they were; in printable
/// ASCII text the cursor moves, and the backspace key deletes, one character at a time. Where
/// words and composed characters begin, the Unicode standard says and is not restated here.
#[verifier::external_body]
pub(crate) fn press_key(input: &mut tui_input::Input, key: EditKey, modifiers: u8) -> (changed: bool)
    ensures
        (changed, line_of(*final(input))) == key_pressed(line_of(*old(input)), key, modifiers),
        line_of(*final(input)).cursor <= line_of(*final(input)).text.len(),
        !changed ==> line_of(*final(input)).text == line_of(*old(input)).text && line_of(
            *final(input),
        ).cursor == line_of(*old(input)).cursor,
        key is Char && modifiers <= SHIFT ==> changed && line_of(*final(input)).text == line_of(
            *old(input),
        ).text.insert(line_of(*old(input)).cursor as int, key->Char_0) && line_of(
            *final(input),
        ).cursor == line_of(*old(input)).cursor + 1,
        key is Left || key is Right || key is Home || key is End ==> line_of(*final(input)).text
            == line_of(*old(input)).text,
        key is Home && modifiers == 0 ==> line_of(*final(input)).cursor == 0,
        key is End && modifiers == 0 ==> line_of(*final(input)).cursor == line_of(
            *old(input),
        ).text.len(),
        key is Left && modifiers == 0 && is_plain(line_of(*old(input)).text) && line_of(
            *old(input),
        ).cursor > 0 ==> changed && line_of(*final(input)).cursor == line_of(*old(input)).cursor
            - 1,
        key is Backspace && modifiers == 0 && is_plain(line_of(*old(input)).text) && line_of(
            *old(input),
        ).cursor > 0 ==> changed && line_of(*final(input)).text == line_of(
            *old(input),
        ).text.remove(line_of(*old(input)).cursor - 1) && line_of(*final(input)).cursor == line_of(
            *old(input),
        ).cursor - 1,
{
    let code = match key {
        EditKey::Backspace => crossterm::event::KeyCode::Backspace,
        EditKey::Delete => crossterm::event::KeyCode::Delete,
        EditKey::Left => crossterm::event::KeyCode::Left,
        EditKey::Right => crossterm::event::KeyCode::Right,
        EditKey::Home => crossterm::event::KeyCode::Home,
        EditKey::End => crossterm::event::KeyCode::End,
        EditKey::Char(c) => crossterm::event::KeyCode::Char(c),
    };
    let held = crossterm::event::KeyModifiers::from_bits_truncate(modifiers);
    let event = crossterm::event::Event::Key(crossterm::event::KeyEvent::new(code, held));
    tui_input::backend::crossterm::EventHandler::handle_event(input, &event).is_some()
}

/// A line once something happened to a key, and whether that changed it.
pub open spec fn line_after(line: LineView, key: Key) -> (bool, LineView) {
    match edit_of(key) {
        Some(edit) => key_pressed(line, edit, key.modifiers),
        None => (false, line),
    }
}

/// Hands a key to a line, and says whether that changed it.
pub fn edit_line(input: &mut tui_input::Input, key: Key) -> (changed: bool)
    ensures
        (changed, line_of(*final(input))) == line_after(line_of(*old(input)), key),
        !changed ==> line_of(*final(input)).text == line_of(*old(input)).text && line_of(
            *final(input),
        ).cursor == line_of(*old(input)).cursor,
        key.kind != KeyKind::Release && key.code is Char && key.modifiers <= SHIFT ==> changed
            && line_of(*final(input)).text == line_of(*old(input)).text.insert(
            line_of(*old(input)).cursor as int,
            key.code->Char_0,
        ) && line_of(*final(input)).cursor == line_of(*old(input)).cursor + 1,
        key.code is Left || key.code is Right || key.code is Home || key.code is End ==> line_of(
            *final(input),
        ).text == line_of(*old(input)).text,
        key.kind != KeyKind::Release && key.code is Left && key.modifiers == 0 && is_plain(
            line_of(*old(input)).text,
        ) && line_of(*old(input)).cursor > 0 ==> changed && line_of(*final(input)).cursor
            == line_of(*old(input)).cursor - 1,
        key.kind != KeyKind::Release && key.code is Backspace && key.modifiers == 0 && is_plain(
            line_of(*old(input)).text,
        ) && line_of(*old(input)).cursor > 0 ==> changed && line_of(*final(input)).text == line_of(
            *old(input),
        ).text.remove(line_of(*old(input)).cursor - 1) && line_of(*final(input)).cursor == line_of(
            *old(input),
        ).cursor - 1,
{
    match edit_key(key) {
        Some(edit) => press_key(input, edit, key.modifiers),
        None => false,
    }
}

/// A key that was released edits nothing, nor does one that is not for editing; every other key is
/// to the line what it is.
pub proof fn law_keys_edit_as_what_they_are(key: Key)
    ensures
        key.kind == KeyKind::Release ==> edit_of(key) is None,
        key.code is Up || key.code is Down || key.code is Tab || key.code is Enter || key.code
            is Esc || key.code is Other ==> edit_of(key) is None,
        key.kind != KeyKind::Release ==> {
            &&& edit_of(key) == Some(EditKey::Backspace) <==> key.code == KeyCode::Backspace
            &&& edit_of(key) == Some(EditKey::Delete) <==> key.code == KeyCode::Delete
            &&& edit_of(key) == Some(EditKey::Left) <==> key.code == KeyCode::Left
            &&& edit_of(key) == Some(EditKey::Right) <==> key.code == KeyCode::Right
            &&& edit_of(key) == Some(EditKey::Home) <==> key.code == KeyCode::Home
            &&& edit_of(key) == Some(EditKey::End) <==> key.code == KeyCode::End
            &&& key.code is Char ==> edit_of(key) == Some(EditKey::Char(key.code->Char_0))
        },
        edit_of(key) is None ==> forall|line: LineView| #[trigger]
            line_after(line, key) == (false, line),
{
}

/// A line that is opened holds its text, with the cursor behind it.
pub proof fn law_lines_open_with_the_cursor_at_the_end(text: Seq<char>)
    ensures
        LineView::of(text).text == text,
        LineView::of(text).cursor == text.len(),
        LineView::of(text).cut.len() == 0,
{
}

/// Modifiers are held down by their bits.
pub proof fn law_modifiers_are_told_by_their_bits(key: Key)
    ensures
        key.shift() <==> key.modifiers & 1 != 0,
        key.control() <==> key.modifiers & 2 != 0,
{
}

/// A line that is opened has nothing cut from it.
pub proof fn law_lines_open_with_nothing_cut(text: Seq<char>)
    ensures
        LineView::of(text).text == text,
        LineView::of(text).cut.len() == 0,
        !LineView::of(text).cutting,
{
}

} // verus!
