use vstd::prelude::*;
use vstd::string::*;

use crate::color_pair::ColorStyle;

verus! {

/// A width and a height, in character cells.
#[derive(Debug, Clone, Copy, PartialEq, Eq, Structural, Hash)]
pub struct Vec2 {
    pub x: usize,
    pub y: usize,
}

impl Vec2 {
    pub fn new(x: usize, y: usize) -> (size: Vec2)
        ensures
            size.x == x,
            size.y == y,
    {
        Vec2 { x, y }
    }

    pub fn zero() -> (size: Vec2)
        ensures
            size.x == 0,
            size.y == 0,
    {
        Vec2 { x: 0, y: 0 }
    }
}

/// The keys the browser tells apart.
#[derive(Debug, Clone, Copy, PartialEq, Eq, Structural, Hash)]
pub enum Key {
    Up,
    Down,
    Left,
    Right,
    PageUp,
    PageDown,
    Home,
    End,
    /// Any other key.
    Other,
}

/// What the user did.
#[derive(Debug, Clone, Copy, PartialEq, Eq, Structural, Hash)]
pub enum Event {
    Key(Key),
    Char(char),
    /// Anything that is neither a key nor a character.
    Other,
}

/// Whether an event was acted upon.
#[derive(Debug, Clone, Copy, PartialEq, Eq, Structural, Hash)]
pub enum EventResult {
    Ignored,
    Consumed,
}

/// The commands of the browser.
#[derive(Debug, Clone, Copy, PartialEq, Eq, Structural, Hash)]
pub enum Command {
    FocusUp,
    FocusDown,
    PageUp,
    PageDown,
    Home,
    End,
    Enter,
    Leave,
}

/// How far a page step moves the focus.
pub const PAGE_STEP: i64 = 10;

impl Command {
    /// The command an event stands for: the arrow and paging keys, `j` and
    /// `k` for down and up, `h` and the left arrow to leave, `l` to enter.
    pub open spec fn spec_of_event(event: Event) -> Option<Command> {
        match event {
            Event::Key(Key::Up) => Some(Command::FocusUp),
            Event::Key(Key::Down) => Some(Command::FocusDown),
            Event::Key(Key::PageUp) => Some(Command::PageUp),
            Event::Key(Key::PageDown) => Some(Command::PageDown),
            Event::Key(Key::Home) => Some(Command::Home),
            Event::Key(Key::End) => Some(Command::End),
            Event::Key(Key::Left) => Some(Command::Leave),
            Event::Char(c) => if c == 'j' {
                Some(Command::FocusDown)
            } else if c == 'k' {
                Some(Command::FocusUp)
            } else if c == 'h' {
                Some(Command::Leave)
            } else if c == 'l' {
                Some(Command::Enter)
            } else {
                None
            },
            _ => None,
        }
    }

    #[verifier::when_used_as_spec(spec_of_event)]
    pub fn of_event(event: Event) -> (command: Option<Command>)
        ensures
            command == Self::spec_of_event(event),
    {
        match event {
            Event::Key(Key::Up) => Some(Command::FocusUp),
            Event::Key(Key::Down) => Some(Command::FocusDown),
            Event::Key(Key::PageUp) => Some(Command::PageUp),
            Event::Key(Key::PageDown) => Some(Command::PageDown),
            Event::Key(Key::Home) => Some(Command::Home),
            Event::Key(Key::End) => Some(Command::End),
            Event::Key(Key::Left) => Some(Command::Leave),
            Event::Char(c) => {
                if c == 'j' {
                    Some(Command::FocusDown)
                } else if c == 'k' {
                    Some(Command::FocusUp)
                } else if c == 'h' {
                    Some(Command::Leave)
                } else if c == 'l' {
                    Some(Command::Enter)
                } else {
                    None
                }
            },
            _ => None,
        }
    }
}

/// One line of a drawn pane.
#[derive(Debug)]
pub struct Row {
    pub text: String,
    pub style: ColorStyle,
}

/// A row as a value: its characters and its style.
pub struct RowView {
    pub text: Seq<char>,
    pub style: ColorStyle,
}

impl View for Row {
    type V = RowView;

    open spec fn view(&self) -> RowView {
        RowView { text: self.text@, style: self.style }
    }
}

/// The rows of a drawn pane as values.
pub open spec fn row_views(rows: Seq<Row>) -> Seq<RowView> {
    rows.map_values(|row: Row| row@)
}

/// `n` blanks.
pub open spec fn blanks(n: int) -> Seq<char> {
    Seq::new(
        if n > 0 {
            n as nat
        } else {
            0nat
        },
        |i: int| ' ',
    )
}

/// The text of a row `width` cells wide. A name that fits is followed by
/// blanks up to the width, with the size label at the right end where there
/// is room for it too. A name that does not fit is cut so that it ends, with
/// a tilde in the last cell, at the width.
pub open spec fn row_text(name: Seq<char>, size: Seq<char>, width: int) -> Seq<char> {
    if name.len() < width {
        if name.len() + size.len() < width {
            name + blanks(width - name.len() - size.len()) + size
        } else {
            name + blanks(width - name.len())
        }
    } else if width > 0 {
        name.subrange(0, width - 1) + seq!['~']
    } else {
        Seq::empty()
    }
}

/// Every row that holds a name fills the width exactly.
pub proof fn lemma_row_text_len(name: Seq<char>, size: Seq<char>, width: int)
    requires
        width >= 0,
    ensures
        row_text(name, size, width).len() == width,
{
}

/// Appends `n` blanks.
fn pad(text: &mut String, n: usize)
    ensures
        final(text)@ == old(text)@ + blanks(n as int),
{
    let mut i: usize = 0;
    assert(text@ =~= old(text)@ + blanks(0));
    while i < n
        invariant
            i <= n,
            text@ == old(text)@ + blanks(i as int),
        decreases n - i,
    {
        proof {
            reveal_strlit(" ");
        }
        text.append(" ");
        i = i + 1;
        assert(text@ =~= old(text)@ + blanks(i as int));
    }
}

/// Lays out one row: the name at the left, the size label at the right.
pub fn make_row_text(name: &str, size: &str, width: usize) -> (text: String)
    ensures
        text@ == row_text(name@, size@, width as int),
{
    let n = name.unicode_len();
    if n < width {
        let m = size.unicode_len();
        let mut text = String::from_str(name);
        if m < width - n {
            pad(&mut text, width - n - m);
            text.append(size);
        } else {
            pad(&mut text, width - n);
        }
        text
    } else if width > 0 {
        let mut text = String::from_str(name.substring_char(0, width - 1));
        proof {
            reveal_strlit("~");
        }
        text.append("~");
        assert(text@ =~= name@.subrange(0, width - 1) + seq!['~']);
        text
    } else {
        String::new()
    }
}

} // verus!
