use vstd::prelude::*;

use crate::file_type::FileType;

verus! {

/// The eight basic terminal colors.
#[derive(Debug, Clone, Copy, PartialEq, Eq, Structural, Hash)]
pub enum BaseColor {
    Black,
    Red,
    Green,
    Yellow,
    Blue,
    Magenta,
    Cyan,
    White,
}

/// A foreground and a background color for one piece of text.
#[derive(Debug, Clone, Copy, PartialEq, Eq, Structural, Hash)]
pub struct ColorStyle {
    pub front: BaseColor,
    pub back: BaseColor,
}

impl ColorStyle {
    pub fn new(front: BaseColor, back: BaseColor) -> (style: ColorStyle)
        ensures
            style.front == front,
            style.back == back,
    {
        ColorStyle { front, back }
    }

    /// The same two colors with foreground and background exchanged.
    pub open spec fn spec_inverted(self) -> ColorStyle {
        ColorStyle { front: self.back, back: self.front }
    }

    #[verifier::when_used_as_spec(spec_inverted)]
    pub fn inverted(self) -> (style: ColorStyle)
        ensures
            style == self.spec_inverted(),
    {
        ColorStyle { front: self.back, back: self.front }
    }
}

/// The two styles of a row: `default` while it is not focused, `highlight`
/// while it is.
#[derive(Debug, Clone, Copy, PartialEq, Eq, Structural, Hash)]
pub struct ColorPair {
    pub default: ColorStyle,
    pub highlight: ColorStyle,
}

/// The ready-made pairs: the named color on black, and black on the named
/// color when highlighted.
#[derive(Debug, Clone, Copy, PartialEq, Eq, Structural, Hash)]
pub enum DefaultColorPair {
    Red,
    Blue,
    Green,
    Cyan,
    White,
}

impl DefaultColorPair {
    /// The color that gives the pair its name.
    pub open spec fn base(self) -> BaseColor {
        match self {
            DefaultColorPair::Red => BaseColor::Red,
            DefaultColorPair::Blue => BaseColor::Blue,
            DefaultColorPair::Green => BaseColor::Green,
            DefaultColorPair::Cyan => BaseColor::Cyan,
            DefaultColorPair::White => BaseColor::White,
        }
    }

    /// The pair as a value: the named color on black, inverted for the
    /// highlight.
    pub open spec fn pair(self) -> ColorPair {
        ColorPair {
            default: ColorStyle { front: self.base(), back: BaseColor::Black },
            highlight: ColorStyle { front: BaseColor::Black, back: self.base() },
        }
    }

    pub fn color_pair(&mut self) -> (pair: ColorPair)
        ensures
            *final(self) == *old(self),
            pair == old(self).pair(),
    {
        match self {
            DefaultColorPair::Red => {
                let default = ColorStyle::new(BaseColor::Red, BaseColor::Black);
                let highlight = ColorStyle::new(BaseColor::Black, BaseColor::Red);
                ColorPair { default, highlight }
            },
            DefaultColorPair::Blue => {
                let default = ColorStyle::new(BaseColor::Blue, BaseColor::Black);
                let highlight = ColorStyle::new(BaseColor::Black, BaseColor::Blue);
                ColorPair { default, highlight }
            },
            DefaultColorPair::Green => {
                let default = ColorStyle::new(BaseColor::Green, BaseColor::Black);
                let highlight = ColorStyle::new(BaseColor::Black, BaseColor::Green);
                ColorPair { default, highlight }
            },
            DefaultColorPair::Cyan => {
                let default = ColorStyle::new(BaseColor::Cyan, BaseColor::Black);
                let highlight = ColorStyle::new(BaseColor::Black, BaseColor::Cyan);
                ColorPair { default, highlight }
            },
            DefaultColorPair::White => {
                let default = ColorStyle::new(BaseColor::White, BaseColor::Black);
                let highlight = ColorStyle::new(BaseColor::Black, BaseColor::White);
                ColorPair { default, highlight }
            },
        }
    }
}

impl ColorPair {
    /// Which ready-made pair an entry of the given kind gets: directories
    /// blue, links cyan, executable files green, other files white.
    pub open spec fn choice(filetype: FileType, executable: bool) -> DefaultColorPair {
        match filetype {
            FileType::Directory => DefaultColorPair::Blue,
            FileType::SymLink => DefaultColorPair::Cyan,
            FileType::File => if executable {
                DefaultColorPair::Green
            } else {
                DefaultColorPair::White
            },
        }
    }

    pub fn new(filetype: &FileType, executable: bool) -> (pair: ColorPair)
        ensures
            pair == Self::choice(*filetype, executable).pair(),
    {
        if filetype.is_dir() {
            DefaultColorPair::Blue.color_pair()
        } else if filetype.is_symlink() {
            DefaultColorPair::Cyan.color_pair()
        } else if executable {
            DefaultColorPair::Green.color_pair()
        } else {
            DefaultColorPair::White.color_pair()
        }
    }
}

impl Default for ColorPair {
    /// The neutral pair, used wherever no better one is known.
    fn default() -> (pair: ColorPair)
        ensures
            pair == DefaultColorPair::White.pair(),
    {
        DefaultColorPair::White.color_pair()
    }
}

} // verus!
