use vstd::prelude::*;

use crate::color_pair::{BaseColor, ColorStyle};

verus! {

/// The slots of a palette.
#[derive(Debug, Clone, Copy, PartialEq, Eq, Structural, Hash)]
pub enum PaletteColor {
    File,
    FileHigh,
    Dir,
    DirHigh,
    Exec,
    ExecHigh,
}

/// The styles for files, directories and executables, each with the style of
/// its highlighted row.
#[derive(Debug, Clone, Copy, PartialEq, Eq, Structural, Hash)]
pub struct Palette {
    pub file: ColorStyle,
    pub file_high: ColorStyle,
    pub dir: ColorStyle,
    pub dir_high: ColorStyle,
    pub executable: ColorStyle,
    pub executable_high: ColorStyle,
}

impl Palette {
    /// The palette to start from: white files, blue directories and green
    /// executables on black, each inverted when highlighted.
    pub open spec fn initial() -> Palette {
        let file = ColorStyle { front: BaseColor::White, back: BaseColor::Black };
        let dir = ColorStyle { front: BaseColor::Blue, back: BaseColor::Black };
        let executable = ColorStyle { front: BaseColor::Green, back: BaseColor::Black };
        Palette {
            file,
            file_high: file.spec_inverted(),
            dir,
            dir_high: dir.spec_inverted(),
            executable,
            executable_high: executable.spec_inverted(),
        }
    }

    /// The style in a slot.
    pub open spec fn spec_color(self, which: PaletteColor) -> ColorStyle {
        match which {
            PaletteColor::File => self.file,
            PaletteColor::FileHigh => self.file_high,
            PaletteColor::Dir => self.dir,
            PaletteColor::DirHigh => self.dir_high,
            PaletteColor::Exec => self.executable,
            PaletteColor::ExecHigh => self.executable_high,
        }
    }

    /// The palette with one slot replaced.
    pub open spec fn with_color(self, which: PaletteColor, color: ColorStyle) -> Palette {
        match which {
            PaletteColor::File => Palette { file: color, ..self },
            PaletteColor::FileHigh => Palette { file_high: color, ..self },
            PaletteColor::Dir => Palette { dir: color, ..self },
            PaletteColor::DirHigh => Palette { dir_high: color, ..self },
            PaletteColor::Exec => Palette { executable: color, ..self },
            PaletteColor::ExecHigh => Palette { executable_high: color, ..self },
        }
    }

    pub fn new() -> (palette: Palette)
        ensures
            palette == Palette::initial(),
    {
        let file = ColorStyle::new(BaseColor::White, BaseColor::Black);
        let file_high = ColorStyle::new(file.back, file.front);
        let dir = ColorStyle::new(BaseColor::Blue, BaseColor::Black);
        let dir_high = ColorStyle::new(dir.back, dir.front);
        let executable = ColorStyle::new(BaseColor::Green, BaseColor::Black);
        let executable_high = ColorStyle::new(executable.back, executable.front);
        Palette { file, file_high, dir, dir_high, executable, executable_high }
    }

    #[verifier::when_used_as_spec(spec_color)]
    pub fn color(self, which: PaletteColor) -> (color: ColorStyle)
        ensures
            color == self.spec_color(which),
    {
        match which {
            PaletteColor::File => self.file,
            PaletteColor::FileHigh => self.file_high,
            PaletteColor::Dir => self.dir,
            PaletteColor::DirHigh => self.dir_high,
            PaletteColor::Exec => self.executable,
            PaletteColor::ExecHigh => self.executable_high,
        }
    }

    /// Replaces the style in one slot and leaves the others alone.
    pub fn set_color(&mut self, which: PaletteColor, color: ColorStyle)
        ensures
            *final(self) == old(self).with_color(which, color),
    {
        match which {
            PaletteColor::File => self.file = color,
            PaletteColor::FileHigh => self.file_high = color,
            PaletteColor::Dir => self.dir = color,
            PaletteColor::DirHigh => self.dir_high = color,
            PaletteColor::Exec => self.executable = color,
            PaletteColor::ExecHigh => self.executable_high = color,
        }
    }
}

/// What is set is what is read back, and no other slot is touched.
pub proof fn lemma_set_then_read(
    palette: Palette,
    which: PaletteColor,
    color: ColorStyle,
    other: PaletteColor,
)
    ensures
        palette.with_color(which, color).spec_color(which) == color,
        other != which ==> palette.with_color(which, color).spec_color(other)
            == palette.spec_color(other),
{
}

} // verus!
