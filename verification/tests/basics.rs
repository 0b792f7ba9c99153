use dirnav::color_pair::{BaseColor, ColorPair, ColorStyle, DefaultColorPair};
use dirnav::file_type::FileType;
use dirnav::metadata::Metadata;
use dirnav::opt::Opt;
use dirnav::palette::{Palette, PaletteColor};
use dirnav::screen::{make_row_text, Command, Event, Key, Vec2};
use dirnav::settings::Settings;
use dirnav::view_ratio::{Columns, ViewRatio};

#[test]
fn file_type_predicates_tell_the_three_kinds_apart() {
    assert!(FileType::Directory.is_dir());
    assert!(!FileType::Directory.is_file());
    assert!(!FileType::Directory.is_symlink());
    assert!(FileType::File.is_file());
    assert!(!FileType::File.is_dir());
    assert!(!FileType::File.is_symlink());
    assert!(FileType::SymLink.is_symlink());
    assert!(!FileType::SymLink.is_dir());
    assert!(!FileType::SymLink.is_file());
}

#[test]
fn file_type_not_flips_between_directory_and_file() {
    assert_eq!(!FileType::Directory, FileType::File);
    assert_eq!(!FileType::File, FileType::Directory);
    assert_eq!(!FileType::SymLink, FileType::Directory);
}

#[test]
fn metadata_file_type_prefers_directory_then_file_then_link() {
    let mut m = Metadata { is_dir: true, is_file: true, is_symlink: true, executable: false, len: 0 };
    assert_eq!(m.file_type(), Some(FileType::Directory));
    m.is_dir = false;
    assert_eq!(m.file_type(), Some(FileType::File));
    m.is_file = false;
    assert_eq!(m.file_type(), Some(FileType::SymLink));
    m.is_symlink = false;
    assert_eq!(m.file_type(), None);
}

#[test]
fn default_color_pairs_are_the_color_on_black_and_inverted() {
    let cases = [
        (DefaultColorPair::Red, BaseColor::Red),
        (DefaultColorPair::Blue, BaseColor::Blue),
        (DefaultColorPair::Green, BaseColor::Green),
        (DefaultColorPair::Cyan, BaseColor::Cyan),
        (DefaultColorPair::White, BaseColor::White),
    ];
    for (mut which, color) in cases {
        let pair = which.color_pair();
        assert_eq!(pair.default, ColorStyle { front: color, back: BaseColor::Black });
        assert_eq!(pair.highlight, ColorStyle { front: BaseColor::Black, back: color });
    }
}

#[test]
fn color_pair_new_goes_by_type_and_executable_bit() {
    assert_eq!(ColorPair::new(&FileType::Directory, false), DefaultColorPair::Blue.color_pair());
    assert_eq!(ColorPair::new(&FileType::Directory, true), DefaultColorPair::Blue.color_pair());
    assert_eq!(ColorPair::new(&FileType::SymLink, false), DefaultColorPair::Cyan.color_pair());
    assert_eq!(ColorPair::new(&FileType::File, true), DefaultColorPair::Green.color_pair());
    assert_eq!(ColorPair::new(&FileType::File, false), DefaultColorPair::White.color_pair());
}

#[test]
fn color_pair_default_is_white() {
    assert_eq!(ColorPair::default(), DefaultColorPair::White.color_pair());
}

#[test]
fn color_style_inverted_swaps_front_and_back() {
    let style = ColorStyle::new(BaseColor::Yellow, BaseColor::Magenta);
    assert_eq!(style.inverted(), ColorStyle { front: BaseColor::Magenta, back: BaseColor::Yellow });
    assert_eq!(style.inverted().inverted(), style);
}

#[test]
fn palette_new_has_the_initial_styles() {
    let p = Palette::new();
    assert_eq!(p.file, ColorStyle { front: BaseColor::White, back: BaseColor::Black });
    assert_eq!(p.file_high, ColorStyle { front: BaseColor::Black, back: BaseColor::White });
    assert_eq!(p.dir, ColorStyle { front: BaseColor::Blue, back: BaseColor::Black });
    assert_eq!(p.dir_high, ColorStyle { front: BaseColor::Black, back: BaseColor::Blue });
    assert_eq!(p.executable, ColorStyle { front: BaseColor::Green, back: BaseColor::Black });
    assert_eq!(p.executable_high, ColorStyle { front: BaseColor::Black, back: BaseColor::Green });
}

#[test]
fn palette_set_color_changes_one_slot_only() {
    let slots = [
        PaletteColor::File,
        PaletteColor::FileHigh,
        PaletteColor::Dir,
        PaletteColor::DirHigh,
        PaletteColor::Exec,
        PaletteColor::ExecHigh,
    ];
    let new_style = ColorStyle { front: BaseColor::Magenta, back: BaseColor::Yellow };
    for which in slots {
        let before = Palette::new();
        let mut after = before;
        after.set_color(which, new_style);
        for other in slots {
            if other == which {
                assert_eq!(after.color(other), new_style);
            } else {
                assert_eq!(after.color(other), before.color(other));
            }
        }
    }
}

#[test]
fn settings_default_hides_hidden_entries() {
    let s = Settings::default();
    assert!(!s.show_hidden);
    assert!(s.ext.is_empty());
}

#[test]
fn opt_holds_the_credentials() {
    let o = Opt { username: Some("me".to_string()), password: None };
    assert_eq!(o.username.as_deref(), Some("me"));
    assert!(o.password.is_none());
}

#[test]
fn view_ratio_new_and_default() {
    let r = ViewRatio::new(3, 4, 5);
    assert_eq!((r.parent, r.main, r.child), (3, 4, 5));
    assert_eq!(ViewRatio::default(), ViewRatio { parent: 1, main: 2, child: 1 });
}

#[test]
fn view_ratio_sum_adds_and_saturates() {
    assert_eq!(ViewRatio::new(1, 2, 1).sum(), 4);
    assert_eq!(ViewRatio::new(0, 0, 0).sum(), 0);
    assert_eq!(ViewRatio::new(usize::MAX, 1, 1).sum(), usize::MAX);
    assert_eq!(ViewRatio::new(usize::MAX - 1, 1, 1).sum(), usize::MAX);
    assert_eq!(ViewRatio::new(1, usize::MAX, usize::MAX).sum(), usize::MAX);
}

#[test]
fn view_ratio_split_gives_quarter_half_quarter() {
    let c = ViewRatio::default().split(80);
    assert_eq!(
        c,
        Columns {
            parent_offset: 0,
            parent_width: 20,
            main_offset: 20,
            main_width: 40,
            child_offset: 60,
            child_width: 20,
        }
    );
}

#[test]
fn view_ratio_split_rounds_the_unit_down() {
    let c = ViewRatio::default().split(83);
    assert_eq!((c.parent_width, c.main_width, c.child_width), (20, 40, 20));
    assert_eq!((c.parent_offset, c.main_offset, c.child_offset), (0, 20, 60));
}

#[test]
fn view_ratio_split_of_nothing_is_nothing() {
    let c = ViewRatio::new(0, 0, 0).split(80);
    assert_eq!((c.parent_width, c.main_width, c.child_width), (0, 0, 0));
    let c = ViewRatio::default().split(0);
    assert_eq!((c.parent_width, c.main_width, c.child_width), (0, 0, 0));
    let c = ViewRatio::default().split(3);
    assert_eq!((c.parent_width, c.main_width, c.child_width), (0, 0, 0));
}

#[test]
fn view_ratio_split_never_reaches_beyond_the_line() {
    for ratio in [
        ViewRatio::new(1, 2, 1),
        ViewRatio::new(usize::MAX, usize::MAX, usize::MAX),
        ViewRatio::new(usize::MAX, 1, 0),
        ViewRatio::new(7, 0, 3),
    ] {
        for width in [0usize, 1, 2, 10, 81, usize::MAX] {
            let c = ratio.split(width);
            assert_eq!(c.parent_offset, 0);
            assert_eq!(c.main_offset, c.parent_width);
            assert_eq!(c.child_offset, c.parent_width + c.main_width);
            assert!(c.child_offset + c.child_width <= width);
        }
    }
}

#[test]
fn vec2_constructors() {
    assert_eq!(Vec2::new(3, 4), Vec2 { x: 3, y: 4 });
    assert_eq!(Vec2::zero(), Vec2 { x: 0, y: 0 });
}

#[test]
fn commands_of_events_follow_the_key_map() {
    assert_eq!(Command::of_event(Event::Key(Key::Up)), Some(Command::FocusUp));
    assert_eq!(Command::of_event(Event::Key(Key::Down)), Some(Command::FocusDown));
    assert_eq!(Command::of_event(Event::Key(Key::PageUp)), Some(Command::PageUp));
    assert_eq!(Command::of_event(Event::Key(Key::PageDown)), Some(Command::PageDown));
    assert_eq!(Command::of_event(Event::Key(Key::Home)), Some(Command::Home));
    assert_eq!(Command::of_event(Event::Key(Key::End)), Some(Command::End));
    assert_eq!(Command::of_event(Event::Key(Key::Left)), Some(Command::Leave));
    assert_eq!(Command::of_event(Event::Key(Key::Right)), None);
    assert_eq!(Command::of_event(Event::Key(Key::Other)), None);
    assert_eq!(Command::of_event(Event::Char('j')), Some(Command::FocusDown));
    assert_eq!(Command::of_event(Event::Char('k')), Some(Command::FocusUp));
    assert_eq!(Command::of_event(Event::Char('h')), Some(Command::Leave));
    assert_eq!(Command::of_event(Event::Char('l')), Some(Command::Enter));
    assert_eq!(Command::of_event(Event::Char('x')), None);
    assert_eq!(Command::of_event(Event::Char('J')), None);
    assert_eq!(Command::of_event(Event::Other), None);
}

#[test]
fn row_text_pads_the_name_and_puts_the_size_at_the_right() {
    assert_eq!(make_row_text("a.txt", "1.50 KiB", 20), "a.txt       1.50 KiB");
    assert_eq!(make_row_text("a.txt", "", 8), "a.txt   ");
    assert_eq!(make_row_text("a.txt", "12", 8), "a.txt 12");
}

#[test]
fn row_text_drops_the_size_where_there_is_no_room() {
    // name plus size must stay below the width
    assert_eq!(make_row_text("a.txt", "123", 8), "a.txt   ");
    assert_eq!(make_row_text("a.txt", "1.50 KiB", 10), "a.txt     ");
}

#[test]
fn row_text_cuts_a_long_name_and_marks_it() {
    assert_eq!(make_row_text("abcdefgh", "12", 5), "abcd~");
    assert_eq!(make_row_text("abcde", "12", 5), "abcd~");
    assert_eq!(make_row_text("abcdef", "", 1), "~");
    assert_eq!(make_row_text("abcdef", "", 0), "");
    assert_eq!(make_row_text("", "", 0), "");
}

#[test]
fn row_text_counts_characters_not_bytes() {
    assert_eq!(make_row_text("äöü", "1", 6), "äöü  1");
    assert_eq!(make_row_text("äöüxyz", "", 4), "äöü~");
}

#[test]
fn row_text_always_fills_the_width() {
    for name in ["", "a", "abc", "a long file name.tar.gz"] {
        for size in ["", "7", "1023.00 B"] {
            for width in 0..40usize {
                assert_eq!(make_row_text(name, size, width).chars().count(), width);
            }
        }
    }
}
