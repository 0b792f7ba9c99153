use dirnav::color_pair::{BaseColor, ColorPair, ColorStyle, DefaultColorPair};
use dirnav::directory_view::DirectoryView;
use dirnav::file_type::FileType;
use dirnav::listing::{entry_from, DirItem};
use dirnav::metadata::Metadata;
use dirnav::screen::{Command, Event, EventResult, Key, Row, Vec2};

fn meta_dir() -> Metadata {
    Metadata { is_dir: true, is_file: false, is_symlink: false, executable: true, len: 4096 }
}

fn meta_file(len: u64) -> Metadata {
    Metadata { is_dir: false, is_file: true, is_symlink: false, executable: false, len }
}

fn item(dir: &str, name: &str, metadata: Metadata) -> DirItem {
    DirItem { path: format!("{}/{}", dir, name), name: Some(name.to_string()), metadata: Some(metadata) }
}

fn dir_names(pane: &DirectoryView) -> Vec<String> {
    pane.dirs().iter().map(|e| e.filename.clone()).collect()
}

fn file_names(pane: &DirectoryView) -> Vec<String> {
    pane.files().iter().map(|e| e.filename.clone()).collect()
}

fn texts(rows: &Vec<Row>) -> Vec<String> {
    rows.iter().map(|r| r.text.clone()).collect()
}

/// A pane of `/d` with `dirs` directories d00.. and `files` files f00..
fn pane_of(dirs: usize, files: usize) -> DirectoryView {
    let mut pane = DirectoryView::new("/d".to_string(), false);
    for i in 0..files {
        assert!(pane.offer(item("/d", &format!("f{:02}", i), meta_file(i as u64)), false));
    }
    for i in 0..dirs {
        assert!(pane.offer(item("/d", &format!("d{:02}", i), meta_dir()), false));
    }
    pane
}

#[test]
fn entry_from_lists_a_readable_item() {
    let e = entry_from(item("/d", "a.png", meta_file(7)), false).expect("listed");
    assert_eq!(e.path, "/d/a.png");
    assert_eq!(e.filename, "a.png");
    assert_eq!(e.metadata, meta_file(7));
    assert_eq!(e.filetype, FileType::File);
    assert_eq!(e.mime, "image/png");
    assert_eq!(e.color, DefaultColorPair::White.color_pair());
    assert_eq!(e.size, "");
}

#[test]
fn entry_from_colors_by_type_and_executable_bit() {
    let e = entry_from(item("/d", "sub", meta_dir()), false).expect("listed");
    assert_eq!(e.filetype, FileType::Directory);
    assert_eq!(e.color, ColorPair::new(&FileType::Directory, true));
    let mut m = meta_file(1);
    m.executable = true;
    let e = entry_from(item("/d", "run", m), false).expect("listed");
    assert_eq!(e.color, DefaultColorPair::Green.color_pair());
    let link = Metadata { is_dir: false, is_file: false, is_symlink: true, executable: false, len: 0 };
    let e = entry_from(item("/d", "ln", link), false).expect("listed");
    assert_eq!(e.filetype, FileType::SymLink);
    assert_eq!(e.color, DefaultColorPair::Cyan.color_pair());
}

#[test]
fn entry_from_skips_an_item_without_a_name() {
    let it = DirItem { path: "/d/x".to_string(), name: None, metadata: Some(meta_file(1)) };
    assert!(entry_from(it, true).is_none());
}

#[test]
fn entry_from_skips_an_item_without_metadata() {
    let it = DirItem { path: "/d/x".to_string(), name: Some("x".to_string()), metadata: None };
    assert!(entry_from(it, true).is_none());
}

#[test]
fn entry_from_skips_an_empty_name() {
    assert!(entry_from(item("/d", "", meta_file(1)), true).is_none());
}

#[test]
fn entry_from_lists_a_child_of_another_kind_as_a_file() {
    let socket = Metadata { is_dir: false, is_file: false, is_symlink: false, executable: false, len: 0 };
    for show_hidden in [false, true] {
        let e = entry_from(item("/d", "sock", socket), show_hidden).expect("listed");
        assert_eq!(e.filename, "sock");
        assert_eq!(e.path, "/d/sock");
        assert_eq!(e.metadata, socket);
        assert_eq!(e.filetype, FileType::File);
        assert_eq!(e.color, ColorPair::default());
    }
    // the executable bit does not change its colors
    let mut device = socket;
    device.executable = true;
    let e = entry_from(item("/d", "tty", device), false).expect("listed");
    assert_eq!(e.filetype, FileType::File);
    assert_eq!(e.color, ColorPair::default());
}

#[test]
fn a_child_of_another_kind_is_listed_among_the_files() {
    let socket = Metadata { is_dir: false, is_file: false, is_symlink: false, executable: false, len: 0 };
    let mut pane = DirectoryView::new("/run".to_string(), false);
    pane.populate(
        vec![
            item("/run", "lock", meta_dir()),
            item("/run", "log.sock", socket),
            item("/run", "initctl", socket),
            item("/run", "a.pid", meta_file(3)),
        ],
        false,
    );
    assert_eq!(dir_names(&pane), ["lock"]);
    assert_eq!(file_names(&pane), ["a.pid", "initctl", "log.sock"]);
}

#[test]
fn one_unreadable_child_costs_one_row_and_no_more() {
    let socket = Metadata { is_dir: false, is_file: false, is_symlink: false, executable: false, len: 0 };
    let link = Metadata { is_dir: false, is_file: false, is_symlink: true, executable: true, len: 0 };
    let children = vec![
        item("/d", "sub", meta_dir()),
        item("/d", "file", meta_file(1)),
        DirItem { path: "/d/gone".to_string(), name: Some("gone".to_string()), metadata: None },
        item("/d", "sock", socket),
        item("/d", "link", link),
        item("/d", "fifo", socket),
    ];
    let n = children.len();
    let mut pane = DirectoryView::new("/d".to_string(), false);
    pane.populate(children, false);
    assert_eq!(pane.total_list_size(), n - 1);
    assert_eq!(dir_names(&pane), ["sub"]);
    assert_eq!(file_names(&pane), ["fifo", "file", "link", "sock"]);
    let all: Vec<String> = dir_names(&pane).into_iter().chain(file_names(&pane)).collect();
    for name in ["sub", "file", "sock", "link", "fifo"] {
        assert_eq!(all.iter().filter(|n| n.as_str() == name).count(), 1, "{}", name);
    }
    assert!(!all.contains(&"gone".to_string()));
}

#[test]
fn a_pane_waits_for_the_entry_it_is_to_focus() {
    let mut pane = DirectoryView::new("/d".to_string(), false);
    pane.focus_path("/d/m");
    assert_eq!(pane.wanted().as_deref(), Some("/d/m"));
    pane.offer(item("/d", "z", meta_file(1)), false);
    pane.offer(item("/d", "a", meta_file(1)), false);
    assert_eq!(pane.focus(), 0);
    assert_eq!(pane.wanted().as_deref(), Some("/d/m"));
    pane.offer(item("/d", "m", meta_file(1)), false);
    assert_eq!(pane.selected().expect("focused").filename, "m");
    assert_eq!(pane.focus(), 1);
    // the focus follows the entry while others arrive, before it and after it
    pane.offer(item("/d", "b", meta_file(1)), false);
    assert_eq!(pane.selected().expect("focused").filename, "m");
    assert_eq!(pane.focus(), 2);
    pane.offer(item("/d", "x", meta_file(1)), false);
    assert_eq!(pane.focus(), 2);
    pane.offer(item("/d", "a_dir", meta_dir()), false);
    assert_eq!(pane.selected().expect("focused").filename, "m");
    assert_eq!(pane.focus(), 3);
    assert_eq!(pane.wanted().as_deref(), Some("/d/m"));
}

#[test]
fn a_pane_stays_with_the_entry_it_was_focused_on() {
    let mut pane = pane_of(2, 2);
    pane.focus_path("/d/f01");
    assert_eq!(pane.focus(), 3);
    assert_eq!(pane.wanted().as_deref(), Some("/d/f01"));
    pane.offer(item("/d", "f00a", meta_file(1)), false);
    assert_eq!(pane.focus(), 4);
    assert_eq!(pane.selected().expect("focused").filename, "f01");
    pane.focus_path("/d/f01");
    assert_eq!(pane.focus(), 4);
}

#[test]
fn moving_the_focus_ends_the_waiting() {
    for command in [Command::FocusDown, Command::FocusUp, Command::PageDown, Command::Home, Command::End] {
        let mut pane = pane_of(0, 3);
        pane.focus_path("/d/later");
        assert_eq!(pane.wanted().as_deref(), Some("/d/later"));
        pane.apply(command);
        assert!(pane.wanted().is_none());
        let focus = pane.focus();
        pane.offer(item("/d", "later", meta_file(1)), false);
        assert_eq!(pane.focus(), focus);
    }
    let mut empty = DirectoryView::new("/d".to_string(), false);
    empty.focus_path("/d/later");
    empty.apply(Command::End);
    assert!(empty.wanted().is_none());
    let mut pane = pane_of(0, 3);
    pane.focus_path("/d/later");
    pane.apply(Command::Enter);
    assert_eq!(pane.wanted().as_deref(), Some("/d/later"));
}

#[test]
fn entry_from_hides_dot_files_unless_told_otherwise() {
    assert!(entry_from(item("/d", ".git", meta_dir()), false).is_none());
    let e = entry_from(item("/d", ".git", meta_dir()), true).expect("shown");
    assert_eq!(e.filename, ".git");
}

#[test]
fn a_new_pane_is_empty_and_enabled() {
    let pane = DirectoryView::new("/d".to_string(), true);
    assert_eq!(pane.path(), "/d");
    assert_eq!(pane.total_list_size(), 0);
    assert_eq!(pane.focus(), 0);
    assert_eq!(pane.scroll_offset(), 0);
    assert!(pane.is_enabled());
    assert!(pane.has_sizes());
    assert!(!pane.has_failed());
    assert!(pane.selected().is_none());
    assert!(!DirectoryView::new("/d".to_string(), false).has_sizes());
}

#[test]
fn listing_puts_directories_and_files_in_their_lists() {
    // entries b.txt, a_dir/, c.txt; nothing hidden
    let mut pane = DirectoryView::new("/d".to_string(), false);
    pane.populate(
        vec![
            item("/d", "b.txt", meta_file(1)),
            item("/d", "a_dir", meta_dir()),
            item("/d", "c.txt", meta_file(2)),
        ],
        false,
    );
    assert_eq!(dir_names(&pane), ["a_dir"]);
    assert_eq!(file_names(&pane), ["b.txt", "c.txt"]);
    assert_eq!(pane.focus(), 0);
    assert_eq!(pane.total_list_size(), 3);
    assert_eq!(pane.selected().expect("focused").filename, "a_dir");
}

#[test]
fn listing_is_the_same_whatever_the_order_of_arrival() {
    let names = ["b.txt", "a_dir", "c.txt", "z_dir", "m.rs", "k_dir"];
    let make = |n: &str| {
        if n.ends_with("_dir") {
            item("/d", n, meta_dir())
        } else {
            item("/d", n, meta_file(1))
        }
    };
    for shift in 0..names.len() {
        let mut order = names.to_vec();
        order.rotate_left(shift);
        let mut pane = DirectoryView::new("/d".to_string(), false);
        pane.populate(order.iter().map(|n| make(n)).collect(), false);
        assert_eq!(dir_names(&pane), ["a_dir", "k_dir", "z_dir"]);
        assert_eq!(file_names(&pane), ["b.txt", "c.txt", "m.rs"]);
    }
}

#[test]
fn listing_skips_a_bad_item_and_keeps_all_the_others() {
    let good = |pane: &mut DirectoryView, with_bad: bool| {
        let mut items = vec![item("/d", "a", meta_file(1)), item("/d", "b_dir", meta_dir())];
        if with_bad {
            items.push(DirItem { path: "/d/bad".to_string(), name: Some("bad".to_string()), metadata: None });
        }
        items.push(item("/d", "c", meta_file(3)));
        pane.populate(items, false);
    };
    let mut with_bad = DirectoryView::new("/d".to_string(), false);
    good(&mut with_bad, true);
    let mut without = DirectoryView::new("/d".to_string(), false);
    good(&mut without, false);
    assert_eq!(dir_names(&with_bad), ["b_dir"]);
    assert_eq!(file_names(&with_bad), ["a", "c"]);
    assert_eq!(dir_names(&with_bad), dir_names(&without));
    assert_eq!(file_names(&with_bad), file_names(&without));
}

#[test]
fn offer_tells_whether_the_item_was_listed() {
    let mut pane = DirectoryView::new("/d".to_string(), false);
    assert!(pane.offer(item("/d", "a", meta_file(1)), false));
    assert!(!pane.offer(item("/d", ".b", meta_file(1)), false));
    assert!(pane.offer(item("/d", ".b", meta_file(1)), true));
    assert!(!pane.offer(DirItem { path: "/d/c".to_string(), name: None, metadata: None }, true));
    assert_eq!(file_names(&pane), [".b", "a"]);
}

#[test]
fn a_link_is_listed_among_the_files() {
    let link = Metadata { is_dir: false, is_file: false, is_symlink: true, executable: false, len: 0 };
    let mut pane = DirectoryView::new("/d".to_string(), false);
    pane.offer(item("/d", "ln", link), false);
    assert!(dir_names(&pane).is_empty());
    assert_eq!(file_names(&pane), ["ln"]);
    assert_eq!(pane.files()[0].filetype, FileType::SymLink);
}

#[test]
fn an_arrival_leaves_the_focus_index_alone() {
    let mut pane = pane_of(0, 3);
    pane.change_focus_by(2);
    assert_eq!(pane.focus(), 2);
    pane.offer(item("/d", "a_first", meta_file(0)), false);
    assert_eq!(pane.focus(), 2);
    assert_eq!(pane.selected().expect("focused").filename, "f01");
}

#[test]
fn focus_moves_by_steps_and_stops_at_the_ends() {
    let mut pane = pane_of(2, 3);
    assert_eq!(pane.focus(), 0);
    pane.change_focus_by(1);
    assert_eq!(pane.focus(), 1);
    pane.change_focus_by(2);
    assert_eq!(pane.focus(), 3);
    pane.change_focus_by(1);
    assert_eq!(pane.focus(), 4);
    pane.change_focus_by(1);
    assert_eq!(pane.focus(), 4);
    pane.change_focus_by(-1);
    assert_eq!(pane.focus(), 3);
    pane.change_focus_by(-10);
    assert_eq!(pane.focus(), 0);
    pane.change_focus_by(-1);
    assert_eq!(pane.focus(), 0);
    pane.change_focus_by(0);
    assert_eq!(pane.focus(), 0);
    pane.change_focus_by(i64::MAX);
    assert_eq!(pane.focus(), 4);
    pane.change_focus_by(i64::MIN);
    assert_eq!(pane.focus(), 0);
}

#[test]
fn focus_stays_at_zero_in_an_empty_pane() {
    let mut pane = DirectoryView::new("/d".to_string(), false);
    for d in [1, -1, 10, -10, i64::MAX, i64::MIN] {
        pane.change_focus_by(d);
        assert_eq!(pane.focus(), 0);
    }
    pane.change_focus_to(5);
    assert_eq!(pane.focus(), 0);
    assert_eq!(pane.apply(Command::End), EventResult::Consumed);
    assert_eq!(pane.focus(), 0);
}

#[test]
fn change_focus_to_stops_at_the_last_row() {
    let mut pane = pane_of(1, 2);
    pane.change_focus_to(1);
    assert_eq!(pane.focus(), 1);
    pane.change_focus_to(2);
    assert_eq!(pane.focus(), 2);
    pane.change_focus_to(3);
    assert_eq!(pane.focus(), 2);
    pane.change_focus_to(usize::MAX);
    assert_eq!(pane.focus(), 2);
    pane.change_focus_to(0);
    assert_eq!(pane.focus(), 0);
}

#[test]
fn selected_is_the_focused_row_directories_first() {
    let mut pane = pane_of(2, 2);
    assert_eq!(pane.selected().expect("row 0").filename, "d00");
    pane.change_focus_by(1);
    assert_eq!(pane.selected().expect("row 1").filename, "d01");
    pane.change_focus_by(1);
    assert_eq!(pane.selected().expect("row 2").filename, "f00");
    pane.change_focus_by(1);
    assert_eq!(pane.selected().expect("row 3").filename, "f01");
}

#[test]
fn focus_path_finds_the_entry_with_that_path() {
    let mut pane = pane_of(2, 2);
    pane.focus_path("/d/f01");
    assert_eq!(pane.focus(), 3);
    pane.focus_path("/d/d01");
    assert_eq!(pane.focus(), 1);
    pane.focus_path("/d/nothing");
    assert_eq!(pane.focus(), 1);
    pane.focus_path("/d/d00");
    assert_eq!(pane.focus(), 0);
    let mut empty = DirectoryView::new("/d".to_string(), false);
    empty.focus_path("/d/x");
    assert_eq!(empty.focus(), 0);
}

#[test]
fn commands_move_the_focus() {
    let mut pane = pane_of(5, 20);
    assert_eq!(pane.apply(Command::FocusDown), EventResult::Consumed);
    assert_eq!(pane.focus(), 1);
    assert_eq!(pane.apply(Command::PageDown), EventResult::Consumed);
    assert_eq!(pane.focus(), 11);
    assert_eq!(pane.apply(Command::FocusUp), EventResult::Consumed);
    assert_eq!(pane.focus(), 10);
    assert_eq!(pane.apply(Command::PageUp), EventResult::Consumed);
    assert_eq!(pane.focus(), 0);
    assert_eq!(pane.apply(Command::End), EventResult::Consumed);
    assert_eq!(pane.focus(), 24);
    assert_eq!(pane.apply(Command::PageDown), EventResult::Consumed);
    assert_eq!(pane.focus(), 24);
    assert_eq!(pane.apply(Command::Home), EventResult::Consumed);
    assert_eq!(pane.focus(), 0);
    assert_eq!(pane.apply(Command::Enter), EventResult::Ignored);
    assert_eq!(pane.apply(Command::Leave), EventResult::Ignored);
    assert_eq!(pane.focus(), 0);
}

#[test]
fn events_reach_the_pane_through_the_key_map() {
    let mut pane = pane_of(0, 30);
    assert_eq!(pane.on_event(Event::Char('j')), EventResult::Consumed);
    assert_eq!(pane.focus(), 1);
    assert_eq!(pane.on_event(Event::Key(Key::Down)), EventResult::Consumed);
    assert_eq!(pane.focus(), 2);
    assert_eq!(pane.on_event(Event::Char('k')), EventResult::Consumed);
    assert_eq!(pane.focus(), 1);
    assert_eq!(pane.on_event(Event::Key(Key::Up)), EventResult::Consumed);
    assert_eq!(pane.focus(), 0);
    assert_eq!(pane.on_event(Event::Key(Key::PageDown)), EventResult::Consumed);
    assert_eq!(pane.focus(), 10);
    assert_eq!(pane.on_event(Event::Key(Key::PageUp)), EventResult::Consumed);
    assert_eq!(pane.focus(), 0);
    assert_eq!(pane.on_event(Event::Key(Key::End)), EventResult::Consumed);
    assert_eq!(pane.focus(), 29);
    assert_eq!(pane.on_event(Event::Key(Key::Home)), EventResult::Consumed);
    assert_eq!(pane.focus(), 0);
    assert_eq!(pane.on_event(Event::Char('x')), EventResult::Ignored);
    assert_eq!(pane.on_event(Event::Char('h')), EventResult::Ignored);
    assert_eq!(pane.on_event(Event::Char('l')), EventResult::Ignored);
    assert_eq!(pane.on_event(Event::Key(Key::Left)), EventResult::Ignored);
    assert_eq!(pane.on_event(Event::Key(Key::Right)), EventResult::Ignored);
    assert_eq!(pane.on_event(Event::Other), EventResult::Ignored);
    assert_eq!(pane.focus(), 0);
}

#[test]
fn the_window_follows_the_focus_down() {
    // height 5, eight rows, PageDown twice: the focus is clamped to row 7
    let mut pane = pane_of(0, 8);
    pane.draw(Vec2::new(10, 5));
    assert_eq!(pane.scroll_offset(), 0);
    pane.apply(Command::PageDown);
    assert_eq!(pane.focus(), 7);
    pane.apply(Command::PageDown);
    assert_eq!(pane.focus(), 7);
    let rows = pane.draw(Vec2::new(10, 5));
    // focus - height + 1
    assert_eq!(pane.scroll_offset(), 3);
    assert_eq!(rows.len(), 5);
    assert!(rows[0].text.starts_with("f03"));
    assert!(rows[4].text.starts_with("f07"));
    // drawing again changes nothing
    let again = pane.draw(Vec2::new(10, 5));
    assert_eq!(pane.scroll_offset(), 3);
    assert_eq!(texts(&again), texts(&rows));
}

#[test]
fn the_window_follows_the_focus_up() {
    let mut pane = pane_of(0, 20);
    pane.apply(Command::End);
    pane.draw(Vec2::new(10, 5));
    assert_eq!(pane.scroll_offset(), 15);
    pane.change_focus_by(-2);
    pane.draw(Vec2::new(10, 5));
    assert_eq!(pane.scroll_offset(), 15);
    pane.change_focus_by(-3);
    assert_eq!(pane.focus(), 14);
    pane.draw(Vec2::new(10, 5));
    assert_eq!(pane.scroll_offset(), 14);
    pane.apply(Command::Home);
    pane.draw(Vec2::new(10, 5));
    assert_eq!(pane.scroll_offset(), 0);
}

#[test]
fn the_focus_is_always_inside_the_window_after_a_draw() {
    let mut pane = pane_of(3, 30);
    let total = pane.total_list_size();
    let mut x: u64 = 99;
    for _ in 0..500 {
        x = x.wrapping_mul(6364136223846793005).wrapping_add(1442695040888963407);
        let delta = ((x >> 33) % 41) as i64 - 20;
        let height = ((x >> 20) % 12) as usize + 1;
        pane.change_focus_by(delta);
        let rows = pane.draw(Vec2::new(12, height));
        let scroll = pane.scroll_offset();
        let focus = pane.focus();
        assert!(scroll <= focus && focus <= scroll + height - 1);
        assert_eq!(rows.len(), height.min(total - scroll));
    }
}

#[test]
fn a_window_of_height_one_shows_the_focused_row() {
    let mut pane = pane_of(0, 5);
    pane.change_focus_by(3);
    let rows = pane.draw(Vec2::new(6, 1));
    assert_eq!(pane.scroll_offset(), 3);
    assert_eq!(texts(&rows), ["f03   "]);
}

#[test]
fn a_window_of_height_zero_shows_nothing() {
    let mut pane = pane_of(0, 5);
    pane.change_focus_by(2);
    let rows = pane.draw(Vec2::new(6, 0));
    assert!(rows.is_empty());
    // the next draw brings the focus back into view
    let rows = pane.draw(Vec2::new(6, 2));
    assert_eq!(rows.len(), 2);
    let scroll = pane.scroll_offset();
    assert!(scroll <= 2 && 2 <= scroll + 1);
}

#[test]
fn draw_shows_directories_before_files() {
    let mut pane = pane_of(2, 2);
    let rows = pane.draw(Vec2::new(5, 10));
    assert_eq!(texts(&rows), ["d00  ", "d01  ", "f00  ", "f01  "]);
}

#[test]
fn draw_highlights_the_focused_row_of_an_enabled_pane() {
    let mut pane = pane_of(1, 2);
    pane.change_focus_by(1);
    let rows = pane.draw(Vec2::new(8, 10));
    let dir = DefaultColorPair::Blue.color_pair();
    let file = DefaultColorPair::White.color_pair();
    assert_eq!(rows[0].style, dir.default);
    assert_eq!(rows[1].style, file.highlight);
    assert_eq!(rows[2].style, file.default);
    pane.disable();
    assert!(!pane.is_enabled());
    let rows = pane.draw(Vec2::new(8, 10));
    assert_eq!(rows[0].style, dir.default);
    assert_eq!(rows[1].style, file.default);
    assert_eq!(rows[2].style, file.default);
    pane.enable();
    assert!(pane.is_enabled());
    let rows = pane.draw(Vec2::new(8, 10));
    assert_eq!(rows[1].style, file.highlight);
}

#[test]
fn draw_puts_the_size_label_at_the_right_and_cuts_long_names() {
    let mut pane = DirectoryView::new("/d".to_string(), true);
    pane.offer(item("/d", "short", meta_file(1536)), false);
    pane.offer(item("/d", "a_very_long_file_name", meta_file(1)), false);
    assert!(pane.set_size("short", "1.50 KiB".to_string()));
    let rows = pane.draw(Vec2::new(16, 5));
    assert_eq!(texts(&rows), ["a_very_long_fil~", "short   1.50 KiB"]);
}

#[test]
fn an_empty_pane_says_so() {
    let mut pane = DirectoryView::new("/d".to_string(), false);
    let rows = pane.draw(Vec2::new(20, 5));
    assert_eq!(rows.len(), 1);
    assert_eq!(rows[0].text, "empty");
    assert_eq!(rows[0].style, ColorStyle { front: BaseColor::White, back: BaseColor::Red });
    assert_eq!(pane.scroll_offset(), 0);
    assert!(pane.draw(Vec2::new(20, 0)).is_empty());
}

#[test]
fn required_size_is_the_longest_name_by_the_number_of_rows() {
    let mut pane = DirectoryView::new("/d".to_string(), false);
    assert_eq!(pane.required_size(Vec2::zero()), Vec2::new(1, 0));
    pane.offer(item("/d", "abc", meta_file(1)), false);
    assert_eq!(pane.required_size(Vec2::zero()), Vec2::new(3, 1));
    pane.offer(item("/d", "a_directory", meta_dir()), false);
    assert_eq!(pane.required_size(Vec2::zero()), Vec2::new(11, 2));
    pane.offer(item("/d", "äöüäöüäöüäöüä", meta_file(1)), false);
    assert_eq!(pane.required_size(Vec2::new(5, 5)), Vec2::new(13, 3));
    assert_eq!(pane.required(), Vec2::new(13, 3));
    let mut only_dirs = DirectoryView::new("/d".to_string(), false);
    only_dirs.offer(item("/d", "ab", meta_dir()), false);
    assert_eq!(only_dirs.required_size(Vec2::zero()), Vec2::new(2, 1));
}

#[test]
fn set_size_never_labels_another_entry() {
    let mut pane = pane_of(2, 2);
    assert!(pane.set_size("f01", "9.00 B".to_string()));
    assert!(pane.set_size("d00", "3".to_string()));
    assert!(!pane.set_size("nothing", "1".to_string()));
    let sizes: Vec<String> =
        pane.dirs().iter().chain(pane.files().iter()).map(|e| e.size.clone()).collect();
    assert_eq!(sizes, ["3", "", "", "9.00 B"]);
}

#[test]
fn get_sizes_hands_out_the_directories_and_notes_it() {
    let mut pane = pane_of(2, 1);
    assert!(!pane.has_sizes());
    assert_eq!(pane.get_sizes(), ["/d/d00", "/d/d01"]);
    assert!(pane.has_sizes());
    let mut no_dirs = pane_of(0, 2);
    assert!(no_dirs.get_sizes().is_empty());
    assert!(!no_dirs.has_sizes());
}

#[test]
fn mark_failed_is_remembered() {
    let mut pane = DirectoryView::new("/d".to_string(), false);
    pane.mark_failed();
    assert!(pane.has_failed());
    assert_eq!(pane.total_list_size(), 0);
}
