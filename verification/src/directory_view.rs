use vstd::prelude::*;
use vstd::string::*;

use crate::color_pair::{BaseColor, ColorStyle};
use crate::entry::{entry_views, Entry, EntryView};
use crate::file_type::FileType;
use crate::listing::{admitted, entry_from, DirItem, DirItemView};
use crate::name_order::same_text;
use crate::path::text_of;
use crate::screen::{
    make_row_text, row_text, row_views, Command, Event, EventResult, Row, RowView, Vec2, PAGE_STEP,
};
use crate::sorted;
use crate::sorted::{holds_name, names_ascending, with_entry, with_size};

verus! {

/// The listing of one directory together with its navigation state.
///
/// Directories and files are kept in two lists, each strictly ascending by
/// file name; rows are numbered through the directories first, then the
/// files. `focus` is the number of the focused row.
pub struct DirectoryView {
    path: String,
    dirs: Vec<Entry>,
    files: Vec<Entry>,
    has_sizes: bool,
    focus: usize,
    enabled: bool,
    last_offset: usize,
    failed: bool,
    wanted: Option<String>,
}

/// A pane as a value.
pub struct PaneView {
    /// The directory that the pane lists.
    pub path: Seq<char>,
    pub dirs: Seq<EntryView>,
    pub files: Seq<EntryView>,
    /// The number of the focused row.
    pub focus: int,
    /// The number of the first row that was visible when the pane was last
    /// drawn.
    pub scroll: int,
    /// Whether the pane has the keyboard; only the highlight depends on it.
    pub enabled: bool,
    /// Whether computing the size labels has been asked for.
    pub has_sizes: bool,
    /// Whether the directory turned out to be unreadable.
    pub failed: bool,
    /// The path of the entry that the focus is to be on, and to stay on
    /// while other entries arrive, until the focus is moved by hand.
    pub wanted: Option<Seq<char>>,
}

/// The largest index below `total` that is not above `target`, and not
/// below zero: where a move to `target` ends up.
pub open spec fn clamp_index(target: int, total: int) -> int {
    if total <= 0 || target < 0 {
        0
    } else if target >= total {
        total - 1
    } else {
        target
    }
}

/// The first visible row after the window has followed the focus: the focus
/// itself where the window had scrolled past it, the row that brings the
/// focus to the bottom line where the focus was below the window, else the
/// row that was first before.
pub open spec fn window_start(scroll: int, focus: int, height: int) -> int {
    if scroll > focus {
        focus
    } else if scroll + height - 1 < focus {
        focus - height + 1
    } else {
        scroll
    }
}

/// After the window has followed the focus, the focus lies inside it,
/// whatever the scroll position was before.
pub proof fn lemma_window_holds_focus(scroll: int, focus: int, height: int)
    requires
        height > 0,
    ensures
        window_start(scroll, focus, height) <= focus <= window_start(scroll, focus, height)
            + height - 1,
{
}

/// A window that holds the focus is left where it is: drawing twice is
/// drawing once.
pub proof fn lemma_window_stable(scroll: int, focus: int, height: int)
    requires
        height > 0,
    ensures
        window_start(window_start(scroll, focus, height), focus, height) == window_start(
            scroll,
            focus,
            height,
        ),
{
}

/// Drawing a pane twice at one height is drawing it once: the second drawing
/// finds the window where the first one left it.
pub proof fn lemma_drawn_twice(pane: PaneView, height: int)
    requires
        height > 0,
    ensures
        pane.drawn(height).drawn(height) == pane.drawn(height),
{
    lemma_window_stable(pane.scroll, pane.focus, height);
}

/// The length of the longest name in `s`, zero for the empty list.
pub open spec fn longest(s: Seq<EntryView>) -> int
    decreases s.len(),
{
    if s.len() == 0 {
        0
    } else {
        let rest = longest(s.drop_last());
        if s.last().filename.len() > rest {
            s.last().filename.len() as int
        } else {
            rest
        }
    }
}

/// The width a list asks for: that of its longest name, and one cell where
/// it is empty.
pub open spec fn widest(s: Seq<EntryView>) -> int {
    if s.len() == 0 {
        1
    } else {
        longest(s)
    }
}

/// The style of the row that says a pane is empty.
pub open spec fn empty_style() -> ColorStyle {
    ColorStyle { front: BaseColor::White, back: BaseColor::Red }
}

impl PaneView {
    /// The number of rows.
    pub open spec fn total(self) -> int {
        (self.dirs.len() + self.files.len()) as int
    }

    /// Row number `i`: directories come first.
    pub open spec fn entry(self, i: int) -> EntryView {
        if i < self.dirs.len() {
            self.dirs[i]
        } else {
            self.files[i - self.dirs.len()]
        }
    }

    /// Both lists are strictly ascending, the focus is on a row (or zero in
    /// an empty pane), and the counts fit the machine.
    pub open spec fn valid(self) -> bool {
        &&& names_ascending(self.dirs)
        &&& names_ascending(self.files)
        &&& self.total() <= usize::MAX
        &&& 0 <= self.focus
        &&& self.focus < self.total() || (self.total() == 0 && self.focus == 0)
        &&& 0 <= self.scroll <= usize::MAX
    }

    /// A fresh pane for `path`: empty, enabled, focus and scroll at zero.
    pub open spec fn fresh(path: Seq<char>, has_sizes: bool) -> PaneView {
        PaneView {
            path,
            dirs: Seq::empty(),
            files: Seq::empty(),
            focus: 0,
            scroll: 0,
            enabled: true,
            has_sizes,
            failed: false,
            wanted: None,
        }
    }

    /// The focused entry, if the pane has any.
    pub open spec fn focused(self) -> Option<EntryView> {
        if self.total() > 0 {
            Some(self.entry(self.focus))
        } else {
            None
        }
    }

    /// The pane with the focus moved to row `target`, or as near to it as
    /// the list reaches. A focus moved by hand is no longer tied to an
    /// entry.
    pub open spec fn moved_to(self, target: int) -> PaneView {
        PaneView { focus: clamp_index(target, self.total()), wanted: None, ..self }
    }

    /// The pane with the focus moved by `difference` rows, stopping at
    /// either end.
    pub open spec fn moved_by(self, difference: int) -> PaneView {
        self.moved_to(self.focus + difference)
    }

    /// Row `k` is the first one whose entry has the path `path`.
    pub open spec fn first_at(self, path: Seq<char>, k: int) -> bool {
        &&& 0 <= k < self.total()
        &&& self.entry(k).path == path
        &&& forall|i: int| 0 <= i < k ==> (#[trigger] self.entry(i)).path != path
    }

    /// The pane with the focus on the entry whose path is `path`: the focus
    /// stays where the focused entry has that path already, and goes to the
    /// first such entry otherwise. Where the pane lists no such entry yet,
    /// the focus stays where it is. Either way the pane remembers the path,
    /// so that the focus finds the entry when it arrives and follows it
    /// when others arrive.
    pub open spec fn focused_on(self, path: Seq<char>) -> PaneView {
        if self.total() > 0 && self.entry(self.focus).path == path {
            PaneView { wanted: Some(path), ..self }
        } else if exists|k: int| self.first_at(path, k) {
            PaneView { focus: choose|k: int| self.first_at(path, k), wanted: Some(path), ..self }
        } else {
            PaneView { wanted: Some(path), ..self }
        }
    }

    /// The pane after it has been drawn `height` rows high: the window has
    /// followed the focus. An empty pane has no window to move.
    pub open spec fn drawn(self, height: int) -> PaneView {
        if self.total() == 0 {
            self
        } else {
            PaneView { scroll: window_start(self.scroll, self.focus, height), ..self }
        }
    }

    /// How many entries a window `height` rows high shows from the scroll
    /// position on.
    pub open spec fn visible(self, height: int) -> int {
        let rest = self.total() - self.scroll;
        if height <= 0 || rest <= 0 {
            0
        } else if height < rest {
            height
        } else {
            rest
        }
    }

    /// The row that shows entry number `element` in a pane `width` cells
    /// wide: highlighted where it is the focused row of an enabled pane.
    pub open spec fn row(self, element: int, width: int) -> RowView {
        let entry = self.entry(element);
        RowView {
            text: row_text(entry.filename, entry.size, width),
            style: if element == self.focus && self.enabled {
                entry.color.highlight
            } else {
                entry.color.default
            },
        }
    }

    /// What the pane shows in a window of the given size: its entries from
    /// the scroll position on, or the one row that says it is empty.
    pub open spec fn rows(self, width: int, height: int) -> Seq<RowView> {
        if self.total() == 0 {
            if height > 0 {
                seq![RowView { text: "empty"@, style: empty_style() }]
            } else {
                Seq::empty()
            }
        } else {
            Seq::new(self.visible(height) as nat, |i: int| self.row(self.scroll + i, width))
        }
    }

    /// The size the pane asks for: as wide as its longest name, as high as
    /// its list.
    pub open spec fn required(self) -> (int, int) {
        (
            if widest(self.dirs) > widest(self.files) {
                widest(self.dirs)
            } else {
                widest(self.files)
            },
            self.total(),
        )
    }

    /// Whether a pane acts on a command itself: it does on those that move
    /// the focus.
    pub open spec fn heeds(command: Command) -> bool {
        !(command is Enter || command is Leave)
    }

    /// The pane after a command.
    pub open spec fn applied(self, command: Command) -> PaneView {
        match command {
            Command::FocusUp => self.moved_by(-1),
            Command::FocusDown => self.moved_by(1),
            Command::PageUp => self.moved_by(-PAGE_STEP),
            Command::PageDown => self.moved_by(PAGE_STEP as int),
            Command::Home => self.moved_to(0),
            Command::End => self.moved_to(self.total() - 1),
            Command::Enter => self,
            Command::Leave => self,
        }
    }

    /// The pane after an event: after the command that the event stands for,
    /// if it stands for one.
    pub open spec fn after_event(self, event: Event) -> PaneView {
        match Command::spec_of_event(event) {
            Some(command) => self.applied(command),
            None => self,
        }
    }

    /// The pane with `entry` in its list: directories join the first list,
    /// everything else the second. A list that cannot grow is left as it is.
    pub open spec fn joined(self, entry: EntryView) -> PaneView {
        if self.total() >= usize::MAX {
            self
        } else if entry.filetype == FileType::Directory {
            PaneView { dirs: with_entry(self.dirs, entry), ..self }
        } else {
            PaneView { files: with_entry(self.files, entry), ..self }
        }
    }

    /// The pane after `entry` has arrived: the entry has joined its list.
    /// A focus that is tied to an entry is on that entry afterwards, if the
    /// entry is there; any other focus stays on its row.
    pub open spec fn arrived(self, entry: EntryView) -> PaneView {
        let pane = self.joined(entry);
        match pane.wanted {
            Some(path) => pane.focused_on(path),
            None => pane,
        }
    }

    /// The pane after one enumerated item has been dealt with: listed, or
    /// skipped.
    pub open spec fn offered(self, item: DirItemView, show_hidden: bool) -> PaneView {
        match admitted(item, show_hidden) {
            Some(entry) => self.arrived(entry),
            None => self,
        }
    }

    /// The pane after all of `items` have been dealt with, first to last.
    pub open spec fn populated(self, items: Seq<DirItemView>, show_hidden: bool) -> PaneView
        decreases items.len(),
    {
        if items.len() == 0 {
            self
        } else {
            self.populated(items.drop_last(), show_hidden).offered(items.last(), show_hidden)
        }
    }

    /// One of the two lists: the directories, or the files.
    pub open spec fn list(self, dirs: bool) -> Seq<EntryView> {
        if dirs {
            self.dirs
        } else {
            self.files
        }
    }

    /// Some row of the pane lists the name `name`.
    pub open spec fn lists(self, name: Seq<char>) -> bool {
        holds_name(self.dirs, name) || holds_name(self.files, name)
    }

    /// The pane with the size label of the entry named `name` set: that of
    /// the directory of that name if there is one, else that of the file.
    pub open spec fn labelled(self, name: Seq<char>, label: Seq<char>) -> PaneView {
        if holds_name(self.dirs, name) {
            PaneView { dirs: with_size(self.dirs, name, label), ..self }
        } else {
            PaneView { files: with_size(self.files, name, label), ..self }
        }
    }

    /// The pane after the sizes of its directories have been asked for.
    pub open spec fn sizes_asked(self) -> PaneView {
        PaneView { has_sizes: self.has_sizes || self.dirs.len() > 0, ..self }
    }
}

/// The views of the items of a listing.
pub open spec fn item_views(items: Seq<DirItem>) -> Seq<DirItemView> {
    items.map_values(|item: DirItem| item@)
}

impl View for DirectoryView {
    type V = PaneView;

    closed spec fn view(&self) -> PaneView {
        PaneView {
            path: self.path@,
            dirs: entry_views(self.dirs@),
            files: entry_views(self.files@),
            focus: self.focus as int,
            scroll: self.last_offset as int,
            enabled: self.enabled,
            has_sizes: self.has_sizes,
            failed: self.failed,
            wanted: text_of(self.wanted),
        }
    }
}

/// Focusing a path keeps a valid pane valid and touches nothing but the
/// focus and what the pane waits for.
pub proof fn lemma_focused_on_valid(pane: PaneView, path: Seq<char>)
    requires
        pane.valid(),
    ensures
        pane.focused_on(path).valid(),
        pane.focused_on(path) == (PaneView {
            focus: pane.focused_on(path).focus,
            wanted: pane.focused_on(path).wanted,
            ..pane
        }),
{
}

/// An entry that joins keeps a valid pane valid.
pub proof fn lemma_joined_valid(pane: PaneView, entry: EntryView)
    requires
        pane.valid(),
    ensures
        pane.joined(entry).valid(),
{
    sorted::lemma_with_entry_ascending(pane.dirs, entry);
    sorted::lemma_with_entry_ascending(pane.files, entry);
    sorted::lemma_rank_parts(pane.dirs, entry.filename);
    sorted::lemma_rank_parts(pane.files, entry.filename);
}

/// An arrival keeps a valid pane valid, and the lists are those that the
/// entry has joined: the focus is all that an awaited arrival changes
/// besides.
pub proof fn lemma_arrived_valid(pane: PaneView, entry: EntryView)
    requires
        pane.valid(),
    ensures
        pane.arrived(entry).valid(),
        pane.arrived(entry).dirs == pane.joined(entry).dirs,
        pane.arrived(entry).files == pane.joined(entry).files,
        pane.arrived(entry).path == pane.path,
{
    lemma_joined_valid(pane, entry);
    match pane.wanted {
        Some(path) => {
            lemma_focused_on_valid(pane.joined(entry), path);
        },
        None => {},
    }
}

impl DirectoryView {
    /// An empty pane for the directory `path`.
    pub fn new(path: String, has_sizes: bool) -> (pane: DirectoryView)
        ensures
            pane@ == PaneView::fresh(path@, has_sizes),
            pane@.valid(),
    {
        let pane = DirectoryView {
            path,
            dirs: Vec::new(),
            files: Vec::new(),
            has_sizes,
            focus: 0,
            enabled: true,
            last_offset: 0,
            failed: false,
            wanted: None,
        };
        assert(pane@.dirs =~= Seq::empty());
        assert(pane@.files =~= Seq::empty());
        pane
    }

    pub fn disable(&mut self)
        ensures
            final(self)@ == (PaneView { enabled: false, ..old(self)@ }),
    {
        self.enabled = false;
    }

    pub fn enable(&mut self)
        ensures
            final(self)@ == (PaneView { enabled: true, ..old(self)@ }),
    {
        self.enabled = true;
    }

    pub fn is_enabled(&self) -> (enabled: bool)
        ensures
            enabled == self@.enabled,
    {
        self.enabled
    }

    /// Records that the directory could not be read.
    pub fn mark_failed(&mut self)
        ensures
            final(self)@ == (PaneView { failed: true, ..old(self)@ }),
    {
        self.failed = true;
    }

    pub fn has_failed(&self) -> (failed: bool)
        ensures
            failed == self@.failed,
    {
        self.failed
    }

    pub fn has_sizes(&self) -> (has_sizes: bool)
        ensures
            has_sizes == self@.has_sizes,
    {
        self.has_sizes
    }

    pub fn path(&self) -> (path: &String)
        ensures
            path@ == self@.path,
    {
        &self.path
    }

    pub fn dirs(&self) -> (dirs: &Vec<Entry>)
        ensures
            entry_views(dirs@) == self@.dirs,
    {
        &self.dirs
    }

    pub fn files(&self) -> (files: &Vec<Entry>)
        ensures
            entry_views(files@) == self@.files,
    {
        &self.files
    }

    pub fn focus(&self) -> (focus: usize)
        ensures
            focus == self@.focus,
    {
        self.focus
    }

    /// The first row that was visible when the pane was last drawn.
    pub fn scroll_offset(&self) -> (offset: usize)
        ensures
            offset == self@.scroll,
    {
        self.last_offset
    }

    pub fn total_list_size(&self) -> (total: usize)
        requires
            self@.valid(),
        ensures
            total == self@.total(),
    {
        self.dirs.len() + self.files.len()
    }

    /// Row number `i`.
    fn entry_at(&self, i: usize) -> (entry: &Entry)
        requires
            self@.valid(),
            i < self@.total(),
        ensures
            entry@ == self@.entry(i as int),
    {
        if i < self.dirs.len() {
            &self.dirs[i]
        } else {
            &self.files[i - self.dirs.len()]
        }
    }

    /// A copy of the focused entry; `None` in an empty pane.
    pub fn selected(&self) -> (entry: Option<Entry>)
        requires
            self@.valid(),
        ensures
            match entry {
                Some(e) => self@.focused() == Some(e@),
                None => self@.focused() is None,
            },
    {
        if self.total_list_size() > 0 {
            Some(self.entry_at(self.focus).clone())
        } else {
            None
        }
    }

    /// Moves the focus by `difference` rows, stopping at the first and at the
    /// last row; there is no wrapping round.
    pub fn change_focus_by(&mut self, difference: i64)
        requires
            old(self)@.valid(),
        ensures
            final(self)@ == old(self)@.moved_by(difference as int),
            final(self)@.valid(),
    {
        self.wanted = None;
        let total = self.total_list_size();
        if total == 0 {
            return ;
        }
        let focus = self.focus;
        let new_focus = if difference >= 0 {
            let room: usize = total - 1 - focus;
            if difference as u64 >= room as u64 {
                total - 1
            } else {
                focus + (difference as usize)
            }
        } else {
            let back: u64 = (-(difference + 1)) as u64 + 1;
            if back >= focus as u64 {
                0
            } else {
                focus - (back as usize)
            }
        };
        self.focus = new_focus;
    }

    /// Moves the focus to row `target`, or to the last row where the list is
    /// shorter.
    pub fn change_focus_to(&mut self, target: usize)
        requires
            old(self)@.valid(),
        ensures
            final(self)@ == old(self)@.moved_to(target as int),
            final(self)@.valid(),
    {
        self.wanted = None;
        let total = self.total_list_size();
        if total == 0 {
            return ;
        }
        if target >= total {
            self.focus = total - 1;
        } else {
            self.focus = target;
        }
    }

    /// Puts the focus on the entry whose path is `path`, now if the pane
    /// lists one and else as soon as it arrives, and keeps it on that entry
    /// while others arrive, until the focus is moved by hand.
    pub fn focus_path(&mut self, path: &str)
        requires
            old(self)@.valid(),
        ensures
            final(self)@ == old(self)@.focused_on(path@),
            final(self)@.valid(),
    {
        let total = self.total_list_size();
        if total > 0 && same_text(self.entry_at(self.focus).path.as_str(), path) {
            self.wanted = Some(String::from_str(path));
            return ;
        }
        let mut i: usize = 0;
        while i < total
            invariant
                *self == *old(self),
                self@.valid(),
                total == self@.total(),
                total > 0 ==> self@.entry(self@.focus).path != path@,
                i <= total,
                forall|j: int| 0 <= j < i ==> (#[trigger] self@.entry(j)).path != path@,
            decreases total - i,
        {
            if same_text(self.entry_at(i).path.as_str(), path) {
                proof {
                    assert(self@.first_at(path@, i as int));
                    assert forall|k: int| self@.first_at(path@, k) implies k == i by {
                        if k < i {
                            assert(self@.entry(k).path != path@);
                        }
                    }
                }
                self.focus = i;
                self.wanted = Some(String::from_str(path));
                return ;
            }
            i = i + 1;
        }
        proof {
            assert forall|k: int| !self@.first_at(path@, k) by {
                if self@.first_at(path@, k) {
                    assert(self@.entry(k).path != path@);
                }
            }
        }
        // The entry is not there yet: wait for it.
        self.wanted = Some(String::from_str(path));
    }

    /// The path of the entry that the focus is tied to.
    pub fn wanted(&self) -> (path: &Option<String>)
        ensures
            text_of(*path) == self@.wanted,
    {
        &self.wanted
    }

    /// Lets the window follow the focus and tells what a window of the given
    /// size shows. The new scroll position is kept, so that drawing again
    /// shows the same rows.
    pub fn draw(&mut self, size: Vec2) -> (rows: Vec<Row>)
        requires
            old(self)@.valid(),
        ensures
            final(self)@ == old(self)@.drawn(size.y as int),
            final(self)@.valid(),
            row_views(rows@) == final(self)@.rows(size.x as int, size.y as int),
            rows@.len() == final(self)@.rows(size.x as int, size.y as int).len(),
            rows@.len() <= size.y,
            forall|i: int|
                0 <= i < rows@.len() ==> (#[trigger] rows@[i])@ == final(self)@.rows(
                    size.x as int,
                    size.y as int,
                )[i],
            size.y > 0 && final(self)@.total() > 0 ==> final(self)@.scroll <= final(self)@.focus
                <= final(self)@.scroll + size.y - 1,
    {
        let width = size.x;
        let height = size.y;
        let total = self.total_list_size();
        let mut rows: Vec<Row> = Vec::new();
        if total == 0 {
            if height > 0 {
                rows.push(Row { text: String::from_str("empty"), style: Self::empty_row_style() });
            }
            assert(row_views(rows@) =~= self@.rows(width as int, height as int));
            return rows;
        }
        let focus = self.focus;
        // Which row to start at, so that the focused one is in view.
        let start = if self.last_offset > focus {
            focus
        } else if height <= focus - self.last_offset {
            focus - height + 1
        } else {
            self.last_offset
        };
        // The start is where the next drawing sets out from.
        self.last_offset = start;
        let count = if height < total - start {
            height
        } else {
            total - start
        };
        assert(count == self@.visible(height as int));
        let mut i: usize = 0;
        while i < count
            invariant
                self@.valid(),
                total == self@.total(),
                focus == self@.focus,
                start == self@.scroll,
                start + count <= total,
                i <= count,
                rows@.len() == i,
                forall|j: int|
                    0 <= j < i ==> (#[trigger] rows@[j])@ == self@.row(start + j, width as int),
            decreases count - i,
        {
            let element = start + i;
            let entry = self.entry_at(element);
            let style = if element == focus && self.enabled {
                entry.color.highlight
            } else {
                entry.color.default
            };
            let text = make_row_text(entry.filename.as_str(), entry.size.as_str(), width);
            rows.push(Row { text, style });
            i = i + 1;
        }
        assert(row_views(rows@) =~= self@.rows(width as int, height as int));
        rows
    }

    fn empty_row_style() -> (style: ColorStyle)
        ensures
            style == empty_style(),
    {
        ColorStyle::new(BaseColor::White, BaseColor::Red)
    }

    /// The length of the longest name in a list.
    fn longest_name(v: &Vec<Entry>) -> (length: usize)
        ensures
            length == longest(entry_views(v@)),
    {
        let ghost s = entry_views(v@);
        let mut length: usize = 0;
        let mut i: usize = 0;
        while i < v.len()
            invariant
                s == entry_views(v@),
                i <= v.len(),
                length == longest(s.take(i as int)),
            decreases v.len() - i,
        {
            let n = v[i].filename.as_str().unicode_len();
            proof {
                assert(s.take(i + 1).drop_last() =~= s.take(i as int));
                assert(s.take(i + 1).last() == v@[i as int]@);
            }
            if n > length {
                length = n;
            }
            i = i + 1;
        }
        assert(s.take(v.len() as int) =~= s);
        length
    }

    /// The size the pane would like to have, whatever room there is.
    pub fn required_size(&mut self, constraint: Vec2) -> (size: Vec2)
        requires
            old(self)@.valid(),
        ensures
            *final(self) == *old(self),
            (size.x as int, size.y as int) == old(self)@.required(),
    {
        self.required()
    }

    /// The size the pane would like to have: one column for every character
    /// of its longest name, one row for every entry.
    pub fn required(&self) -> (size: Vec2)
        requires
            self@.valid(),
        ensures
            (size.x as int, size.y as int) == self@.required(),
    {
        let h = self.total_list_size();
        let dirs_width = if self.dirs.len() == 0 {
            1
        } else {
            Self::longest_name(&self.dirs)
        };
        let files_width = if self.files.len() == 0 {
            1
        } else {
            Self::longest_name(&self.files)
        };
        let w = if dirs_width > files_width {
            dirs_width
        } else {
            files_width
        };
        Vec2::new(w, h)
    }

    /// Carries out a command, if it is one that a pane heeds.
    pub fn apply(&mut self, command: Command) -> (result: EventResult)
        requires
            old(self)@.valid(),
        ensures
            final(self)@ == old(self)@.applied(command),
            final(self)@.valid(),
            result == if PaneView::heeds(command) {
                EventResult::Consumed
            } else {
                EventResult::Ignored
            },
    {
        match command {
            Command::FocusUp => self.change_focus_by(-1),
            Command::FocusDown => self.change_focus_by(1),
            Command::PageUp => self.change_focus_by(-PAGE_STEP),
            Command::PageDown => self.change_focus_by(PAGE_STEP),
            Command::Home => self.change_focus_to(0),
            Command::End => {
                let total = self.total_list_size();
                let last = if total > 0 {
                    total - 1
                } else {
                    0
                };
                self.change_focus_to(last);
            },
            Command::Enter => {
                return EventResult::Ignored;
            },
            Command::Leave => {
                return EventResult::Ignored;
            },
        }
        EventResult::Consumed
    }

    /// Acts on an event where it stands for a command that moves the focus,
    /// and ignores it otherwise.
    pub fn on_event(&mut self, event: Event) -> (result: EventResult)
        requires
            old(self)@.valid(),
        ensures
            final(self)@ == old(self)@.after_event(event),
            final(self)@.valid(),
            result == match Command::spec_of_event(event) {
                Some(command) => if PaneView::heeds(command) {
                    EventResult::Consumed
                } else {
                    EventResult::Ignored
                },
                None => EventResult::Ignored,
            },
    {
        match Command::of_event(event) {
            Some(command) => self.apply(command),
            None => EventResult::Ignored,
        }
    }

    /// Takes in an entry that has become ready: into the directories or into
    /// the files, at the place its name calls for. An entry whose name its
    /// list already holds is dropped. A focus that is tied to an entry goes
    /// with that entry; any other stays on its row.
    pub fn add(&mut self, entry: Entry)
        requires
            old(self)@.valid(),
        ensures
            final(self)@ == old(self)@.arrived(entry@),
            final(self)@.valid(),
    {
        proof {
            lemma_joined_valid(self@, entry@);
            lemma_arrived_valid(self@, entry@);
        }
        let tied = match &self.wanted {
            Some(path) => Some(path.clone()),
            None => None,
        };
        if self.total_list_size() < usize::MAX {
            if entry.filetype.is_dir() {
                sorted::insert(&mut self.dirs, entry);
            } else {
                sorted::insert(&mut self.files, entry);
            }
        }
        match tied {
            Some(path) => {
                self.focus_path(path.as_str());
            },
            None => {},
        }
    }

    /// Deals with one enumerated item: lists it, or skips it, and tells
    /// which.
    pub fn offer(&mut self, item: DirItem, show_hidden: bool) -> (listed: bool)
        requires
            old(self)@.valid(),
        ensures
            final(self)@ == old(self)@.offered(item@, show_hidden),
            final(self)@.valid(),
            listed == admitted(item@, show_hidden).is_some(),
    {
        match entry_from(item, show_hidden) {
            Some(entry) => {
                self.add(entry);
                true
            },
            None => false,
        }
    }

    /// Deals with a whole listing, item by item. An item that cannot be
    /// listed is skipped; the others are all taken in.
    pub fn populate(&mut self, items: Vec<DirItem>, show_hidden: bool)
        requires
            old(self)@.valid(),
        ensures
            final(self)@ == old(self)@.populated(item_views(items@), show_hidden),
            final(self)@.valid(),
    {
        let ghost all = item_views(items@);
        let ghost n = items@.len();
        let mut rest = items;
        let mut taken: Vec<DirItem> = Vec::new();
        // Items are taken from the end, so turn the list round first.
        while rest.len() > 0
            invariant
                rest@.len() + taken@.len() == n,
                n == all.len(),
                item_views(rest@) == all.take(rest@.len() as int),
                forall|j: int|
                    0 <= j < taken@.len() ==> (#[trigger] taken@[j])@ == all[n - 1 - j],
            decreases rest.len(),
        {
            let ghost before = rest@;
            let item = rest.pop().unwrap();
            proof {
                assert(item@ == item_views(before)[before.len() - 1]);
                assert(item_views(rest@) =~= all.take(rest@.len() as int));
            }
            taken.push(item);
        }
        let mut done: Ghost<int> = Ghost(0);
        while taken.len() > 0
            invariant
                self@.valid(),
                n == all.len(),
                0 <= done@ <= n,
                taken@.len() + done@ == n,
                forall|j: int|
                    0 <= j < taken@.len() ==> (#[trigger] taken@[j])@ == all[n - 1 - j],
                self@ == old(self)@.populated(all.take(done@), show_hidden),
            decreases taken.len(),
        {
            let item = taken.pop().unwrap();
            proof {
                assert(item@ == all[done@]);
                assert(all.take(done@ + 1).drop_last() =~= all.take(done@));
                assert(all.take(done@ + 1).last() == all[done@]);
            }
            self.offer(item, show_hidden);
            proof {
                done@ = done@ + 1;
            }
        }
        assert(all.take(n as int) =~= all);
    }

    /// Sets the size label of the entry named `filename` and tells whether
    /// the pane lists such an entry. Nothing else changes: a label never
    /// lands on another entry.
    pub fn set_size(&mut self, filename: &str, label: String) -> (found: bool)
        requires
            old(self)@.valid(),
        ensures
            final(self)@ == old(self)@.labelled(filename@, label@),
            final(self)@.valid(),
            found == old(self)@.lists(filename@),
    {
        let index = sorted::search_name(&self.dirs, filename);
        let in_dirs = if index < self.dirs.len() {
            same_text(self.dirs[index].filename.as_str(), filename)
        } else {
            false
        };
        proof {
            let s = entry_views(self.dirs@);
            if holds_name(s, filename@) {
                let j = choose|j: int| 0 <= j < s.len() && #[trigger] s[j].filename == filename@;
                sorted::lemma_name_stands_at_rank(s, filename@, index as int, j);
            }
            if index < s.len() {
                assert(s[index as int].filename == self.dirs@[index as int].filename@);
            }
        }
        if in_dirs {
            sorted::set_size(&mut self.dirs, filename, label)
        } else {
            sorted::set_size(&mut self.files, filename, label)
        }
    }

    /// Asks for the sizes of the directories: hands out their paths and
    /// notes that the sizes are on their way.
    pub fn get_sizes(&mut self) -> (paths: Vec<String>)
        requires
            old(self)@.valid(),
        ensures
            final(self)@ == old(self)@.sizes_asked(),
            final(self)@.valid(),
            paths@.len() == old(self)@.dirs.len(),
            forall|i: int|
                0 <= i < paths@.len() ==> (#[trigger] paths@[i])@ == old(self)@.dirs[i].path,
    {
        let mut paths: Vec<String> = Vec::new();
        let mut i: usize = 0;
        while i < self.dirs.len()
            invariant
                *self == *old(self),
                i <= self.dirs.len(),
                paths@.len() == i,
                forall|j: int|
                    0 <= j < i ==> (#[trigger] paths@[j])@ == entry_views(self.dirs@)[j].path,
            decreases self.dirs.len() - i,
        {
            paths.push(self.dirs[i].path.clone());
            i = i + 1;
        }
        if self.dirs.len() > 0 {
            self.has_sizes = true;
        }
        paths
    }
}

/// After an arrival that the pane had room for, each list holds the names
/// it held before, and the list that the entry belongs to holds its name
/// too.
pub proof fn lemma_arrived_holds(pane: PaneView, entry: EntryView, name: Seq<char>, dirs: bool)
    requires
        pane.total() < usize::MAX,
    ensures
        holds_name(pane.arrived(entry).list(dirs), name) <==> holds_name(pane.list(dirs), name) || (
        name == entry.filename && (entry.filetype == FileType::Directory) == dirs),
        pane.arrived(entry).total() <= pane.total() + 1,
{
    sorted::lemma_with_entry_names(pane.dirs, entry, name);
    sorted::lemma_with_entry_names(pane.files, entry, name);
    let joined = pane.joined(entry);
    assert(pane.arrived(entry).dirs == joined.dirs && pane.arrived(entry).files == joined.files);
}

/// Where some row has the path, some row is the first to have it.
proof fn lemma_first_match_exists(pane: PaneView, path: Seq<char>, k: int)
    requires
        0 <= k < pane.total(),
        pane.entry(k).path == path,
    ensures
        exists|j: int| pane.first_at(path, j),
    decreases k,
{
    if exists|i: int| 0 <= i < k && (#[trigger] pane.entry(i)).path == path {
        let i = choose|i: int| 0 <= i < k && (#[trigger] pane.entry(i)).path == path;
        lemma_first_match_exists(pane, path, i);
    } else {
        assert(pane.first_at(path, k));
    }
}

/// Focusing a path finds the entry if it is there: afterwards the pane is
/// tied to the path, and where any row has the path, the focused row has
/// it.
pub proof fn lemma_focus_finds_what_is_there(pane: PaneView, path: Seq<char>, k: int)
    requires
        pane.valid(),
        0 <= k < pane.total(),
        pane.entry(k).path == path,
    ensures
        pane.focused_on(path).wanted == Some(path),
        pane.focused_on(path).focused() matches Some(entry) && entry.path == path,
{
    lemma_first_match_exists(pane, path, k);
}

/// The row that an entry of `pane` has after `entry` has joined: its own,
/// or the next where the newcomer went in before it.
proof fn lemma_joined_keeps_rows(pane: PaneView, entry: EntryView, k: int)
    requires
        pane.valid(),
        0 <= k < pane.total(),
    ensures
        pane.joined(entry).entry(k) == pane.entry(k) || pane.joined(entry).entry(k + 1)
            == pane.entry(k),
        pane.total() <= pane.joined(entry).total() <= pane.total() + 1,
        pane.joined(entry).total() == pane.total() ==> pane.joined(entry).entry(k) == pane.entry(k),
{
    sorted::lemma_rank_bounds(pane.dirs, entry.filename);
    sorted::lemma_rank_bounds(pane.files, entry.filename);
}

/// The focus follows its entry: in a pane that is tied to a path and
/// focused on an entry of that path, the focused entry still has the path
/// after any arrival, wherever the newcomer went in.
pub proof fn lemma_tied_focus_follows(pane: PaneView, entry: EntryView)
    requires
        pane.valid(),
        pane.wanted matches Some(path) && pane.focused() matches Some(focused) && focused.path
            == path,
    ensures
        pane.arrived(entry).wanted == pane.wanted,
        pane.arrived(entry).focused() matches Some(focused) && Some(focused.path) == pane.wanted,
{
    let path = pane.wanted->0;
    let joined = pane.joined(entry);
    lemma_joined_valid(pane, entry);
    lemma_joined_keeps_rows(pane, entry, pane.focus);
    let k = if joined.entry(pane.focus) == pane.entry(pane.focus) {
        pane.focus
    } else {
        pane.focus + 1
    };
    lemma_focus_finds_what_is_there(joined, path, k);
}

/// The entry that a pane waits for has the focus as soon as it has arrived.
pub proof fn lemma_awaited_arrival_gets_focus(pane: PaneView, entry: EntryView)
    requires
        pane.valid(),
        pane.total() < usize::MAX,
        pane.wanted == Some(entry.path),
        !holds_name(pane.list(entry.filetype == FileType::Directory), entry.filename),
    ensures
        pane.arrived(entry).wanted == pane.wanted,
        pane.arrived(entry).focused() matches Some(focused) && focused.path == entry.path,
{
    let joined = pane.joined(entry);
    lemma_joined_valid(pane, entry);
    sorted::lemma_rank_bounds(pane.dirs, entry.filename);
    sorted::lemma_rank_bounds(pane.files, entry.filename);
    let k = if entry.filetype == FileType::Directory {
        sorted::rank(pane.dirs, entry.filename)
    } else {
        pane.dirs.len() + sorted::rank(pane.files, entry.filename)
    };
    assert(joined.entry(k) == entry);
    lemma_focus_finds_what_is_there(joined, entry.path, k);
}

/// An item that cannot be listed leaves the pane as it was.
pub proof fn lemma_bad_item_changes_nothing(pane: PaneView, item: DirItemView, show_hidden: bool)
    requires
        admitted(item, show_hidden) is None,
    ensures
        pane.offered(item, show_hidden) == pane,
{
}

/// A listing never shrinks a pane, and grows it by one row for each item at
/// most; a valid pane stays valid.
pub proof fn lemma_populated_valid(pane: PaneView, items: Seq<DirItemView>, show_hidden: bool)
    requires
        pane.valid(),
    ensures
        pane.populated(items, show_hidden).valid(),
        pane.populated(items, show_hidden).total() <= pane.total() + items.len(),
    decreases items.len(),
{
    if items.len() > 0 {
        let before = pane.populated(items.drop_last(), show_hidden);
        lemma_populated_valid(pane, items.drop_last(), show_hidden);
        match admitted(items.last(), show_hidden) {
            Some(entry) => {
                lemma_arrived_valid(before, entry);
                sorted::lemma_with_entry_names(before.dirs, entry, entry.filename);
                sorted::lemma_with_entry_names(before.files, entry, entry.filename);
            },
            None => {},
        }
    }
}

/// Item `i` of a listing is one that gets listed, under the name `name`,
/// among the directories (`dirs`) or among the files.
pub open spec fn brings(
    items: Seq<DirItemView>,
    show_hidden: bool,
    i: int,
    name: Seq<char>,
    dirs: bool,
) -> bool {
    &&& 0 <= i < items.len()
    &&& admitted(items[i], show_hidden) matches Some(entry)
    &&& entry.filename == name
    &&& (entry.filetype == FileType::Directory) == dirs
}

/// A bad item costs nothing but itself. After a listing that the pane has
/// room for, a list holds a name exactly if it held it before or some item
/// that can be listed brought it: every good item is there, whatever bad
/// items stood beside it, and nothing else is.
pub proof fn lemma_populated_holds(
    pane: PaneView,
    items: Seq<DirItemView>,
    show_hidden: bool,
    name: Seq<char>,
    dirs: bool,
)
    requires
        pane.valid(),
        pane.total() + items.len() <= usize::MAX,
    ensures
        holds_name(pane.populated(items, show_hidden).list(dirs), name) <==> holds_name(
            pane.list(dirs),
            name,
        ) || exists|i: int| brings(items, show_hidden, i, name, dirs),
    decreases items.len(),
{
    if items.len() > 0 {
        let front = items.drop_last();
        let before = pane.populated(front, show_hidden);
        lemma_populated_holds(pane, front, show_hidden, name, dirs);
        lemma_populated_valid(pane, front, show_hidden);
        let n = items.len() - 1;
        assert forall|i: int| brings(front, show_hidden, i, name, dirs) implies brings(
            items,
            show_hidden,
            i,
            name,
            dirs,
        ) by {
            assert(front[i] == items[i]);
        }
        match admitted(items.last(), show_hidden) {
            Some(entry) => {
                lemma_arrived_holds(before, entry, name, dirs);
                if name == entry.filename && (entry.filetype == FileType::Directory) == dirs {
                    assert(brings(items, show_hidden, n, name, dirs));
                }
            },
            None => {},
        }
        if exists|i: int| brings(items, show_hidden, i, name, dirs) {
            let i = choose|i: int| brings(items, show_hidden, i, name, dirs);
            if i < n {
                assert(front[i] == items[i]);
                assert(brings(front, show_hidden, i, name, dirs));
            }
        }
    } else {
        assert forall|i: int| !brings(items, show_hidden, i, name, dirs) by {}
    }
}

/// How many items of a listing can be listed.
pub open spec fn admitted_count(items: Seq<DirItemView>, show_hidden: bool) -> int
    decreases items.len(),
{
    if items.len() == 0 {
        0
    } else {
        admitted_count(items.drop_last(), show_hidden) + if admitted(items.last(), show_hidden)
            is Some {
            1int
        } else {
            0int
        }
    }
}

/// A listing adds one row for every item that can be listed, and none for
/// any other: where the items that can be listed have names of their own,
/// none of them in the pane before, the pane grows by exactly their number.
/// A directory of `n` children of which one cannot be read lists `n - 1`.
pub proof fn lemma_populated_counts(pane: PaneView, items: Seq<DirItemView>, show_hidden: bool)
    requires
        pane.valid(),
        pane.total() + items.len() <= usize::MAX,
        forall|i: int, j: int|
            #![trigger items[i], items[j]]
            0 <= i < j < items.len() && admitted(items[i], show_hidden) is Some && admitted(
                items[j],
                show_hidden,
            ) is Some ==> items[i].name != items[j].name,
        forall|i: int|
            0 <= i < items.len() && admitted(#[trigger] items[i], show_hidden) is Some
                ==> !pane.lists(items[i].name->0),
    ensures
        pane.populated(items, show_hidden).total() == pane.total() + admitted_count(
            items,
            show_hidden,
        ),
    decreases items.len(),
{
    if items.len() > 0 {
        let front = items.drop_last();
        let n = items.len() - 1;
        assert forall|i: int, j: int|
            #![trigger front[i], front[j]]
            0 <= i < j < front.len() && admitted(front[i], show_hidden) is Some && admitted(
                front[j],
                show_hidden,
            ) is Some implies front[i].name != front[j].name by {
            assert(front[i] == items[i] && front[j] == items[j]);
        }
        assert forall|i: int|
            0 <= i < front.len() && admitted(
                #[trigger] front[i],
                show_hidden,
            ) is Some implies !pane.lists(front[i].name->0) by {
            assert(front[i] == items[i]);
        }
        lemma_populated_counts(pane, front, show_hidden);
        lemma_populated_valid(pane, front, show_hidden);
        let before = pane.populated(front, show_hidden);
        match admitted(items.last(), show_hidden) {
            Some(entry) => {
                let dirs = entry.filetype == FileType::Directory;
                let name = entry.filename;
                assert(items[n].name == Some(name));
                lemma_populated_holds(pane, front, show_hidden, name, dirs);
                if exists|i: int| brings(front, show_hidden, i, name, dirs) {
                    let i = choose|i: int| brings(front, show_hidden, i, name, dirs);
                    assert(front[i] == items[i]);
                    assert(items[i].name != items[n].name);
                }
                assert(!holds_name(before.list(dirs), name));
                sorted::lemma_rank_bounds(before.dirs, name);
                sorted::lemma_rank_bounds(before.files, name);
                lemma_arrived_valid(before, entry);
            },
            None => {},
        }
    }
}

/// A bad item in the middle of a listing changes nothing about what the
/// listing gives: the pane is the one that the listing without it gives.
pub proof fn lemma_bad_item_is_skipped(
    pane: PaneView,
    before: Seq<DirItemView>,
    bad: DirItemView,
    after: Seq<DirItemView>,
    show_hidden: bool,
)
    requires
        admitted(bad, show_hidden) is None,
    ensures
        pane.populated(before + seq![bad] + after, show_hidden) == pane.populated(
            before + after,
            show_hidden,
        ),
    decreases after.len(),
{
    let with_bad = before + seq![bad] + after;
    let without = before + after;
    if after.len() == 0 {
        assert(with_bad.drop_last() =~= before);
        assert(without =~= before);
        assert(with_bad.last() == bad);
    } else {
        lemma_bad_item_is_skipped(pane, before, bad, after.drop_last(), show_hidden);
        assert(with_bad.drop_last() =~= before + seq![bad] + after.drop_last());
        assert(without.drop_last() =~= before + after.drop_last());
        assert(with_bad.last() == after.last());
        assert(without.last() == after.last());
    }
}

/// Two listings of the same items bring the same names to each list.
proof fn lemma_same_items_hold_the_same(
    pane: PaneView,
    first: Seq<DirItemView>,
    second: Seq<DirItemView>,
    show_hidden: bool,
    name: Seq<char>,
    dirs: bool,
)
    requires
        pane.valid(),
        pane.total() + first.len() <= usize::MAX,
        pane.total() + second.len() <= usize::MAX,
        forall|item: DirItemView| first.contains(item) <==> second.contains(item),
    ensures
        holds_name(pane.populated(first, show_hidden).list(dirs), name) <==> holds_name(
            pane.populated(second, show_hidden).list(dirs),
            name,
        ),
{
    lemma_populated_holds(pane, first, show_hidden, name, dirs);
    lemma_populated_holds(pane, second, show_hidden, name, dirs);
    if exists|i: int| brings(first, show_hidden, i, name, dirs) {
        let i = choose|i: int| brings(first, show_hidden, i, name, dirs);
        assert(first.contains(first[i]));
        let j = choose|j: int| 0 <= j < second.len() && second[j] == first[i];
        assert(brings(second, show_hidden, j, name, dirs));
    }
    if exists|i: int| brings(second, show_hidden, i, name, dirs) {
        let i = choose|i: int| brings(second, show_hidden, i, name, dirs);
        assert(second.contains(second[i]));
        let j = choose|j: int| 0 <= j < first.len() && first[j] == second[i];
        assert(brings(first, show_hidden, j, name, dirs));
    }
}

/// The order of arrival does not show in the end: two listings of the same
/// items, in whatever order and however often each item comes, give panes
/// with the same names in the same rows.
pub proof fn lemma_arrival_order_does_not_show(
    pane: PaneView,
    first: Seq<DirItemView>,
    second: Seq<DirItemView>,
    show_hidden: bool,
)
    requires
        pane.valid(),
        pane.total() + first.len() <= usize::MAX,
        pane.total() + second.len() <= usize::MAX,
        forall|item: DirItemView| first.contains(item) <==> second.contains(item),
    ensures
        sorted::names_of(pane.populated(first, show_hidden).dirs) == sorted::names_of(
            pane.populated(second, show_hidden).dirs,
        ),
        sorted::names_of(pane.populated(first, show_hidden).files) == sorted::names_of(
            pane.populated(second, show_hidden).files,
        ),
{
    let a = pane.populated(first, show_hidden);
    let b = pane.populated(second, show_hidden);
    lemma_populated_valid(pane, first, show_hidden);
    lemma_populated_valid(pane, second, show_hidden);
    assert forall|name: Seq<char>| holds_name(a.dirs, name) <==> holds_name(b.dirs, name) by {
        lemma_same_items_hold_the_same(pane, first, second, show_hidden, name, true);
    }
    assert forall|name: Seq<char>| holds_name(a.files, name) <==> holds_name(b.files, name) by {
        lemma_same_items_hold_the_same(pane, first, second, show_hidden, name, false);
    }
    sorted::lemma_same_names_same_order(a.dirs, b.dirs);
    sorted::lemma_same_names_same_order(a.files, b.files);
}

} // verus!
