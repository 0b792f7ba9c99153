use vstd::prelude::*;

use crate::directory_view::{DirectoryView, PaneView};
use crate::file_type::FileType;
use crate::key_path::{Connection, ConnectionView, KeyPath, KeyPathView};
use crate::listing::{admitted, DirItem, DirItemView};
use crate::name_order::same_text;
use crate::path::{parent_of, path_parent, text_of};
use crate::screen::{row_views, Command, Event, EventResult, Row, Vec2};
use crate::view_cache::{lemma_requested, lemma_with_pane_valid, CacheView, ViewCache};
use crate::view_ratio::{Columns, ViewRatio};

verus! {

/// The browser's three panes side by side: the directory above the one
/// being browsed, the one being browsed, and a preview of the focused entry
/// where that is a directory. The panes live in a cache that the navigator
/// owns; it refers to them by handle.
pub struct TabView {
    cache: ViewCache,
    conn: Connection,
    ratios: ViewRatio,
    parent: Option<usize>,
    current: usize,
    preview: Option<usize>,
}

/// A navigator as a value.
pub struct NavView {
    pub cache: CacheView,
    /// The connection that every pane is on.
    pub conn: ConnectionView,
    pub ratios: ViewRatio,
    pub parent: Option<int>,
    pub current: int,
    pub preview: Option<int>,
}

/// What a drawn navigator shows: where each pane stands, and its rows. A
/// pane that is not there has no rows.
pub struct Frame {
    pub columns: Columns,
    pub parent: Option<Vec<Row>>,
    pub current: Vec<Row>,
    pub preview: Option<Vec<Row>>,
}

/// Adding up sizes stops at the largest number the machine holds.
pub open spec fn capped_sum(a: int, b: int) -> int {
    if a + b > usize::MAX {
        usize::MAX as int
    } else {
        a + b
    }
}

impl NavView {
    /// The key of a path on the navigator's connection.
    pub open spec fn key(self, path: Seq<char>) -> KeyPathView {
        KeyPathView { conn: self.conn, path }
    }

    /// The pane at a handle.
    pub open spec fn pane(self, handle: int) -> PaneView {
        self.cache.panes[handle]
    }

    /// The pane at `handle` previews the focused entry: that entry is a
    /// directory, and the pane lists its path.
    pub open spec fn shows(self, handle: int) -> bool {
        match self.pane(self.current).focused() {
            Some(entry) => entry.filetype == FileType::Directory && self.pane(handle).path
                == entry.path,
            None => false,
        }
    }

    /// All that makes a navigator valid but the preview.
    pub open spec fn grounded(self) -> bool {
        &&& self.cache.valid()
        &&& 0 <= self.current < self.cache.panes.len()
        &&& (self.parent matches Some(p) ==> 0 <= p < self.cache.panes.len())
        &&& forall|i: int|
            0 <= i < self.cache.keys.len() ==> (#[trigger] self.cache.keys[i]).conn == self.conn
    }

    /// The cache is valid, every pane is on the navigator's connection, the
    /// three handles are handles of the cache, and a preview, where there is
    /// one, previews the focused entry of the current pane.
    pub open spec fn valid(self) -> bool {
        &&& self.grounded()
        &&& (self.preview matches Some(q) ==> 0 <= q < self.cache.panes.len() && self.shows(q))
    }

    /// The navigator with the preview brought up to date: the pane of the
    /// focused entry where that is a directory, made if need be, and none
    /// otherwise.
    pub open spec fn previewed(self) -> NavView {
        match self.pane(self.current).focused() {
            Some(entry) => if entry.filetype == FileType::Directory {
                NavView {
                    cache: self.cache.requested(self.key(entry.path), true),
                    preview: Some(self.cache.slot(self.key(entry.path))),
                    ..self
                }
            } else {
                NavView { preview: None, ..self }
            },
            None => NavView { preview: None, ..self },
        }
    }

    /// The navigator with the keyboard where it belongs: taken from the
    /// parent and from the preview, given to the current pane.
    pub open spec fn settled(self) -> NavView {
        let c1 = match self.parent {
            Some(p) => self.cache.with_pane(p, PaneView { enabled: false, ..self.cache.panes[p] }),
            None => self.cache,
        };
        let c2 = match self.preview {
            Some(q) => c1.with_pane(q, PaneView { enabled: false, ..c1.panes[q] }),
            None => c1,
        };
        let c3 = c2.with_pane(self.current, PaneView { enabled: true, ..c2.panes[self.current] });
        NavView { cache: c3, ..self }
    }

    /// The preview brought up to date, and the keyboard where it belongs.
    pub open spec fn refreshed(self) -> NavView {
        self.previewed().settled()
    }

    /// The navigator with the parent pane that belongs to a child at
    /// `child`: the pane of `above`, made if need be and focused on the
    /// child; none where nothing is above, or where `above` is the child
    /// itself.
    pub open spec fn with_parent(self, child: Seq<char>, above: Option<Seq<char>>) -> NavView {
        match above {
            Some(path) => if path == child {
                NavView { parent: None, ..self }
            } else {
                let cache = self.cache.requested(self.key(path), false);
                let handle = self.cache.slot(self.key(path));
                NavView {
                    cache: cache.with_pane(handle, cache.panes[handle].focused_on(child)),
                    parent: Some(handle),
                    ..self
                }
            },
            None => NavView { parent: None, ..self },
        }
    }

    /// A navigator opened on `path`, with `above` for the path's parent.
    pub open spec fn opened(
        conn: ConnectionView,
        path: Seq<char>,
        above: Option<Seq<char>>,
    ) -> NavView {
        let start = NavView {
            cache: CacheView::empty().requested(KeyPathView { conn, path }, true),
            conn,
            ratios: ViewRatio { parent: 1, main: 2, child: 1 },
            parent: None,
            current: 0,
            preview: None,
        };
        start.with_parent(path, above).refreshed()
    }

    /// Entering is possible where there is a preview and its directory has
    /// not turned out to be unreadable.
    pub open spec fn can_enter(self) -> bool {
        self.preview matches Some(q) && !self.pane(q).failed
    }

    /// The navigator with the handles turned one step down: the preview in
    /// the place of the current pane, the current pane in that of the
    /// parent, its focus tied to the directory that is entered.
    pub open spec fn turned(self) -> NavView {
        let child = self.pane(self.preview->0).path;
        NavView {
            cache: self.cache.with_pane(self.current, self.pane(self.current).focused_on(child)),
            parent: Some(self.current),
            current: self.preview->0,
            ..self
        }
    }

    /// The navigator after entering the focused directory: the preview has
    /// become the current pane and the pane that was current its parent,
    /// focus and all. Where entering is not possible nothing changes.
    pub open spec fn entered(self) -> NavView {
        if self.can_enter() {
            self.turned().refreshed()
        } else {
            self
        }
    }

    /// The navigator after leaving for the parent, with `above` for the
    /// parent's own parent: the parent has become the current pane, focused
    /// on the directory that was left. Without a parent nothing changes.
    pub open spec fn left(self, above: Option<Seq<char>>) -> NavView {
        match self.parent {
            Some(p) => {
                let came_from = self.pane(self.current).path;
                let s1 = self.with_parent(self.pane(p).path, above);
                NavView {
                    cache: s1.cache.with_pane(p, s1.cache.panes[p].focused_on(came_from)),
                    current: p,
                    ..s1
                }.refreshed()
            },
            None => self,
        }
    }

    /// What is above the parent pane, as the platform's paths have it.
    pub open spec fn above_parent(self) -> Option<Seq<char>> {
        match self.parent {
            Some(p) => path_parent(self.pane(p).path),
            None => None,
        }
    }

    /// The navigator with a pane replaced and the preview brought up to
    /// date.
    pub open spec fn with_pane(self, handle: int, pane: PaneView) -> NavView {
        NavView { cache: self.cache.with_pane(handle, pane), ..self }.refreshed()
    }

    /// The navigator after a command: the current pane moves its focus, and
    /// entering and leaving change panes.
    pub open spec fn applied(self, command: Command) -> NavView {
        match command {
            Command::Enter => self.entered(),
            Command::Leave => self.left(self.above_parent()),
            _ => self.with_pane(self.current, self.pane(self.current).applied(command)),
        }
    }

    /// The navigator after an event.
    pub open spec fn after_event(self, event: Event) -> NavView {
        match Command::spec_of_event(event) {
            Some(command) => self.applied(command),
            None => self,
        }
    }

    /// The parent pane, where there is one, lists the directory above the
    /// current one.
    pub open spec fn parent_is_above(self) -> bool {
        self.parent matches Some(p) ==> path_parent(self.pane(self.current).path) == Some(
            self.pane(p).path,
        )
    }

    /// The cache after the parent pane has been drawn.
    pub open spec fn parent_drawn(self, height: int) -> CacheView {
        match self.parent {
            Some(p) => self.cache.with_pane(p, self.cache.panes[p].drawn(height)),
            None => self.cache,
        }
    }

    /// The cache after the parent and the current pane have been drawn.
    pub open spec fn current_drawn(self, height: int) -> CacheView {
        let c1 = self.parent_drawn(height);
        c1.with_pane(self.current, c1.panes[self.current].drawn(height))
    }

    /// The navigator after all three panes have been drawn, the parent
    /// first and the preview last.
    pub open spec fn drawn(self, height: int) -> NavView {
        let c2 = self.current_drawn(height);
        let c3 = match self.preview {
            Some(q) => c2.with_pane(q, c2.panes[q].drawn(height)),
            None => c2,
        };
        NavView { cache: c3, ..self }
    }

    /// The size that the three panes ask for together.
    pub open spec fn required(self) -> (int, int) {
        let parent = match self.parent {
            Some(p) => self.pane(p).required(),
            None => (0int, 0int),
        };
        let current = self.pane(self.current).required();
        let preview = match self.preview {
            Some(q) => self.pane(q).required(),
            None => (0int, 0int),
        };
        (
            capped_sum(capped_sum(parent.0, current.0), preview.0),
            capped_sum(capped_sum(parent.1, current.1), preview.1),
        )
    }
}

/// Bringing the preview up to date makes a grounded navigator valid.
pub proof fn lemma_previewed_valid(nav: NavView)
    requires
        nav.grounded(),
    ensures
        nav.previewed().valid(),
        nav.previewed().parent == nav.parent,
        nav.previewed().current == nav.current,
        nav.previewed().cache.panes.len() >= nav.cache.panes.len(),
        forall|i: int|
            0 <= i < nav.cache.panes.len() ==> #[trigger] nav.previewed().cache.panes[i]
                == nav.cache.panes[i],
{
    match nav.pane(nav.current).focused() {
        Some(entry) => {
            if entry.filetype == FileType::Directory {
                lemma_requested(nav.cache, nav.key(entry.path), true);
                let after = nav.previewed();
                let q = nav.cache.slot(nav.key(entry.path));
                assert(after.cache.panes[q].path == after.cache.keys[q].path);
                assert(after.cache.panes[nav.current] == nav.cache.panes[nav.current]);
                assert forall|i: int| 0 <= i < after.cache.keys.len() implies (
                #[trigger] after.cache.keys[i]).conn == nav.conn by {
                    if i < nav.cache.keys.len() {
                        assert(after.cache.panes[i] == nav.cache.panes[i]);
                        assert(after.cache.keys[i] == nav.cache.keys[i]);
                    }
                }
            }
        },
        None => {},
    }
}

/// Moving the keyboard keeps a valid navigator valid, and touches nothing
/// but the keyboard.
pub proof fn lemma_settled_valid(nav: NavView)
    requires
        nav.valid(),
    ensures
        nav.settled().valid(),
        nav.settled().cache.panes.len() == nav.cache.panes.len(),
        forall|i: int|
            0 <= i < nav.cache.panes.len() ==> #[trigger] nav.settled().cache.panes[i] == (PaneView {
                enabled: nav.settled().cache.panes[i].enabled,
                ..nav.cache.panes[i]
            }),
{
    let c1 = match nav.parent {
        Some(p) => nav.cache.with_pane(p, PaneView { enabled: false, ..nav.cache.panes[p] }),
        None => nav.cache,
    };
    match nav.parent {
        Some(p) => {
            lemma_with_pane_valid(nav.cache, p, PaneView { enabled: false, ..nav.cache.panes[p] });
        },
        None => {},
    }
    let c2 = match nav.preview {
        Some(q) => c1.with_pane(q, PaneView { enabled: false, ..c1.panes[q] }),
        None => c1,
    };
    match nav.preview {
        Some(q) => {
            lemma_with_pane_valid(c1, q, PaneView { enabled: false, ..c1.panes[q] });
        },
        None => {},
    }
    lemma_with_pane_valid(c2, nav.current, PaneView { enabled: true, ..c2.panes[nav.current] });
}

/// Bringing a grounded navigator up to date makes it valid and leaves the
/// path and the focus of every pane it had as they were.
pub proof fn lemma_refreshed_valid(nav: NavView)
    requires
        nav.grounded(),
    ensures
        nav.refreshed().valid(),
        nav.refreshed().parent == nav.parent,
        nav.refreshed().current == nav.current,
        forall|i: int|
            0 <= i < nav.cache.panes.len() ==> (#[trigger] nav.refreshed().cache.panes[i]).path
                == nav.cache.panes[i].path && nav.refreshed().cache.panes[i].focus
                == nav.cache.panes[i].focus,
{
    lemma_previewed_valid(nav);
    lemma_settled_valid(nav.previewed());
    assert forall|i: int| 0 <= i < nav.cache.panes.len() implies (
    #[trigger] nav.refreshed().cache.panes[i]).path == nav.cache.panes[i].path
        && nav.refreshed().cache.panes[i].focus == nav.cache.panes[i].focus by {
        assert(nav.previewed().cache.panes[i] == nav.cache.panes[i]);
        assert(nav.previewed().settled().cache.panes[i] == (PaneView {
            enabled: nav.previewed().settled().cache.panes[i].enabled,
            ..nav.previewed().cache.panes[i]
        }));
    }
}

/// Giving a grounded navigator a parent keeps it grounded, and leaves alone
/// every pane it had but the parent's.
pub proof fn lemma_with_parent_grounded(nav: NavView, child: Seq<char>, above: Option<Seq<char>>)
    requires
        nav.grounded(),
    ensures
        nav.with_parent(child, above).grounded(),
        nav.with_parent(child, above).current == nav.current,
        nav.with_parent(child, above).cache.panes.len() >= nav.cache.panes.len(),
        forall|i: int|
            0 <= i < nav.cache.panes.len() && nav.cache.keys[i].path != above->0
                ==> #[trigger] nav.with_parent(child, above).cache.panes[i] == nav.cache.panes[i],
        forall|i: int|
            0 <= i < nav.cache.panes.len() ==> (#[trigger] nav.with_parent(
                child,
                above,
            ).cache.panes[i]).path == nav.cache.panes[i].path,
        nav.with_parent(child, above).parent matches Some(h) ==> above is Some && nav.with_parent(
            child,
            above,
        ).cache.panes[h].path == above->0 && above->0 != child,
{
    match above {
        Some(path) => {
            if path != child {
                let key = nav.key(path);
                lemma_requested(nav.cache, key, false);
                let cache = nav.cache.requested(key, false);
                let handle = nav.cache.slot(key);
                assert(cache.panes[handle].path == cache.keys[handle].path);
                lemma_with_pane_valid(cache, handle, cache.panes[handle].focused_on(child));
                let after = nav.with_parent(child, above);
                assert forall|i: int| 0 <= i < after.cache.keys.len() implies (
                #[trigger] after.cache.keys[i]).conn == nav.conn by {
                    if i < nav.cache.keys.len() {
                        assert(cache.panes[i] == nav.cache.panes[i]);
                        assert(cache.keys[i] == nav.cache.keys[i]);
                    }
                }
                assert forall|i: int|
                    0 <= i < nav.cache.panes.len() && nav.cache.keys[i].path
                        != path implies #[trigger] after.cache.panes[i] == nav.cache.panes[i] by {
                    assert(cache.panes[i] == nav.cache.panes[i]);
                    assert(cache.keys[i] == nav.cache.keys[i]);
                }
                assert forall|i: int| 0 <= i < nav.cache.panes.len() implies (
                #[trigger] after.cache.panes[i]).path == nav.cache.panes[i].path by {
                    assert(cache.panes[i] == nav.cache.panes[i]);
                }
            }
        },
        None => {},
    }
}

/// A navigator has a parent pane whenever something other than the child
/// itself is above the child; that pane lists what is above, and its focus
/// is tied to the child.
pub proof fn lemma_with_parent_has_parent(nav: NavView, child: Seq<char>, above: Seq<char>)
    requires
        nav.grounded(),
        above != child,
    ensures
        nav.with_parent(child, Some(above)).parent matches Some(h) && nav.with_parent(
            child,
            Some(above),
        ).pane(h).path == above && nav.with_parent(child, Some(above)).pane(h).wanted == Some(
            child,
        ),
{
    lemma_with_parent_grounded(nav, child, Some(above));
}

/// A navigator opened on a path has a parent pane whenever something other
/// than the path itself is above the path; that pane lists what is above,
/// and its focus is tied to the path, so that it is on the path as soon as
/// the path has arrived in the listing.
pub proof fn lemma_opened_has_parent(conn: ConnectionView, path: Seq<char>, above: Seq<char>)
    requires
        above != path,
    ensures
        NavView::opened(conn, path, Some(above)).valid(),
        NavView::opened(conn, path, Some(above)).parent matches Some(h) && NavView::opened(
            conn,
            path,
            Some(above),
        ).pane(h).path == above && NavView::opened(conn, path, Some(above)).pane(h).wanted
            == Some(path),
{
    let start = NavView {
        cache: CacheView::empty().requested(KeyPathView { conn, path }, true),
        conn,
        ratios: ViewRatio { parent: 1, main: 2, child: 1 },
        parent: None,
        current: 0,
        preview: None,
    };
    lemma_requested(CacheView::empty(), KeyPathView { conn, path }, true);
    assert(start.grounded()) by {
        assert forall|i: int| 0 <= i < start.cache.keys.len() implies (
        #[trigger] start.cache.keys[i]).conn == start.conn by {
            assert(i == 0);
        }
    }
    lemma_with_parent_has_parent(start, path, above);
    lemma_with_parent_grounded(start, path, Some(above));
    let held = start.with_parent(path, Some(above));
    lemma_refreshed_valid(held);
    lemma_previewed_valid(held);
    lemma_settled_valid(held.previewed());
    let h = held.parent->0;
    assert(held.previewed().cache.panes[h] == held.cache.panes[h]);
}

/// Turning the handles keeps the navigator grounded and touches no pane but
/// the one that was current, of which it changes nothing but the path that
/// the focus is tied to: the focus is on the directory entered already.
pub proof fn lemma_turned_grounded(nav: NavView)
    requires
        nav.valid(),
        nav.can_enter(),
    ensures
        nav.turned().grounded(),
        nav.turned().cache.panes.len() == nav.cache.panes.len(),
        nav.turned().cache.panes[nav.current] == (PaneView {
            wanted: Some(nav.pane(nav.preview->0).path),
            ..nav.pane(nav.current)
        }),
        forall|i: int|
            0 <= i < nav.cache.panes.len() && i != nav.current
                ==> #[trigger] nav.turned().cache.panes[i] == nav.cache.panes[i],
{
    let child = nav.pane(nav.preview->0).path;
    let pane = nav.pane(nav.current).focused_on(child);
    lemma_with_pane_valid(nav.cache, nav.current, pane);
}

/// Entering a directory and leaving it again leads back: the current pane
/// lists the path it listed before, and its focus is where it was.
pub proof fn lemma_enter_then_leave(nav: NavView, above: Option<Seq<char>>)
    requires
        nav.valid(),
        nav.can_enter(),
    ensures
        nav.entered().left(above).valid(),
        nav.entered().left(above).current == nav.current,
        nav.entered().left(above).pane(nav.current).path == nav.pane(nav.current).path,
        nav.entered().left(above).pane(nav.current).focus == nav.pane(nav.current).focus,
{
    let q = nav.preview->0;
    let c = nav.current;
    // Entering leaves the pane that was current as it was, but for the
    // keyboard and the path its focus is tied to.
    lemma_turned_grounded(nav);
    lemma_refreshed_valid(nav.turned());
    lemma_settled_keeps_entries(nav.turned().previewed(), c);
    let inside = nav.entered();
    let came_from = inside.pane(q).path;
    let here = inside.pane(c).path;
    // Giving it a parent of its own does not touch it either.
    lemma_with_parent_grounded(inside, here, above);
    let s1 = inside.with_parent(here, above);
    assert(inside.cache.keys[c].path == here);
    let home = s1.cache.panes[c];
    assert(home == inside.cache.panes[c]);
    // And it is still focused on the directory that was entered, so that
    // focusing it on that directory leaves the focus where it is.
    let back = home.focused_on(came_from);
    assert(back == (PaneView { wanted: Some(came_from), ..home }));
    lemma_with_pane_valid(s1.cache, c, back);
    lemma_refreshed_valid(NavView { cache: s1.cache.with_pane(c, back), current: c, ..s1 });
}

/// After leaving, the parent pane lists the directory above the current
/// one.
pub proof fn lemma_left_parent_is_above(nav: NavView)
    requires
        nav.valid(),
        nav.parent is Some,
    ensures
        nav.left(nav.above_parent()).parent_is_above(),
{
    let p = nav.parent->0;
    let above = nav.above_parent();
    let here = nav.pane(p).path;
    lemma_with_parent_grounded(nav, here, above);
    let s1 = nav.with_parent(here, above);
    let came_from = nav.pane(nav.current).path;
    let pane = s1.cache.panes[p];
    lemma_with_pane_valid(s1.cache, p, pane.focused_on(came_from));
    let s2 = NavView { cache: s1.cache.with_pane(p, pane.focused_on(came_from)), current: p, ..s1 };
    assert(s2.grounded());
    lemma_refreshed_valid(s2);
    match s2.parent {
        Some(h) => {
            assert(s2.cache.panes[h].path == s1.cache.panes[h].path);
            assert(s2.refreshed().cache.panes[h].path == s2.cache.panes[h].path);
            assert(s2.refreshed().cache.panes[p].path == s2.cache.panes[p].path);
        },
        None => {},
    }
}

/// After entering a directory that lies in the current one, the parent pane
/// lists the directory above the new current one.
pub proof fn lemma_entered_parent_is_above(nav: NavView)
    requires
        nav.valid(),
        nav.can_enter(),
    ensures
        path_parent(nav.pane(nav.preview->0).path) == Some(nav.pane(nav.current).path)
            ==> nav.entered().parent_is_above(),
{
    lemma_turned_grounded(nav);
    lemma_refreshed_valid(nav.turned());
    assert(nav.turned().cache.panes[nav.preview->0].path == nav.cache.panes[nav.preview->0].path);
    assert(nav.entered().cache.panes[nav.current].path == nav.cache.panes[nav.current].path);
    assert(nav.entered().cache.panes[nav.preview->0].path == nav.cache.panes[nav.preview->0].path);
}

/// Moving the keyboard leaves the entries of every pane as they were.
pub proof fn lemma_settled_keeps_entries(nav: NavView, handle: int)
    requires
        nav.valid(),
        0 <= handle < nav.cache.panes.len(),
    ensures
        nav.settled().pane(handle).dirs == nav.pane(handle).dirs,
        nav.settled().pane(handle).files == nav.pane(handle).files,
        nav.settled().pane(handle).focus == nav.pane(handle).focus,
        nav.settled().pane(handle).path == nav.pane(handle).path,
{
    lemma_settled_valid(nav);
}

/// An item that is offered leaves a valid pane valid and on its path.
proof fn lemma_offered_valid(pane: PaneView, item: DirItemView, show_hidden: bool)
    requires
        pane.valid(),
    ensures
        pane.offered(item, show_hidden).valid(),
        pane.offered(item, show_hidden).path == pane.path,
{
    match admitted(item, show_hidden) {
        Some(entry) => {
            crate::directory_view::lemma_arrived_valid(pane, entry);
        },
        None => {},
    }
}

impl View for TabView {
    type V = NavView;

    closed spec fn view(&self) -> NavView {
        NavView {
            cache: self.cache@,
            conn: self.conn@,
            ratios: self.ratios,
            parent: match self.parent {
                Some(p) => Some(p as int),
                None => None,
            },
            current: self.current as int,
            preview: match self.preview {
                Some(q) => Some(q as int),
                None => None,
            },
        }
    }
}

impl TabView {
    /// Opens the browser on `path`, with `above` for the directory above
    /// it: the pane of `path` is the current one, that of `above` its
    /// parent, focused on `path`.
    pub fn open(conn: Connection, path: String, above: Option<String>) -> (nav: TabView)
        ensures
            nav@ == NavView::opened(
                conn@,
                path@,
                text_of(above),
            ),
            nav@.valid(),
    {
        let ghost above_view = text_of(above);
        let mut cache = ViewCache::new();
        let child = path.clone();
        let key = KeyPath { conn: conn.clone(), path };
        proof {
            lemma_requested(cache@, key@, true);
            assert(!cache@.holds(key@));
        }
        let (current, _) = cache.request(key, true);
        let mut nav = TabView {
            cache,
            conn,
            ratios: ViewRatio::default(),
            parent: None,
            current,
            preview: None,
        };
        assert(nav@.grounded()) by {
            assert forall|i: int| 0 <= i < nav@.cache.keys.len() implies (
            #[trigger] nav@.cache.keys[i]).conn == nav@.conn by {
                assert(i == 0);
            }
        }
        nav.adopt_parent(child.as_str(), above);
        nav.refresh();
        nav
    }

    /// Opens the browser on `path`: the pane of `path` is the current one,
    /// that of the directory above it its parent.
    pub fn try_from(conn: Connection, path: String) -> (nav: TabView)
        ensures
            nav@ == NavView::opened(conn@, path@, path_parent(path@)),
            nav@.valid(),
            nav@.parent_is_above(),
    {
        let above = parent_of(path.as_str());
        let ghost start = NavView {
            cache: CacheView::empty().requested(KeyPathView { conn: conn@, path: path@ }, true),
            conn: conn@,
            ratios: ViewRatio { parent: 1, main: 2, child: 1 },
            parent: None,
            current: 0,
            preview: None,
        };
        proof {
            lemma_requested(CacheView::empty(), KeyPathView { conn: conn@, path: path@ }, true);
            assert(start.grounded()) by {
                assert forall|i: int| 0 <= i < start.cache.keys.len() implies (
                #[trigger] start.cache.keys[i]).conn == start.conn by {
                    assert(i == 0);
                }
            }
            lemma_with_parent_grounded(start, path@, path_parent(path@));
            lemma_refreshed_valid(start.with_parent(path@, path_parent(path@)));
            assert(start.cache.panes[0].path == path@);
        }
        Self::open(conn, path, above)
    }

    /// Sets the parent pane for a child at `child`.
    fn adopt_parent(&mut self, child: &str, above: Option<String>)
        requires
            old(self)@.grounded(),
        ensures
            final(self)@ == old(self)@.with_parent(
                child@,
                text_of(above),
            ),
            final(self)@.grounded(),
    {
        proof {
            lemma_with_parent_grounded(
                self@,
                child@,
                text_of(above),
            );
        }
        match above {
            Some(path) => {
                if same_text(path.as_str(), child) {
                    self.parent = None;
                } else {
                    let key = KeyPath { conn: self.conn.clone(), path };
                    let (handle, _) = self.cache.request(key, false);
                    self.cache.focus_path(handle, child);
                    self.parent = Some(handle);
                }
            },
            None => {
                self.parent = None;
            },
        }
    }

    /// Brings the preview up to date: the pane of the focused entry where
    /// that is a directory, none otherwise.
    pub fn update_preview(&mut self)
        requires
            old(self)@.grounded(),
        ensures
            final(self)@ == old(self)@.previewed(),
            final(self)@.valid(),
    {
        proof {
            lemma_previewed_valid(self@);
        }
        match self.cache.pane(self.current).selected() {
            Some(entry) => {
                if entry.filetype.is_dir() {
                    let key = KeyPath { conn: self.conn.clone(), path: entry.path };
                    let (handle, _) = self.cache.request(key, true);
                    self.preview = Some(handle);
                } else {
                    self.preview = None;
                }
            },
            None => {
                self.preview = None;
            },
        }
    }

    /// Takes the keyboard from the parent and the preview and gives it to
    /// the current pane.
    fn settle(&mut self)
        requires
            old(self)@.valid(),
        ensures
            final(self)@ == old(self)@.settled(),
            final(self)@.valid(),
    {
        proof {
            lemma_settled_valid(self@);
        }
        match self.parent {
            Some(p) => {
                self.cache.set_enabled(p, false);
            },
            None => {},
        }
        match self.preview {
            Some(q) => {
                self.cache.set_enabled(q, false);
            },
            None => {},
        }
        self.cache.set_enabled(self.current, true);
    }

    /// Brings the preview up to date and puts the keyboard where it
    /// belongs.
    fn refresh(&mut self)
        requires
            old(self)@.grounded(),
        ensures
            final(self)@ == old(self)@.refreshed(),
            final(self)@.valid(),
    {
        self.update_preview();
        self.settle();
    }

    /// Enters the focused directory: its pane becomes the current one, and
    /// the pane that was current the parent, which keeps its focus and
    /// holds it on the directory entered while other entries arrive. Nothing
    /// happens where the focused entry is no directory, or one that could
    /// not be read.
    pub fn enter_dir(&mut self)
        requires
            old(self)@.valid(),
        ensures
            final(self)@ == old(self)@.entered(),
            final(self)@.valid(),
    {
        let target = match self.preview {
            Some(q) => q,
            None => {
                return ;
            },
        };
        if self.cache.pane(target).has_failed() {
            return ;
        }
        let child = self.cache.pane(target).path().clone();
        proof {
            lemma_turned_grounded(self@);
        }
        self.cache.focus_path(self.current, child.as_str());
        self.parent = Some(self.current);
        self.current = target;
        self.refresh();
    }

    /// Leaves for the parent directory, with `above` for the directory
    /// above the parent: the parent pane becomes the current one, focused
    /// on the directory that was left. Nothing happens without a parent.
    pub fn leave_to(&mut self, above: Option<String>)
        requires
            old(self)@.valid(),
        ensures
            final(self)@ == old(self)@.left(
                text_of(above),
            ),
            final(self)@.valid(),
    {
        let p = match self.parent {
            Some(p) => p,
            None => {
                return ;
            },
        };
        let came_from = self.cache.pane(self.current).path().clone();
        let here = self.cache.pane(p).path().clone();
        self.adopt_parent(here.as_str(), above);
        proof {
            lemma_with_parent_grounded(
                old(self)@,
                here@,
                text_of(above),
            );
            let pane = self@.cache.panes[p as int];
            lemma_with_pane_valid(self@.cache, p as int, pane.focused_on(came_from@));
        }
        self.cache.focus_path(p, came_from.as_str());
        self.current = p;
        self.refresh();
    }

    /// Leaves for the parent directory.
    pub fn leave_dir(&mut self)
        requires
            old(self)@.valid(),
        ensures
            final(self)@ == old(self)@.left(old(self)@.above_parent()),
            final(self)@.valid(),
            old(self)@.parent is Some ==> final(self)@.parent_is_above(),
    {
        proof {
            if self@.parent is Some {
                lemma_left_parent_is_above(self@);
            }
        }
        let above = match self.parent {
            Some(p) => parent_of(self.cache.pane(p).path().as_str()),
            None => None,
        };
        self.leave_to(above);
    }

    /// Carries out a command.
    pub fn apply(&mut self, command: Command)
        requires
            old(self)@.valid(),
        ensures
            final(self)@ == old(self)@.applied(command),
            final(self)@.valid(),
    {
        match command {
            Command::Enter => self.enter_dir(),
            Command::Leave => self.leave_dir(),
            _ => {
                proof {
                    let pane = self@.pane(self@.current).applied(command);
                    lemma_with_pane_valid(self@.cache, self@.current, pane);
                }
                self.cache.apply(self.current, command);
                self.refresh();
            },
        }
    }

    /// Acts on an event that stands for a command, and ignores any other.
    pub fn on_event(&mut self, event: Event) -> (result: EventResult)
        requires
            old(self)@.valid(),
        ensures
            final(self)@ == old(self)@.after_event(event),
            final(self)@.valid(),
            result == if Command::spec_of_event(event) is Some {
                EventResult::Consumed
            } else {
                EventResult::Ignored
            },
    {
        match Command::of_event(event) {
            Some(command) => {
                self.apply(command);
                EventResult::Consumed
            },
            None => EventResult::Ignored,
        }
    }

    /// Offers one enumerated item to the pane at `handle` and brings the
    /// preview up to date, since the focused entry may be another now.
    pub fn offer(&mut self, handle: usize, item: DirItem, show_hidden: bool) -> (listed: bool)
        requires
            old(self)@.valid(),
            handle < old(self)@.cache.panes.len(),
        ensures
            final(self)@ == old(self)@.with_pane(
                handle as int,
                old(self)@.pane(handle as int).offered(item@, show_hidden),
            ),
            final(self)@.valid(),
            listed == admitted(item@, show_hidden).is_some(),
    {
        proof {
            lemma_offered_valid(self@.pane(handle as int), item@, show_hidden);
            lemma_with_pane_valid(
                self@.cache,
                handle as int,
                self@.pane(handle as int).offered(item@, show_hidden),
            );
        }
        let listed = self.cache.offer(handle, item, show_hidden);
        self.refresh();
        listed
    }

    /// Sets the size label of an entry of the pane at `handle`.
    pub fn set_size(&mut self, handle: usize, filename: &str, label: String) -> (found: bool)
        requires
            old(self)@.valid(),
            handle < old(self)@.cache.panes.len(),
        ensures
            final(self)@ == old(self)@.with_pane(
                handle as int,
                old(self)@.pane(handle as int).labelled(filename@, label@),
            ),
            final(self)@.valid(),
            found == old(self)@.pane(handle as int).lists(filename@),
    {
        let found = self.cache.set_size(handle, filename, label);
        self.refresh();
        found
    }

    /// Notes that the directory of the pane at `handle` could not be read.
    /// Such a directory cannot be entered.
    pub fn mark_failed(&mut self, handle: usize)
        requires
            old(self)@.valid(),
            handle < old(self)@.cache.panes.len(),
        ensures
            final(self)@ == old(self)@.with_pane(
                handle as int,
                PaneView { failed: true, ..old(self)@.pane(handle as int) },
            ),
            final(self)@.valid(),
    {
        self.cache.mark_failed(handle);
        self.refresh();
    }

    /// Asks for the sizes of the directories in the current pane.
    pub fn get_sizes(&mut self) -> (paths: Vec<String>)
        requires
            old(self)@.valid(),
        ensures
            final(self)@ == old(self)@.with_pane(
                old(self)@.current,
                old(self)@.pane(old(self)@.current).sizes_asked(),
            ),
            final(self)@.valid(),
            paths@.len() == old(self)@.pane(old(self)@.current).dirs.len(),
            forall|i: int|
                0 <= i < paths@.len() ==> (#[trigger] paths@[i])@ == old(self)@.pane(
                    old(self)@.current,
                ).dirs[i].path,
    {
        let paths = self.cache.get_sizes(self.current);
        self.refresh();
        paths
    }

    /// Hands out the handles of the panes that wait to be filled, each of
    /// them once.
    pub fn take_fresh(&mut self) -> (handles: Vec<usize>)
        requires
            old(self)@.valid(),
        ensures
            final(self)@ == (NavView { cache: old(self)@.cache.collected(), ..old(self)@ }),
            final(self)@.valid(),
            handles@.map_values(|handle: usize| handle as int) == old(self)@.cache.fresh,
            forall|i: int|
                0 <= i < handles@.len() ==> #[trigger] handles@[i] < final(self)@.cache.panes.len(),
    {
        let handles = self.cache.take_fresh();
        proof {
            let fresh = handles@.map_values(|handle: usize| handle as int);
            assert forall|i: int| 0 <= i < handles@.len() implies #[trigger] handles@[i]
                < self@.cache.panes.len() by {
                assert(fresh[i] == handles@[i]);
                assert(0 <= old(self)@.cache.fresh[i] < old(self)@.cache.panes.len());
            }
        }
        handles
    }

    /// The connection that the panes are on.
    pub fn connection(&self) -> (conn: &Connection)
        ensures
            conn@ == self@.conn,
    {
        &self.conn
    }

    /// How many panes there are. Every smaller number is a handle.
    pub fn len(&self) -> (len: usize)
        requires
            self@.valid(),
        ensures
            len == self@.cache.panes.len(),
    {
        self.cache.len()
    }

    /// The pane at a handle.
    pub fn pane(&self, handle: usize) -> (pane: &DirectoryView)
        requires
            self@.valid(),
            handle < self@.cache.panes.len(),
        ensures
            pane@ == self@.pane(handle as int),
            pane@.valid(),
    {
        self.cache.pane(handle)
    }

    /// The handle of the pane being browsed.
    pub fn current(&self) -> (handle: usize)
        requires
            self@.valid(),
        ensures
            handle == self@.current,
            handle < self@.cache.panes.len(),
    {
        self.current
    }

    /// The handle of the parent pane.
    pub fn parent(&self) -> (handle: Option<usize>)
        requires
            self@.valid(),
        ensures
            match handle {
                Some(p) => self@.parent == Some(p as int) && p < self@.cache.panes.len(),
                None => self@.parent is None,
            },
    {
        self.parent
    }

    /// The handle of the preview pane.
    pub fn preview(&self) -> (handle: Option<usize>)
        requires
            self@.valid(),
        ensures
            match handle {
                Some(q) => self@.preview == Some(q as int) && q < self@.cache.panes.len(),
                None => self@.preview is None,
            },
    {
        self.preview
    }

    /// Draws the three panes side by side on a screen of the given size,
    /// each in the share of the width that the ratios give it. Every pane
    /// lets its window follow its focus.
    pub fn draw(&mut self, size: Vec2) -> (frame: Frame)
        requires
            old(self)@.valid(),
        ensures
            final(self)@ == old(self)@.drawn(size.y as int),
            final(self)@.valid(),
            frame.columns == old(self)@.ratios.spec_split(size.x as int),
            match frame.parent {
                Some(rows) => old(self)@.parent matches Some(p) && row_views(rows@)
                    == old(self)@.parent_drawn(size.y as int).panes[p].rows(
                    frame.columns.parent_width as int,
                    size.y as int,
                ),
                None => old(self)@.parent is None,
            },
            row_views(frame.current@) == old(self)@.current_drawn(
                size.y as int,
            ).panes[old(self)@.current].rows(frame.columns.main_width as int, size.y as int),
            match frame.preview {
                Some(rows) => old(self)@.preview matches Some(q) && row_views(rows@)
                    == final(self)@.pane(q).rows(frame.columns.child_width as int, size.y as int),
                None => old(self)@.preview is None,
            },
    {
        let columns = self.ratios.split(size.x);
        let height = size.y;
        let parent = match self.parent {
            Some(p) => {
                proof {
                    lemma_with_pane_valid(
                        self@.cache,
                        p as int,
                        self@.cache.panes[p as int].drawn(height as int),
                    );
                }
                Some(self.cache.draw(p, Vec2::new(columns.parent_width, height)))
            },
            None => None,
        };
        let current = self.cache.draw(self.current, Vec2::new(columns.main_width, height));
        let preview = match self.preview {
            Some(q) => Some(self.cache.draw(q, Vec2::new(columns.child_width, height))),
            None => None,
        };
        Frame { columns, parent, current, preview }
    }

    /// The size that the three panes ask for together.
    pub fn required_size(&mut self, constraint: Vec2) -> (size: Vec2)
        requires
            old(self)@.valid(),
        ensures
            *final(self) == *old(self),
            (size.x as int, size.y as int) == old(self)@.required(),
    {
        let parent = match self.parent {
            Some(p) => self.cache.required_size(p),
            None => Vec2::zero(),
        };
        let current = self.cache.required_size(self.current);
        let preview = match self.preview {
            Some(q) => self.cache.required_size(q),
            None => Vec2::zero(),
        };
        Vec2::new(
            parent.x.saturating_add(current.x).saturating_add(preview.x),
            parent.y.saturating_add(current.y).saturating_add(preview.y),
        )
    }
}

} // verus!
