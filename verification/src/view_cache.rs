use vstd::prelude::*;

use crate::directory_view::{DirectoryView, PaneView};
use crate::key_path::{KeyPath, KeyPathView};
use crate::listing::{admitted, DirItem};
use crate::screen::{row_views, Command, EventResult, Row, Vec2};

verus! {

/// The panes of every directory visited so far, each under the key it was
/// first asked for. The cache owns the panes; everyone else holds handles,
/// which are positions in the cache and stay good for as long as the cache
/// lives: no pane ever leaves.
pub struct ViewCache {
    keys: Vec<KeyPath>,
    views: Vec<DirectoryView>,
    fresh: Vec<usize>,
}

/// A cache as a value.
pub struct CacheView {
    /// The key of each pane, by handle.
    pub keys: Seq<KeyPathView>,
    /// The panes, by handle.
    pub panes: Seq<PaneView>,
    /// The handles of the panes that were made and that nobody has begun to
    /// fill yet.
    pub fresh: Seq<int>,
}

/// The panes of a list as values.
pub open spec fn pane_views(views: Seq<DirectoryView>) -> Seq<PaneView> {
    views.map_values(|view: DirectoryView| view@)
}

impl CacheView {
    /// The cache has a pane for `key`.
    pub open spec fn holds(self, key: KeyPathView) -> bool {
        exists|i: int| 0 <= i < self.keys.len() && (#[trigger] self.keys[i]) == key
    }

    /// The handle that a request for `key` gives: that of the pane the cache
    /// has for it, or the next free one.
    pub open spec fn slot(self, key: KeyPathView) -> int {
        if self.holds(key) {
            choose|i: int| 0 <= i < self.keys.len() && (#[trigger] self.keys[i]) == key
        } else {
            self.keys.len() as int
        }
    }

    /// Every pane has one key and lists the path of its key, no key occurs
    /// twice, and the fresh handles are handles of the cache, none twice.
    pub open spec fn valid(self) -> bool {
        &&& self.keys.len() == self.panes.len()
        &&& forall|i: int, j: int|
            #![trigger self.keys[i], self.keys[j]]
            0 <= i < j < self.keys.len() ==> self.keys[i] != self.keys[j]
        &&& forall|i: int|
            0 <= i < self.panes.len() ==> (#[trigger] self.panes[i]).valid() && self.panes[i].path
                == self.keys[i].path
        &&& forall|k: int|
            0 <= k < self.fresh.len() ==> 0 <= #[trigger] self.fresh[k] < self.panes.len()
        &&& forall|k: int, l: int|
            #![trigger self.fresh[k], self.fresh[l]]
            0 <= k < l < self.fresh.len() ==> self.fresh[k] != self.fresh[l]
    }

    /// The empty cache.
    pub open spec fn empty() -> CacheView {
        CacheView { keys: Seq::empty(), panes: Seq::empty(), fresh: Seq::empty() }
    }

    /// The cache after a request for `key`: as it was where it has a pane
    /// for the key, else with one more pane, empty and fresh.
    pub open spec fn requested(self, key: KeyPathView, has_sizes: bool) -> CacheView {
        if self.holds(key) {
            self
        } else {
            CacheView {
                keys: self.keys.push(key),
                panes: self.panes.push(PaneView::fresh(key.path, has_sizes)),
                fresh: self.fresh.push(self.keys.len() as int),
            }
        }
    }

    /// The cache with the pane at `handle` replaced.
    pub open spec fn with_pane(self, handle: int, pane: PaneView) -> CacheView {
        CacheView { panes: self.panes.update(handle, pane), ..self }
    }

    /// The cache after the fresh handles have been handed out.
    pub open spec fn collected(self) -> CacheView {
        CacheView { fresh: Seq::empty(), ..self }
    }
}

/// A key stands at one handle only.
pub proof fn lemma_slot_is_unique(cache: CacheView, key: KeyPathView, i: int)
    requires
        cache.valid(),
        0 <= i < cache.keys.len(),
        cache.keys[i] == key,
    ensures
        cache.holds(key),
        cache.slot(key) == i,
{
    let j = cache.slot(key);
    if j < i {
        assert(cache.keys[j] != cache.keys[i]);
    } else if i < j {
        assert(cache.keys[i] != cache.keys[j]);
    }
}

/// A request keeps the cache valid, leaves every pane it had alone, and the
/// handle it gives is the handle of a pane for the key.
pub proof fn lemma_requested(cache: CacheView, key: KeyPathView, has_sizes: bool)
    requires
        cache.valid(),
    ensures
        cache.requested(key, has_sizes).valid(),
        0 <= cache.slot(key) < cache.requested(key, has_sizes).panes.len(),
        cache.requested(key, has_sizes).keys[cache.slot(key)] == key,
        cache.requested(key, has_sizes).panes.len() >= cache.panes.len(),
        forall|i: int|
            0 <= i < cache.panes.len() ==> #[trigger] cache.requested(key, has_sizes).panes[i]
                == cache.panes[i] && cache.requested(key, has_sizes).keys[i] == cache.keys[i],
        !cache.holds(key) ==> cache.requested(key, has_sizes).panes[cache.slot(key)]
            == PaneView::fresh(key.path, has_sizes),
{
    let after = cache.requested(key, has_sizes);
    if !cache.holds(key) {
        let n = cache.keys.len() as int;
        assert forall|i: int, j: int| 0 <= i < j < after.keys.len() implies after.keys[i]
            != after.keys[j] by {
            if j == n {
                assert(cache.keys[i] == after.keys[i]);
            }
        }
        assert forall|k: int, l: int| 0 <= k < l < after.fresh.len() implies after.fresh[k]
            != after.fresh[l] by {
            if l == cache.fresh.len() {
                assert(after.fresh[k] == cache.fresh[k]);
            }
        }
    }
}

/// Asking twice is asking once: the second request for a key gives the
/// handle that the first one gave, makes no pane and leaves nothing fresh
/// that was not fresh before, whether or not the fresh handles were handed
/// out in between. So one pane stands for one key, and it is handed out for
/// filling once.
pub proof fn lemma_request_twice(cache: CacheView, key: KeyPathView, first: bool, second: bool)
    requires
        cache.valid(),
    ensures
        cache.requested(key, first).requested(key, second) == cache.requested(key, first),
        cache.requested(key, first).slot(key) == cache.slot(key),
        cache.requested(key, first).collected().requested(key, second) == cache.requested(
            key,
            first,
        ).collected(),
        cache.requested(key, first).collected().slot(key) == cache.slot(key),
{
    lemma_requested(cache, key, first);
    let after = cache.requested(key, first);
    lemma_slot_is_unique(after, key, cache.slot(key));
    assert(after.collected().keys[cache.slot(key)] == key);
    lemma_slot_is_unique(after.collected(), key, cache.slot(key));
}

/// Replacing a pane by a valid one for the same path keeps the cache valid.
pub proof fn lemma_with_pane_valid(cache: CacheView, handle: int, pane: PaneView)
    requires
        cache.valid(),
        0 <= handle < cache.panes.len(),
        pane.valid(),
        pane.path == cache.panes[handle].path,
    ensures
        cache.with_pane(handle, pane).valid(),
{
}

impl View for ViewCache {
    type V = CacheView;

    closed spec fn view(&self) -> CacheView {
        CacheView {
            keys: self.keys@.map_values(|key: KeyPath| key@),
            panes: pane_views(self.views@),
            fresh: self.fresh@.map_values(|handle: usize| handle as int),
        }
    }
}

impl ViewCache {
    pub fn new() -> (cache: ViewCache)
        ensures
            cache@ == CacheView::empty(),
            cache@.valid(),
    {
        let cache = ViewCache { keys: Vec::new(), views: Vec::new(), fresh: Vec::new() };
        assert(cache@.keys =~= Seq::empty());
        assert(cache@.panes =~= Seq::empty());
        assert(cache@.fresh =~= Seq::empty());
        cache
    }

    /// How many panes the cache holds.
    pub fn len(&self) -> (len: usize)
        requires
            self@.valid(),
        ensures
            len == self@.panes.len(),
    {
        self.views.len()
    }

    /// The handle of the pane for `key`, if the cache has one.
    pub fn find(&self, key: &KeyPath) -> (handle: Option<usize>)
        requires
            self@.valid(),
        ensures
            match handle {
                Some(h) => self@.holds(key@) && h == self@.slot(key@),
                None => !self@.holds(key@),
            },
    {
        let mut i: usize = 0;
        while i < self.keys.len()
            invariant
                self@.valid(),
                i <= self.keys.len(),
                forall|j: int| 0 <= j < i ==> (#[trigger] self@.keys[j]) != key@,
            decreases self.keys.len() - i,
        {
            if self.keys[i] == *key {
                proof {
                    lemma_slot_is_unique(self@, key@, i as int);
                }
                return Some(i);
            }
            i = i + 1;
        }
        None
    }

    /// Hands out the pane for `key`. The first request for a key makes the
    /// pane, empty, and notes its handle as fresh; every later one gives the
    /// same handle and changes nothing. The flag tells whether the pane was
    /// made by this request.
    pub fn request(&mut self, key: KeyPath, has_sizes: bool) -> (result: (usize, bool))
        requires
            old(self)@.valid(),
        ensures
            final(self)@ == old(self)@.requested(key@, has_sizes),
            final(self)@.valid(),
            result.0 == old(self)@.slot(key@),
            result.1 == !old(self)@.holds(key@),
            result.0 < final(self)@.panes.len(),
            final(self)@.holds(key@),
            final(self)@.slot(key@) == result.0,
    {
        proof {
            lemma_requested(self@, key@, has_sizes);
            lemma_slot_is_unique(
                self@.requested(key@, has_sizes),
                key@,
                self@.slot(key@),
            );
        }
        match self.find(&key) {
            Some(handle) => (handle, false),
            None => {
                let handle = self.views.len();
                let view = DirectoryView::new(key.path.clone(), has_sizes);
                self.keys.push(key);
                self.views.push(view);
                self.fresh.push(handle);
                proof {
                    let after = old(self)@.requested(key@, has_sizes);
                    assert(self@.keys =~= after.keys);
                    assert(self@.panes =~= after.panes);
                    assert(self@.fresh =~= after.fresh);
                }
                (handle, true)
            },
        }
    }

    /// Hands out the handles of the panes that wait to be filled, each of
    /// them once: what is handed out is fresh no longer.
    pub fn take_fresh(&mut self) -> (handles: Vec<usize>)
        requires
            old(self)@.valid(),
        ensures
            final(self)@ == old(self)@.collected(),
            final(self)@.valid(),
            handles@.map_values(|handle: usize| handle as int) == old(self)@.fresh,
    {
        let mut handles: Vec<usize> = Vec::new();
        std::mem::swap(&mut handles, &mut self.fresh);
        assert(self@.fresh =~= Seq::empty());
        handles
    }

    /// The pane at a handle.
    pub fn pane(&self, handle: usize) -> (pane: &DirectoryView)
        requires
            self@.valid(),
            handle < self@.panes.len(),
        ensures
            pane@ == self@.panes[handle as int],
            pane@.valid(),
    {
        &self.views[handle]
    }

    /// The key that a pane is cached under.
    pub fn key(&self, handle: usize) -> (key: &KeyPath)
        requires
            self@.valid(),
            handle < self@.panes.len(),
        ensures
            key@ == self@.keys[handle as int],
    {
        &self.keys[handle]
    }

    /// Offers one enumerated item to the pane at `handle`.
    pub fn offer(&mut self, handle: usize, item: DirItem, show_hidden: bool) -> (listed: bool)
        requires
            old(self)@.valid(),
            handle < old(self)@.panes.len(),
        ensures
            final(self)@ == old(self)@.with_pane(
                handle as int,
                old(self)@.panes[handle as int].offered(item@, show_hidden),
            ),
            final(self)@.valid(),
            listed == admitted(item@, show_hidden).is_some(),
    {
        assert(self@.panes[handle as int] == self.views@[handle as int]@);
        let listed = self.views[handle].offer(item, show_hidden);
        proof {
            let pane = old(self)@.panes[handle as int].offered(item@, show_hidden);
            assert(self@.panes =~= old(self)@.panes.update(handle as int, pane));
            lemma_with_pane_valid(old(self)@, handle as int, pane);
        }
        listed
    }

    /// Sets a size label in the pane at `handle`.
    pub fn set_size(&mut self, handle: usize, filename: &str, label: String) -> (found: bool)
        requires
            old(self)@.valid(),
            handle < old(self)@.panes.len(),
        ensures
            final(self)@ == old(self)@.with_pane(
                handle as int,
                old(self)@.panes[handle as int].labelled(filename@, label@),
            ),
            final(self)@.valid(),
            found == old(self)@.panes[handle as int].lists(filename@),
    {
        assert(self@.panes[handle as int] == self.views@[handle as int]@);
        let found = self.views[handle].set_size(filename, label);
        proof {
            let pane = old(self)@.panes[handle as int].labelled(filename@, label@);
            assert(self@.panes =~= old(self)@.panes.update(handle as int, pane));
            lemma_with_pane_valid(old(self)@, handle as int, pane);
        }
        found
    }

    /// Notes that the directory of the pane at `handle` could not be read.
    pub fn mark_failed(&mut self, handle: usize)
        requires
            old(self)@.valid(),
            handle < old(self)@.panes.len(),
        ensures
            final(self)@ == old(self)@.with_pane(
                handle as int,
                PaneView { failed: true, ..old(self)@.panes[handle as int] },
            ),
            final(self)@.valid(),
    {
        self.views[handle].mark_failed();
        proof {
            let pane = PaneView { failed: true, ..old(self)@.panes[handle as int] };
            assert(self@.panes =~= old(self)@.panes.update(handle as int, pane));
            lemma_with_pane_valid(old(self)@, handle as int, pane);
        }
    }

    /// Gives or takes the keyboard to or from the pane at `handle`.
    pub fn set_enabled(&mut self, handle: usize, enabled: bool)
        requires
            old(self)@.valid(),
            handle < old(self)@.panes.len(),
        ensures
            final(self)@ == old(self)@.with_pane(
                handle as int,
                PaneView { enabled, ..old(self)@.panes[handle as int] },
            ),
            final(self)@.valid(),
    {
        if enabled {
            self.views[handle].enable();
        } else {
            self.views[handle].disable();
        }
        proof {
            let pane = PaneView { enabled, ..old(self)@.panes[handle as int] };
            assert(self@.panes =~= old(self)@.panes.update(handle as int, pane));
            lemma_with_pane_valid(old(self)@, handle as int, pane);
        }
    }

    /// Puts the focus of the pane at `handle` on the entry with the path
    /// `path`.
    pub fn focus_path(&mut self, handle: usize, path: &str)
        requires
            old(self)@.valid(),
            handle < old(self)@.panes.len(),
        ensures
            final(self)@ == old(self)@.with_pane(
                handle as int,
                old(self)@.panes[handle as int].focused_on(path@),
            ),
            final(self)@.valid(),
    {
        assert(self@.panes[handle as int] == self.views@[handle as int]@);
        self.views[handle].focus_path(path);
        proof {
            let pane = old(self)@.panes[handle as int].focused_on(path@);
            assert(self@.panes =~= old(self)@.panes.update(handle as int, pane));
            lemma_with_pane_valid(old(self)@, handle as int, pane);
        }
    }

    /// Carries out a command in the pane at `handle`.
    pub fn apply(&mut self, handle: usize, command: Command) -> (result: EventResult)
        requires
            old(self)@.valid(),
            handle < old(self)@.panes.len(),
        ensures
            final(self)@ == old(self)@.with_pane(
                handle as int,
                old(self)@.panes[handle as int].applied(command),
            ),
            final(self)@.valid(),
            result == if PaneView::heeds(command) {
                EventResult::Consumed
            } else {
                EventResult::Ignored
            },
    {
        assert(self@.panes[handle as int] == self.views@[handle as int]@);
        let result = self.views[handle].apply(command);
        proof {
            let pane = old(self)@.panes[handle as int].applied(command);
            assert(self@.panes =~= old(self)@.panes.update(handle as int, pane));
            lemma_with_pane_valid(old(self)@, handle as int, pane);
        }
        result
    }

    /// Draws the pane at `handle`.
    pub fn draw(&mut self, handle: usize, size: Vec2) -> (rows: Vec<Row>)
        requires
            old(self)@.valid(),
            handle < old(self)@.panes.len(),
        ensures
            final(self)@ == old(self)@.with_pane(
                handle as int,
                old(self)@.panes[handle as int].drawn(size.y as int),
            ),
            final(self)@.valid(),
            row_views(rows@) == final(self)@.panes[handle as int].rows(
                size.x as int,
                size.y as int,
            ),
    {
        assert(self@.panes[handle as int] == self.views@[handle as int]@);
        let rows = self.views[handle].draw(size);
        proof {
            let pane = old(self)@.panes[handle as int].drawn(size.y as int);
            assert(self@.panes =~= old(self)@.panes.update(handle as int, pane));
            lemma_with_pane_valid(old(self)@, handle as int, pane);
        }
        rows
    }

    /// Asks for the sizes of the directories in the pane at `handle`.
    pub fn get_sizes(&mut self, handle: usize) -> (paths: Vec<String>)
        requires
            old(self)@.valid(),
            handle < old(self)@.panes.len(),
        ensures
            final(self)@ == old(self)@.with_pane(
                handle as int,
                old(self)@.panes[handle as int].sizes_asked(),
            ),
            final(self)@.valid(),
            paths@.len() == old(self)@.panes[handle as int].dirs.len(),
            forall|i: int|
                0 <= i < paths@.len() ==> (#[trigger] paths@[i])@
                    == old(self)@.panes[handle as int].dirs[i].path,
    {
        let paths = self.views[handle].get_sizes();
        proof {
            let pane = old(self)@.panes[handle as int].sizes_asked();
            assert(self@.panes =~= old(self)@.panes.update(handle as int, pane));
            lemma_with_pane_valid(old(self)@, handle as int, pane);
        }
        paths
    }

    /// The size that the pane at `handle` asks for.
    pub fn required_size(&self, handle: usize) -> (size: Vec2)
        requires
            self@.valid(),
            handle < self@.panes.len(),
        ensures
            (size.x as int, size.y as int) == self@.panes[handle as int].required(),
    {
        assert(self@.panes[handle as int] == self.views@[handle as int]@);
        self.views[handle].required()
    }
}

} // verus!
