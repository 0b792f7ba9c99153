use vstd::prelude::*;

use crate::entry::{entry_views, Entry, EntryView};
use crate::name_order::{
    compare_names, lemma_name_lt_asymmetric, lemma_name_lt_irreflexive, lemma_name_lt_total,
    lemma_name_lt_transitive, name_lt, same_text, Order,
};

verus! {

/// Strictly ascending by file name: no name occurs twice.
pub open spec fn names_ascending(s: Seq<EntryView>) -> bool {
    forall|i: int, j: int|
        #![trigger s[i], s[j]]
        0 <= i < j < s.len() ==> name_lt(s[i].filename, s[j].filename)
}

/// Some entry of `s` has the file name `name`.
pub open spec fn holds_name(s: Seq<EntryView>, name: Seq<char>) -> bool {
    exists|i: int| 0 <= i < s.len() && #[trigger] s[i].filename == name
}

/// How many entries of `s` have a file name that sorts before `name`.
pub open spec fn rank(s: Seq<EntryView>, name: Seq<char>) -> int
    decreases s.len(),
{
    if s.len() == 0 {
        0
    } else {
        rank(s.drop_last(), name) + if name_lt(s.last().filename, name) {
            1int
        } else {
            0int
        }
    }
}

/// Position `k` parts `s` into the entries that sort before `name` and those
/// that do not.
pub open spec fn parts_at(s: Seq<EntryView>, name: Seq<char>, k: int) -> bool {
    &&& 0 <= k <= s.len()
    &&& forall|i: int| 0 <= i < k ==> name_lt(#[trigger] s[i].filename, name)
    &&& forall|i: int| k <= i < s.len() ==> !name_lt(#[trigger] s[i].filename, name)
}

/// The list after `entry` has arrived: unchanged where its name is already
/// there, else with `entry` put where its name belongs.
pub open spec fn with_entry(s: Seq<EntryView>, entry: EntryView) -> Seq<EntryView> {
    if holds_name(s, entry.filename) {
        s
    } else {
        s.insert(rank(s, entry.filename), entry)
    }
}

/// The list with the size label of the entry named `name` set to `label`;
/// unchanged where no entry has that name.
pub open spec fn with_size(s: Seq<EntryView>, name: Seq<char>, label: Seq<char>) -> Seq<EntryView> {
    if holds_name(s, name) {
        s.update(rank(s, name), EntryView { size: label, ..s[rank(s, name)] })
    } else {
        s
    }
}

/// The list after all of `items` have arrived, first to last.
pub open spec fn with_entries(s: Seq<EntryView>, items: Seq<EntryView>) -> Seq<EntryView>
    decreases items.len(),
{
    if items.len() == 0 {
        s
    } else {
        with_entry(with_entries(s, items.drop_last()), items.last())
    }
}

/// A rank never points outside the list.
pub proof fn lemma_rank_bounds(s: Seq<EntryView>, name: Seq<char>)
    ensures
        0 <= rank(s, name) <= s.len(),
    decreases s.len(),
{
    if s.len() > 0 {
        lemma_rank_bounds(s.drop_last(), name);
    }
}

/// After an arrival the list holds the names it held before and the name
/// that arrived, and no other.
pub proof fn lemma_with_entry_names(s: Seq<EntryView>, entry: EntryView, name: Seq<char>)
    ensures
        holds_name(with_entry(s, entry), name) <==> holds_name(s, name) || name == entry.filename,
        with_entry(s, entry).len() <= s.len() + 1,
{
    let t = with_entry(s, entry);
    if !holds_name(s, entry.filename) {
        lemma_rank_bounds(s, entry.filename);
        let k = rank(s, entry.filename);
        assert(t[k] == entry);
        if holds_name(s, name) {
            let i = choose|i: int| 0 <= i < s.len() && #[trigger] s[i].filename == name;
            let i2 = if i < k {
                i
            } else {
                i + 1
            };
            assert(t[i2] == s[i]);
        }
        if holds_name(t, name) && name != entry.filename {
            let j = choose|j: int| 0 <= j < t.len() && #[trigger] t[j].filename == name;
            let j0 = if j < k {
                j
            } else {
                j - 1
            };
            assert(t[j] == s[j0]);
        }
    }
}

/// Wherever a position parts the list, it is the rank of the name.
pub proof fn lemma_parts_at_is_rank(s: Seq<EntryView>, name: Seq<char>, k: int)
    requires
        parts_at(s, name, k),
    ensures
        rank(s, name) == k,
    decreases s.len(),
{
    if s.len() > 0 {
        let t = s.drop_last();
        if k == s.len() {
            assert(name_lt(s[k - 1].filename, name));
            assert forall|i: int| 0 <= i < k - 1 implies name_lt(
                #[trigger] t[i].filename,
                name,
            ) by {
                assert(t[i] == s[i]);
            }
            lemma_parts_at_is_rank(t, name, k - 1);
        } else {
            assert(!name_lt(s[s.len() - 1].filename, name));
            assert forall|i: int| 0 <= i < k implies name_lt(#[trigger] t[i].filename, name) by {
                assert(t[i] == s[i]);
            }
            assert forall|i: int| k <= i < t.len() implies !name_lt(
                #[trigger] t[i].filename,
                name,
            ) by {
                assert(t[i] == s[i]);
            }
            lemma_parts_at_is_rank(t, name, k);
        }
    }
}

/// In an ascending list a name can only stand at its rank.
pub proof fn lemma_name_stands_at_rank(s: Seq<EntryView>, name: Seq<char>, k: int, j: int)
    requires
        names_ascending(s),
        parts_at(s, name, k),
        0 <= j < s.len(),
        s[j].filename == name,
    ensures
        j == k,
{
    lemma_name_lt_irreflexive(name);
    if j > k {
        assert(name_lt(s[k].filename, s[j].filename));
    }
}

/// Putting an entry at its rank keeps an ascending list ascending.
pub proof fn lemma_with_entry_ascending(s: Seq<EntryView>, entry: EntryView)
    requires
        names_ascending(s),
    ensures
        names_ascending(with_entry(s, entry)),
{
    let name = entry.filename;
    if !holds_name(s, name) {
        lemma_rank_parts(s, name);
        let k = rank(s, name);
        let t = s.insert(k, entry);
        assert forall|i: int, j: int| 0 <= i < j < t.len() implies name_lt(
            t[i].filename,
            t[j].filename,
        ) by {
            if j == k {
                assert(t[i] == s[i]);
            } else if i == k {
                assert(t[j] == s[j - 1]);
                assert(s[j - 1].filename != name);
                lemma_name_lt_total(name, s[j - 1].filename);
            } else {
                let i0 = if i < k {
                    i
                } else {
                    i - 1
                };
                let j0 = if j < k {
                    j
                } else {
                    j - 1
                };
                assert(t[i] == s[i0]);
                assert(t[j] == s[j0]);
            }
        }
    }
}

/// In an ascending list the rank of a name parts the list.
pub proof fn lemma_rank_parts(s: Seq<EntryView>, name: Seq<char>)
    requires
        names_ascending(s),
    ensures
        parts_at(s, name, rank(s, name)),
    decreases s.len(),
{
    if s.len() > 0 {
        let t = s.drop_last();
        let n = s.len() - 1;
        assert forall|i: int, j: int| 0 <= i < j < t.len() implies name_lt(
            t[i].filename,
            t[j].filename,
        ) by {
            assert(t[i] == s[i]);
            assert(t[j] == s[j]);
        }
        lemma_rank_parts(t, name);
        let k = rank(t, name);
        if name_lt(s[n].filename, name) {
            assert forall|i: int| 0 <= i < n + 1 implies name_lt(
                #[trigger] s[i].filename,
                name,
            ) by {
                if i < n {
                    assert(name_lt(s[i].filename, s[n].filename));
                    lemma_name_lt_transitive(s[i].filename, s[n].filename, name);
                }
            }
        } else {
            assert forall|i: int| 0 <= i < k implies name_lt(#[trigger] s[i].filename, name) by {
                assert(t[i] == s[i]);
            }
            assert forall|i: int| k <= i < s.len() implies !name_lt(
                #[trigger] s[i].filename,
                name,
            ) by {
                if i < n {
                    assert(t[i] == s[i]);
                }
            }
        }
    }
}

/// However many entries arrive, and in whatever order, an ascending list
/// stays strictly ascending by file name.
pub proof fn lemma_arrivals_keep_ascending(s: Seq<EntryView>, items: Seq<EntryView>)
    requires
        names_ascending(s),
    ensures
        names_ascending(with_entries(s, items)),
    decreases items.len(),
{
    if items.len() > 0 {
        lemma_arrivals_keep_ascending(s, items.drop_last());
        lemma_with_entry_ascending(with_entries(s, items.drop_last()), items.last());
    }
}

/// Where the entry at `k` does not sort before `name`, no later entry does.
proof fn lemma_not_before_from(s: Seq<EntryView>, name: Seq<char>, k: int)
    requires
        names_ascending(s),
        0 <= k < s.len(),
        !name_lt(s[k].filename, name),
    ensures
        forall|i: int| k <= i < s.len() ==> !name_lt(#[trigger] s[i].filename, name),
{
    assert forall|i: int| k <= i < s.len() implies !name_lt(#[trigger] s[i].filename, name) by {
        if i > k && name_lt(s[i].filename, name) {
            assert(name_lt(s[k].filename, s[i].filename));
            lemma_name_lt_transitive(s[k].filename, s[i].filename, name);
        }
    }
}

/// Where the entry at `k` sorts before `name`, so does every earlier entry.
proof fn lemma_before_upto(s: Seq<EntryView>, name: Seq<char>, k: int)
    requires
        names_ascending(s),
        0 <= k < s.len(),
        name_lt(s[k].filename, name),
    ensures
        forall|i: int| 0 <= i <= k ==> name_lt(#[trigger] s[i].filename, name),
{
    assert forall|i: int| 0 <= i <= k implies name_lt(#[trigger] s[i].filename, name) by {
        if i < k {
            assert(name_lt(s[i].filename, s[k].filename));
            lemma_name_lt_transitive(s[i].filename, s[k].filename, name);
        }
    }
}

/// The views of a list after an insertion are the views before it, with the
/// view of the new entry inserted at the same place.
pub proof fn lemma_views_insert(s: Seq<Entry>, k: int, entry: Entry)
    requires
        0 <= k <= s.len(),
    ensures
        entry_views(s.insert(k, entry)) == entry_views(s).insert(k, entry@),
{
    assert(entry_views(s.insert(k, entry)) =~= entry_views(s).insert(k, entry@));
}

/// A label lands on the entry it is for and on no other: setting the size
/// of a name changes the size label of the entry of that name, and nothing
/// else in the list.
pub proof fn lemma_with_size_touches_one(
    s: Seq<EntryView>,
    name: Seq<char>,
    label: Seq<char>,
    i: int,
)
    requires
        names_ascending(s),
        0 <= i < s.len(),
    ensures
        with_size(s, name, label).len() == s.len(),
        with_size(s, name, label)[i] == if s[i].filename == name {
            EntryView { size: label, ..s[i] }
        } else {
            s[i]
        },
{
    lemma_rank_parts(s, name);
    if holds_name(s, name) {
        let j = choose|j: int| 0 <= j < s.len() && (#[trigger] s[j]).filename == name;
        lemma_name_stands_at_rank(s, name, rank(s, name), j);
        if s[i].filename == name {
            lemma_name_stands_at_rank(s, name, rank(s, name), i);
        }
    }
}

/// The file names of a list, in its order.
pub open spec fn names_of(s: Seq<EntryView>) -> Seq<Seq<char>> {
    s.map_values(|entry: EntryView| entry.filename)
}

/// A list is settled by the names it holds: two ascending lists that hold
/// the same names hold them in the same order.
pub proof fn lemma_same_names_same_order(a: Seq<EntryView>, b: Seq<EntryView>)
    requires
        names_ascending(a),
        names_ascending(b),
        forall|name: Seq<char>| holds_name(a, name) <==> holds_name(b, name),
    ensures
        names_of(a) == names_of(b),
    decreases a.len(),
{
    if a.len() == 0 {
        if b.len() > 0 {
            assert(holds_name(b, b[0].filename));
            assert(holds_name(a, b[0].filename));
        }
        assert(names_of(a) =~= names_of(b));
    } else {
        assert(holds_name(a, a[0].filename));
        assert(holds_name(b, a[0].filename));
        let m = a.len() - 1;
        let n = b.len() - 1;
        let la = a[m].filename;
        let lb = b[n].filename;
        assert(holds_name(a, la));
        assert(holds_name(b, lb));
        let j = choose|j: int| 0 <= j < b.len() && (#[trigger] b[j]).filename == la;
        let i = choose|i: int| 0 <= i < a.len() && (#[trigger] a[i]).filename == lb;
        if j < n {
            assert(name_lt(b[j].filename, b[n].filename));
        }
        if i < m {
            assert(name_lt(a[i].filename, a[m].filename));
        }
        if la != lb {
            lemma_name_lt_asymmetric(la, lb);
        }
        let a0 = a.drop_last();
        let b0 = b.drop_last();
        assert forall|name: Seq<char>| holds_name(a0, name) <==> holds_name(b0, name) by {
            if holds_name(a0, name) {
                let k = choose|k: int| 0 <= k < a0.len() && (#[trigger] a0[k]).filename == name;
                assert(a0[k] == a[k]);
                assert(name_lt(a[k].filename, a[m].filename));
                lemma_name_lt_asymmetric(name, la);
                assert(holds_name(a, name));
                let l = choose|l: int| 0 <= l < b.len() && (#[trigger] b[l]).filename == name;
                assert(b0[l] == b[l]);
            }
            if holds_name(b0, name) {
                let k = choose|k: int| 0 <= k < b0.len() && (#[trigger] b0[k]).filename == name;
                assert(b0[k] == b[k]);
                assert(name_lt(b[k].filename, b[n].filename));
                lemma_name_lt_asymmetric(name, lb);
                assert(holds_name(b, name));
                let l = choose|l: int| 0 <= l < a.len() && (#[trigger] a[l]).filename == name;
                assert(a0[l] == a[l]);
            }
        }
        assert forall|x: int, y: int| 0 <= x < y < a0.len() implies name_lt(
            a0[x].filename,
            a0[y].filename,
        ) by {
            assert(a0[x] == a[x] && a0[y] == a[y]);
        }
        assert forall|x: int, y: int| 0 <= x < y < b0.len() implies name_lt(
            b0[x].filename,
            b0[y].filename,
        ) by {
            assert(b0[x] == b[x] && b0[y] == b[y]);
        }
        lemma_same_names_same_order(a0, b0);
        assert(names_of(a0).len() == names_of(b0).len());
        assert forall|k: int| 0 <= k < a.len() implies names_of(a)[k] == names_of(b)[k] by {
            if k < m {
                assert(names_of(a0)[k] == names_of(b0)[k]);
                assert(a0[k] == a[k]);
                assert(b0[k] == b[k]);
            }
        }
        assert(names_of(a) =~= names_of(b));
    }
}

/// Finds where `name` belongs in an ascending list: the number of entries
/// that sort before it.
pub fn search_name(v: &Vec<Entry>, name: &str) -> (index: usize)
    requires
        names_ascending(entry_views(v@)),
    ensures
        index == rank(entry_views(v@), name@),
        parts_at(entry_views(v@), name@, index as int),
{
    let ghost s = entry_views(v@);
    if v.len() < 1 {
        return 0;
    }
    let last: usize = v.len() - 1;
    // A name after the last one goes to the end.
    match compare_names(v[last].filename.as_str(), name) {
        Order::Less => {
            proof {
                assert(s[last as int].filename == v@[last as int].filename@);
                lemma_before_upto(s, name@, last as int);
                lemma_parts_at_is_rank(s, name@, v.len() as int);
            }
            return v.len();
        },
        _ => {},
    }
    // A name before the first one goes to the front.
    match compare_names(v[0].filename.as_str(), name) {
        Order::Greater => {
            proof {
                assert(s[0].filename == v@[0].filename@);
                lemma_not_before_from(s, name@, 0);
                lemma_parts_at_is_rank(s, name@, 0);
            }
            return 0;
        },
        _ => {},
    }
    proof {
        assert(s[last as int].filename == v@[last as int].filename@);
        lemma_not_before_from(s, name@, last as int);
    }
    let mut low: usize = 0;
    let mut high: usize = last;
    while low < high
        invariant
            s == entry_views(v@),
            names_ascending(s),
            low <= high < v.len(),
            forall|i: int| 0 <= i < low ==> name_lt(#[trigger] s[i].filename, name@),
            forall|i: int| high <= i < s.len() ==> !name_lt(#[trigger] s[i].filename, name@),
        decreases high - low,
    {
        let mid: usize = low + (high - low) / 2;
        assert(s[mid as int].filename == v@[mid as int].filename@);
        match compare_names(v[mid].filename.as_str(), name) {
            Order::Greater => {
                proof {
                    lemma_not_before_from(s, name@, mid as int);
                }
                high = mid;
            },
            Order::Less => {
                proof {
                    lemma_before_upto(s, name@, mid as int);
                }
                low = mid + 1;
            },
            Order::Equal => {
                // The name is already in the list, at `mid`.
                proof {
                    lemma_name_lt_irreflexive(name@);
                    lemma_not_before_from(s, name@, mid as int);
                    assert forall|i: int| 0 <= i < mid implies name_lt(
                        #[trigger] s[i].filename,
                        name@,
                    ) by {
                        assert(name_lt(s[i].filename, s[mid as int].filename));
                    }
                    lemma_parts_at_is_rank(s, name@, mid as int);
                }
                return mid;
            },
        }
    }
    proof {
        lemma_parts_at_is_rank(s, name@, low as int);
    }
    low
}

/// Finds where `entry` belongs in an ascending list.
pub fn search_vec(v: &Vec<Entry>, entry: &Entry) -> (index: usize)
    requires
        names_ascending(entry_views(v@)),
    ensures
        index == rank(entry_views(v@), entry@.filename),
        parts_at(entry_views(v@), entry@.filename, index as int),
{
    search_name(v, entry.filename.as_str())
}

/// Puts `entry` into an ascending list at the place its file name calls for.
/// An entry whose name the list already holds is dropped, and the list stays
/// as it was.
pub fn insert(v: &mut Vec<Entry>, entry: Entry)
    requires
        names_ascending(entry_views(old(v)@)),
    ensures
        entry_views(final(v)@) == with_entry(entry_views(old(v)@), entry@),
        names_ascending(entry_views(final(v)@)),
        !holds_name(entry_views(old(v)@), entry@.filename) ==> final(v)@ == old(v)@.insert(
            rank(entry_views(old(v)@), entry@.filename),
            entry,
        ),
        holds_name(entry_views(old(v)@), entry@.filename) ==> final(v)@ == old(v)@,
{
    let ghost s = entry_views(v@);
    let index = search_vec(v, &entry);
    proof {
        lemma_with_entry_ascending(s, entry@);
    }
    if index < v.len() {
        assert(s[index as int].filename == v@[index as int].filename@);
        match compare_names(v[index].filename.as_str(), entry.filename.as_str()) {
            Order::Equal => {
                return ;
            },
            _ => {},
        }
    }
    proof {
        if holds_name(s, entry@.filename) {
            let j = choose|j: int| 0 <= j < s.len() && #[trigger] s[j].filename == entry@.filename;
            lemma_name_stands_at_rank(s, entry@.filename, index as int, j);
        }
        lemma_views_insert(v@, index as int, entry);
    }
    v.insert(index, entry);
}

/// Sets the size label of the entry named `name`, if there is one, and
/// tells whether there was. No other entry and no other field changes.
pub fn set_size(v: &mut Vec<Entry>, name: &str, label: String) -> (found: bool)
    requires
        names_ascending(entry_views(old(v)@)),
    ensures
        found == holds_name(entry_views(old(v)@), name@),
        entry_views(final(v)@) == with_size(entry_views(old(v)@), name@, label@),
        final(v)@.len() == old(v)@.len(),
        names_ascending(entry_views(final(v)@)),
{
    let ghost s = entry_views(v@);
    let index = search_name(v, name);
    if index < v.len() {
        assert(s[index as int].filename == v@[index as int].filename@);
        if same_text(v[index].filename.as_str(), name) {
            v[index].size = label;
            proof {
                assert(entry_views(v@) =~= with_size(s, name@, label@));
                let t = entry_views(v@);
                assert forall|i: int, j: int| 0 <= i < j < t.len() implies name_lt(
                    t[i].filename,
                    t[j].filename,
                ) by {
                    assert(t[i].filename == s[i].filename);
                    assert(t[j].filename == s[j].filename);
                }
            }
            return true;
        }
    }
    proof {
        if holds_name(s, name@) {
            let j = choose|j: int| 0 <= j < s.len() && #[trigger] s[j].filename == name@;
            lemma_name_stands_at_rank(s, name@, index as int, j);
        }
    }
    false
}

} // verus!
