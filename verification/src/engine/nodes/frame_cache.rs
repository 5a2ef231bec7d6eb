//! Small caches that are keyed by the full identity of a frame.
use crate::engine::packet::{IdentityView, ImageFrameIdentity};
use vstd::prelude::*;

verus! {

/// A value that belongs to a frame.
pub struct FrameEntry<T> {
    pub identity: ImageFrameIdentity,
    pub value: T,
}

/// A value that belongs to a frame, by its values.
pub struct EntryView<V> {
    pub identity: IdentityView,
    pub value: V,
}

/// Entries by their values.
pub open spec fn entry_views<T: View>(entries: Seq<FrameEntry<T>>) -> Seq<EntryView<T::V>> {
    entries.map_values(
        |entry: FrameEntry<T>| EntryView { identity: entry.identity@, value: entry.value@ },
    )
}

/// Values that belong to frames, at most one for each.
pub struct FrameCache<T> {
    pub entries: Vec<FrameEntry<T>>,
}

impl<T: View> View for FrameCache<T> {
    type V = Seq<EntryView<T::V>>;

    open spec fn view(&self) -> Seq<EntryView<T::V>> {
        entry_views(self.entries@)
    }
}

/// The position of the first entry of a frame.
pub open spec fn entry_index<V>(entries: Seq<EntryView<V>>, identity: IdentityView) -> Option<int>
    decreases entries.len(),
{
    if entries.len() == 0 {
        None
    } else {
        match entry_index(entries.drop_last(), identity) {
            Some(i) => Some(i),
            None => if entries.last().identity == identity {
                Some(entries.len() - 1)
            } else {
                None
            },
        }
    }
}

pub proof fn lemma_entry_index<V>(entries: Seq<EntryView<V>>, identity: IdentityView)
    ensures
        match entry_index(entries, identity) {
            Some(i) => 0 <= i < entries.len() && entries[i].identity == identity && forall|j: int|
                0 <= j < i ==> (#[trigger] entries[j]).identity != identity,
            None => forall|j: int|
                0 <= j < entries.len() ==> (#[trigger] entries[j]).identity != identity,
        },
    decreases entries.len(),
{
    if entries.len() > 0 {
        let init = entries.drop_last();
        lemma_entry_index(init, identity);
        match entry_index(init, identity) {
            Some(i) => {
                assert(entries[i] == init[i]);
                assert forall|j: int| 0 <= j < i implies (#[trigger] entries[j]).identity
                    != identity by {
                    assert(entries[j] == init[j]);
                }
            },
            None => {
                assert forall|j: int| 0 <= j < entries.len() - 1 implies (
                #[trigger] entries[j]).identity != identity by {
                    assert(entries[j] == init[j]);
                }
            },
        }
    }
}

/// A sequence without one of its items, whose place the last item takes.
pub open spec fn swap_removed<V>(items: Seq<V>, i: int) -> Seq<V> {
    items.update(i, items.last()).drop_last()
}

/// A cache with a value for a frame: it takes the place of an earlier one, or of the entry at the
/// front where the cache is full.
pub open spec fn stored<V>(entries: Seq<EntryView<V>>, entry: EntryView<V>, most: nat) -> Seq<
    EntryView<V>,
> {
    match entry_index(entries, entry.identity) {
        Some(i) => entries.update(i, entry),
        None => if entries.len() >= most && entries.len() > 0 {
            swap_removed(entries, 0).push(entry)
        } else {
            entries.push(entry)
        },
    }
}

/// A cache without the value of a frame.
pub open spec fn taken<V>(entries: Seq<EntryView<V>>, identity: IdentityView) -> Seq<EntryView<V>> {
    match entry_index(entries, identity) {
        Some(i) => swap_removed(entries, i),
        None => entries,
    }
}

/// The value of a frame.
pub open spec fn value_of<V>(entries: Seq<EntryView<V>>, identity: IdentityView) -> Option<V> {
    match entry_index(entries, identity) {
        Some(i) => Some(entries[i].value),
        None => None,
    }
}

/// A cache from whose front entries were taken until it holds at most `most`.
pub open spec fn shrunk<V>(entries: Seq<EntryView<V>>, most: nat) -> Seq<EntryView<V>>
    decreases entries.len(),
{
    if entries.len() <= most {
        entries
    } else {
        shrunk(swap_removed(entries, 0), most)
    }
}

impl<T: View> FrameCache<T> {
    pub fn new() -> (r: FrameCache<T>)
        ensures
            r@ == Seq::<EntryView<T::V>>::empty(),
    {
        let r = FrameCache { entries: Vec::new() };
        proof {
            assert(r@ =~= Seq::<EntryView<T::V>>::empty());
        }
        r
    }

    pub fn len(&self) -> (r: usize)
        ensures
            r == self@.len(),
    {
        self.entries.len()
    }

    /// Finds the entry of a frame.
    pub fn find(&self, identity: &ImageFrameIdentity) -> (r: Option<usize>)
        ensures
            match entry_index(self@, identity@) {
                Some(i) => r is Some && r->Some_0 == i && i < self.entries@.len(),
                None => r is None,
            },
    {
        let ghost views = self@;
        let mut i: usize = 0;
        while i < self.entries.len()
            invariant
                i <= self.entries@.len() == views.len(),
                views == entry_views(self.entries@),
                forall|j: int| 0 <= j < i ==> (#[trigger] views[j]).identity != identity@,
            decreases self.entries@.len() - i,
        {
            proof {
                assert(views[i as int].identity == self.entries@[i as int].identity@);
            }
            if self.entries[i].identity.eq_value(identity) {
                proof {
                    lemma_entry_index(views, identity@);
                }
                return Some(i);
            }
            i = i + 1;
        }
        proof {
            lemma_entry_index(views, identity@);
        }
        None
    }

    /// The value of a frame.
    pub fn get(&self, identity: &ImageFrameIdentity) -> (r: Option<&T>)
        ensures
            match value_of(self@, identity@) {
                Some(value) => r is Some && r->Some_0@ == value,
                None => r is None,
            },
    {
        match self.find(identity) {
            Some(i) => {
                proof {
                    assert(self@[i as int].value == self.entries@[i as int].value@);
                }
                Some(&self.entries[i].value)
            },
            None => None,
        }
    }

    /// Keeps a value for a frame, in a cache of at most `most` entries.
    pub fn store(&mut self, identity: ImageFrameIdentity, value: T, most: usize)
        ensures
            final(self)@ == stored(
                old(self)@,
                EntryView { identity: identity@, value: value@ },
                most as nat,
            ),
    {
        let ghost before = self@;
        let ghost entry = EntryView { identity: identity@, value: value@ };
        proof {
            lemma_entry_index(before, identity@);
        }
        match self.find(&identity) {
            Some(i) => {
                self.entries.set(i, FrameEntry { identity, value });
                proof {
                    assert(self@ =~= before.update(i as int, entry));
                }
            },
            None => {
                if self.entries.len() >= most && self.entries.len() > 0 {
                    self.entries.swap_remove(0);
                    proof {
                        assert(self@ =~= swap_removed(before, 0));
                    }
                }
                let ghost middle = self@;
                self.entries.push(FrameEntry { identity, value });
                proof {
                    assert(self@ =~= middle.push(entry));
                }
            },
        }
    }

    /// Takes the value of a frame out.
    pub fn take(&mut self, identity: &ImageFrameIdentity) -> (r: Option<T>)
        ensures
            final(self)@ == taken(old(self)@, identity@),
            match value_of(old(self)@, identity@) {
                Some(value) => r is Some && r->Some_0@ == value,
                None => r is None,
            },
    {
        let ghost before = self@;
        proof {
            lemma_entry_index(before, identity@);
        }
        match self.find(identity) {
            Some(i) => {
                proof {
                    assert(before[i as int].value == self.entries@[i as int].value@);
                }
                let entry: FrameEntry<T> = self.entries.swap_remove(i);
                proof {
                    assert(self@ =~= swap_removed(before, i as int));
                }
                Some(entry.value)
            },
            None => None,
        }
    }

    /// Takes entries from the front until at most `most` are left.
    pub fn shrink(&mut self, most: usize)
        ensures
            final(self)@ == shrunk(old(self)@, most as nat),
    {
        while self.entries.len() > most
            invariant
                shrunk(self@, most as nat) == shrunk(old(self)@, most as nat),
            decreases self.entries@.len(),
        {
            let ghost before = self@;
            self.entries.swap_remove(0);
            proof {
                assert(self@ =~= swap_removed(before, 0));
            }
        }
    }

    pub fn clear(&mut self)
        ensures
            final(self)@ == Seq::<EntryView<T::V>>::empty(),
    {
        self.entries = Vec::new();
        proof {
            assert(self@ =~= Seq::<EntryView<T::V>>::empty());
        }
    }
}

/// A cache that was shrunk keeps to its bound.
pub proof fn law_shrunk_cache_is_bounded<V>(entries: Seq<EntryView<V>>, most: nat)
    ensures
        shrunk(entries, most).len() <= most,
    decreases entries.len(),
{
    if entries.len() > most {
        law_shrunk_cache_is_bounded(swap_removed(entries, 0), most);
    }
}

/// A cache never outgrows its bound.
pub proof fn law_cache_stays_bounded<V>(
    entries: Seq<EntryView<V>>,
    entry: EntryView<V>,
    most: nat,
)
    requires
        most > 0,
        entries.len() <= most,
    ensures
        stored(entries, entry, most).len() <= most,
        taken(entries, entry.identity).len() <= entries.len(),
{
    lemma_entry_index(entries, entry.identity);
}

/// A value comes back under the identity that it was stored under.
pub proof fn law_store_then_get<V>(entries: Seq<EntryView<V>>, entry: EntryView<V>, most: nat)
    ensures
        value_of(stored(entries, entry, most), entry.identity) == Some(entry.value),
{
    let after = stored(entries, entry, most);
    lemma_entry_index(entries, entry.identity);
    lemma_entry_index(after, entry.identity);
    match entry_index(entries, entry.identity) {
        Some(i) => {
            assert(after[i].identity == entry.identity);
            match entry_index(after, entry.identity) {
                Some(j) => {
                    if j < i {
                        assert(after[j] == entries[j]);
                    }
                },
                None => {},
            }
        },
        None => {
            let last = after.len() - 1;
            assert(after[last] == entry);
            match entry_index(after, entry.identity) {
                Some(j) => {
                    if j < last {
                        if entries.len() >= most && entries.len() > 0 {
                            if j == 0 {
                                assert(after[j] == entries[entries.len() - 1]);
                            } else {
                                assert(after[j] == entries[j]);
                            }
                        } else {
                            assert(after[j] == entries[j]);
                        }
                    }
                },
                None => {},
            }
        },
    }
}

} // verus!
