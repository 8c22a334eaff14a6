//! The indexing table of HPACK: the static table followed by a bounded,
//! size-accounted dynamic table.
use crate::static_table::{static_entry, static_get, STATIC_LEN};
use vstd::prelude::*;
use vstd::slice::slice_to_vec;

verus! {

/// A header field: name and value octets.
pub type Entry = (Seq<u8>, Seq<u8>);

/// Default maximum size of the dynamic table, in octets.
pub const DEFAULT_MAX_DYNAMIC_SIZE: u32 = 4096;

/// The size an entry accounts for in the dynamic table.
pub open spec fn entry_size(e: Entry) -> nat {
    e.0.len() + e.1.len() + 32
}

/// The summed accounted size of the entries `d`.
pub open spec fn entries_size(d: Seq<Entry>) -> nat
    decreases d.len(),
{
    if d.len() == 0 {
        0
    } else {
        entries_size(d.drop_last()) + entry_size(d.last())
    }
}

/// `d` with its oldest entries (at the end) removed until its size is at
/// most `limit`.
pub open spec fn evicted(d: Seq<Entry>, limit: nat) -> Seq<Entry>
    decreases d.len(),
{
    if d.len() == 0 || entries_size(d) <= limit {
        d
    } else {
        evicted(d.drop_last(), limit)
    }
}

/// The dynamic entries `d` after inserting `e` under the maximum size `max`:
/// `e` comes first, and older entries are evicted to make room; an entry
/// larger than `max` empties the table and is not inserted.
pub open spec fn inserted(d: Seq<Entry>, max: nat, e: Entry) -> Seq<Entry> {
    if entry_size(e) > max {
        seq![]
    } else {
        seq![e] + evicted(d, (max - entry_size(e)) as nat)
    }
}

/// Entry `i` of the combined index space over static entries `1..=61` and
/// the dynamic entries `d`, which follow from `62` on.
pub open spec fn entry_at(d: Seq<Entry>, i: int) -> Option<Entry> {
    if 1 <= i <= STATIC_LEN {
        Some(static_entry(i))
    } else if STATIC_LEN < i <= STATIC_LEN + d.len() {
        Some(d[i - STATIC_LEN - 1])
    } else {
        None
    }
}

/// Whether entry `i` of the combined space over `d` is named `name`.
pub open spec fn name_at(d: Seq<Entry>, i: int, name: Seq<u8>) -> bool {
    match entry_at(d, i) {
        Some(e) => e.0 == name,
        None => false,
    }
}

/// What a search of `(name, value)` finds in the combined space over `d`:
/// the lowest index of an exact match, else the lowest index of an entry
/// with that name, else nothing.
pub open spec fn find_result(d: Seq<Entry>, name: Seq<u8>, value: Seq<u8>) -> Option<(int, bool)> {
    if exists|i: int| entry_at(d, i) == Some((name, value)) {
        let i = choose|i: int|
            entry_at(d, i) == Some((name, value)) && forall|j: int|
                j < i ==> entry_at(d, j) != Some((name, value));
        Some((i, true))
    } else if exists|i: int| #[trigger] name_at(d, i, name) {
        let i = choose|i: int|
            name_at(d, i, name) && forall|j: int|
                j < i ==> !(name_at(d, j, name));
        Some((i, false))
    } else {
        None
    }
}

/// Entry `k` is the first entry named `name`.
pub open spec fn first_named(d: Seq<Entry>, k: int, name: Seq<u8>) -> bool {
    &&& name_at(d, k, name)
    &&& forall|j: int| 1 <= j < k ==> !#[trigger] name_at(d, j, name)
}

proof fn lemma_first_exact(d: Seq<Entry>, i: int, target: Entry)
    requires
        entry_at(d, i) == Some(target),
        forall|j: int| 1 <= j < i ==> #[trigger] entry_at(d, j) != Some(target),
    ensures
        find_result(d, target.0, target.1) == Some((i, true)),
{
    assert(target == (target.0, target.1));
    assert forall|j: int| j < i implies #[trigger] entry_at(d, j) != Some(target) by {
        if j < 1 {
            assert(entry_at(d, j) is None);
        }
    }
    let c = choose|c: int|
        entry_at(d, c) == Some(target) && forall|j: int| j < c ==> entry_at(d, j) != Some(target);
    assert(entry_at(d, c) == Some(target) && forall|j: int| j < c ==> entry_at(d, j) != Some(target));
    if c < i {
    } else if c > i {
        assert(entry_at(d, i) != Some(target));
    }
}

proof fn lemma_first_named(d: Seq<Entry>, k: int, name: Seq<u8>, value: Seq<u8>)
    requires
        first_named(d, k, name),
        forall|j: int| entry_at(d, j) != Some((name, value)),
    ensures
        find_result(d, name, value) == Some((k, false)),
{
    assert forall|j: int| j < k implies !#[trigger] name_at(d, j, name) by {
        if j < 1 {
            assert(entry_at(d, j) is None);
        }
    }
    let c = choose|c: int| name_at(d, c, name) && forall|j: int| j < c ==> !name_at(d, j, name);
    assert(name_at(d, c, name) && forall|j: int| j < c ==> !name_at(d, j, name));
    if c < k {
    } else if c > k {
        assert(!name_at(d, k, name));
    }
}

proof fn lemma_first_exact_exists(d: Seq<Entry>, i: int, target: Entry)
    requires
        entry_at(d, i) == Some(target),
    ensures
        exists|c: int|
            entry_at(d, c) == Some(target) && forall|j: int| j < c ==> entry_at(d, j) != Some(target),
    decreases i,
{
    if i < 1 {
        assert(entry_at(d, i) is None);
    } else if exists|j: int| j < i && entry_at(d, j) == Some(target) {
        let j = choose|j: int| j < i && entry_at(d, j) == Some(target);
        lemma_first_exact_exists(d, j, target);
    } else {
        assert(forall|j: int| j < i ==> entry_at(d, j) != Some(target));
    }
}

proof fn lemma_first_named_exists(d: Seq<Entry>, i: int, name: Seq<u8>)
    requires
        name_at(d, i, name),
    ensures
        exists|c: int| name_at(d, c, name) && forall|j: int| j < c ==> !name_at(d, j, name),
    decreases i,
{
    if i < 1 {
        assert(entry_at(d, i) is None);
    } else if exists|j: int| j < i && name_at(d, j, name) {
        let j = choose|j: int| j < i && name_at(d, j, name);
        lemma_first_named_exists(d, j, name);
    } else {
        assert(forall|j: int| j < i ==> !name_at(d, j, name));
    }
}

/// A search result names an entry that holds the pair searched for, or,
/// for a name-only match, an entry with that name.
pub proof fn lemma_find_result(d: Seq<Entry>, name: Seq<u8>, value: Seq<u8>)
    ensures
        match find_result(d, name, value) {
            Some((i, true)) => entry_at(d, i) == Some((name, value)),
            Some((i, false)) => name_at(d, i, name),
            None => true,
        },
{
    if exists|i: int| entry_at(d, i) == Some((name, value)) {
        let i = choose|i: int| entry_at(d, i) == Some((name, value));
        lemma_first_exact_exists(d, i, (name, value));
    } else if exists|i: int| #[trigger] name_at(d, i, name) {
        let i = choose|i: int| #[trigger] name_at(d, i, name);
        lemma_first_named_exists(d, i, name);
    }
}

/// Every entry of the table is found by its name and value as an exact
/// match, at an index that holds that entry.
pub proof fn lemma_find_present(d: Seq<Entry>, i: int)
    requires
        entry_at(d, i) is Some,
    ensures
        ({
            let e = entry_at(d, i)->0;
            find_result(d, e.0, e.1) matches Some((j, full)) && full && entry_at(d, j) == Some(e)
        }),
{
    let e = entry_at(d, i)->0;
    assert(e == (e.0, e.1));
    lemma_first_exact_exists(d, i, e);
}

/// An entry larger than the maximum size empties the dynamic table and is
/// not inserted.
pub proof fn lemma_oversized_insert(d: Seq<Entry>, max: nat, e: Entry)
    requires
        entry_size(e) > max,
    ensures
        inserted(d, max, e).len() == 0,
        !inserted(d, max, e).contains(e),
{
}

/// Inserting keeps the dynamic entries within the maximum size.
pub proof fn lemma_inserted_size(d: Seq<Entry>, max: nat, e: Entry)
    ensures
        entries_size(inserted(d, max, e)) <= max,
{
    if entry_size(e) <= max {
        let rest = evicted(d, (max - entry_size(e)) as nat);
        lemma_evicted_size(d, (max - entry_size(e)) as nat);
        lemma_entries_size_prepend(e, rest);
    }
}

pub proof fn lemma_entries_size_prepend(e: Entry, d: Seq<Entry>)
    ensures
        entries_size(seq![e] + d) == entry_size(e) + entries_size(d),
    decreases d.len(),
{
    let s = seq![e] + d;
    assert(s.len() > 0);
    if d.len() > 0 {
        assert(s.drop_last() =~= seq![e] + d.drop_last());
        assert(s.last() == d.last());
        lemma_entries_size_prepend(e, d.drop_last());
        assert(entries_size(s.drop_last()) == entry_size(e) + entries_size(d.drop_last()));
        assert(entries_size(s) == entries_size(s.drop_last()) + entry_size(s.last()));
        assert(entries_size(d) == entries_size(d.drop_last()) + entry_size(d.last()));
    } else {
        assert(s.drop_last() =~= Seq::<Entry>::empty());
        assert(s.last() == e);
        assert(entries_size(s.drop_last()) == 0);
        assert(entries_size(s) == entries_size(s.drop_last()) + entry_size(s.last()));
    }
}

/// Each entry accounts for at least 32 octets.
pub proof fn lemma_entries_size_len(d: Seq<Entry>)
    ensures
        entries_size(d) >= 32 * d.len(),
    decreases d.len(),
{
    if d.len() > 0 {
        lemma_entries_size_len(d.drop_last());
    }
}

pub proof fn lemma_evicted_size(d: Seq<Entry>, limit: nat)
    ensures
        entries_size(evicted(d, limit)) <= limit,
        evicted(d, limit).len() <= d.len(),
        evicted(d, limit) == d.take(evicted(d, limit).len() as int),
    decreases d.len(),
{
    if d.len() == 0 || entries_size(d) <= limit {
        assert(d.take(d.len() as int) =~= d);
    } else {
        lemma_evicted_size(d.drop_last(), limit);
        let r = evicted(d.drop_last(), limit);
        assert(d.drop_last().take(r.len() as int) =~= d.take(r.len() as int));
    }
}

/// The indexing table: the static table and the dynamic entries, newest
/// first.
pub struct Table {
    dynamic: Vec<(Vec<u8>, Vec<u8>)>,
    size: u64,
    max_dynamic_size: u32,
}

impl Table {
    /// The dynamic entries, newest first.
    pub closed spec fn dynamic_entries(&self) -> Seq<Entry> {
        self.dynamic@.map_values(|e: (Vec<u8>, Vec<u8>)| (e.0@, e.1@))
    }

    /// The maximum size of the dynamic table.
    pub closed spec fn max_size(&self) -> nat {
        self.max_dynamic_size as nat
    }

    pub closed spec fn wf(&self) -> bool {
        &&& self.size == entries_size(self.dynamic_entries())
        &&& self.size <= self.max_dynamic_size
    }

    /// Entry `i` of the combined index space.
    pub open spec fn entry(&self, i: int) -> Option<Entry> {
        entry_at(self.dynamic_entries(), i)
    }

    /// Number of entries in the combined index space.
    pub open spec fn spec_len(&self) -> nat {
        (STATIC_LEN + self.dynamic_entries().len()) as nat
    }

    /// The sizes of the dynamic entries never sum above the maximum size.
    pub proof fn lemma_size_bound(&self)
        requires
            self.wf(),
        ensures
            entries_size(self.dynamic_entries()) <= self.max_size(),
            self.dynamic_entries().len() * 32 <= self.max_size(),
            self.max_size() <= u32::MAX,
    {
        lemma_entries_size_len(self.dynamic_entries());
    }

    /// Returns a table with an empty dynamic part of at most `max_dynamic_size`
    /// octets.
    pub fn with_dynamic_size(max_dynamic_size: u32) -> (r: Table)
        ensures
            r.wf(),
            r.dynamic_entries() == Seq::<Entry>::empty(),
            r.max_size() == max_dynamic_size,
    {
        let r = Table { dynamic: Vec::new(), size: 0, max_dynamic_size };
        assert(r.dynamic_entries() =~= Seq::<Entry>::empty());
        r
    }

    /// Returns a table with an empty dynamic part of the default maximum size.
    pub fn new() -> (r: Table)
        ensures
            r.wf(),
            r.dynamic_entries() == Seq::<Entry>::empty(),
            r.max_size() == DEFAULT_MAX_DYNAMIC_SIZE,
    {
        Table::with_dynamic_size(DEFAULT_MAX_DYNAMIC_SIZE)
    }

    /// Returns the maximum size of the dynamic table.
    pub fn max_dynamic_size(&self) -> (r: u32)
        ensures
            r == self.max_size(),
    {
        self.max_dynamic_size
    }

    /// Returns the summed accounted size of the dynamic entries.
    pub fn dynamic_size(&self) -> (r: u64)
        requires
            self.wf(),
        ensures
            r == entries_size(self.dynamic_entries()),
    {
        self.size
    }

    /// Returns the number of entries, static and dynamic.
    pub fn len(&self) -> (r: usize)
        requires
            self.wf(),
        ensures
            r == self.spec_len(),
    {
        proof {
            self.lemma_size_bound();
        }
        STATIC_LEN + self.dynamic.len()
    }

    /// Returns the number of dynamic entries.
    pub fn dynamic_len(&self) -> (r: usize)
        ensures
            r == self.dynamic_entries().len(),
    {
        self.dynamic.len()
    }

    /// Returns the entry at `index`, if there is one.
    pub fn get(&self, index: u32) -> (r: Option<(&[u8], &[u8])>)
        requires
            self.wf(),
        ensures
            match r {
                Some(e) => self.entry(index as int) == Some((e.0@, e.1@)),
                None => self.entry(index as int) is None,
            },
    {
        proof {
            self.lemma_size_bound();
        }
        let i = index as usize;
        if 1 <= i && i - 1 < STATIC_LEN + self.dynamic.len() {
            Some(self.entry_ref(i))
        } else {
            None
        }
    }

    /// Returns entry `i`, which exists.
    fn entry_ref(&self, i: usize) -> (r: (&[u8], &[u8]))
        requires
            1 <= i <= self.spec_len(),
        ensures
            self.entry(i as int) == Some((r.0@, r.1@)),
    {
        if i <= STATIC_LEN {
            static_get(i)
        } else {
            let e = &self.dynamic[i - STATIC_LEN - 1];
            (e.0.as_slice(), e.1.as_slice())
        }
    }

    /// Searches the table for `(name, value)`: the lowest index of an exact
    /// match with `true`, else the lowest index of an entry with that name with
    /// `false`, else `None`.
    #[verifier::rlimit(50)]
    pub fn find(&self, name: &[u8], value: &[u8]) -> (r: Option<(usize, bool)>)
        requires
            self.wf(),
        ensures
            match r {
                Some((i, full)) => find_result(self.dynamic_entries(), name@, value@) == Some(
                    (i as int, full),
                ) && 1 <= i <= self.spec_len(),
                None => find_result(self.dynamic_entries(), name@, value@) is None,
            },
    {
        let ghost d = self.dynamic_entries();
        let ghost target = (name@, value@);
        let mut by_name: Option<usize> = None;
        let total = self.len();
        proof {
            self.lemma_size_bound();
        }
        let mut i: usize = 1;
        while i <= total
            invariant
                self.wf(),
                total < 0xffff_ffff,
                d == self.dynamic_entries(),
                target == (name@, value@),
                total == STATIC_LEN + d.len(),
                1 <= i <= total + 1,
                forall|j: int| 1 <= j < i ==> #[trigger] entry_at(d, j) != Some(target),
                by_name is None ==> forall|j: int| 1 <= j < i ==> !#[trigger] name_at(d, j, name@),
                by_name matches Some(k) ==> first_named(d, k as int, name@) && k < i,
            decreases total + 1 - i,
        {
            let (n, v) = self.entry_ref(i);
            proof {
                assert(entry_at(d, i as int) == Some((n@, v@)));
            }
            let same_name = bytes_eq(n, name);
            if same_name && bytes_eq(v, value) {
                proof {
                    lemma_first_exact(d, i as int, target);
                }
                return Some((i, true));
            }
            if same_name && by_name.is_none() {
                by_name = Some(i);
            }
            i = i + 1;
        }
        proof {
            assert forall|j: int| entry_at(d, j) != Some(target) by {
                if j > total || j < 1 {
                    assert(entry_at(d, j) is None);
                }
            }
        }
        match by_name {
            Some(k) => {
                proof {
                    lemma_first_named(d, k as int, name@, value@);
                }
                Some((k, false))
            },
            None => {
                proof {
                    assert forall|j: int| !(#[trigger] name_at(d, j, name@)) by {
                        if j > total || j < 1 {
                            assert(entry_at(d, j) is None);
                        }
                    }
                }
                None
            },
        }
    }

    /// Inserts `(name, value)` as the newest dynamic entry, evicting the oldest
    /// entries to make room; an entry larger than the maximum size empties the
    /// dynamic table and is not inserted.
    pub fn insert(&mut self, name: Vec<u8>, value: Vec<u8>)
        requires
            old(self).wf(),
        ensures
            final(self).wf(),
            final(self).max_size() == old(self).max_size(),
            final(self).dynamic_entries() == inserted(
                old(self).dynamic_entries(),
                old(self).max_size(),
                (name@, value@),
            ),
    {
        let ghost e = (name@, value@);
        let max = self.max_dynamic_size as u64;
        if name.len() as u64 > max || value.len() as u64 > max || name.len() as u64 + value.len() as u64 + 32 > max {
            self.dynamic.clear();
            self.size = 0;
            assert(self.dynamic_entries() =~= Seq::<Entry>::empty());
            return;
        }
        let esize: u64 = name.len() as u64 + value.len() as u64 + 32;
        self.evict(max - esize);
        self.dynamic.insert(0, (name, value));
        self.size = self.size + esize;
        proof {
            let old_d = evicted(old(self).dynamic_entries(), (max - esize) as nat);
            assert(self.dynamic_entries() =~= seq![e] + old_d);
            lemma_entries_size_prepend(e, old_d);
        }
    }

    /// Sets the maximum size of the dynamic table, evicting the oldest entries
    /// until the rest fits.
    pub fn update_max_dynamic_size(&mut self, size: u32)
        requires
            old(self).wf(),
        ensures
            final(self).wf(),
            final(self).max_size() == size,
            final(self).dynamic_entries() == evicted(old(self).dynamic_entries(), size as nat),
    {
        self.evict(size as u64);
        self.max_dynamic_size = size;
    }

    /// Removes the oldest dynamic entries until their size is at most `limit`.
    fn evict(&mut self, limit: u64)
        requires
            old(self).wf(),
        ensures
            final(self).max_size() == old(self).max_size(),
            final(self).size == entries_size(final(self).dynamic_entries()),
            final(self).size <= limit,
            final(self).wf(),
            final(self).dynamic_entries() == evicted(old(self).dynamic_entries(), limit as nat),
    {
        while self.size > limit
            invariant
                self.size == entries_size(self.dynamic_entries()),
                self.size <= self.max_dynamic_size,
                self.max_dynamic_size == old(self).max_dynamic_size,
                evicted(self.dynamic_entries(), limit as nat) == evicted(
                    old(self).dynamic_entries(),
                    limit as nat,
                ),
            decreases self.dynamic@.len(),
        {
            let ghost d = self.dynamic_entries();
            assert(d.len() > 0);
            let e = self.dynamic.pop().unwrap();
            proof {
                assert(self.dynamic_entries() =~= d.drop_last());
            }
            self.size = self.size - (e.0.len() as u64 + e.1.len() as u64 + 32);
        }
    }
}

/// Tells whether two octet strings are equal.
pub fn bytes_eq(a: &[u8], b: &[u8]) -> (r: bool)
    ensures
        r == (a@ == b@),
{
    if a.len() != b.len() {
        return false;
    }
    let mut i: usize = 0;
    while i < a.len()
        invariant
            a@.len() == b@.len(),
            i <= a@.len(),
            forall|j: int| 0 <= j < i ==> a@[j] == b@[j],
        decreases a@.len() - i,
    {
        if a[i] != b[i] {
            return false;
        }
        i = i + 1;
    }
    assert(a@ =~= b@);
    true
}

/// Copies octets into a new vector.
pub fn to_owned(s: &[u8]) -> (r: Vec<u8>)
    ensures
        r@ == s@,
{
    slice_to_vec(s)
}

} // verus!
