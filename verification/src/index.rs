//! The secondary index: a value-to-record lookup kept consistent with a
//! record store. At all times at most one entry holds a given value and at
//! most one entry points at a given record; each mutation removes whatever
//! entries would violate that before inserting.
use vstd::prelude::*;
use vstd::std_specs::cmp::PartialEqSpec;

verus! {

/// The identifier of a record in the store the index describes.
pub type RecordId = u64;

/// Equality on `T` behaves as an equivalence relation on its spec values,
/// as `Eq` demands of well-behaved implementations.
pub open spec fn spec_eq_equivalence<T: PartialEq>() -> bool {
    &&& forall|a: T| #[trigger] a.eq_spec(&a)
    &&& forall|a: T, b: T| #[trigger] a.eq_spec(&b) ==> b.eq_spec(&a)
    &&& forall|a: T, b: T, c: T|
        #[trigger] a.eq_spec(&b) && #[trigger] b.eq_spec(&c) ==> a.eq_spec(&c)
}

/// First-match lookup of the record holding `v`.
pub open spec fn spec_index_get<T: PartialEq>(s: Seq<(T, RecordId)>, v: T) -> Option<RecordId>
    decreases s.len(),
{
    if s.len() == 0 {
        None
    } else if s[0].0.eq_spec(&v) {
        Some(s[0].1)
    } else {
        spec_index_get(s.drop_first(), v)
    }
}

/// The entries that survive an update for record `id` with value `value`:
/// those pointing at another record and holding another value.
pub open spec fn spec_index_remove<T: PartialEq>(
    s: Seq<(T, RecordId)>,
    id: RecordId,
    value: T,
) -> Seq<(T, RecordId)>
    decreases s.len(),
{
    if s.len() == 0 {
        Seq::empty()
    } else {
        let rest = spec_index_remove(s.drop_first(), id, value);
        if s[0].1 != id && !s[0].0.eq_spec(&value) {
            seq![s[0]] + rest
        } else {
            rest
        }
    }
}

/// The entries that survive removing record `id`.
pub open spec fn spec_index_remove_id<T: PartialEq>(
    s: Seq<(T, RecordId)>,
    id: RecordId,
) -> Seq<(T, RecordId)>
    decreases s.len(),
{
    if s.len() == 0 {
        Seq::empty()
    } else {
        let rest = spec_index_remove_id(s.drop_first(), id);
        if s[0].1 != id {
            seq![s[0]] + rest
        } else {
            rest
        }
    }
}

/// The index invariant: no two entries share a record and no two entries
/// hold equal values.
pub open spec fn spec_index_wf<T: PartialEq>(s: Seq<(T, RecordId)>) -> bool {
    forall|i: int, j: int|
        0 <= i < j < s.len() ==> ((#[trigger] s[i]).1 != (#[trigger] s[j]).1 && !s[i].0.eq_spec(
            &s[j].0,
        ))
}

/// A lookup from an arbitrary derived value to the record that currently
/// owns it, updated synchronously with the record store's own mutations.
#[derive(Debug)]
pub struct Index<T> {
    entries: Vec<(T, RecordId)>,
}

impl<T> View for Index<T> {
    type V = Seq<(T, RecordId)>;

    closed spec fn view(&self) -> Seq<(T, RecordId)> {
        self.entries@
    }
}

/// Every surviving entry of an update was an entry before it, and none
/// points at the removed record or holds the removed value.
proof fn lemma_remove_membership<T: PartialEq>(s: Seq<(T, RecordId)>, id: RecordId, value: T)
    ensures
        forall|k: int|
            0 <= k < spec_index_remove(s, id, value).len() ==> {
                &&& exists|l: int|
                    0 <= l < s.len() && (#[trigger] spec_index_remove(s, id, value)[k]) == s[l]
                &&& spec_index_remove(s, id, value)[k].1 != id
                &&& !spec_index_remove(s, id, value)[k].0.eq_spec(&value)
            },
    decreases s.len(),
{
    if s.len() > 0 {
        lemma_remove_membership(s.drop_first(), id, value);
        let rest = spec_index_remove(s.drop_first(), id, value);
        assert forall|k: int| 0 <= k < spec_index_remove(s, id, value).len() implies {
            &&& exists|l: int|
                0 <= l < s.len() && (#[trigger] spec_index_remove(s, id, value)[k]) == s[l]
            &&& spec_index_remove(s, id, value)[k].1 != id
            &&& !spec_index_remove(s, id, value)[k].0.eq_spec(&value)
        } by {
            if s[0].1 != id && !s[0].0.eq_spec(&value) {
                if k == 0 {
                    assert(spec_index_remove(s, id, value)[0] == s[0]);
                } else {
                    assert(spec_index_remove(s, id, value)[k] == rest[k - 1]);
                    let l = choose|l: int| 0 <= l < s.drop_first().len() && rest[k - 1]
                        == s.drop_first()[l];
                    assert(spec_index_remove(s, id, value)[k] == s[l + 1]);
                }
            } else {
                assert(spec_index_remove(s, id, value)[k] == rest[k]);
                let l = choose|l: int| 0 <= l < s.drop_first().len() && rest[k] == s.drop_first()[l];
                assert(spec_index_remove(s, id, value)[k] == s[l + 1]);
            }
        }
    }
}

/// As [`lemma_remove_membership`], for removal by record alone.
proof fn lemma_remove_id_membership<T: PartialEq>(s: Seq<(T, RecordId)>, id: RecordId)
    ensures
        forall|k: int|
            0 <= k < spec_index_remove_id(s, id).len() ==> {
                &&& exists|l: int|
                    0 <= l < s.len() && (#[trigger] spec_index_remove_id(s, id)[k]) == s[l]
                &&& spec_index_remove_id(s, id)[k].1 != id
            },
    decreases s.len(),
{
    if s.len() > 0 {
        lemma_remove_id_membership(s.drop_first(), id);
        let rest = spec_index_remove_id(s.drop_first(), id);
        assert forall|k: int| 0 <= k < spec_index_remove_id(s, id).len() implies {
            &&& exists|l: int|
                0 <= l < s.len() && (#[trigger] spec_index_remove_id(s, id)[k]) == s[l]
            &&& spec_index_remove_id(s, id)[k].1 != id
        } by {
            if s[0].1 != id {
                if k == 0 {
                    assert(spec_index_remove_id(s, id)[0] == s[0]);
                } else {
                    assert(spec_index_remove_id(s, id)[k] == rest[k - 1]);
                    let l = choose|l: int| 0 <= l < s.drop_first().len() && rest[k - 1]
                        == s.drop_first()[l];
                    assert(spec_index_remove_id(s, id)[k] == s[l + 1]);
                }
            } else {
                assert(spec_index_remove_id(s, id)[k] == rest[k]);
                let l = choose|l: int| 0 <= l < s.drop_first().len() && rest[k] == s.drop_first()[l];
                assert(spec_index_remove_id(s, id)[k] == s[l + 1]);
            }
        }
    }
}

/// Entries distinct in the whole list stay pairwise distinct after
/// filtering.
proof fn lemma_remove_wf<T: PartialEq>(s: Seq<(T, RecordId)>, id: RecordId, value: T)
    requires
        spec_index_wf(s),
    ensures
        spec_index_wf(spec_index_remove(s, id, value)),
    decreases s.len(),
{
    if s.len() > 0 {
        assert(spec_index_wf(s.drop_first())) by {
            assert(forall|i: int, j: int|
                0 <= i < j < s.drop_first().len() ==> (#[trigger] s.drop_first()[i], #[trigger] s
                    .drop_first()[j]) == (s[i + 1], s[j + 1]));
        }
        lemma_remove_wf(s.drop_first(), id, value);
        lemma_remove_membership(s.drop_first(), id, value);
        let rest = spec_index_remove(s.drop_first(), id, value);
        if s[0].1 != id && !s[0].0.eq_spec(&value) {
            let r = spec_index_remove(s, id, value);
            assert forall|i: int, j: int| 0 <= i < j < r.len() implies (
            (#[trigger] r[i]).1 != (#[trigger] r[j]).1 && !r[i].0.eq_spec(&r[j].0)) by {
                if i == 0 {
                    assert(r[0] == s[0]);
                    assert(r[j] == rest[j - 1]);
                    let l = choose|l: int| 0 <= l < s.drop_first().len() && rest[j - 1]
                        == s.drop_first()[l];
                    assert(rest[j - 1] == s[l + 1]);
                } else {
                    assert(r[i] == rest[i - 1] && r[j] == rest[j - 1]);
                }
            }
        }
    }
}

/// As [`lemma_remove_wf`], for removal by record alone.
proof fn lemma_remove_id_wf<T: PartialEq>(s: Seq<(T, RecordId)>, id: RecordId)
    requires
        spec_index_wf(s),
    ensures
        spec_index_wf(spec_index_remove_id(s, id)),
    decreases s.len(),
{
    if s.len() > 0 {
        assert(spec_index_wf(s.drop_first())) by {
            assert(forall|i: int, j: int|
                0 <= i < j < s.drop_first().len() ==> (#[trigger] s.drop_first()[i], #[trigger] s
                    .drop_first()[j]) == (s[i + 1], s[j + 1]));
        }
        lemma_remove_id_wf(s.drop_first(), id);
        lemma_remove_id_membership(s.drop_first(), id);
        let rest = spec_index_remove_id(s.drop_first(), id);
        if s[0].1 != id {
            let r = spec_index_remove_id(s, id);
            assert forall|i: int, j: int| 0 <= i < j < r.len() implies (
            (#[trigger] r[i]).1 != (#[trigger] r[j]).1 && !r[i].0.eq_spec(&r[j].0)) by {
                if i == 0 {
                    assert(r[0] == s[0]);
                    assert(r[j] == rest[j - 1]);
                    let l = choose|l: int| 0 <= l < s.drop_first().len() && rest[j - 1]
                        == s.drop_first()[l];
                    assert(rest[j - 1] == s[l + 1]);
                } else {
                    assert(r[i] == rest[i - 1] && r[j] == rest[j - 1]);
                }
            }
        }
    }
}

impl<T: PartialEq> Index<T> {
    /// An empty index.
    pub fn new() -> (r: Index<T>)
        ensures
            r@ == Seq::<(T, RecordId)>::empty(),
    {
        Index { entries: Vec::new() }
    }

    /// Point lookup: the record currently holding `value`, if any.
    pub fn get(&self, value: &T) -> (r: Option<RecordId>)
        requires
            T::obeys_eq_spec(),
        ensures
            r == spec_index_get(self@, *value),
    {
        let mut i: usize = 0;
        proof {
            assert(self@.skip(0) =~= self@);
        }
        while i < self.entries.len()
            invariant
                i <= self@.len(),
                T::obeys_eq_spec(),
                spec_index_get(self@, *value) == spec_index_get(self@.skip(i as int), *value),
            decreases self@.len() - i,
        {
            proof {
                assert(self@.skip(i as int).drop_first() =~= self@.skip(i as int + 1));
            }
            if self.entries[i].0.eq(value) {
                return Some(self.entries[i].1);
            }
            i += 1;
        }
        None
    }

    /// Records that record `id` now holds `value`: removes any entry
    /// pointing at `id` and any entry holding an equal value, then inserts
    /// `value -> id`, all as one step. The previous indexed value of `id`,
    /// if any, no longer resolves afterwards, and `value` resolves to `id`.
    pub fn on_create_or_update(&mut self, id: RecordId, value: T)
        requires
            T::obeys_eq_spec(),
            spec_eq_equivalence::<T>(),
            spec_index_wf(old(self)@),
        ensures
            final(self)@ == spec_index_remove(old(self)@, id, value).push((value, id)),
            spec_index_wf(final(self)@),
            spec_index_get(final(self)@, value) == Some(id),
    {
        let ghost orig = self@;
        let mut kept: Vec<(T, RecordId)> = Vec::new();
        proof {
            assert(orig.skip(0) =~= orig);
        }
        while self.entries.len() > 0
            invariant
                T::obeys_eq_spec(),
                kept@.len() <= orig.len(),
                self@.len() + kept@.len() <= orig.len(),
                self@ =~= orig.skip(orig.len() - self@.len()),
                spec_index_remove(orig, id, value) =~= spec_index_remove(kept@, id, value)
                    + spec_index_remove(self@, id, value),
                spec_index_remove(kept@, id, value) =~= kept@,
            decreases self@.len(),
        {
            let ghost pre = self@;
            let ghost kept_pre = kept@;
            let e = self.entries.remove(0);
            proof {
                assert(self@ =~= pre.drop_first());
                assert(orig.skip(orig.len() - self@.len()) =~= pre.drop_first());
            }
            let keep = e.1 != id && !e.0.eq(&value);
            if keep {
                kept.push(e);
                proof {
                    lemma_remove_snoc_kept(kept_pre, pre[0], id, value);
                }
            }
        }
        proof {
            assert(spec_index_remove(Seq::<(T, RecordId)>::empty(), id, value) =~= Seq::<
                (T, RecordId),
            >::empty());
            assert(kept@ =~= spec_index_remove(orig, id, value));
        }
        kept.push((value, id));
        self.entries = kept;
        proof {
            lemma_remove_membership(orig, id, value);
            lemma_remove_wf(orig, id, value);
            let removed = spec_index_remove(orig, id, value);
            let fin = removed.push((value, id));
            assert forall|i: int, j: int| 0 <= i < j < fin.len() implies (
            (#[trigger] fin[i]).1 != (#[trigger] fin[j]).1 && !fin[i].0.eq_spec(&fin[j].0)) by {
                if j == fin.len() - 1 {
                    assert(fin[i] == removed[i]);
                    assert(!removed[i].0.eq_spec(&value));
                } else {
                    assert(fin[i] == removed[i] && fin[j] == removed[j]);
                }
            }
            lemma_get_no_match_then_last(removed, (value, id), value);
        }
    }

    /// Records that record `id` is gone: removes any entry pointing at it.
    pub fn on_remove(&mut self, id: RecordId)
        requires
            T::obeys_eq_spec(),
            spec_index_wf(old(self)@),
        ensures
            final(self)@ == spec_index_remove_id(old(self)@, id),
            spec_index_wf(final(self)@),
    {
        let ghost orig = self@;
        let mut kept: Vec<(T, RecordId)> = Vec::new();
        proof {
            assert(orig.skip(0) =~= orig);
        }
        while self.entries.len() > 0
            invariant
                T::obeys_eq_spec(),
                kept@.len() <= orig.len(),
                self@.len() + kept@.len() <= orig.len(),
                self@ =~= orig.skip(orig.len() - self@.len()),
                spec_index_remove_id(orig, id) =~= spec_index_remove_id(kept@, id)
                    + spec_index_remove_id(self@, id),
                spec_index_remove_id(kept@, id) =~= kept@,
            decreases self@.len(),
        {
            let ghost pre = self@;
            let ghost kept_pre = kept@;
            let e = self.entries.remove(0);
            proof {
                assert(self@ =~= pre.drop_first());
                assert(orig.skip(orig.len() - self@.len()) =~= pre.drop_first());
            }
            if e.1 != id {
                kept.push(e);
                proof {
                    lemma_remove_id_snoc_kept(kept_pre, pre[0], id);
                }
            }
        }
        proof {
            assert(spec_index_remove_id(Seq::<(T, RecordId)>::empty(), id) =~= Seq::<
                (T, RecordId),
            >::empty());
            assert(kept@ =~= spec_index_remove_id(orig, id));
            lemma_remove_id_wf(orig, id);
        }
        self.entries = kept;
    }

    /// Builds the index by scanning the live records once, in order; a later
    /// record wins any collision, as repeated updates would.
    pub fn from_records(records: Vec<(RecordId, T)>) -> (r: Index<T>)
        requires
            T::obeys_eq_spec(),
            spec_eq_equivalence::<T>(),
        ensures
            r@ == spec_index_scan(Seq::<(T, RecordId)>::empty(), records@),
            spec_index_wf(r@),
    {
        let mut records = records;
        let ghost orig_records = records@;
        let mut idx: Index<T> = Index::new();
        proof {
            assert(spec_index_wf(idx@));
        }
        while records.len() > 0
            invariant
                T::obeys_eq_spec(),
                spec_eq_equivalence::<T>(),
                spec_index_wf(idx@),
                spec_index_scan(Seq::<(T, RecordId)>::empty(), orig_records) == spec_index_scan(
                    idx@,
                    records@,
                ),
            decreases records@.len(),
        {
            let ghost pre = records@;
            let (id, value) = records.remove(0);
            proof {
                assert(records@ =~= pre.drop_first());
            }
            idx.on_create_or_update(id, value);
        }
        idx
    }
}

/// The scan that initializes an index from live records: repeated updates,
/// in record order, from `acc`.
pub open spec fn spec_index_scan<T: PartialEq>(
    acc: Seq<(T, RecordId)>,
    records: Seq<(RecordId, T)>,
) -> Seq<(T, RecordId)>
    decreases records.len(),
{
    if records.len() == 0 {
        acc
    } else {
        spec_index_scan(
            spec_index_remove(acc, records[0].0, records[0].1).push((records[0].1, records[0].0)),
            records.drop_first(),
        )
    }
}

/// Appending a kept entry commutes with filtering.
proof fn lemma_remove_snoc_kept<T: PartialEq>(
    s: Seq<(T, RecordId)>,
    e: (T, RecordId),
    id: RecordId,
    value: T,
)
    requires
        e.1 != id,
        !e.0.eq_spec(&value),
    ensures
        spec_index_remove(s.push(e), id, value) =~= spec_index_remove(s, id, value) + seq![e],
    decreases s.len(),
{
    if s.len() == 0 {
        assert(s.push(e).drop_first() =~= Seq::<(T, RecordId)>::empty());
        assert(s.push(e)[0] == e);
        assert(spec_index_remove(s.push(e), id, value) =~= seq![e] + spec_index_remove(
            Seq::<(T, RecordId)>::empty(),
            id,
            value,
        ));
        assert(spec_index_remove(s.push(e), id, value) =~= spec_index_remove(s, id, value)
            + seq![e]);
    } else {
        assert(s.push(e).drop_first() =~= s.drop_first().push(e));
        lemma_remove_snoc_kept(s.drop_first(), e, id, value);
        assert(s.push(e)[0] == s[0]);
        assert(spec_index_remove(s.push(e), id, value) == (if s[0].1 != id && !s[0].0.eq_spec(
            &value,
        ) {
            seq![s[0]] + (spec_index_remove(s.drop_first(), id, value) + seq![e])
        } else {
            spec_index_remove(s.drop_first(), id, value) + seq![e]
        }));
        assert(spec_index_remove(s.push(e), id, value) =~= spec_index_remove(s, id, value)
            + seq![e]);
    }
}

/// As [`lemma_remove_snoc_kept`], for removal by record alone.
proof fn lemma_remove_id_snoc_kept<T: PartialEq>(s: Seq<(T, RecordId)>, e: (T, RecordId), id: RecordId)
    requires
        e.1 != id,
    ensures
        spec_index_remove_id(s.push(e), id) =~= spec_index_remove_id(s, id) + seq![e],
    decreases s.len(),
{
    if s.len() == 0 {
        assert(s.push(e).drop_first() =~= Seq::<(T, RecordId)>::empty());
        assert(s.push(e)[0] == e);
        assert(spec_index_remove_id(s.push(e), id) =~= seq![e] + spec_index_remove_id(
            Seq::<(T, RecordId)>::empty(),
            id,
        ));
        assert(spec_index_remove_id(s.push(e), id) =~= spec_index_remove_id(s, id) + seq![e]);
    } else {
        assert(s.push(e).drop_first() =~= s.drop_first().push(e));
        lemma_remove_id_snoc_kept(s.drop_first(), e, id);
        assert(s.push(e)[0] == s[0]);
        assert(spec_index_remove_id(s.push(e), id) == (if s[0].1 != id {
            seq![s[0]] + (spec_index_remove_id(s.drop_first(), id) + seq![e])
        } else {
            spec_index_remove_id(s.drop_first(), id) + seq![e]
        }));
        assert(spec_index_remove_id(s.push(e), id) =~= spec_index_remove_id(s, id) + seq![e]);
    }
}

/// Dropping the first entry keeps the invariant.
proof fn lemma_wf_drop_first<T: PartialEq>(s: Seq<(T, RecordId)>)
    requires
        spec_index_wf(s),
        s.len() > 0,
    ensures
        spec_index_wf(s.drop_first()),
{
    assert(forall|i: int, j: int|
        0 <= i < j < s.drop_first().len() ==> (#[trigger] s.drop_first()[i], #[trigger] s
            .drop_first()[j]) == (s[i + 1], s[j + 1]));
}

/// A lookup over entries none of which match `v` finds nothing.
proof fn lemma_get_none<T: PartialEq>(s: Seq<(T, RecordId)>, v: T)
    requires
        forall|k: int| 0 <= k < s.len() ==> !(#[trigger] s[k]).0.eq_spec(&v),
    ensures
        spec_index_get(s, v) is None,
    decreases s.len(),
{
    if s.len() > 0 {
        assert(forall|k: int|
            0 <= k < s.drop_first().len() ==> (#[trigger] s.drop_first()[k]) == s[k + 1]);
        lemma_get_none(s.drop_first(), v);
    }
}

/// A lookup past an appended entry: the earlier entries win, the appended
/// one answers only when nothing before it matched.
proof fn lemma_get_push<T: PartialEq>(s: Seq<(T, RecordId)>, e: (T, RecordId), v: T)
    ensures
        spec_index_get(s.push(e), v) == (match spec_index_get(s, v) {
            Some(x) => Some(x),
            None => if e.0.eq_spec(&v) {
                Some(e.1)
            } else {
                None
            },
        }),
    decreases s.len(),
{
    if s.len() == 0 {
        assert(s.push(e)[0] == e);
        assert(s.push(e).drop_first() =~= Seq::<(T, RecordId)>::empty());
        assert(spec_index_get(s.push(e).drop_first(), v) is None);
        if e.0.eq_spec(&v) {
            assert(spec_index_get(s.push(e), v) == Some(e.1));
        } else {
            assert(spec_index_get(s.push(e), v) is None);
        }
    } else {
        assert(s.push(e)[0] == s[0]);
        assert(s.push(e).drop_first() =~= s.drop_first().push(e));
        lemma_get_push(s.drop_first(), e, v);
        if s[0].0.eq_spec(&v) {
            assert(spec_index_get(s.push(e), v) == Some(s[0].1));
            assert(spec_index_get(s, v) == Some(s[0].1));
        } else {
            assert(spec_index_get(s.push(e), v) == spec_index_get(s.drop_first().push(e), v));
            assert(spec_index_get(s, v) == spec_index_get(s.drop_first(), v));
        }
    }
}

/// What an update leaves behind for a value other than the one written:
/// nothing new answers for `v`, and a match that pointed at the updated
/// record is gone.
proof fn lemma_get_remove<T: PartialEq>(s: Seq<(T, RecordId)>, id: RecordId, value: T, v: T)
    requires
        spec_eq_equivalence::<T>(),
        spec_index_wf(s),
        !value.eq_spec(&v),
    ensures
        spec_index_get(spec_index_remove(s, id, value), v) == (match spec_index_get(s, v) {
            Some(x) => if x == id {
                None
            } else {
                Some(x)
            },
            None => None::<RecordId>,
        }),
    decreases s.len(),
{
    if s.len() > 0 {
        let h = s[0];
        let t = s.drop_first();
        lemma_wf_drop_first(s);
        assert(forall|k: int| 0 <= k < t.len() ==> (#[trigger] t[k]) == s[k + 1]);
        let kept = h.1 != id && !h.0.eq_spec(&value);
        if h.0.eq_spec(&v) {
            lemma_remove_membership(t, id, value);
            assert forall|k: int|
                0 <= k < spec_index_remove(t, id, value).len() implies !(
            #[trigger] spec_index_remove(t, id, value)[k]).0.eq_spec(&v) by {
                let l = choose|l: int|
                    0 <= l < t.len() && spec_index_remove(t, id, value)[k] == t[l];
                if t[l].0.eq_spec(&v) {
                    assert(v.eq_spec(&t[l].0));
                    assert(h.0.eq_spec(&t[l].0));
                }
            }
            lemma_get_none(spec_index_remove(t, id, value), v);
            if kept {
                assert(spec_index_remove(s, id, value)[0] == h);
                assert(spec_index_remove(s, id, value).drop_first() =~= spec_index_remove(
                    t,
                    id,
                    value,
                ));
            } else {
                if h.0.eq_spec(&value) {
                    assert(value.eq_spec(&h.0));
                    assert(value.eq_spec(&v));
                    assert(false);
                }
            }
        } else {
            lemma_get_remove(t, id, value, v);
            if kept {
                assert(spec_index_remove(s, id, value)[0] == h);
                assert(spec_index_remove(s, id, value).drop_first() =~= spec_index_remove(
                    t,
                    id,
                    value,
                ));
            }
        }
    }
}

/// The net effect of an update on lookups: the written value resolves to the
/// updated record, the record's previous value no longer resolves, and every
/// other value answers as before.
pub proof fn lemma_index_update_semantics<T: PartialEq>(
    s: Seq<(T, RecordId)>,
    id: RecordId,
    value: T,
    v: T,
)
    requires
        spec_eq_equivalence::<T>(),
        spec_index_wf(s),
    ensures
        spec_index_get(spec_index_remove(s, id, value).push((value, id)), v) == (
        if value.eq_spec(&v) {
            Some(id)
        } else {
            match spec_index_get(s, v) {
                Some(x) => if x == id {
                    None
                } else {
                    Some(x)
                },
                None => None::<RecordId>,
            }
        }),
{
    let removed = spec_index_remove(s, id, value);
    if value.eq_spec(&v) {
        lemma_remove_membership(s, id, value);
        assert forall|k: int| 0 <= k < removed.len() implies !(#[trigger] removed[k]).0.eq_spec(
            &v,
        ) by {
            if removed[k].0.eq_spec(&v) {
                assert(v.eq_spec(&value));
                assert(removed[k].0.eq_spec(&value));
            }
        }
        lemma_get_none(removed, v);
        lemma_get_push(removed, (value, id), v);
    } else {
        lemma_get_remove(s, id, value, v);
        lemma_get_push(removed, (value, id), v);
    }
}

/// The net effect of a removal on lookups: the removed record's value no
/// longer resolves, and every other value answers as before.
pub proof fn lemma_index_remove_semantics<T: PartialEq>(s: Seq<(T, RecordId)>, id: RecordId, v: T)
    requires
        spec_eq_equivalence::<T>(),
        spec_index_wf(s),
    ensures
        spec_index_get(spec_index_remove_id(s, id), v) == (match spec_index_get(s, v) {
            Some(x) => if x == id {
                None
            } else {
                Some(x)
            },
            None => None::<RecordId>,
        }),
    decreases s.len(),
{
    if s.len() > 0 {
        let h = s[0];
        let t = s.drop_first();
        lemma_wf_drop_first(s);
        assert(forall|k: int| 0 <= k < t.len() ==> (#[trigger] t[k]) == s[k + 1]);
        if h.0.eq_spec(&v) {
            lemma_remove_id_membership(t, id);
            assert forall|k: int|
                0 <= k < spec_index_remove_id(t, id).len() implies !(
            #[trigger] spec_index_remove_id(t, id)[k]).0.eq_spec(&v) by {
                let l = choose|l: int| 0 <= l < t.len() && spec_index_remove_id(t, id)[k] == t[l];
                if t[l].0.eq_spec(&v) {
                    assert(v.eq_spec(&t[l].0));
                    assert(h.0.eq_spec(&t[l].0));
                }
            }
            lemma_get_none(spec_index_remove_id(t, id), v);
            if h.1 != id {
                assert(spec_index_remove_id(s, id)[0] == h);
                assert(spec_index_remove_id(s, id).drop_first() =~= spec_index_remove_id(t, id));
            }
        } else {
            lemma_index_remove_semantics(t, id, v);
            if h.1 != id {
                assert(spec_index_remove_id(s, id)[0] == h);
                assert(spec_index_remove_id(s, id).drop_first() =~= spec_index_remove_id(t, id));
            }
        }
    }
}

/// A lookup over entries none of which match `v` falls through to a final
/// matching entry.
proof fn lemma_get_no_match_then_last<T: PartialEq>(
    s: Seq<(T, RecordId)>,
    e: (T, RecordId),
    v: T,
)
    requires
        spec_eq_equivalence::<T>(),
        forall|k: int| 0 <= k < s.len() ==> !(#[trigger] s[k]).0.eq_spec(&v),
        e.0.eq_spec(&v),
    ensures
        spec_index_get(s.push(e), v) == Some(e.1),
    decreases s.len(),
{
    if s.len() == 0 {
        assert(s.push(e)[0] == e);
    } else {
        assert(s.push(e)[0] == s[0]);
        assert(s.push(e).drop_first() =~= s.drop_first().push(e));
        assert(forall|k: int|
            0 <= k < s.drop_first().len() ==> (#[trigger] s.drop_first()[k]) == s[k + 1]);
        lemma_get_no_match_then_last(s.drop_first(), e, v);
    }
}

} // verus!
