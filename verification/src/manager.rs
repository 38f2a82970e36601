use vstd::prelude::*;
use vstd::view::View as _;

use std::collections::VecDeque;

use crate::ids::ViewId;
use crate::storage::FileStatus;
use crate::view::View;

verus! {

/// Maximum number of views in the view LRU list: the most views a session
/// holds.
pub const MAX_LRU: usize = 64;

/// Manages views.
///
/// The views form an ordered map from identifiers to views, held as sorted
/// keys beside their views: vstd's `BTreeMap` specification does not cover
/// `get_mut`, `range`, `first_key_value` or `values_mut`, which the ordered
/// lookups here need, so the order is kept and proved on vectors instead.
#[derive(Debug)]
pub struct ViewManager {
    /// Currently active view.
    pub active_id: ViewId,
    /// The identifiers under which the views are kept, in increasing order.
    keys: Vec<ViewId>,
    /// The views, in the order of their identifiers.
    views: Vec<View>,
    /// The next `ViewId`.
    next_id: ViewId,
    /// A last-recently-used list of views.
    lru: VecDeque<ViewId>,
}

/// A bound of a range of view identifiers.
#[derive(Copy, Clone, PartialEq, Eq, Structural, Debug)]
pub enum IdBound {
    Included(ViewId),
    Excluded(ViewId),
    Unbounded,
}

/// `k` is within the bounds.
pub open spec fn within(k: ViewId, start: IdBound, end: IdBound) -> bool {
    &&& match start {
        IdBound::Included(s) => s.0 <= k.0,
        IdBound::Excluded(s) => s.0 < k.0,
        IdBound::Unbounded => true,
    }
    &&& match end {
        IdBound::Included(e) => k.0 <= e.0,
        IdBound::Excluded(e) => k.0 < e.0,
        IdBound::Unbounded => true,
    }
}

/// The test of being within the bounds.
pub open spec fn in_range_pred(start: IdBound, end: IdBound) -> spec_fn(ViewId) -> bool {
    |k: ViewId| within(k, start, end)
}

/// The identifiers of `keys` within the bounds, in their order.
pub open spec fn ids_in_range(keys: Seq<ViewId>, start: IdBound, end: IdBound) -> Seq<ViewId> {
    keys.filter(in_range_pred(start, end))
}

/// The bounds are not crossed: the start is at most the end, and not equal
/// to it where both are excluded.
pub open spec fn bounds_ordered(start: IdBound, end: IdBound) -> bool {
    match (start, end) {
        (IdBound::Excluded(s), IdBound::Excluded(e)) => s.0 < e.0,
        (IdBound::Included(s), IdBound::Included(e)) => s.0 <= e.0,
        (IdBound::Included(s), IdBound::Excluded(e)) => s.0 <= e.0,
        (IdBound::Excluded(s), IdBound::Included(e)) => s.0 <= e.0,
        _ => true,
    }
}

fn in_bounds(k: ViewId, start: IdBound, end: IdBound) -> (r: bool)
    ensures
        r == within(k, start, end),
{
    let lo = match start {
        IdBound::Included(s) => s.0 <= k.0,
        IdBound::Excluded(s) => s.0 < k.0,
        IdBound::Unbounded => true,
    };
    let hi = match end {
        IdBound::Included(e) => k.0 <= e.0,
        IdBound::Excluded(e) => k.0 < e.0,
        IdBound::Unbounded => true,
    };
    lo && hi
}

/// The identifiers are strictly increasing.
pub open spec fn increasing(keys: Seq<ViewId>) -> bool {
    forall|i: int, j: int| 0 <= i < j < keys.len() ==> keys[i].0 < keys[j].0
}

/// The recently-used list after `id` is activated: `id` first, then the
/// list, cut to `MAX_LRU` entries.
pub open spec fn with_recent(lru: Seq<ViewId>, id: ViewId) -> Seq<ViewId> {
    let s = seq![id] + lru;
    if s.len() <= MAX_LRU { s } else { s.take(MAX_LRU as int) }
}

impl ViewManager {
    /// The identifiers of the views, in increasing order.
    pub closed spec fn key_seq(&self) -> Seq<ViewId> {
        self.keys@
    }

    /// The views, in the order of their identifiers.
    pub closed spec fn view_seq(&self) -> Seq<View> {
        self.views@
    }

    /// The identifier the next view gets.
    pub closed spec fn next_key(&self) -> ViewId {
        self.next_id
    }

    /// The recently active views, most recent first.
    pub closed spec fn lru_seq(&self) -> Seq<ViewId> {
        self.lru@
    }

    /// The currently active view's identifier.
    pub closed spec fn active_key(&self) -> ViewId {
        self.active_id
    }

    /// The manager is well formed: one identifier per view, identifiers in
    /// increasing order and below the next one, and a recently-used list of
    /// identifiers of views, at most `MAX_LRU` long.
    pub open spec fn wf(&self) -> bool {
        &&& self.key_seq().len() == self.view_seq().len()
        &&& increasing(self.key_seq())
        &&& forall|i: int| 0 <= i < self.key_seq().len() ==> #[trigger] self.key_seq()[i].0 < self.next_key().0
        &&& self.lru_seq().len() <= MAX_LRU
        &&& forall|i: int| 0 <= i < self.lru_seq().len() ==> self.key_seq().contains(#[trigger] self.lru_seq()[i])
    }

    /// Each view carries the identifier it is kept under.
    pub open spec fn ids_consistent(&self) -> bool {
        forall|i: int| 0 <= i < self.view_seq().len() ==> #[trigger] self.view_seq()[i].id == self.key_seq()[i]
    }

    /// The active identifier is the default one or that of a view.
    pub open spec fn active_valid(&self) -> bool {
        self.active_key() == ViewId(0) || self.key_seq().contains(self.active_key())
    }

    /// New empty view manager.
    pub fn new() -> (m: Self)
        ensures
            m.wf(),
            m.active_key() == ViewId(0),
            m.next_key() == ViewId(1),
            m.key_seq() == Seq::<ViewId>::empty(),
            m.view_seq() == Seq::<View>::empty(),
            m.lru_seq() == Seq::<ViewId>::empty(),
            m.ids_consistent(),
            m.active_valid(),
    {
        ViewManager {
            active_id: ViewId::default(),
            next_id: ViewId(1),
            keys: Vec::new(),
            views: Vec::new(),
            lru: VecDeque::new(),
        }
    }

    /// Generate a new view id.
    fn gen_id(&mut self) -> (id: ViewId)
        requires
            old(self).next_id.0 < u16::MAX,
        ensures
            id == old(self).next_id,
            final(self).next_id == ViewId((id.0 + 1) as u16),
            final(self).active_id == old(self).active_id,
            final(self).keys == old(self).keys,
            final(self).views == old(self).views,
            final(self).lru == old(self).lru,
    {
        let ViewId(id) = self.next_id;
        self.next_id = ViewId(id + 1);
        ViewId(id)
    }

    /// Add a view, under a new identifier, which is returned.
    pub fn add(&mut self, fs: FileStatus, w: u32, h: u32, nframes: usize, delay: u64) -> (id: ViewId)
        requires
            old(self).wf(),
            old(self).next_key().0 < u16::MAX,
        ensures
            final(self).wf(),
            id == old(self).next_key(),
            final(self).next_key() == ViewId((id.0 + 1) as u16),
            final(self).key_seq() == old(self).key_seq().push(id),
            final(self).view_seq().len() == old(self).view_seq().len() + 1,
            final(self).view_seq().drop_last() == old(self).view_seq(),
            View::is_fresh(final(self).view_seq().last(), id, fs, w, h, nframes, delay),
            final(self).lru_seq() == old(self).lru_seq(),
            final(self).active_key() == old(self).active_key(),
            !old(self).key_seq().contains(id),
            old(self).ids_consistent() ==> final(self).ids_consistent(),
            old(self).active_valid() ==> final(self).active_valid(),
    {
        let id = self.gen_id();
        let view = View::new(id, fs, w, h, nframes, delay);
        self.keys.push(id);
        self.views.push(view);
        proof {
            if old(self).keys@.contains(id) {
                let k = choose|k: int| 0 <= k < old(self).keys@.len() && old(self).keys@[k] == id;
                assert(old(self).keys@[k].0 < old(self).next_id.0);
            }
            if old(self).active_valid() && old(self).active_id != ViewId(0) {
                let k = choose|k: int| 0 <= k < old(self).keys@.len() && old(self).keys@[k] == self.active_id;
                assert(self.keys@[k] == self.active_id);
            }
            assert(self.views@.drop_last() =~= old(self).views@);
            assert forall|i: int| 0 <= i < self.lru@.len() implies self.keys@.contains(#[trigger] self.lru@[i]) by {
                let j = choose|j: int| 0 <= j < old(self).keys@.len() && old(self).keys@[j] == self.lru@[i];
                assert(self.keys@[j] == self.lru@[i]);
            }
        }
        id
    }

    /// Index of the view with identifier `id`, if any.
    fn position(&self, id: ViewId) -> (r: Option<usize>)
        ensures
            r matches Some(i) ==> i < self.keys@.len() && self.keys@[i as int] == id
                && forall|j: int| 0 <= j < i ==> self.keys@[j] != id,
            r is None ==> !self.keys@.contains(id),
    {
        let mut i: usize = 0;
        while i < self.keys.len()
            invariant
                0 <= i <= self.keys@.len(),
                forall|j: int| 0 <= j < i ==> self.keys@[j] != id,
            decreases self.keys@.len() - i,
        {
            if self.keys[i].0 == id.0 {
                return Some(i);
            }
            i += 1;
        }
        None
    }

    /// Get a view.
    pub fn get(&self, id: ViewId) -> (r: Option<&View>)
        requires
            self.wf(),
        ensures
            r matches Some(v) ==> exists|i: int|
                0 <= i < self.key_seq().len() && self.key_seq()[i] == id && *v == #[trigger] self.view_seq()[i]
                    && forall|j: int| 0 <= j < i ==> self.key_seq()[j] != id,
            r is None ==> !self.key_seq().contains(id),
    {
        match self.position(id) {
            Some(i) => Some(&self.views[i]),
            None => None,
        }
    }

    /// Get a view, mutably.
    pub fn get_mut(&mut self, id: ViewId) -> (r: Option<&mut View>)
        requires
            old(self).wf(),
        ensures
            r matches Some(v) ==> exists|i: int|
                0 <= i < old(self).key_seq().len() && old(self).key_seq()[i] == id
                    && forall|j: int| 0 <= j < i ==> old(self).key_seq()[j] != id
                    && *v == #[trigger] old(self).view_seq()[i]
                    && final(self).view_seq() == old(self).view_seq().update(i, *final(v)),
            r is None ==> !old(self).key_seq().contains(id) && final(self).view_seq() == old(self).view_seq(),
            final(self).key_seq() == old(self).key_seq(),
            final(self).lru_seq() == old(self).lru_seq(),
            final(self).next_key() == old(self).next_key(),
            final(self).active_key() == old(self).active_key(),
            old(self).wf() ==> final(self).wf(),
    {
        match self.position(id) {
            Some(i) => Some(&mut self.views[i]),
            None => None,
        }
    }

    /// The currently active identifier: the value of the `active_id` field,
    /// which is what [`ViewManager::active_key`] stands for in contracts.
    pub fn active_id(&self) -> (id: ViewId)
        ensures
            id == self.active_key(),
    {
        self.active_id
    }

    /// Return the id of the last recently active view, if any.
    pub fn recent(&self) -> (r: Option<ViewId>)
        ensures
            r == (if self.lru_seq().len() > 0 { Some(self.lru_seq()[0]) } else { None::<ViewId> }),
    {
        if self.lru.len() > 0 {
            Some(self.lru[0])
        } else {
            None
        }
    }

    /// Get the last view.
    pub fn last(&self) -> (r: Option<&View>)
        ensures
            r == (if self.view_seq().len() > 0 { Some(&self.view_seq().last()) } else { None::<&View> }),
    {
        if self.views.len() > 0 {
            Some(&self.views[self.views.len() - 1])
        } else {
            None
        }
    }

    /// Remove a view. The view that becomes active is the most recently
    /// active one left, or else the last view, or else none
    /// (`ViewId::default()`).
    pub fn remove(&mut self, id: ViewId)
        requires
            old(self).wf(),
        ensures
            final(self).wf(),
            forall|i: int|
                0 <= i < old(self).key_seq().len() && old(self).key_seq()[i] == id ==> {
                    &&& final(self).key_seq() == old(self).key_seq().remove(i)
                    &&& final(self).view_seq() == old(self).view_seq().remove(i)
                },
            !old(self).key_seq().contains(id) ==> {
                &&& final(self).key_seq() == old(self).key_seq()
                &&& final(self).view_seq() == old(self).view_seq()
            },
            final(self).lru_seq() == old(self).lru_seq().filter(|v: ViewId| v != id),
            final(self).active_key() == (
                if final(self).lru_seq().len() > 0 {
                    final(self).lru_seq()[0]
                } else if final(self).view_seq().len() > 0 {
                    final(self).view_seq().last().id
                } else {
                    ViewId(0)
                }
            ),
            final(self).next_key() == old(self).next_key(),
            !final(self).key_seq().contains(id),
            !final(self).lru_seq().contains(id),
            old(self).ids_consistent() ==> {
                &&& final(self).ids_consistent()
                &&& final(self).active_valid()
                &&& final(self).view_seq().len() > 0 ==> final(self).key_seq().contains(final(self).active_key())
            },
    {
        match self.position(id) {
            Some(i) => {
                self.keys.remove(i);
                self.views.remove(i);
                proof {
                    lemma_remove_keeps_increasing(old(self).keys@, i as int);
                    if self.keys@.contains(id) {
                        let k = choose|k: int| 0 <= k < self.keys@.len() && self.keys@[k] == id;
                        if k < i {
                            assert(old(self).keys@[k] == id);
                        } else {
                            assert(old(self).keys@[k + 1] == id);
                        }
                    }
                    if old(self).ids_consistent() {
                        assert forall|k: int| 0 <= k < self.views@.len() implies #[trigger] self.views@[k].id == self.keys@[k] by {
                            if k < i {
                                assert(self.views@[k] == old(self).views@[k]);
                                assert(self.keys@[k] == old(self).keys@[k]);
                            } else {
                                assert(self.views@[k] == old(self).views@[k + 1]);
                                assert(self.keys@[k] == old(self).keys@[k + 1]);
                            }
                        }
                    }
                    assert forall|k: int| 0 <= k < self.keys@.len() implies #[trigger] self.keys@[k].0 < self.next_id.0 by {
                        if k < i {
                            assert(self.keys@[k] == old(self).keys@[k]);
                        } else {
                            assert(self.keys@[k] == old(self).keys@[k + 1]);
                        }
                    }
                }
            },
            None => {},
        }
        let ghost keys_before = old(self).keys@;
        let ghost pred = |v: ViewId| v != id;
        let mut kept: VecDeque<ViewId> = VecDeque::new();
        let mut j: usize = 0;
        while j < self.lru.len()
            invariant
                0 <= j <= self.lru@.len(),
                self.lru@ == old(self).lru@,
                forall|v: ViewId| #[trigger] pred(v) == (v != id),
                kept@ == self.lru@.take(j as int).filter(pred),
            decreases self.lru@.len() - j,
        {
            let v = self.lru[j];
            proof {
                lemma_filter_take_step(self.lru@, j as int, pred);
                assert(v == self.lru@[j as int]);
                assert(pred(v) <==> v.0 != id.0);
            }
            if v.0 != id.0 {
                kept.push_back(v);
            }
            j += 1;
        }
        proof {
            assert(self.lru@.take(self.lru@.len() as int) =~= self.lru@);
            self.lru@.lemma_filter_len(pred);
            assert forall|k: int| 0 <= k < kept@.len() implies self.keys@.contains(#[trigger] kept@[k]) by {
                self.lru@.lemma_filter_pred(pred, k);
                assert(self.lru@.filter(pred).contains(kept@[k]));
                lemma_filter_subset(self.lru@, pred, kept@[k]);
                let m = choose|m: int| 0 <= m < keys_before.len() && keys_before[m] == kept@[k];
                if self.keys@ != keys_before {
                    let i = choose|i: int| 0 <= i < keys_before.len() && keys_before[i] == id;
                    if m < i {
                        assert(self.keys@[m] == kept@[k]);
                    } else {
                        assert(m != i);
                        assert(self.keys@[m - 1] == kept@[k]);
                    }
                } else {
                    assert(self.keys@[m] == kept@[k]);
                }
            }
        }
        proof {
            if kept@.contains(id) {
                lemma_filter_subset(self.lru@, pred, id);
            }
        }
        self.lru = kept;
        self.active_id = match self.recent() {
            Some(r) => r,
            None => match self.last() {
                Some(v) => v.id,
                None => ViewId::default(),
            },
        };
        proof {
            if self.lru@.len() > 0 {
                assert(self.keys@.contains(self.lru@[0]));
            } else if self.views@.len() > 0 && old(self).ids_consistent() {
                assert(self.views@[self.views@.len() - 1].id == self.keys@[self.keys@.len() - 1]);
                assert(self.keys@.contains(self.keys@[self.keys@.len() - 1]));
            }
        }
    }

    /// Activate a view, which must exist. It becomes the most recently
    /// active view, and the list of recent views keeps at most `MAX_LRU`.
    pub fn activate(&mut self, id: ViewId)
        requires
            old(self).wf(),
            old(self).key_seq().contains(id),
        ensures
            final(self).wf(),
            old(self).active_key() == id ==> final(self).lru_seq() == old(self).lru_seq(),
            old(self).active_key() != id ==> final(self).lru_seq() == with_recent(old(self).lru_seq(), id),
            final(self).active_key() == id,
            final(self).key_seq() == old(self).key_seq(),
            final(self).view_seq() == old(self).view_seq(),
            final(self).next_key() == old(self).next_key(),
            final(self).active_valid(),
            old(self).active_key() != id ==> final(self).lru_seq()[0] == id,
    {
        if self.active_id.0 == id.0 {
            return;
        }
        self.active_id = id;
        self.lru.push_front(id);
        self.lru.truncate(MAX_LRU);
        proof {
            let s = seq![id] + old(self).lru@;
            assert forall|k: int| 0 <= k < self.lru@.len() implies self.keys@.contains(#[trigger] self.lru@[k]) by {
                if k > 0 {
                    assert(self.lru@[k] == old(self).lru@[k - 1]);
                }
            }
            assert(self.lru@ =~= with_recent(old(self).lru@, id));
        }
    }

    /// Return the currently active view, if any.
    pub fn active(&self) -> (r: Option<&View>)
        requires
            self.wf(),
        ensures
            r matches Some(v) ==> exists|i: int|
                0 <= i < self.key_seq().len() && self.key_seq()[i] == self.active_key()
                    && *v == #[trigger] self.view_seq()[i]
                    && forall|j: int| 0 <= j < i ==> self.key_seq()[j] != self.active_key(),
            r is None ==> !self.key_seq().contains(self.active_key()),
    {
        self.get(self.active_id)
    }

    /// Return the currently active view mutably, if any.
    pub fn active_mut(&mut self) -> (r: Option<&mut View>)
        requires
            old(self).wf(),
        ensures
            r matches Some(v) ==> exists|i: int|
                0 <= i < old(self).key_seq().len() && old(self).key_seq()[i] == old(self).active_key()
                    && forall|j: int| 0 <= j < i ==> old(self).key_seq()[j] != old(self).active_key()
                    && *v == #[trigger] old(self).view_seq()[i]
                    && final(self).view_seq() == old(self).view_seq().update(i, *final(v)),
            r is None ==> !old(self).key_seq().contains(old(self).active_key())
                && final(self).view_seq() == old(self).view_seq(),
            final(self).key_seq() == old(self).key_seq(),
            final(self).lru_seq() == old(self).lru_seq(),
            final(self).next_key() == old(self).next_key(),
            final(self).active_key() == old(self).active_key(),
            old(self).wf() ==> final(self).wf(),
    {
        let id = self.active_id;
        match self.position(id) {
            Some(i) => Some(&mut self.views[i]),
            None => None,
        }
    }

    /// The views, in the order of their identifiers.
    pub fn iter(&self) -> (r: &[View])
        ensures
            r@ == self.view_seq(),
    {
        self.views.as_slice()
    }

    /// The views, mutably, in the order of their identifiers.
    ///
    /// A mutable slice keeps its length, but the verifier knows this only of
    /// slices written through in ways it specifies (such as indexing), so the
    /// number of views, and with it well-formedness, is stated given that the
    /// slice kept its length.
    pub fn iter_mut(&mut self) -> (r: &mut [View])
        ensures
            r@ == old(self).view_seq(),
            final(self).view_seq() == final(r)@,
            final(self).key_seq() == old(self).key_seq(),
            final(self).lru_seq() == old(self).lru_seq(),
            final(self).next_key() == old(self).next_key(),
            final(self).active_key() == old(self).active_key(),
            final(r)@.len() == r@.len() ==> final(self).view_seq().len() == old(self).view_seq().len(),
            (old(self).wf() && final(r)@.len() == r@.len()) ==> final(self).wf(),
    {
        self.views.as_mut_slice()
    }

    /// Find a view: the first one, in the order of identifiers, on which `f`
    /// returns `true`.
    pub fn find<F>(&self, f: F) -> (r: Option<&View>)
        where
            F: Fn(&&View) -> bool,
        requires
            forall|i: int| 0 <= i < self.view_seq().len() ==> call_requires(f, (&&self.view_seq()[i],)),
        ensures
            r matches Some(v) ==> exists|i: int|
                0 <= i < self.view_seq().len() && *v == self.view_seq()[i]
                    && call_ensures(f, (&&self.view_seq()[i],), true)
                    && forall|j: int| 0 <= j < i ==> call_ensures(f, (&&self.view_seq()[j],), false),
            r is None ==> forall|j: int|
                0 <= j < self.view_seq().len() ==> call_ensures(f, (&&self.view_seq()[j],), false),
    {
        let mut i: usize = 0;
        while i < self.views.len()
            invariant
                0 <= i <= self.view_seq().len(),
                self.view_seq() == self.views@,
                forall|k: int| 0 <= k < self.view_seq().len() ==> call_requires(f, (&&self.view_seq()[k],)),
                forall|j: int| 0 <= j < i ==> call_ensures(f, (&&self.view_seq()[j],), false),
            decreases self.views@.len() - i,
        {
            let v = &self.views[i];
            assert(*v == self.view_seq()[i as int]);
            if f(&v) {
                assert(call_ensures(f, (&&self.view_seq()[i as int],), true));
                return Some(v);
            }
            i += 1;
        }
        None
    }

    /// The view identifiers, in increasing order.
    pub fn ids(&self) -> (r: Vec<ViewId>)
        ensures
            r@ == self.key_seq(),
    {
        let mut r: Vec<ViewId> = Vec::new();
        let mut i: usize = 0;
        while i < self.keys.len()
            invariant
                0 <= i <= self.keys@.len(),
                r@ == self.keys@.take(i as int),
            decreases self.keys@.len() - i,
        {
            r.push(self.keys[i]);
            i += 1;
            proof {
                assert(r@ =~= self.keys@.take(i as int));
            }
        }
        proof {
            assert(self.keys@.take(self.keys@.len() as int) =~= self.keys@);
        }
        r
    }

    /// The view identifiers within the bounds, in increasing order. The
    /// bounds must not be crossed: the start is at most the end, and not
    /// equal to it where both are excluded.
    pub fn range(&self, start: IdBound, end: IdBound) -> (r: Vec<ViewId>)
        requires
            bounds_ordered(start, end),
        ensures
            r@ == ids_in_range(self.key_seq(), start, end),
    {
        let ghost pred = in_range_pred(start, end);
        let mut r: Vec<ViewId> = Vec::new();
        let mut i: usize = 0;
        while i < self.keys.len()
            invariant
                0 <= i <= self.keys@.len(),
                forall|k: ViewId| #[trigger] pred(k) == within(k, start, end),
                r@ == self.keys@.take(i as int).filter(pred),
            decreases self.keys@.len() - i,
        {
            let k = self.keys[i];
            proof {
                lemma_filter_take_step(self.keys@, i as int, pred);
                assert(k == self.keys@[i as int]);
            }
            if in_bounds(k, start, end) {
                r.push(k);
            }
            i += 1;
        }
        proof {
            assert(self.keys@.take(self.keys@.len() as int) =~= self.keys@);
        }
        r
    }

    /// Get `ViewId` *after* given id: the smallest identifier above it.
    pub fn after(&self, id: ViewId) -> (r: Option<ViewId>)
        ensures
            ({
                let above = ids_in_range(self.key_seq(), IdBound::Excluded(id), IdBound::Unbounded);
                r == (if above.len() > 0 { Some(above[0]) } else { None::<ViewId> })
            }),
    {
        let ids = self.range(IdBound::Excluded(id), IdBound::Unbounded);
        if ids.len() > 0 {
            Some(ids[0])
        } else {
            None
        }
    }

    /// Get `ViewId` *before* given id: the greatest identifier below it.
    pub fn before(&self, id: ViewId) -> (r: Option<ViewId>)
        ensures
            ({
                let below = ids_in_range(self.key_seq(), IdBound::Unbounded, IdBound::Excluded(id));
                r == (if below.len() > 0 { Some(below.last()) } else { None::<ViewId> })
            }),
    {
        let ids = self.range(IdBound::Unbounded, IdBound::Excluded(id));
        if ids.len() > 0 {
            Some(ids[ids.len() - 1])
        } else {
            None
        }
    }

    /// Get the first view.
    pub fn first(&self) -> (r: Option<&View>)
        ensures
            r == (if self.view_seq().len() > 0 { Some(&self.view_seq()[0]) } else { None::<&View> }),
    {
        if self.views.len() > 0 {
            Some(&self.views[0])
        } else {
            None
        }
    }

    /// Get the first view, mutably.
    pub fn first_mut(&mut self) -> (r: Option<&mut View>)
        ensures
            old(self).view_seq().len() > 0 ==> r is Some,
            r matches Some(v) ==> *v == old(self).view_seq()[0]
                && final(self).view_seq() == old(self).view_seq().update(0, *final(v)),
            old(self).view_seq().len() == 0 ==> (r is None && final(self).view_seq() == old(self).view_seq()),
            final(self).key_seq() == old(self).key_seq(),
            final(self).lru_seq() == old(self).lru_seq(),
            final(self).next_key() == old(self).next_key(),
            final(self).active_key() == old(self).active_key(),
            old(self).wf() ==> final(self).wf(),
    {
        if self.views.len() > 0 {
            Some(&mut self.views[0])
        } else {
            None
        }
    }

    /// Whether there are views.
    pub fn is_empty(&self) -> (r: bool)
        ensures
            r == (self.view_seq().len() == 0),
    {
        self.views.len() == 0
    }
}

/// Removing an element keeps a sequence of identifiers increasing.
proof fn lemma_remove_keeps_increasing(keys: Seq<ViewId>, i: int)
    requires
        increasing(keys),
        0 <= i < keys.len(),
    ensures
        increasing(keys.remove(i)),
{
    let r = keys.remove(i);
    assert forall|a: int, b: int| 0 <= a < b < r.len() implies r[a].0 < r[b].0 by {
        let a0 = if a < i { a } else { a + 1 };
        let b0 = if b < i { b } else { b + 1 };
        assert(r[a] == keys[a0]);
        assert(r[b] == keys[b0]);
    }
}

/// Filtering the first `i + 1` elements adds the element at `i` to the
/// filtered first `i` elements where it passes.
proof fn lemma_filter_take_step<A>(s: Seq<A>, i: int, pred: spec_fn(A) -> bool)
    requires
        0 <= i < s.len(),
    ensures
        s.take(i + 1).filter(pred) == (if pred(s[i]) {
            s.take(i).filter(pred).push(s[i])
        } else {
            s.take(i).filter(pred)
        }),
{
    reveal(Seq::filter);
    assert(s.take(i + 1).drop_last() =~= s.take(i));
}

/// What a filter keeps was in the sequence.
proof fn lemma_filter_subset<A>(s: Seq<A>, pred: spec_fn(A) -> bool, x: A)
    requires
        s.filter(pred).contains(x),
    ensures
        s.contains(x),
        pred(x),
    decreases s.len(),
{
    reveal(Seq::filter);
    if s.len() > 0 {
        let sub = s.drop_last().filter(pred);
        if pred(s.last()) && x == s.last() {
        } else {
            if pred(s.last()) {
                let k = choose|k: int| 0 <= k < s.filter(pred).len() && s.filter(pred)[k] == x;
                assert(sub.push(s.last())[k] == x);
                assert(k < sub.len());
                assert(sub[k] == x);
                assert(sub.contains(x));
            }
            lemma_filter_subset(s.drop_last(), pred, x);
            let m = choose|m: int| 0 <= m < s.drop_last().len() && s.drop_last()[m] == x;
            assert(s[m] == x);
        }
    }
}

/// Each identifier names at most one view.
pub proof fn law_keys_unique(m: ViewManager, i: int, j: int)
    requires
        m.wf(),
        0 <= i < m.key_seq().len(),
        0 <= j < m.key_seq().len(),
        m.key_seq()[i] == m.key_seq()[j],
    ensures
        i == j,
{
    if i < j {
        assert(m.key_seq()[i].0 < m.key_seq()[j].0);
    } else if j < i {
        assert(m.key_seq()[j].0 < m.key_seq()[i].0);
    }
}

/// Filtering an increasing sequence keeps it increasing.
proof fn lemma_filter_increasing(s: Seq<ViewId>, p: spec_fn(ViewId) -> bool)
    requires
        increasing(s),
    ensures
        increasing(s.filter(p)),
    decreases s.len(),
{
    reveal(Seq::filter);
    if s.len() > 0 {
        let d = s.drop_last();
        assert(increasing(d));
        lemma_filter_increasing(d, p);
        let sub = d.filter(p);
        if p(s.last()) {
            let r = sub.push(s.last());
            assert forall|i: int, j: int| 0 <= i < j < r.len() implies r[i].0 < r[j].0 by {
                if j == r.len() - 1 {
                    assert(sub.contains(sub[i]));
                    lemma_filter_subset(d, p, sub[i]);
                    let m = choose|m: int| 0 <= m < d.len() && d[m] == sub[i];
                    assert(s[m] == r[i]);
                } else {
                    assert(r[i] == sub[i] && r[j] == sub[j]);
                }
            }
        }
    }
}

/// `after` gives the smallest identifier above `id`: the first of those
/// above it is a view's identifier, above `id`, and at most any identifier
/// above `id`; where there is none, no identifier is above `id`.
pub proof fn law_after_is_smallest_above(m: ViewManager, id: ViewId)
    requires
        m.wf(),
    ensures
        ({
            let above = ids_in_range(m.key_seq(), IdBound::Excluded(id), IdBound::Unbounded);
            &&& above.len() > 0 ==> m.key_seq().contains(above[0]) && id.0 < above[0].0
            &&& forall|i: int|
                0 <= i < m.key_seq().len() && id.0 < #[trigger] m.key_seq()[i].0
                    ==> above.len() > 0 && above[0].0 <= m.key_seq()[i].0
        }),
{
    let s = m.key_seq();
    let p = in_range_pred(IdBound::Excluded(id), IdBound::Unbounded);
    let above = s.filter(p);
    lemma_filter_increasing(s, p);
    if above.len() > 0 {
        assert(above.contains(above[0]));
        lemma_filter_subset(s, p, above[0]);
    }
    assert forall|i: int| 0 <= i < s.len() && id.0 < #[trigger] s[i].0 implies above.len() > 0 && above[0].0 <= s[i].0 by {
        s.lemma_filter_contains(p, i);
        let t = choose|t: int| 0 <= t < above.len() && above[t] == s[i];
        if t > 0 {
            assert(above[0].0 < above[t].0);
        }
    }
}

/// `before` gives the greatest identifier below `id`: the last of those
/// below it is a view's identifier, below `id`, and at least any identifier
/// below `id`; where there is none, no identifier is below `id`.
pub proof fn law_before_is_greatest_below(m: ViewManager, id: ViewId)
    requires
        m.wf(),
    ensures
        ({
            let below = ids_in_range(m.key_seq(), IdBound::Unbounded, IdBound::Excluded(id));
            &&& below.len() > 0 ==> m.key_seq().contains(below.last()) && below.last().0 < id.0
            &&& forall|i: int|
                0 <= i < m.key_seq().len() && #[trigger] m.key_seq()[i].0 < id.0
                    ==> below.len() > 0 && m.key_seq()[i].0 <= below.last().0
        }),
{
    let s = m.key_seq();
    let p = in_range_pred(IdBound::Unbounded, IdBound::Excluded(id));
    let below = s.filter(p);
    lemma_filter_increasing(s, p);
    if below.len() > 0 {
        assert(below.contains(below.last()));
        lemma_filter_subset(s, p, below.last());
    }
    assert forall|i: int| 0 <= i < s.len() && #[trigger] s[i].0 < id.0 implies below.len() > 0 && s[i].0 <= below.last().0 by {
        s.lemma_filter_contains(p, i);
        let t = choose|t: int| 0 <= t < below.len() && below[t] == s[i];
        if t < below.len() - 1 {
            assert(below[t].0 < below[below.len() - 1].0);
        }
    }
}

/// Where each view carries the identifier it is kept under, the view found
/// under an identifier has that identifier; in particular the active view,
/// if any, has the active identifier.
pub proof fn law_found_view_has_its_id(m: ViewManager, k: ViewId, i: int)
    requires
        m.wf(),
        m.ids_consistent(),
        0 <= i < m.key_seq().len(),
        m.key_seq()[i] == k,
    ensures
        m.view_seq()[i].id == k,
        k == m.active_key() ==> m.view_seq()[i].id == m.active_key(),
{
}

/// Where each view carries the identifier it is kept under and the active
/// identifier is valid, a manager with an active identifier other than the
/// default has a view with that identifier.
pub proof fn law_active_view_exists(m: ViewManager)
    requires
        m.wf(),
        m.ids_consistent(),
        m.active_valid(),
        m.active_key() != ViewId(0),
    ensures
        exists|i: int| 0 <= i < m.key_seq().len() && m.key_seq()[i] == m.active_key()
            && #[trigger] m.view_seq()[i].id == m.active_key(),
{
    let i = choose|i: int| 0 <= i < m.key_seq().len() && m.key_seq()[i] == m.active_key();
    assert(m.view_seq()[i].id == m.active_key());
}



/// Activating a view puts it first in the recently-used list and keeps the
/// whole list behind it, cut only at `MAX_LRU` (64) entries.
pub proof fn law_activate_keeps_recent(lru: Seq<ViewId>, id: ViewId)
    ensures
        with_recent(lru, id).len() == (if lru.len() < MAX_LRU { lru.len() + 1 } else { MAX_LRU as nat }),
        with_recent(lru, id)[0] == id,
        forall|k: int| 0 <= k < with_recent(lru, id).len() - 1 ==> #[trigger] with_recent(lru, id)[k + 1] == lru[k],
        lru.len() < 64 ==> with_recent(lru, id) == seq![id] + lru,
{
}

} // verus!
