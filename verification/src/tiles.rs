use vstd::prelude::*;

use vstd::arithmetic::div_mod::lemma_fundamental_div_mod_converse_mod;
use vstd::arithmetic::power2::{lemma_pow2_unfold, lemma_pow2_strictly_increases, pow2};
use crate::assoc::{lemma_push, lemma_remove, lemma_to_map_unique, lemma_update, to_map, unique_keys};

verus! {

/// One map tile: zoom level and column and row at that level.
#[derive(Clone, Copy, PartialEq, Eq, Structural, Hash, Debug)]
pub struct TileId {
    pub z: u8,
    pub x: u32,
    pub y: u32,
}

/// Where a tile stands: asked for, here, or given up on.
pub enum Slot<T> {
    Loading,
    Ready(T),
    Failed,
}

/// How many tiles the cache keeps before it forgets the oldest.
pub const CACHE_MAX: usize = 512;

/// Whether the tile `id` is still being fetched.
pub open spec fn is_loading<T>(m: Map<TileId, Slot<T>>, id: TileId) -> bool {
    m.dom().contains(id) && m[id] is Loading
}

/// The first position in `o[from..to]` whose tile is still loading, or
/// `to`.
pub open spec fn first_loading<T>(o: Seq<TileId>, m: Map<TileId, Slot<T>>, from: int, to: int) -> int
    decreases to - from,
{
    if from >= to {
        to
    } else if is_loading(m, o[from]) {
        from
    } else {
        first_loading(o, m, from + 1, to)
    }
}

/// How many of the oldest tiles eviction drops: those beyond the limit,
/// but never one that is still loading nor any after it.
pub open spec fn dropped<T>(o: Seq<TileId>, m: Map<TileId, Slot<T>>) -> int {
    if o.len() <= CACHE_MAX {
        0
    } else {
        first_loading(o, m, 0, o.len() - CACHE_MAX)
    }
}

/// Whether eviction stops at a loading tile, which then goes to the back.
pub open spec fn stopped<T>(o: Seq<TileId>, m: Map<TileId, Slot<T>>) -> bool {
    o.len() > CACHE_MAX && dropped(o, m) < o.len() - CACHE_MAX
}

/// The age order after eviction.
pub open spec fn evicted_order<T>(o: Seq<TileId>, m: Map<TileId, Slot<T>>) -> Seq<TileId> {
    let j = dropped(o, m);
    if stopped(o, m) {
        o.skip(j + 1).push(o[j])
    } else {
        o.skip(j)
    }
}

/// The tiles kept after eviction.
pub open spec fn evicted_slots<T>(o: Seq<TileId>, m: Map<TileId, Slot<T>>) -> Map<TileId, Slot<T>> {
    m.remove_keys(o.take(dropped(o, m)).to_set())
}

/// The lists behind a `TileCache`.
struct Held<T> {
    slots: Vec<(TileId, Slot<T>)>,
    order: Vec<TileId>,
    error: Option<String>,
    failures: usize,
}

impl<T> Held<T> {
    /// Each tile held, with where it stands.
    spec fn slots(&self) -> Map<TileId, Slot<T>> {
        to_map(self.slots@)
    }

    /// The tiles in the order they were asked for, oldest first.
    spec fn order(&self) -> Seq<TileId> {
        self.order@
    }

    /// The last error, if the last tile that came back failed.
    spec fn last_error(&self) -> Option<Seq<char>> {
        match self.error {
            Some(e) => Some(e@),
            None => None,
        }
    }

    /// How many tiles have failed.
    spec fn failures(&self) -> nat {
        self.failures as nat
    }

    /// No tile is held twice, no tile is ordered twice, and every ordered
    /// tile is held.
    spec fn wf(&self) -> bool {
        &&& unique_keys(self.slots@)
        &&& self.order@.no_duplicates()
        &&& forall|i: int| 0 <= i < self.order@.len() ==> self.slots().dom().contains(#[trigger] self.order@[i])
    }

    /// Every tile held stands in the age order, so that eviction can reach
    /// it. Asking for tiles keeps this, and so do `loaded` and `failed` of a
    /// tile held; a tile recorded without having been asked for is held
    /// outside the age order, and never evicted.
    spec fn all_aged(&self) -> bool {
        forall|id: TileId| #[trigger] self.slots().dom().contains(id) ==> self.order().contains(id)
    }

    /// An empty cache.
    fn new() -> (c: Self)
        ensures
            c.wf(),
            c.all_aged(),
            c.slots() == Map::<TileId, Slot<T>>::empty(),
            c.order() == Seq::<TileId>::empty(),
            c.last_error() == None::<Seq<char>>,
            c.failures() == 0,
    {
        Held { slots: Vec::new(), order: Vec::new(), error: None, failures: 0 }
    }

    fn position(&self, id: TileId) -> (r: Option<usize>)
        requires
            self.wf(),
        ensures
            match r {
                Some(i) => i < self.slots@.len() && self.slots@[i as int].0 == id,
                None => !self.slots().dom().contains(id),
            },
    {
        proof {
            lemma_to_map_unique(self.slots@);
        }
        let mut i: usize = 0;
        while i < self.slots.len()
            invariant
                i <= self.slots@.len(),
                forall|j: int| 0 <= j < i ==> self.slots@[j].0 != id,
            decreases self.slots@.len() - i,
        {
            if self.slots[i].0 == id {
                return Some(i);
            }
            i = i + 1;
        }
        None
    }

    /// Puts `slot` in for `id`, leaving the order alone.
    fn put(&mut self, id: TileId, slot: Slot<T>)
        requires
            old(self).wf(),
        ensures
            final(self).slots@.len() >= old(self).slots@.len(),
            unique_keys(final(self).slots@),
            final(self).slots() == old(self).slots().insert(id, slot),
            final(self).order@ == old(self).order@,
            final(self).error == old(self).error,
            final(self).failures == old(self).failures,
    {
        let ghost s = self.slots@;
        match self.position(id) {
            Some(i) => {
                self.slots.set(i, (id, slot));
                proof {
                    lemma_update(s, i as int, slot);
                    assert(self.slots@ =~= s.update(i as int, (s[i as int].0, slot)));
                }
            },
            None => {
                self.slots.push((id, slot));
                proof {
                    lemma_push(s, id, slot);
                    assert(self.slots@ =~= s.push((id, slot)));
                }
            },
        }
    }

    /// Forgets the tile `id`.
    fn forget(&mut self, id: TileId)
        requires
            unique_keys(old(self).slots@),
        ensures
            unique_keys(final(self).slots@),
            final(self).slots() == old(self).slots().remove(id),
            final(self).order@ == old(self).order@,
            final(self).error == old(self).error,
            final(self).failures == old(self).failures,
    {
        let ghost s = self.slots@;
        proof {
            lemma_to_map_unique(s);
        }
        let mut i: usize = 0;
        while i < self.slots.len()
            invariant
                self.slots@ == s,
                s == old(self).slots@,
                unique_keys(s),
                self.order@ == old(self).order@,
                self.error == old(self).error,
                self.failures == old(self).failures,
                i <= s.len(),
                forall|j: int| 0 <= j < i ==> s[j].0 != id,
            decreases s.len() - i,
        {
            if self.slots[i].0 == id {
                assert(s[i as int].0 == id);
                self.slots.remove(i);
                proof {
                    lemma_remove(s, i as int);
                    assert(self.slots@ =~= s.remove(i as int));
                    assert(self.slots() == to_map(s.remove(i as int)));
                    assert(self.slots() == to_map(s).remove(id));
                }
                return;
            }
            i = i + 1;
        }
        assert(to_map(s).remove(id) =~= to_map(s));
    }

    /// Drops the oldest tiles while there are more than the limit, but
    /// stops at one that is still loading and moves it to the back.
    fn evict(&mut self)
        requires
            unique_keys(old(self).slots@),
            old(self).order@.no_duplicates(),
            forall|i: int|
                0 <= i < old(self).order@.len() ==> old(self).slots().dom().contains(
                    #[trigger] old(self).order@[i],
                ),
        ensures
            final(self).wf(),
            final(self).order@ == evicted_order(old(self).order@, old(self).slots()),
            final(self).slots() == evicted_slots(old(self).order@, old(self).slots()),
            final(self).error == old(self).error,
            final(self).failures == old(self).failures,
    {
        let ghost o0 = self.order@;
        let ghost m0 = self.slots();
        let mut done = false;
        proof {
            lemma_evict_start(o0, m0);
        }
        while !done && self.order.len() > CACHE_MAX
            invariant
                unique_keys(self.slots@),
                self.order@.no_duplicates(),
                forall|i: int| 0 <= i < self.order@.len() ==> self.slots().dom().contains(#[trigger] self.order@[i]),
                self.error == old(self).error,
                self.failures == old(self).failures,
                !done ==> evicted_order(self.order@, self.slots()) == evicted_order(o0, m0),
                !done ==> evicted_slots(self.order@, self.slots()) == evicted_slots(o0, m0),
                done ==> self.order@ == evicted_order(o0, m0),
                done ==> self.slots() == evicted_slots(o0, m0),
            decreases self.order@.len() * 2 + if done { 0int } else { 1int },
        {
            let ghost o = self.order@;
            let ghost m = self.slots();
            let front = self.order[0];
            let loading = self.is_loading_wf_free(front);
            self.order.remove(0);
            if loading {
                self.order.push(front);
                proof {
                    lemma_evict_step_loading(o, m);
                    assert(self.order@ =~= o.skip(1).push(o[0]));
                    assert(self.order@.no_duplicates()) by {
                        assert forall|a: int, b: int|
                            0 <= a < self.order@.len() && 0 <= b < self.order@.len() && a != b implies self.order@[a]
                            != self.order@[b] by {
                            let oa = if a == o.len() - 1 { 0 } else { a + 1 };
                            let ob = if b == o.len() - 1 { 0 } else { b + 1 };
                            assert(self.order@[a] == o[oa] && self.order@[b] == o[ob]);
                        }
                    }
                    assert forall|i: int| 0 <= i < self.order@.len() implies self.slots().dom().contains(
                        #[trigger] self.order@[i],
                    ) by {
                        let oi = if i == o.len() - 1 { 0 } else { i + 1 };
                        assert(self.order@[i] == o[oi]);
                    }
                }
                done = true;
            } else {
                self.forget(front);
                proof {
                    lemma_evict_step_drop(o, m);
                    assert(self.order@ =~= o.drop_first());
                    assert forall|i: int| 0 <= i < self.order@.len() implies self.slots().dom().contains(
                        #[trigger] self.order@[i],
                    ) by {
                        assert(self.order@[i] == o[i + 1]);
                        assert(o[i + 1] != o[0]);
                    }
                }
            }
        }
        proof {
            if !done {
                lemma_evict_end(self.order@, self.slots());
            }
        }
    }

    fn is_loading_wf_free(&self, id: TileId) -> (r: bool)
        requires
            unique_keys(self.slots@),
        ensures
            r == is_loading(self.slots(), id),
    {
        proof {
            lemma_to_map_unique(self.slots@);
        }
        let mut i: usize = 0;
        while i < self.slots.len()
            invariant
                unique_keys(self.slots@),
                i <= self.slots@.len(),
                forall|j: int| 0 <= j < i ==> self.slots@[j].0 != id,
            decreases self.slots@.len() - i,
        {
            if self.slots[i].0 == id {
                proof {
                    lemma_to_map_unique(self.slots@);
                    assert(self.slots()[self.slots@[i as int].0] == self.slots@[i as int].1);
                }
                return match self.slots[i].1 {
                    Slot::Loading => true,
                    _ => false,
                };
            }
            i = i + 1;
        }
        false
    }

    /// Asks for the tile `id`. A tile not held yet is marked loading, put
    /// at the back of the age order, and the oldest tiles are evicted; the
    /// answer then says the tile must be fetched. A tile already held, in
    /// whatever state, is left as it is.
    fn request(&mut self, id: TileId) -> (fresh: bool)
        requires
            old(self).wf(),
        ensures
            final(self).wf(),
            fresh == !old(self).slots().dom().contains(id),
            fresh ==> final(self).order() == evicted_order(
                old(self).order().push(id),
                old(self).slots().insert(id, Slot::Loading),
            ),
            fresh ==> final(self).slots() == evicted_slots(
                old(self).order().push(id),
                old(self).slots().insert(id, Slot::Loading),
            ),
            !fresh ==> final(self).slots() == old(self).slots() && final(self).order() == old(self).order(),
            old(self).all_aged() ==> final(self).all_aged(),
            final(self).last_error() == old(self).last_error(),
            final(self).failures() == old(self).failures(),
    {
        match self.position(id) {
            Some(i) => {
                proof {
                    lemma_to_map_unique(self.slots@);
                    assert(self.slots().dom().contains(self.slots@[i as int].0));
                }
                false
            },
            None => {
                let ghost o = self.order@;
                let ghost m = self.slots();
                let ghost aged = self.all_aged();
                self.put(id, Slot::Loading);
                self.order.push(id);
                proof {
                    assert forall|i: int| 0 <= i < o.len() implies o[i] != id by {
                        assert(m.dom().contains(o[i]));
                    }
                    assert(self.order@.no_duplicates()) by {
                        assert forall|a: int, b: int|
                            0 <= a < self.order@.len() && 0 <= b < self.order@.len() && a != b implies self.order@[a]
                            != self.order@[b] by {
                            if a < o.len() && b < o.len() {
                                assert(self.order@[a] == o[a] && self.order@[b] == o[b]);
                            }
                        }
                    }
                    assert forall|i: int| 0 <= i < self.order@.len() implies self.slots().dom().contains(
                        #[trigger] self.order@[i],
                    ) by {
                        if i < o.len() {
                            assert(self.order@[i] == o[i]);
                        }
                    }
                }
                proof {
                    if aged {
                        assert forall|t: TileId| #[trigger] self.slots().dom().contains(t) <==> self.order@.contains(t) by {
                            if self.slots().dom().contains(t) && t != id {
                                assert(o.contains(t));
                                let q = choose|q: int| 0 <= q < o.len() && o[q] == t;
                                assert(self.order@[q] == t);
                            }
                            if t == id {
                                assert(self.order@[o.len() as int] == id);
                            }
                            if self.order@.contains(t) {
                                let q = choose|q: int| 0 <= q < self.order@.len() && self.order@[q] == t;
                                if q < o.len() {
                                    assert(self.order@[q] == o[q]);
                                }
                            }
                        }
                        eviction_keeps_the_age_order(self.order@, self.slots());
                    }
                }
                self.evict();
                true
            },
        }
    }

    /// The tile `id`, when it has come in.
    fn ready(&self, id: TileId) -> (r: Option<&T>)
        requires
            self.wf(),
        ensures
            match r {
                Some(t) => self.slots().dom().contains(id) && self.slots()[id] == Slot::Ready(*t),
                None => !(self.slots().dom().contains(id) && self.slots()[id] is Ready),
            },
    {
        proof {
            lemma_to_map_unique(self.slots@);
        }
        match self.position(id) {
            Some(i) => match &self.slots[i].1 {
                Slot::Ready(t) => Some(t),
                _ => None,
            },
            None => None,
        }
    }

    /// Records that the tile `id` came in; the error shown is cleared.
    fn loaded(&mut self, id: TileId, tile: T)
        requires
            old(self).wf(),
        ensures
            final(self).wf(),
            final(self).slots() == old(self).slots().insert(id, Slot::Ready(tile)),
            final(self).order() == old(self).order(),
            old(self).all_aged() && old(self).slots().dom().contains(id) ==> final(self).all_aged(),
            final(self).last_error() == None::<Seq<char>>,
            final(self).failures() == old(self).failures(),
    {
        self.put(id, Slot::Ready(tile));
        self.error = None;
    }

    /// Records that the tile `id` could not be had, and why.
    fn failed(&mut self, id: TileId, why: String)
        requires
            old(self).wf(),
            old(self).failures() < usize::MAX,
        ensures
            final(self).wf(),
            final(self).slots() == old(self).slots().insert(id, Slot::Failed),
            final(self).order() == old(self).order(),
            old(self).all_aged() && old(self).slots().dom().contains(id) ==> final(self).all_aged(),
            final(self).last_error() == Some(why@),
            final(self).failures() == old(self).failures() + 1,
    {
        self.put(id, Slot::Failed);
        self.failures = self.failures + 1;
        self.error = Some(why);
    }

    /// How many tiles have failed so far.
    fn failure_count(&self) -> (n: usize)
        ensures
            n == self.failures(),
    {
        self.failures
    }

    /// The last error with the number of failures, while the last tile
    /// that came back failed.
    fn error(&self) -> (r: Option<(String, usize)>)
        ensures
            match r {
                Some((e, n)) => self.last_error() == Some(e@) && n == self.failures(),
                None => self.last_error() == None::<Seq<char>>,
            },
    {
        match &self.error {
            Some(e) => Some((e.clone(), self.failures)),
            None => None,
        }
    }
}

/// The map tiles in memory, and the order they were asked for in.
pub struct TileCache<T> {
    held: Held<T>,
}

impl<T> TileCache<T> {
    /// No tile is held twice, no tile is ordered twice, and every ordered
    /// tile is held.
    #[verifier::type_invariant]
    spec fn sound(&self) -> bool {
        self.held.wf()
    }

    /// Each tile held, with where it stands.
    pub closed spec fn slots(&self) -> Map<TileId, Slot<T>> {
        self.held.slots()
    }

    /// The tiles in the order they were asked for, oldest first.
    pub closed spec fn order(&self) -> Seq<TileId> {
        self.held.order()
    }

    /// The last error, if the last tile that came back failed.
    pub closed spec fn last_error(&self) -> Option<Seq<char>> {
        self.held.last_error()
    }

    /// How many tiles have failed.
    pub closed spec fn failures(&self) -> nat {
        self.held.failures()
    }

    /// Every tile held stands in the age order, so that eviction can reach
    /// it. Asking for tiles keeps this, and so do `loaded` and `failed` of a
    /// tile held; a tile recorded without having been asked for is held
    /// outside the age order, and never evicted.
    pub open spec fn all_aged(&self) -> bool {
        forall|id: TileId| #[trigger] self.slots().dom().contains(id) ==> self.order().contains(id)
    }

    proof fn lemma_aged(&self)
        ensures
            self.all_aged() == self.held.all_aged(),
    {
        if self.all_aged() {
            assert forall|id: TileId| #[trigger] self.held.slots().dom().contains(id) implies self.held.order().contains(
                id,
            ) by {
                assert(self.slots().dom().contains(id));
            }
        }
        if self.held.all_aged() {
            assert forall|id: TileId| #[trigger] self.slots().dom().contains(id) implies self.order().contains(id) by {
                assert(self.held.slots().dom().contains(id));
            }
        }
    }

    /// An empty cache.
    pub fn new() -> (c: Self)
        ensures
            c.all_aged(),
            c.slots() == Map::<TileId, Slot<T>>::empty(),
            c.order() == Seq::<TileId>::empty(),
            c.last_error() == None::<Seq<char>>,
            c.failures() == 0,
    {
        let c = TileCache { held: Held::new() };
        proof {
            c.lemma_aged();
        }
        c
    }

    /// Asks for the tile `id`. A tile not held yet is marked loading, put
    /// at the back of the age order, and the oldest tiles are evicted; the
    /// answer then says the tile must be fetched. A tile already held, in
    /// whatever state, is left as it is.
    pub fn request(&mut self, id: TileId) -> (fresh: bool)
        ensures
            fresh == !old(self).slots().dom().contains(id),
            fresh ==> final(self).order() == evicted_order(
                old(self).order().push(id),
                old(self).slots().insert(id, Slot::Loading),
            ),
            fresh ==> final(self).slots() == evicted_slots(
                old(self).order().push(id),
                old(self).slots().insert(id, Slot::Loading),
            ),
            !fresh ==> final(self).slots() == old(self).slots() && final(self).order() == old(self).order(),
            old(self).all_aged() ==> final(self).all_aged(),
            final(self).last_error() == old(self).last_error(),
            final(self).failures() == old(self).failures(),
    {
        proof {
            use_type_invariant(&*self);
            self.lemma_aged();
        }
        let mut h = Held::new();
        std::mem::swap(&mut h, &mut self.held);
        let fresh = h.request(id);
        self.held = h;
        proof {
            self.lemma_aged();
        }
        fresh
    }

    /// The tile `id`, when it has come in.
    pub fn ready(&self, id: TileId) -> (r: Option<&T>)
        ensures
            match r {
                Some(t) => self.slots().dom().contains(id) && self.slots()[id] == Slot::Ready(*t),
                None => !(self.slots().dom().contains(id) && self.slots()[id] is Ready),
            },
    {
        proof {
            use_type_invariant(self);
        }
        self.held.ready(id)
    }

    /// Records that the tile `id` came in; the error shown is cleared.
    pub fn loaded(&mut self, id: TileId, tile: T)
        ensures
            final(self).slots() == old(self).slots().insert(id, Slot::Ready(tile)),
            final(self).order() == old(self).order(),
            old(self).all_aged() && old(self).slots().dom().contains(id) ==> final(self).all_aged(),
            final(self).last_error() == None::<Seq<char>>,
            final(self).failures() == old(self).failures(),
    {
        proof {
            use_type_invariant(&*self);
            self.lemma_aged();
        }
        let mut h = Held::new();
        std::mem::swap(&mut h, &mut self.held);
        h.loaded(id, tile);
        self.held = h;
        proof {
            self.lemma_aged();
        }
    }

    /// Records that the tile `id` could not be had, and why.
    pub fn failed(&mut self, id: TileId, why: String)
        requires
            old(self).failures() < usize::MAX,
        ensures
            final(self).slots() == old(self).slots().insert(id, Slot::Failed),
            final(self).order() == old(self).order(),
            old(self).all_aged() && old(self).slots().dom().contains(id) ==> final(self).all_aged(),
            final(self).last_error() == Some(why@),
            final(self).failures() == old(self).failures() + 1,
    {
        proof {
            use_type_invariant(&*self);
            self.lemma_aged();
        }
        let mut h = Held::new();
        std::mem::swap(&mut h, &mut self.held);
        h.failed(id, why);
        self.held = h;
        proof {
            self.lemma_aged();
        }
    }

    /// How many tiles have failed.
    pub fn failure_count(&self) -> (n: usize)
        ensures
            n == self.failures(),
    {
        self.held.failure_count()
    }

    /// The last error with the number of failures, while the last tile
    /// that came back failed.
    pub fn error(&self) -> (r: Option<(String, usize)>)
        ensures
            match r {
                Some((e, n)) => self.last_error() == Some(e@) && n == self.failures(),
                None => self.last_error() == None::<Seq<char>>,
            },
    {
        self.held.error()
    }
}

proof fn lemma_first_loading<T>(o: Seq<TileId>, m: Map<TileId, Slot<T>>, from: int, to: int)
    requires
        0 <= from <= to <= o.len(),
    ensures
        from <= first_loading(o, m, from, to) <= to,
        first_loading(o, m, from, to) < to ==> is_loading(m, o[first_loading(o, m, from, to)]),
        forall|q: int| from <= q < first_loading(o, m, from, to) ==> !is_loading(m, #[trigger] o[q]),
    decreases to - from,
{
    if from < to && !is_loading(m, o[from]) {
        lemma_first_loading(o, m, from + 1, to);
    }
}

proof fn lemma_first_loading_shift<T>(o: Seq<TileId>, m: Map<TileId, Slot<T>>, from: int, to: int)
    requires
        1 <= from <= to <= o.len(),
        o.no_duplicates(),
        !is_loading(m, o[0]),
    ensures
        first_loading(o, m, from, to) == 1 + first_loading(o.drop_first(), m.remove(o[0]), from - 1, to - 1),
    decreases to - from,
{
    if from < to {
        assert(o.drop_first()[from - 1] == o[from]);
        assert(o[from] != o[0]);
        assert(is_loading(m, o[from]) == is_loading(m.remove(o[0]), o[from]));
        lemma_first_loading_shift(o, m, from + 1, to);
    }
}

proof fn lemma_evict_start<T>(o: Seq<TileId>, m: Map<TileId, Slot<T>>)
    ensures
        o.len() <= CACHE_MAX ==> evicted_order(o, m) == o && evicted_slots(o, m) == m,
{
    if o.len() <= CACHE_MAX {
        assert(o.skip(0) =~= o);
        assert(o.take(0).to_set() =~= Set::<TileId>::empty());
        assert(m.remove_keys(Set::<TileId>::empty()) =~= m);
    }
}

proof fn lemma_evict_end<T>(o: Seq<TileId>, m: Map<TileId, Slot<T>>)
    requires
        o.len() <= CACHE_MAX,
    ensures
        evicted_order(o, m) == o,
        evicted_slots(o, m) == m,
{
    lemma_evict_start(o, m);
}

proof fn lemma_evict_step_loading<T>(o: Seq<TileId>, m: Map<TileId, Slot<T>>)
    requires
        o.len() > CACHE_MAX,
        is_loading(m, o[0]),
    ensures
        evicted_order(o, m) == o.skip(1).push(o[0]),
        evicted_slots(o, m) == m,
{
    assert(first_loading(o, m, 0, o.len() - CACHE_MAX) == 0);
    assert(o.take(0).to_set() =~= Set::<TileId>::empty());
    assert(m.remove_keys(Set::<TileId>::empty()) =~= m);
}

proof fn lemma_evict_step_drop<T>(o: Seq<TileId>, m: Map<TileId, Slot<T>>)
    requires
        o.len() > CACHE_MAX,
        !is_loading(m, o[0]),
        o.no_duplicates(),
    ensures
        evicted_order(o.drop_first(), m.remove(o[0])) == evicted_order(o, m),
        evicted_slots(o.drop_first(), m.remove(o[0])) == evicted_slots(o, m),
{
    let ex = o.len() - CACHE_MAX;
    let o1 = o.drop_first();
    let m1 = m.remove(o[0]);
    lemma_first_loading(o, m, 0, ex);
    if ex > 1 {
        lemma_first_loading_shift(o, m, 1, ex);
    }
    assert(first_loading(o, m, 0, ex) == 1 + first_loading(o1, m1, 0, ex - 1)) by {
        if ex == 1 {
            assert(first_loading(o, m, 1, 1) == 1);
        }
    }
    let j = first_loading(o, m, 0, ex);
    if o1.len() <= CACHE_MAX {
        assert(ex == 1);
        assert(j == 1);
        assert(dropped(o1, m1) == 0);
        assert(o1.skip(0) =~= o.skip(1));
        assert(o1.take(0).to_set() =~= Set::<TileId>::empty());
        assert(m1.remove_keys(Set::<TileId>::empty()) =~= m1);
        assert(o.take(1).to_set() =~= set![o[0]]) by {
            assert(o.take(1)[0] == o[0]);
            assert forall|x: TileId| o.take(1).to_set().contains(x) implies x == o[0] by {
                let q = choose|q: int| 0 <= q < 1 && #[trigger] o.take(1)[q] == x;
            }
        }
        assert(m.remove_keys(set![o[0]]) =~= m1);
    } else {
        assert(dropped(o1, m1) == j - 1);
        assert(o1.skip(j - 1) =~= o.skip(j));
        if j < ex {
            assert(o1[j - 1] == o[j]);
            assert(o1.skip(j) =~= o.skip(j + 1));
        }
        assert(o.take(j).to_set() =~= o1.take(j - 1).to_set().insert(o[0])) by {
            assert forall|x: TileId| o.take(j).to_set().contains(x) <==> o1.take(j - 1).to_set().insert(
                o[0],
            ).contains(x) by {
                if o.take(j).to_set().contains(x) {
                    let q = choose|q: int| 0 <= q < j && o.take(j)[q] == x;
                    if q > 0 {
                        assert(o1.take(j - 1)[q - 1] == x);
                    }
                }
                if o1.take(j - 1).to_set().contains(x) {
                    let q = choose|q: int| 0 <= q < j - 1 && #[trigger] o1.take(j - 1)[q] == x;
                    assert(o.take(j)[q + 1] == x);
                }
                if x == o[0] {
                    assert(o.take(j)[0] == x);
                }
            }
        }
        assert(m.remove_keys(o.take(j).to_set()) =~= m1.remove_keys(o1.take(j - 1).to_set()));
    }
}

/// The column a tile stands in at a level of `n` columns: columns wrap
/// round the globe.
pub open spec fn wrapped(x: int, n: int) -> int {
    x % n
}

/// The tiles of row `y` from column `x0` to `x1`, wrapped round.
pub open spec fn row_of(z: u8, x0: int, x1: int, y: int, n: int) -> Seq<TileId> {
    if x0 > x1 {
        Seq::empty()
    } else {
        Seq::new((x1 - x0 + 1) as nat, |k: int| TileId { z, x: wrapped(x0 + k, n) as u32, y: y as u32 })
    }
}

/// The tiles of rows `y0` to `y`, row by row; rows off the top or the
/// bottom of the map have none.
pub open spec fn rows_upto(z: u8, x0: int, x1: int, y0: int, y: int, n: int) -> Seq<TileId>
    decreases y - y0 + 1,
{
    if y < y0 {
        Seq::empty()
    } else {
        rows_upto(z, x0, x1, y0, y - 1, n) + if 0 <= y < n {
            row_of(z, x0, x1, y, n)
        } else {
            Seq::empty()
        }
    }
}

/// The tiles that cover columns `x0..=x1` and rows `y0..=y1` at level `z`.
pub open spec fn visible(z: u8, x0: int, x1: int, y0: int, y1: int) -> Seq<TileId> {
    rows_upto(z, x0, x1, y0, y1, pow2(z as nat) as int)
}

/// `x` wrapped into `0..n`.
fn wrap(x: i64, n: i64) -> (r: u32)
    requires
        0 < n <= 0x8000_0000,
    ensures
        r == wrapped(x as int, n as int),
{
    if x >= 0 {
        let r = x % n;
        (r as u32)
    } else {
        let a = -(x + 1);
        let q = a / n;
        let r = a % n;
        proof {
            assert(a == q * n + r) by (nonlinear_arith)
                requires
                    q == a / n,
                    r == a % n,
                    n > 0,
                    a >= 0,
            ;
            assert(x == (-(q + 1)) * n + (n - 1 - r)) by (nonlinear_arith)
                requires
                    a == q * n + r,
                    a == -(x + 1),
            ;
            lemma_fundamental_div_mod_converse_mod(x as int, n as int, -(q + 1), n - 1 - r);
        }
        ((n - 1 - r) as u32)
    }
}

/// The tiles to draw for a view that spans columns `x0..=x1` and rows
/// `y0..=y1` at level `z`: row by row, columns wrapped round the globe,
/// rows off the map skipped.
pub fn visible_tiles(z: u8, x0: i64, x1: i64, y0: i64, y1: i64) -> (out: Vec<TileId>)
    requires
        z < 32,
    ensures
        out@ == visible(z, x0 as int, x1 as int, y0 as int, y1 as int),
{
    let mut n: i64 = 1;
    let mut k: u8 = 0;
    proof {
        vstd::arithmetic::power2::lemma2_to64();
    }
    while k < z
        invariant
            k <= z < 32,
            n == pow2(k as nat),
        decreases z - k,
    {
        proof {
            lemma_pow2_unfold((k + 1) as nat);
            lemma_pow2_strictly_increases((k + 1) as nat, 32);
            vstd::arithmetic::power2::lemma2_to64();
        }
        n = n * 2;
        k = k + 1;
    }
    proof {
        vstd::arithmetic::power2::lemma2_to64();
        if z < 31 {
            lemma_pow2_strictly_increases(z as nat, 31);
        }
    }
    let ghost nn = n as int;
    let mut out: Vec<TileId> = Vec::new();
    if y0 > y1 {
        return out;
    }
    let mut ty = y0;
    loop
        invariant_except_break
            out@ == rows_upto(z, x0 as int, x1 as int, y0 as int, ty - 1, nn),
        invariant
            y0 <= ty <= y1,
            nn == n,
            n == pow2(z as nat),
            0 < n <= 0x8000_0000,
        ensures
            out@ == rows_upto(z, x0 as int, x1 as int, y0 as int, y1 as int, nn),
        decreases y1 - ty,
    {
        let ghost before = out@;
        if 0 <= ty && ty < n && x0 <= x1 {
            let mut tx = x0;
            loop
                invariant_except_break
                    out@ == before + row_of(z, x0 as int, tx - 1, ty as int, n as int),
                invariant
                    x0 <= tx <= x1,
                    0 <= ty < n,
                    0 < n <= 0x8000_0000,
                ensures
                    out@ == before + row_of(z, x0 as int, x1 as int, ty as int, n as int),
                decreases x1 - tx,
            {
                let x = wrap(tx, n);
                out.push(TileId { z, x, y: ty as u32 });
                assert(row_of(z, x0 as int, tx as int, ty as int, n as int) =~= row_of(
                    z,
                    x0 as int,
                    tx - 1,
                    ty as int,
                    n as int,
                ).push(TileId { z, x, y: ty as u32 }));
                if tx == x1 {
                    break;
                }
                tx = tx + 1;
            }
        } else if 0 <= ty && ty < n {
            assert(row_of(z, x0 as int, x1 as int, ty as int, n as int) =~= Seq::<TileId>::empty());
            assert(before + Seq::<TileId>::empty() =~= before);
        } else {
            assert(before + Seq::<TileId>::empty() =~= before);
        }
        assert(out@ == rows_upto(z, x0 as int, x1 as int, y0 as int, ty as int, nn));
        if ty == y1 {
            break;
        }
        ty = ty + 1;
    }
    out
}

proof fn lemma_rows_on_map(z: u8, x0: int, x1: int, y0: int, y: int, n: int)
    requires
        n > 0,
    ensures
        forall|k: int|
            0 <= k < rows_upto(z, x0, x1, y0, y, n).len() ==> {
                let t = #[trigger] rows_upto(z, x0, x1, y0, y, n)[k];
                &&& t.z == z
                &&& 0 <= wrapped(t.x as int, n) < n
                &&& (t.y as int) < n
            },
    decreases y - y0 + 1,
{
    if y >= y0 {
        lemma_rows_on_map(z, x0, x1, y0, y - 1, n);
        let a = rows_upto(z, x0, x1, y0, y - 1, n);
        let b = if 0 <= y < n { row_of(z, x0, x1, y, n) } else { Seq::<TileId>::empty() };
        assert forall|k: int| 0 <= k < (a + b).len() implies {
            let t = #[trigger] (a + b)[k];
            &&& t.z == z
            &&& 0 <= wrapped(t.x as int, n) < n
            &&& (t.y as int) < n
        } by {
            if k >= a.len() {
                let j = k - a.len();
                assert((a + b)[k] == b[j]);
                let w = wrapped(x0 + j, n);
                assert(0 <= w < n);
            }
        }
    }
}

/// Every tile drawn is on the map: at the level asked for, in a row of the
/// map, in a column within the map once wrapped.
pub proof fn visible_tiles_are_on_the_map(z: u8, x0: int, x1: int, y0: int, y1: int)
    ensures
        forall|k: int|
            0 <= k < visible(z, x0, x1, y0, y1).len() ==> {
                let t = #[trigger] visible(z, x0, x1, y0, y1)[k];
                &&& t.z == z
                &&& (t.y as int) < pow2(z as nat)
            },
{
    vstd::arithmetic::power2::lemma_pow2_pos(z as nat);
    lemma_rows_on_map(z, x0, x1, y0, y1, pow2(z as nat) as int);
}

/// Eviction never drops a tile that is still loading.
pub proof fn loading_tiles_survive_eviction<T>(o: Seq<TileId>, m: Map<TileId, Slot<T>>, id: TileId)
    requires
        is_loading(m, id),
    ensures
        evicted_slots(o, m).dom().contains(id),
        evicted_slots(o, m)[id] == m[id],
{
    if o.len() > CACHE_MAX {
        lemma_first_loading(o, m, 0, o.len() - CACHE_MAX);
        if o.take(dropped(o, m)).to_set().contains(id) {
            let q = choose|q: int| 0 <= q < dropped(o, m) && o.take(dropped(o, m))[q] == id;
            assert(o[q] == id);
        }
    } else {
        assert(o.take(0).to_set() =~= Set::<TileId>::empty());
    }
}

/// A tile just asked for is held afterwards, loading.
pub proof fn requested_tile_is_held<T>(o: Seq<TileId>, m: Map<TileId, Slot<T>>, id: TileId)
    ensures
        evicted_slots(o.push(id), m.insert(id, Slot::Loading)).dom().contains(id),
        evicted_slots(o.push(id), m.insert(id, Slot::Loading))[id] is Loading,
{
    loading_tiles_survive_eviction(o.push(id), m.insert(id, Slot::<T>::Loading), id);
}

/// After eviction the cache holds no more tiles than the limit, unless it
/// stopped at a tile still loading.
pub proof fn eviction_bounds_the_cache<T>(o: Seq<TileId>, m: Map<TileId, Slot<T>>)
    ensures
        !stopped(o, m) ==> evicted_order(o, m).len() <= CACHE_MAX,
        stopped(o, m) ==> is_loading(m, evicted_order(o, m).last()),
{
    if o.len() > CACHE_MAX {
        lemma_first_loading(o, m, 0, o.len() - CACHE_MAX);
    }
}

/// Eviction keeps every held tile in the age order and the age order free
/// of repeats: where the tiles held are exactly the tiles ordered, once
/// each, so they are after eviction. What goes are the oldest tiles, none
/// of them still loading, taken out of both; the tiles kept keep where
/// they stand.
pub proof fn eviction_keeps_the_age_order<T>(o: Seq<TileId>, m: Map<TileId, Slot<T>>)
    requires
        o.no_duplicates(),
        forall|id: TileId| m.dom().contains(id) <==> o.contains(id),
    ensures
        evicted_order(o, m).no_duplicates(),
        forall|id: TileId|
            evicted_slots(o, m).dom().contains(id) <==> #[trigger] evicted_order(o, m).contains(id),
        forall|q: int| 0 <= q < dropped(o, m) ==> !is_loading(m, #[trigger] o[q]),
        forall|q: int| 0 <= q < dropped(o, m) ==> !evicted_slots(o, m).dom().contains(#[trigger] o[q]),
        forall|id: TileId|
            #[trigger] evicted_slots(o, m).dom().contains(id) ==> m.dom().contains(id)
                && evicted_slots(o, m)[id] == m[id],
{
    let j = dropped(o, m);
    if o.len() > CACHE_MAX {
        lemma_first_loading(o, m, 0, o.len() - CACHE_MAX);
    }
    assert(0 <= j <= o.len());
    assert(stopped(o, m) ==> j < o.len());
    let gone = o.take(j).to_set();
    let kept = o.skip(j);
    assert forall|id: TileId| evicted_slots(o, m).dom().contains(id) <==> kept.contains(id) by {
        if kept.contains(id) {
            let q = choose|q: int| 0 <= q < kept.len() && kept[q] == id;
            assert(o[j + q] == id);
            assert(o.contains(id));
            if gone.contains(id) {
                let p = choose|p: int| 0 <= p < o.take(j).len() && o.take(j)[p] == id;
                assert(o[p] == o[j + q]);
            }
        }
        if evicted_slots(o, m).dom().contains(id) {
            assert(o.contains(id));
            let q = choose|q: int| 0 <= q < o.len() && o[q] == id;
            if q < j {
                assert(o.take(j)[q] == id);
            } else {
                assert(kept[q - j] == id);
            }
        }
    }
    assert forall|q: int| 0 <= q < j implies !evicted_slots(o, m).dom().contains(#[trigger] o[q]) by {
        assert(o.take(j)[q] == o[q]);
    }
    if stopped(o, m) {
        let e = o.skip(j + 1).push(o[j]);
        assert forall|id: TileId| #[trigger] e.contains(id) <==> kept.contains(id) by {
            if e.contains(id) {
                let q = choose|q: int| 0 <= q < e.len() && e[q] == id;
                if q < e.len() - 1 {
                    assert(kept[q + 1] == id);
                } else {
                    assert(kept[0] == id);
                }
            }
            if kept.contains(id) {
                let q = choose|q: int| 0 <= q < kept.len() && kept[q] == id;
                if q == 0 {
                    assert(e[e.len() - 1] == id);
                } else {
                    assert(e[q - 1] == id);
                }
            }
        }
        assert forall|a: int, b: int| 0 <= a < e.len() && 0 <= b < e.len() && a != b implies e[a] != e[b] by {
            let oa = if a == e.len() - 1 { j } else { j + 1 + a };
            let ob = if b == e.len() - 1 { j } else { j + 1 + b };
            assert(e[a] == o[oa] && e[b] == o[ob]);
        }
    } else {
        assert forall|a: int, b: int| 0 <= a < kept.len() && 0 <= b < kept.len() && a != b implies kept[a]
            != kept[b] by {
            assert(kept[a] == o[j + a] && kept[b] == o[j + b]);
        }
    }
}

/// The cache keeps 512 tiles: eviction leaves at most that many in the age
/// order, unless it stopped at a tile still loading.
pub proof fn the_cache_holds_512_tiles<T>(o: Seq<TileId>, m: Map<TileId, Slot<T>>)
    ensures
        !stopped(o, m) ==> evicted_order(o, m).len() <= 512,
        o.len() <= 512 ==> evicted_order(o, m) == o && evicted_slots(o, m) == m,
{
    eviction_bounds_the_cache(o, m);
    lemma_evict_start(o, m);
}

} // verus!
