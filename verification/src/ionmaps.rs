use vstd::prelude::*;

use std::collections::{BTreeSet, HashMap};

verus! {

/// What a look-up of a month's ionospheric maps gives.
pub enum Step {
    /// The maps are here; `get` hands them out.
    Have,
    /// They are not here yet; `true` when the caller must now fetch them.
    Wait(bool),
    /// Fetching them failed, for this reason. The failure is forgotten, so
    /// the next look-up fetches again.
    Failed(String),
}

/// A look-up, as the contracts see it.
pub enum StepView {
    Have,
    Wait(bool),
    Failed(Seq<char>),
}

impl View for Step {
    type V = StepView;

    open spec fn view(&self) -> StepView {
        match self {
            Step::Have => StepView::Have,
            Step::Wait(b) => StepView::Wait(*b),
            Step::Failed(e) => StepView::Failed(e@),
        }
    }
}

/// A fetch result, as the contracts see it.
pub open spec fn result_view<T>(r: Result<T, String>) -> Result<T, Seq<char>> {
    match r {
        Ok(t) => Ok(t),
        Err(e) => Err(e@),
    }
}

/// What a look-up of `month` gives, and the results and the months in
/// flight after it: maps that came in are handed out; a failure is
/// reported and forgotten, and the month is no longer in flight; a month
/// with nothing yet is put in flight, and fetched only if it was not in
/// flight already.
pub open spec fn look_up<T>(
    results: Map<usize, Result<T, Seq<char>>>,
    flying: Set<usize>,
    month: usize,
) -> (StepView, Map<usize, Result<T, Seq<char>>>, Set<usize>) {
    if results.dom().contains(month) {
        match results[month] {
            Ok(_) => (StepView::Have, results, flying),
            Err(e) => (StepView::Failed(e), results.remove(month), flying.remove(month)),
        }
    } else {
        (StepView::Wait(!flying.contains(month)), results, flying.insert(month))
    }
}

/// The ionospheric maps of each month as they come in, and the months
/// being fetched.
pub struct MapsCache<T> {
    results: HashMap<usize, Result<T, String>>,
    flying: BTreeSet<usize>,
}

impl<T> MapsCache<T> {
    /// What came back for each month.
    pub closed spec fn results(&self) -> Map<usize, Result<T, Seq<char>>> {
        self.results@.map_values(|r: Result<T, String>| result_view(r))
    }

    /// The months being fetched.
    pub closed spec fn flying(&self) -> Set<usize> {
        self.flying@
    }

    /// An empty cache.
    pub fn new() -> (c: Self)
        ensures
            c.results() == Map::<usize, Result<T, Seq<char>>>::empty(),
            c.flying() == Set::<usize>::empty(),
    {
        let c = MapsCache { results: HashMap::new(), flying: BTreeSet::new() };
        assert(c.results@.map_values(|r: Result<T, String>| result_view(r)) =~= Map::<
            usize,
            Result<T, Seq<char>>,
        >::empty());
        c
    }

    /// Looks up the maps of `month`, as `look_up` says.
    pub fn poll(&mut self, month: usize) -> (r: Step)
        ensures
            (r@, final(self).results(), final(self).flying()) == look_up(
                old(self).results(),
                old(self).flying(),
                month,
            ),
    {
        broadcast use vstd::std_specs::hash::group_hash_axioms;
        broadcast use vstd::std_specs::btree::group_btree_axioms;
        broadcast use vstd::laws_cmp::group_laws_cmp;

        let failed = match self.results.get(&month) {
            Some(Ok(_)) => Some(None),
            Some(Err(e)) => Some(Some(e.clone())),
            None => None,
        };
        match failed {
            Some(None) => Step::Have,
            Some(Some(e)) => {
                self.results.remove(&month);
                self.flying.remove(&month);
                assert(self.results@.map_values(|r: Result<T, String>| result_view(r)) =~= old(
                    self,
                ).results().remove(month));
                Step::Failed(e)
            },
            None => {
                let fresh = self.flying.insert(month);
                Step::Wait(fresh)
            },
        }
    }

    /// The maps of `month`, when they are here.
    pub fn get(&self, month: usize) -> (r: Option<&T>)
        ensures
            match r {
                Some(t) => self.results().dom().contains(month) && self.results()[month] == Ok::<T, Seq<char>>(*t),
                None => !(self.results().dom().contains(month) && self.results()[month] is Ok),
            },
    {
        broadcast use vstd::std_specs::hash::group_hash_axioms;

        match self.results.get(&month) {
            Some(Ok(t)) => Some(t),
            _ => None,
        }
    }

    /// Records what a fetch of `month` brought back.
    pub fn arrived(&mut self, month: usize, result: Result<T, String>)
        ensures
            final(self).results() == old(self).results().insert(month, result_view(result)),
            final(self).flying() == old(self).flying(),
    {
        broadcast use vstd::std_specs::hash::group_hash_axioms;

        let ghost rv = result_view(result);
        self.results.insert(month, result);
        assert(self.results@.map_values(|r: Result<T, String>| result_view(r)) =~= old(self).results().insert(
            month,
            rv,
        ));
    }
}

/// A month is fetched once while it is in flight: a look-up that starts a
/// fetch is followed, until the maps come back, by look-ups that wait
/// without fetching again.
pub proof fn one_fetch_at_a_time<T>(
    results: Map<usize, Result<T, Seq<char>>>,
    flying: Set<usize>,
    month: usize,
)
    requires
        !results.dom().contains(month),
    ensures
        ({
            let (_, r1, f1) = look_up(results, flying, month);
            look_up(r1, f1, month).0 == StepView::Wait(false)
        }),
{
}

/// Maps that came in are handed out from then on.
pub proof fn arrived_maps_are_had<T>(
    results: Map<usize, Result<T, Seq<char>>>,
    flying: Set<usize>,
    month: usize,
    maps: T,
)
    ensures
        look_up(results.insert(month, Ok(maps)), flying, month).0 == StepView::Have,
        look_up(results.insert(month, Ok(maps)), flying, month).1 == results.insert(month, Ok(maps)),
{
}

/// A failure is reported once, and the look-up after it fetches again.
pub proof fn a_failure_is_reported_once<T>(
    results: Map<usize, Result<T, Seq<char>>>,
    flying: Set<usize>,
    month: usize,
    why: Seq<char>,
)
    ensures
        ({
            let (s1, r1, f1) = look_up(results.insert(month, Err(why)), flying, month);
            &&& s1 == StepView::Failed(why)
            &&& look_up(r1, f1, month).0 == StepView::Wait(true)
        }),
{
    let r0 = results.insert(month, Err::<T, Seq<char>>(why));
    assert(!r0.remove(month).dom().contains(month));
    assert(!flying.remove(month).contains(month));
}

} // verus!
