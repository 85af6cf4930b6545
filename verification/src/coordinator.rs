//! The per-environment update coordinator: one cell per environment name,
//! created by the first request for the name and resolved exactly once, so
//! that one reconciliation serves every request for the same environment.

use dashmap::DashMap;
use vstd::prelude::*;
use vstd::string::*;

verus! {

/// `dashmap::DashMap`, whose inside is not looked into: what a map holds is
/// told by `index_entries`.
#[verifier::external_type_specification]
#[verifier::external_body]
#[verifier::reject_recursive_types(K)]
#[verifier::reject_recursive_types(V)]
#[verifier::reject_recursive_types(S)]
pub struct ExDashMap<K, V, S>(DashMap<K, V, S>);

/// The entries of a name index: for each key the number stored under it.
pub uninterp spec fn index_entries(index: DashMap<String, usize>) -> Map<Seq<char>, usize>;

/// `DashMap::new`: a map without entries.
#[verifier::external_body]
fn index_new() -> (index: DashMap<String, usize>)
    ensures
        forall|key: Seq<char>| !index_entries(index).contains_key(key),
{
    DashMap::new()
}

/// `DashMap::get`: the number stored under `key`, if the map has the key.
/// The map is left as it was.
#[verifier::external_body]
fn index_get(index: &DashMap<String, usize>, key: &str) -> (slot: Option<usize>)
    ensures
        slot is Some <==> index_entries(*index).contains_key(key@),
        slot is Some ==> slot->Some_0 == index_entries(*index)[key@],
{
    index.get(key).map(|entry| *entry.value())
}

/// `DashMap::insert`: afterwards `key` maps to `slot` and every other key
/// maps to what it did; the number that `key` mapped to before is returned.
#[verifier::external_body]
fn index_insert(index: &mut DashMap<String, usize>, key: String, slot: usize) -> (previous: Option<usize>)
    ensures
        index_entries(*final(index)) == index_entries(*old(index)).insert(key@, slot),
        previous is Some <==> index_entries(*old(index)).contains_key(key@),
        previous is Some ==> previous->Some_0 == index_entries(*old(index))[key@],
{
    index.insert(key, slot)
}

/// What the coordinator holds for one environment.
#[derive(Debug, PartialEq, Eq)]
pub enum Cell<R> {
    /// A reconciliation was started and has not reported yet.
    InFlight,
    /// The reconciliation reported this result, which stays for good.
    Resolved(R),
}

/// What a request for an environment is told.
#[derive(Debug, PartialEq, Eq)]
pub enum Ticket<'a, R> {
    /// No one asked for this environment before: the caller runs the
    /// reconciliation and reports with [`Coordinator::finish`].
    Run,
    /// Another caller is running the reconciliation: wait for its report.
    Wait,
    /// The reconciliation has reported: this is its result.
    Ready(&'a R),
}

/// Maps environment names to their cells. The names are indexed by a
/// concurrent map; the cells stand in a vector in the order of their
/// creation.
pub struct Coordinator<R> {
    index: DashMap<String, usize>,
    cells: Vec<Cell<R>>,
}

impl<R> Coordinator<R> {
    /// Every indexed name points at a cell of its own.
    pub closed spec fn wf(&self) -> bool {
        let entries = index_entries(self.index);
        &&& forall|name: Seq<char>| #[trigger]
            entries.contains_key(name) ==> entries[name] < self.cells@.len()
        &&& forall|a: Seq<char>, b: Seq<char>|
            entries.contains_key(a) && entries.contains_key(b) && a != b ==> #[trigger] entries[a]
                != #[trigger] entries[b]
    }

    /// The cell of each environment that was asked for.
    pub closed spec fn cells(&self) -> Map<Seq<char>, Cell<R>> {
        Map::new(
            |name: Seq<char>| index_entries(self.index).contains_key(name),
            |name: Seq<char>| self.cells@[index_entries(self.index)[name] as int],
        )
    }

    /// A coordinator that no environment was asked of.
    pub fn new() -> (r: Coordinator<R>)
        ensures
            r.wf(),
            r.cells() == Map::<Seq<char>, Cell<R>>::empty(),
    {
        let r = Coordinator { index: index_new(), cells: Vec::new() };
        assert(r.cells() =~= Map::<Seq<char>, Cell<R>>::empty());
        r
    }

    /// Asks for the reconciliation of `name`. The first request creates the
    /// cell and is told to run; every later one is told to wait while the
    /// cell is in flight, and is handed the result once it is resolved.
    pub fn begin(&mut self, name: &str) -> (ticket: Ticket<'_, R>)
        requires
            old(self).wf(),
        ensures
            final(self).wf(),
            final(self).cells() == begin_cells(old(self).cells(), name@),
            ticket_matches(ticket, old(self).cells(), name@),
    {
        match index_get(&self.index, name) {
            Some(slot) => {
                assert(self.cells() =~= begin_cells(self.cells(), name@));
                match &self.cells[slot] {
                    Cell::InFlight => Ticket::Wait,
                    Cell::Resolved(result) => Ticket::Ready(result),
                }
            },
            None => {
                let slot = self.cells.len();
                self.cells.push(Cell::InFlight);
                let ghost before = index_entries(self.index);
                index_insert(&mut self.index, String::from_str(name), slot);
                assert(self.cells() =~= begin_cells(old(self).cells(), name@)) by {
                    assert forall|k: Seq<char>| before.contains_key(k) implies self.cells@[before[k] as int]
                        == old(self).cells@[before[k] as int] by {}
                }
                Ticket::Run
            },
        }
    }

    /// Reports the result of the reconciliation of `name`. The result is
    /// stored only where the cell is in flight: a resolved cell keeps its
    /// result, and a name that was never asked for gets no cell. Tells
    /// whether the result was stored.
    pub fn finish(&mut self, name: &str, result: R) -> (stored: bool)
        requires
            old(self).wf(),
        ensures
            final(self).wf(),
            final(self).cells() == finish_cells(old(self).cells(), name@, result),
            stored == is_in_flight(old(self).cells(), name@),
    {
        match index_get(&self.index, name) {
            Some(slot) => {
                let in_flight = match &self.cells[slot] {
                    Cell::InFlight => true,
                    Cell::Resolved(_) => false,
                };
                if in_flight {
                    self.cells.set(slot, Cell::Resolved(result));
                    assert(self.cells() =~= finish_cells(old(self).cells(), name@, result));
                    true
                } else {
                    false
                }
            },
            None => false,
        }
    }

    /// The result of the reconciliation of `name`, once it has reported.
    pub fn get(&self, name: &str) -> (r: Option<&R>)
        requires
            self.wf(),
        ensures
            r is Some <==> is_resolved(self.cells(), name@),
            r matches Some(result) ==> self.cells()[name@] == Cell::Resolved(*result),
    {
        match index_get(&self.index, name) {
            Some(slot) => match &self.cells[slot] {
                Cell::InFlight => None,
                Cell::Resolved(result) => Some(result),
            },
            None => None,
        }
    }

    /// Hands out the result for `name`, running `reconcile_fn` only if no
    /// one asked for the environment before. A result that is there already
    /// is returned as it is and `reconcile_fn` is dropped unused; while
    /// another caller's run is in flight there is nothing to hand out.
    pub fn get_or_run<F: FnOnce() -> R>(&mut self, name: &str, reconcile_fn: F) -> (r: Option<&R>)
        requires
            old(self).wf(),
            reconcile_fn.requires(()),
        ensures
            final(self).wf(),
            is_resolved(old(self).cells(), name@) ==> final(self).cells() == old(self).cells() && r
                == Some(&old(self).cells()[name@]->Resolved_0),
            is_in_flight(old(self).cells(), name@) ==> final(self).cells() == old(self).cells()
                && r is None,
            !old(self).cells().contains_key(name@) ==> r is Some && reconcile_fn.ensures(
                (),
                *r->Some_0,
            ) && final(self).cells() == old(self).cells().insert(
                name@,
                Cell::Resolved(*r->Some_0),
            ),
    {
        match index_get(&self.index, name) {
            Some(_) => {},
            None => {
                let result = reconcile_fn();
                let slot = self.cells.len();
                self.cells.push(Cell::Resolved(result));
                let ghost before = index_entries(self.index);
                index_insert(&mut self.index, String::from_str(name), slot);
                assert(self.cells() =~= old(self).cells().insert(name@, Cell::Resolved(result))) by {
                    assert forall|k: Seq<char>| before.contains_key(k) implies self.cells@[before[k] as int]
                        == old(self).cells@[before[k] as int] by {}
                }
            },
        }
        self.get(name)
    }
}

/// The cells after a request for `name`: a cell in flight is added where the
/// name had none.
pub open spec fn begin_cells<R>(cells: Map<Seq<char>, Cell<R>>, name: Seq<char>) -> Map<
    Seq<char>,
    Cell<R>,
> {
    if cells.contains_key(name) {
        cells
    } else {
        cells.insert(name, Cell::InFlight)
    }
}

/// Whether `ticket` is what a request for `name` is owed, given the cells
/// before the request.
pub open spec fn ticket_matches<R>(ticket: Ticket<'_, R>, cells: Map<Seq<char>, Cell<R>>, name: Seq<char>) -> bool {
    if !cells.contains_key(name) {
        ticket is Run
    } else {
        match cells[name] {
            Cell::InFlight => ticket is Wait,
            Cell::Resolved(result) => ticket matches Ticket::Ready(r) && *r == result,
        }
    }
}

/// Whether the cell of `name` is in flight.
pub open spec fn is_in_flight<R>(cells: Map<Seq<char>, Cell<R>>, name: Seq<char>) -> bool {
    cells.contains_key(name) && cells[name] is InFlight
}

/// Whether the cell of `name` is resolved.
pub open spec fn is_resolved<R>(cells: Map<Seq<char>, Cell<R>>, name: Seq<char>) -> bool {
    cells.contains_key(name) && cells[name] is Resolved
}

/// The cells after a report for `name`: a cell in flight takes the result,
/// and nothing else changes.
pub open spec fn finish_cells<R>(cells: Map<Seq<char>, Cell<R>>, name: Seq<char>, result: R) -> Map<
    Seq<char>,
    Cell<R>,
> {
    if is_in_flight(cells, name) {
        cells.insert(name, Cell::Resolved(result))
    } else {
        cells
    }
}

/// One call on a coordinator, by any caller.
pub enum Request<R> {
    /// A request for the environment of this name.
    Begin(Seq<char>),
    /// A report of this result for the environment of this name.
    Finish(Seq<char>, R),
}

/// The cells after one call.
pub open spec fn after<R>(cells: Map<Seq<char>, Cell<R>>, request: Request<R>) -> Map<
    Seq<char>,
    Cell<R>,
> {
    match request {
        Request::Begin(name) => begin_cells(cells, name),
        Request::Finish(name, result) => finish_cells(cells, name, result),
    }
}

/// The cells after a sequence of calls, in whatever order the callers'
/// calls came to be interleaved.
pub open spec fn after_all<R>(cells: Map<Seq<char>, Cell<R>>, requests: Seq<Request<R>>) -> Map<
    Seq<char>,
    Cell<R>,
>
    decreases requests.len(),
{
    if requests.len() == 0 {
        cells
    } else {
        after_all(after(cells, requests[0]), requests.drop_first())
    }
}

/// How many of the calls are requests for `name` that are told to run.
pub open spec fn runs_started<R>(cells: Map<Seq<char>, Cell<R>>, requests: Seq<Request<R>>, name: Seq<char>) -> nat
    decreases requests.len(),
{
    if requests.len() == 0 {
        0
    } else {
        let started: nat = if requests[0] == Request::<R>::Begin(name) && !cells.contains_key(name) {
            1
        } else {
            0
        };
        started + runs_started(after(cells, requests[0]), requests.drop_first(), name)
    }
}

/// Whether one of the calls is a request for `name`.
pub open spec fn is_requested<R>(requests: Seq<Request<R>>, name: Seq<char>) -> bool {
    exists|i: int| 0 <= i < requests.len() && #[trigger] requests[i] == Request::<R>::Begin(name)
}

/// Once an environment has a cell, no further request for it is told to run.
pub proof fn lemma_no_second_run<R>(cells: Map<Seq<char>, Cell<R>>, requests: Seq<Request<R>>, name: Seq<char>)
    requires
        cells.contains_key(name),
    ensures
        runs_started(cells, requests, name) == 0,
    decreases requests.len(),
{
    if requests.len() > 0 {
        lemma_no_second_run(after(cells, requests[0]), requests.drop_first(), name);
    }
}

/// However many callers ask for an environment, and however their calls are
/// interleaved, exactly one of them is told to run its reconciliation; if
/// none asks, none runs.
pub proof fn lemma_exactly_one_run<R>(cells: Map<Seq<char>, Cell<R>>, requests: Seq<Request<R>>, name: Seq<char>)
    requires
        !cells.contains_key(name),
    ensures
        runs_started(cells, requests, name) == (if is_requested(requests, name) {
            1nat
        } else {
            0nat
        }),
    decreases requests.len(),
{
    if requests.len() > 0 {
        let rest = requests.drop_first();
        if requests[0] == Request::<R>::Begin(name) {
            lemma_no_second_run(after(cells, requests[0]), rest, name);
        } else {
            lemma_exactly_one_run(after(cells, requests[0]), rest, name);
            if is_requested(requests, name) {
                let i = choose|i: int|
                    0 <= i < requests.len() && #[trigger] requests[i] == Request::<R>::Begin(name);
                assert(rest[i - 1] == requests[i]);
            }
            if is_requested(rest, name) {
                let i = choose|i: int|
                    0 <= i < rest.len() && #[trigger] rest[i] == Request::<R>::Begin(name);
                assert(requests[i + 1] == rest[i]);
            }
        }
    }
}

/// A resolved cell keeps its result whatever calls follow, so every caller
/// that asks afterwards is handed the same result.
pub proof fn lemma_result_is_final<R>(
    cells: Map<Seq<char>, Cell<R>>,
    requests: Seq<Request<R>>,
    name: Seq<char>,
    result: R,
)
    requires
        cells.contains_key(name),
        cells[name] == Cell::Resolved(result),
    ensures
        after_all(cells, requests).contains_key(name),
        after_all(cells, requests)[name] == Cell::Resolved(result),
    decreases requests.len(),
{
    if requests.len() > 0 {
        lemma_result_is_final(after(cells, requests[0]), requests.drop_first(), name, result);
    }
}

} // verus!

