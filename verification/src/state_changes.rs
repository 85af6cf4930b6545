//! What an operation changed, kept in the order it happened, so that the
//! changes of several steps can be reported as one.

use vstd::prelude::*;

verus! {

/// The kind of a change.
#[derive(Debug, Clone, Copy, PartialEq, Eq, Structural)]
pub enum ChangeKind {
    /// An executable was exposed: the subject is its exposed name.
    AddedExposed,
    /// An exposed name was taken away: the subject is that name.
    RemovedExposed,
    /// The environment was brought in step with its manifest: the subject
    /// is empty.
    UpdatedEnvironment,
}

/// One change to one environment.
#[derive(Debug, Clone, PartialEq, Eq)]
pub struct StateChange {
    pub environment: String,
    pub kind: ChangeKind,
    pub subject: String,
}

/// What a change says.
pub struct ChangeModel {
    pub environment: Seq<char>,
    pub kind: ChangeKind,
    pub subject: Seq<char>,
}

impl View for StateChange {
    type V = ChangeModel;

    open spec fn view(&self) -> ChangeModel {
        ChangeModel { environment: self.environment@, kind: self.kind, subject: self.subject@ }
    }
}

/// The changes that an operation made.
#[derive(Debug, Clone, PartialEq, Eq)]
pub struct StateChanges {
    changes: Vec<StateChange>,
}

impl View for StateChanges {
    type V = Seq<ChangeModel>;

    closed spec fn view(&self) -> Seq<ChangeModel> {
        self.changes@.map_values(|c: StateChange| c@)
    }
}

impl StateChanges {
    /// No changes.
    pub fn new() -> (r: StateChanges)
        ensures
            r@ == Seq::<ChangeModel>::empty(),
    {
        let r = StateChanges { changes: Vec::new() };
        assert(r@ =~= Seq::<ChangeModel>::empty());
        r
    }

    /// Notes one more change.
    pub fn push(&mut self, change: StateChange)
        ensures
            final(self)@ == old(self)@.push(change@),
    {
        self.changes.push(change);
        assert(self@ =~= old(self)@.push(change@));
    }

    /// Takes the changes of another operation in, after those that are
    /// there.
    pub fn merge(&mut self, other: StateChanges)
        ensures
            final(self)@ == old(self)@ + other@,
    {
        let mut other = other;
        let ghost taken = other.changes@;
        self.changes.append(&mut other.changes);
        assert(self@ =~= old(self)@ + taken.map_values(|c: StateChange| c@));
    }

    /// The number of changes.
    pub fn len(&self) -> (r: usize)
        ensures
            r == self@.len(),
    {
        self.changes.len()
    }

    /// Whether nothing changed.
    pub fn is_empty(&self) -> (r: bool)
        ensures
            r == (self@.len() == 0),
    {
        self.changes.len() == 0
    }

    /// The change at `position`.
    pub fn get(&self, position: usize) -> (r: Option<&StateChange>)
        ensures
            r is Some <==> position < self@.len(),
            r matches Some(change) ==> change@ == self@[position as int],
    {
        if position < self.changes.len() {
            Some(&self.changes[position])
        } else {
            None
        }
    }
}

/// Merging is associative: it does not matter which two of three sets of
/// changes are merged first.
pub proof fn lemma_merge_is_associative(a: Seq<ChangeModel>, b: Seq<ChangeModel>, c: Seq<ChangeModel>)
    ensures
        (a + b) + c == a + (b + c),
{
    assert((a + b) + c =~= a + (b + c));
}

/// A merge holds exactly the changes of its two parts: their union.
pub proof fn lemma_merge_is_union(a: Seq<ChangeModel>, b: Seq<ChangeModel>, change: ChangeModel)
    ensures
        (a + b).contains(change) <==> a.contains(change) || b.contains(change),
{
    if a.contains(change) {
        let i = choose|i: int| 0 <= i < a.len() && a[i] == change;
        assert((a + b)[i] == change);
    }
    if b.contains(change) {
        let i = choose|i: int| 0 <= i < b.len() && b[i] == change;
        assert((a + b)[a.len() + i] == change);
    }
    if (a + b).contains(change) {
        let i = choose|i: int| 0 <= i < (a + b).len() && (a + b)[i] == change;
        if i < a.len() {
            assert(a[i] == change);
        } else {
            assert(b[i - a.len()] == change);
        }
    }
}

} // verus!
