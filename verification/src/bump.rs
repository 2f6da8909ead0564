//! The four-valued semantic-version impact lattice.

use vstd::prelude::*;

verus! {

/// How strongly a change set moves the version number.
#[derive(Debug, Clone, Copy, PartialEq, Eq, Structural)]
pub enum BumpKind {
    Major,
    Minor,
    Patch,
    Unchanged,
}

impl BumpKind {
    /// Position in the order of dominance: unchanged, patch, minor, major.
    pub open spec fn rank(self) -> nat {
        match self {
            BumpKind::Unchanged => 0,
            BumpKind::Patch => 1,
            BumpKind::Minor => 2,
            BumpKind::Major => 3,
        }
    }

    /// The join of two impacts: whichever dominates.
    pub open spec fn join(self, other: BumpKind) -> BumpKind {
        if self.rank() >= other.rank() {
            self
        } else {
            other
        }
    }

    /// Combines two impacts into the stronger of the two.
    pub fn escalate(self, other: BumpKind) -> (r: BumpKind)
        ensures
            r == self.join(other),
    {
        match (self, other) {
            (BumpKind::Major, _) | (_, BumpKind::Major) => BumpKind::Major,
            (BumpKind::Minor, _) | (_, BumpKind::Minor) => BumpKind::Minor,
            (BumpKind::Patch, _) | (_, BumpKind::Patch) => BumpKind::Patch,
            (BumpKind::Unchanged, BumpKind::Unchanged) => BumpKind::Unchanged,
        }
    }
}

/// The impacts of `kinds` joined one after the other, from no impact at all.
pub open spec fn escalate_all(kinds: Seq<BumpKind>) -> BumpKind
    decreases kinds.len(),
{
    if kinds.len() == 0 {
        BumpKind::Unchanged
    } else {
        escalate_all(kinds.drop_last()).join(kinds.last())
    }
}

/// The order of the two impacts does not matter.
pub proof fn lemma_escalate_commutative(a: BumpKind, b: BumpKind)
    ensures
        a.join(b) == b.join(a),
{
}

/// Neither does the grouping of three.
pub proof fn lemma_escalate_associative(a: BumpKind, b: BumpKind, c: BumpKind)
    ensures
        a.join(b).join(c) == a.join(b.join(c)),
{
}

/// An impact joined with itself is itself.
pub proof fn lemma_escalate_idempotent(a: BumpKind)
    ensures
        a.join(a) == a,
{
}

/// No impact changes nothing.
pub proof fn lemma_escalate_identity(a: BumpKind)
    ensures
        a.join(BumpKind::Unchanged) == a,
        BumpKind::Unchanged.join(a) == a,
{
}

/// A major impact wins whatever it is joined with.
pub proof fn lemma_escalate_major_absorbs(a: BumpKind)
    ensures
        a.join(BumpKind::Major) == BumpKind::Major,
        BumpKind::Major.join(a) == BumpKind::Major,
{
}

/// The join of a list is its strongest member, or no impact where the list
/// is empty: every member is at most as strong, and one member is as strong.
pub proof fn lemma_escalate_all_is_strongest(kinds: Seq<BumpKind>)
    ensures
        forall|i: int| 0 <= i < kinds.len() ==> (#[trigger] kinds[i]).rank() <= escalate_all(
            kinds,
        ).rank(),
        kinds.len() == 0 ==> escalate_all(kinds) == BumpKind::Unchanged,
        kinds.len() > 0 ==> kinds.contains(escalate_all(kinds)),
    decreases kinds.len(),
{
    if kinds.len() > 0 {
        let rest = kinds.drop_last();
        lemma_escalate_all_is_strongest(rest);
        assert forall|i: int| 0 <= i < kinds.len() implies (#[trigger] kinds[i]).rank()
            <= escalate_all(kinds).rank() by {
            if i < rest.len() {
                assert(kinds[i] == rest[i]);
            }
        }
        if escalate_all(kinds) == kinds.last() {
            assert(kinds[kinds.len() - 1] == escalate_all(kinds));
        } else {
            assert(escalate_all(kinds) == escalate_all(rest));
            if rest.len() == 0 {
                assert(kinds.last().rank() == 0);
            } else {
                let k = choose|k: int| 0 <= k < rest.len() && rest[k] == escalate_all(rest);
                assert(kinds[k] == escalate_all(kinds));
            }
        }
    }
}

/// A list with a major impact anywhere in it joins to a major impact.
pub proof fn lemma_escalate_all_with_major(kinds: Seq<BumpKind>)
    requires
        kinds.contains(BumpKind::Major),
    ensures
        escalate_all(kinds) == BumpKind::Major,
{
    lemma_escalate_all_is_strongest(kinds);
    let k = choose|k: int| 0 <= k < kinds.len() && kinds[k] == BumpKind::Major;
    assert(kinds[k].rank() <= escalate_all(kinds).rank());
}

/// Lists with the same members join to the same impact, whatever their order
/// and however often a member occurs.
pub proof fn lemma_escalate_all_ignores_order(a: Seq<BumpKind>, b: Seq<BumpKind>)
    requires
        forall|k: BumpKind| a.contains(k) <==> b.contains(k),
    ensures
        escalate_all(a) == escalate_all(b),
{
    lemma_escalate_all_is_strongest(a);
    lemma_escalate_all_is_strongest(b);
    if a.len() == 0 {
        if b.len() > 0 {
            assert(b.contains(b[0]));
        }
    } else {
        assert(a.contains(a[0]));
        assert(b.len() > 0);
        let i = choose|i: int| 0 <= i < a.len() && a[i] == escalate_all(b);
        let j = choose|j: int| 0 <= j < b.len() && b[j] == escalate_all(a);
        assert(a[i].rank() <= escalate_all(a).rank());
        assert(b[j].rank() <= escalate_all(b).rank());
    }
}

} // verus!
