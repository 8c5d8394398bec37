//! The policy model: effects, scope constraints, and the policy record.

use vstd::prelude::*;

use crate::entity::EntityStore;
use crate::entity::EntityUID;
use crate::entity::SpecStore;
use crate::entity::SpecUid;
use crate::entity::hierarchy_fault;
use crate::entity::is_ancestor;
use crate::entity::spec_descendant_or_self;
use crate::entity::uid_in;
use crate::entity::uid_list_contains;
use crate::error::EvaluationError;
use crate::eval::Expr;

verus! {

/// What a satisfied policy contributes to the decision.
#[derive(Debug, Clone, Copy, PartialEq, Eq)]
pub enum Effect {
    Permit,
    Forbid,
}

/// A per-request-field match rule of a policy.
#[derive(Debug, PartialEq, Eq)]
pub enum ScopeConstraint {
    /// Matches every identity.
    Any,
    /// Matches exactly the given identity.
    EqTo(EntityUID),
    /// Matches the given identity and all its descendants.
    InEntity(EntityUID),
    /// Matches anything `InEntity` would match for one of the listed
    /// identities.
    InSet(Vec<EntityUID>),
}

/// A parsed policy: effect, one scope constraint per request field, and a
/// condition expression (the literal `true` when the policy has no
/// `when`/`unless` clause). Policies are never mutated after construction.
#[derive(Debug, PartialEq, Eq)]
pub struct Policy {
    pub id: String,
    pub effect: Effect,
    pub principal_scope: ScopeConstraint,
    pub action_scope: ScopeConstraint,
    pub resource_scope: ScopeConstraint,
    pub condition: Expr,
}

/// What matching a scope constraint against a target identity yields: an
/// error when the constraint consults a faulty hierarchy, else whether the
/// target matches.
pub open spec fn spec_scope_eval(sc: ScopeConstraint, target: SpecUid, s: SpecStore) -> Result<
    bool,
    EvaluationError,
> {
    match sc {
        ScopeConstraint::Any => Ok(true),
        ScopeConstraint::EqTo(u) => Ok(target == u@),
        ScopeConstraint::InEntity(u) => spec_descendant_or_self(s, target, u@),
        ScopeConstraint::InSet(us) => spec_in_set_eval(us, target, s),
    }
}

/// The `InSet` case: an error on a faulty hierarchy above the target, else
/// whether the target is one of the listed identities or a descendant of
/// one.
pub open spec fn spec_in_set_eval(us: Vec<EntityUID>, target: SpecUid, s: SpecStore) -> Result<
    bool,
    EvaluationError,
> {
    if hierarchy_fault(s, target) {
        Err(EvaluationError::CyclicHierarchy)
    } else {
        Ok(
            exists|i: int| #![trigger us@[i]]
                0 <= i < us@.len() && (target == us@[i]@ || is_ancestor(s, target, us@[i]@)),
        )
    }
}

/// Hierarchy transitivity at the scope level: when `b` is a parent of `a`
/// and `c` names a parent of `b`, a constraint `InEntity(c)` matches the
/// target `a` (on a sound hierarchy above `a`).
pub proof fn lemma_in_scope_transitive(s: SpecStore, a: SpecUid, b: SpecUid, c: EntityUID)
    requires
        crate::entity::has_parent(s, a, b),
        crate::entity::has_parent(s, b, c@),
        !hierarchy_fault(s, a),
    ensures
        spec_scope_eval(ScopeConstraint::InEntity(c), a, s) == Ok::<bool, EvaluationError>(true),
{
    crate::entity::lemma_parent_transitive(s, a, b, c@);
}

/// Matches one scope constraint against a target identity.
pub fn scope_eval(sc: &ScopeConstraint, target: &EntityUID, s: &EntityStore) -> (r: Result<
    bool,
    EvaluationError,
>)
    ensures
        r == spec_scope_eval(*sc, target@, s@),
{
    match sc {
        ScopeConstraint::Any => Ok(true),
        ScopeConstraint::EqTo(u) => Ok(target.same_as(u)),
        ScopeConstraint::InEntity(u) => s.is_descendant_or_self(target, u),
        ScopeConstraint::InSet(us) => in_set_eval(us, target, s),
    }
}

/// Matches the `InSet` form of a scope constraint.
fn in_set_eval(us: &Vec<EntityUID>, target: &EntityUID, s: &EntityStore) -> (r: Result<
    bool,
    EvaluationError,
>)
    ensures
        r == spec_in_set_eval(*us, target@, s@),
{
    match s.ancestors(target) {
        Err(k) => Err(k),
        Ok(anc) => {
            let n = us.len();
            let mut i: usize = 0;
            while i < n
                invariant
                    n == us@.len(),
                    0 <= i <= n,
                    !hierarchy_fault(s@, target@),
                    forall|b: SpecUid| #![auto] uid_in(anc@, b) == is_ancestor(s@, target@, b),
                    forall|j: int|
                        0 <= j < i ==> !(target@ == us@[j]@ || is_ancestor(s@, target@, us@[j]@)),
                decreases n - i,
            {
                let hit = target.same_as(&us[i]) || uid_list_contains(&anc, &us[i]);
                if hit {
                    assert(target@ == us@[i as int]@ || is_ancestor(s@, target@, us@[i as int]@));
                    assert(exists|ii: int| #![trigger us@[ii]]
                        0 <= ii < us@.len() && (target@ == us@[ii]@ || is_ancestor(
                            s@,
                            target@,
                            us@[ii]@,
                        )));
                    return Ok(true);
                }
                i = i + 1;
            }
            Ok(false)
        },
    }
}

} // verus!
