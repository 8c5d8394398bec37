//! The decision engine: matches policies against a request, evaluates their
//! conditions, and combines the results into a decision with diagnostics.
//!
//! Combination has a fixed precedence: any satisfied forbid policy denies
//! and its reasons are the satisfied forbid ids; otherwise any satisfied
//! permit policy allows and its reasons are the satisfied permit ids;
//! otherwise the request is denied with no reasons. Evaluation faults make
//! a policy unsatisfied and are recorded in the diagnostics in policy order.

use vstd::prelude::*;

use crate::entity::EntityStore;
use crate::entity::EntityUID;
use crate::entity::SpecStore;
use crate::entity::has_cycle_from;
use crate::entity::lemma_cycle_faults;
use crate::error::EvaluationError;
use crate::eval::eval_expr;
use crate::eval::spec_eval;
use crate::policy::Effect;
use crate::policy::Policy;
use crate::policy::ScopeConstraint;
use crate::policy::scope_eval;
use crate::policy::spec_scope_eval;
use crate::request::NormalizedRequest;
use crate::request::SpecRequest;
use crate::value::SpecValue;
use crate::value::Value;

verus! {

/// The decision of an evaluation.
#[derive(Debug, Clone, Copy, PartialEq, Eq)]
pub enum Decision {
    Allow,
    Deny,
}

/// One recorded evaluation fault: the policy it struck and its kind.
#[derive(Debug, PartialEq, Eq)]
pub struct FaultEntry {
    pub policy_id: String,
    pub kind: EvaluationError,
}

/// The explanation of a decision: the ids of the policies that produced it,
/// and the evaluation faults that struck along the way.
#[derive(Debug, PartialEq, Eq)]
pub struct Diagnostics {
    pub reasons: Vec<String>,
    pub errors: Vec<FaultEntry>,
}

/// Mathematical image of `Diagnostics`.
pub ghost struct SpecDiagnostics {
    pub reasons: Seq<Seq<char>>,
    pub errors: Seq<(Seq<char>, EvaluationError)>,
}

impl View for Diagnostics {
    type V = SpecDiagnostics;

    open spec fn view(&self) -> SpecDiagnostics {
        SpecDiagnostics {
            reasons: Seq::new(self.reasons@.len(), |i: int| self.reasons@[i]@),
            errors: Seq::new(
                self.errors@.len(),
                |i: int| (self.errors@[i].policy_id@, self.errors@[i].kind),
            ),
        }
    }
}

/// What an evaluation hands back: the decision, with diagnostics when the
/// engine ran (a fail-closed deny carries none).
#[derive(Debug, PartialEq, Eq)]
pub struct AuthorizationResponse {
    pub decision: Decision,
    pub diagnostics: Option<Diagnostics>,
}

/// Mathematical image of an `AuthorizationResponse`.
pub ghost struct SpecResponse {
    pub decision: Decision,
    pub diagnostics: Option<SpecDiagnostics>,
}

impl View for AuthorizationResponse {
    type V = SpecResponse;

    open spec fn view(&self) -> SpecResponse {
        SpecResponse {
            decision: self.decision,
            diagnostics: match self.diagnostics {
                Some(d) => Some(d@),
                None => None,
            },
        }
    }
}

impl AuthorizationResponse {
    /// The fail-closed response: deny, with no diagnostics.
    pub fn deny() -> (r: AuthorizationResponse)
        ensures
            r.decision == Decision::Deny,
            r.diagnostics is None,
    {
        AuthorizationResponse { decision: Decision::Deny, diagnostics: None }
    }

    /// Wraps an evaluated decision with its diagnostics.
    pub fn authz_decision(decision: Decision, diagnostics: Diagnostics) -> (r:
        AuthorizationResponse)
        ensures
            r.decision == decision,
            r.diagnostics == Some(diagnostics),
    {
        AuthorizationResponse { decision, diagnostics: Some(diagnostics) }
    }
}

/// How one policy fares against a request.
#[derive(Debug, Clone, Copy, PartialEq, Eq)]
pub enum Outcome {
    /// A scope constraint did not match; the policy is discarded silently.
    NotApplicable,
    /// All scopes matched but the condition evaluated to `false`.
    Unsatisfied,
    /// All scopes matched and the condition evaluated to `true`.
    Satisfied,
    /// Scope matching or condition evaluation stopped on a fault; the
    /// policy is unsatisfied and the fault is recorded.
    Fault(EvaluationError),
}

/// The outcome of one policy: principal, action and resource scope are
/// matched in that order, then the condition is evaluated; the first
/// non-match discards the policy, the first fault is its recorded fault. A
/// condition that completes with a non-boolean is a type mismatch.
pub open spec fn policy_outcome(p: Policy, req: SpecRequest, s: SpecStore) -> Outcome {
    match spec_scope_eval(p.principal_scope, req.principal, s) {
        Err(k) => Outcome::Fault(k),
        Ok(m) => if !m {
            Outcome::NotApplicable
        } else {
            match spec_scope_eval(p.action_scope, req.action, s) {
                Err(k) => Outcome::Fault(k),
                Ok(m2) => if !m2 {
                    Outcome::NotApplicable
                } else {
                    match spec_scope_eval(p.resource_scope, req.resource, s) {
                        Err(k) => Outcome::Fault(k),
                        Ok(m3) => if !m3 {
                            Outcome::NotApplicable
                        } else {
                            match spec_eval(p.condition, req, s) {
                                Err(k) => Outcome::Fault(k),
                                Ok(SpecValue::Bool(b)) => if b {
                                    Outcome::Satisfied
                                } else {
                                    Outcome::Unsatisfied
                                },
                                Ok(_) => Outcome::Fault(EvaluationError::TypeMismatch),
                            }
                        },
                    }
                },
            }
        },
    }
}

/// The ids of the satisfied policies with the given effect, in policy
/// order.
pub open spec fn satisfied_ids(
    ps: Seq<Policy>,
    eff: Effect,
    req: SpecRequest,
    s: SpecStore,
) -> Seq<Seq<char>>
    decreases ps.len(),
{
    if ps.len() == 0 {
        Seq::empty()
    } else {
        let rest = satisfied_ids(ps.drop_first(), eff, req, s);
        if policy_outcome(ps[0], req, s) == Outcome::Satisfied && ps[0].effect == eff {
            seq![ps[0].id@] + rest
        } else {
            rest
        }
    }
}

/// The recorded faults, in policy order: one entry per policy whose
/// outcome is a fault.
pub open spec fn fault_entries(ps: Seq<Policy>, req: SpecRequest, s: SpecStore) -> Seq<
    (Seq<char>, EvaluationError),
>
    decreases ps.len(),
{
    if ps.len() == 0 {
        Seq::empty()
    } else {
        let rest = fault_entries(ps.drop_first(), req, s);
        match policy_outcome(ps[0], req, s) {
            Outcome::Fault(k) => seq![(ps[0].id@, k)] + rest,
            _ => rest,
        }
    }
}

/// The meaning of an evaluation: deny with the satisfied forbid ids when
/// there are any; else allow with the satisfied permit ids when there are
/// any; else deny with no reasons. The recorded faults accompany every
/// outcome.
pub open spec fn spec_evaluate(req: SpecRequest, ps: Seq<Policy>, s: SpecStore) -> SpecResponse {
    let forbids = satisfied_ids(ps, Effect::Forbid, req, s);
    let permits = satisfied_ids(ps, Effect::Permit, req, s);
    let errors = fault_entries(ps, req, s);
    if forbids.len() > 0 {
        SpecResponse {
            decision: Decision::Deny,
            diagnostics: Some(SpecDiagnostics { reasons: forbids, errors }),
        }
    } else if permits.len() > 0 {
        SpecResponse {
            decision: Decision::Allow,
            diagnostics: Some(SpecDiagnostics { reasons: permits, errors }),
        }
    } else {
        SpecResponse {
            decision: Decision::Deny,
            diagnostics: Some(SpecDiagnostics { reasons: Seq::empty(), errors }),
        }
    }
}

/// Determines the outcome of one policy for a request.
pub fn check_policy(p: &Policy, req: &NormalizedRequest, s: &EntityStore) -> (r: Outcome)
    ensures
        r == policy_outcome(*p, req@, s@),
{
    match scope_eval(&p.principal_scope, &req.principal, s) {
        Err(k) => Outcome::Fault(k),
        Ok(m) => if !m {
            Outcome::NotApplicable
        } else {
            match scope_eval(&p.action_scope, &req.action, s) {
                Err(k) => Outcome::Fault(k),
                Ok(m2) => if !m2 {
                    Outcome::NotApplicable
                } else {
                    match scope_eval(&p.resource_scope, &req.resource, s) {
                        Err(k) => Outcome::Fault(k),
                        Ok(m3) => if !m3 {
                            Outcome::NotApplicable
                        } else {
                            match eval_expr(&p.condition, req, s) {
                                Err(k) => Outcome::Fault(k),
                                Ok(v) => match v {
                                    Value::Bool(b) => if b {
                                        Outcome::Satisfied
                                    } else {
                                        Outcome::Unsatisfied
                                    },
                                    _ => Outcome::Fault(EvaluationError::TypeMismatch),
                                },
                            }
                        },
                    }
                },
            }
        },
    }
}

/// The image of a reason list.
pub open spec fn reasons_view(v: Vec<String>) -> Seq<Seq<char>> {
    Seq::new(v@.len(), |i: int| v@[i]@)
}

/// The image of a fault list.
pub open spec fn faults_view(v: Vec<FaultEntry>) -> Seq<(Seq<char>, EvaluationError)> {
    Seq::new(v@.len(), |i: int| (v@[i].policy_id@, v@[i].kind))
}

proof fn lemma_satisfied_ids_push(
    ps: Seq<Policy>,
    p: Policy,
    eff: Effect,
    req: SpecRequest,
    s: SpecStore,
)
    ensures
        satisfied_ids(ps.push(p), eff, req, s) == satisfied_ids(ps, eff, req, s) + (
        if policy_outcome(p, req, s) == Outcome::Satisfied && p.effect == eff {
            seq![p.id@]
        } else {
            Seq::<Seq<char>>::empty()
        }),
    decreases ps.len(),
{
    let tail = if policy_outcome(p, req, s) == Outcome::Satisfied && p.effect == eff {
        seq![p.id@]
    } else {
        Seq::<Seq<char>>::empty()
    };
    if ps.len() == 0 {
        reveal_with_fuel(satisfied_ids, 3);
        assert(ps.push(p)[0] == p);
        assert(ps.push(p).drop_first() =~= Seq::<Policy>::empty());
        assert(satisfied_ids(ps.push(p), eff, req, s) =~= satisfied_ids(ps, eff, req, s) + tail);
    } else {
        assert(ps.push(p).drop_first() =~= ps.drop_first().push(p));
        lemma_satisfied_ids_push(ps.drop_first(), p, eff, req, s);
        assert(ps.push(p)[0] == ps[0]);
        assert(satisfied_ids(ps.push(p), eff, req, s) =~= satisfied_ids(ps, eff, req, s) + tail);
    }
}

proof fn lemma_fault_entries_push(ps: Seq<Policy>, p: Policy, req: SpecRequest, s: SpecStore)
    ensures
        fault_entries(ps.push(p), req, s) == fault_entries(ps, req, s) + (
        match policy_outcome(p, req, s) {
            Outcome::Fault(k) => seq![(p.id@, k)],
            _ => Seq::<(Seq<char>, EvaluationError)>::empty(),
        }),
    decreases ps.len(),
{
    let tail = match policy_outcome(p, req, s) {
        Outcome::Fault(k) => seq![(p.id@, k)],
        _ => Seq::<(Seq<char>, EvaluationError)>::empty(),
    };
    if ps.len() == 0 {
        reveal_with_fuel(fault_entries, 3);
        assert(ps.push(p)[0] == p);
        assert(ps.push(p).drop_first() =~= Seq::<Policy>::empty());
        assert(fault_entries(ps.push(p), req, s) =~= fault_entries(ps, req, s) + tail);
    } else {
        assert(ps.push(p).drop_first() =~= ps.drop_first().push(p));
        lemma_fault_entries_push(ps.drop_first(), p, req, s);
        assert(ps.push(p)[0] == ps[0]);
        assert(fault_entries(ps.push(p), req, s) =~= fault_entries(ps, req, s) + tail);
    }
}

/// Default deny: an empty policy set denies, with no reasons and no
/// recorded faults.
pub proof fn lemma_default_deny(req: SpecRequest, s: SpecStore)
    ensures
        spec_evaluate(req, Seq::<Policy>::empty(), s) == (SpecResponse {
            decision: Decision::Deny,
            diagnostics: Some(
                SpecDiagnostics {
                    reasons: Seq::<Seq<char>>::empty(),
                    errors: Seq::<(Seq<char>, EvaluationError)>::empty(),
                },
            ),
        }),
{
}

proof fn lemma_satisfied_ids_nonempty(
    ps: Seq<Policy>,
    i: int,
    eff: Effect,
    req: SpecRequest,
    s: SpecStore,
)
    requires
        0 <= i < ps.len(),
        policy_outcome(ps[i], req, s) == Outcome::Satisfied,
        ps[i].effect == eff,
    ensures
        satisfied_ids(ps, eff, req, s).len() > 0,
    decreases i,
{
    if i > 0 {
        assert(ps.drop_first()[i - 1] == ps[i]);
        lemma_satisfied_ids_nonempty(ps.drop_first(), i - 1, eff, req, s);
    }
}

/// Forbid overrides permit: whenever a satisfied forbid policy exists the
/// decision is deny, whatever satisfied permit policies exist beside it.
pub proof fn lemma_forbid_overrides(
    ps: Seq<Policy>,
    i: int,
    j: int,
    req: SpecRequest,
    s: SpecStore,
)
    requires
        0 <= i < ps.len(),
        policy_outcome(ps[i], req, s) == Outcome::Satisfied,
        ps[i].effect == Effect::Forbid,
        0 <= j < ps.len(),
        policy_outcome(ps[j], req, s) == Outcome::Satisfied,
        ps[j].effect == Effect::Permit,
    ensures
        spec_evaluate(req, ps, s).decision == Decision::Deny,
{
    lemma_satisfied_ids_nonempty(ps, i, Effect::Forbid, req, s);
}

/// Evaluation is deterministic: any two responses that `evaluate`'s
/// contract admits for one request, policy set and snapshot have the same
/// image.
pub proof fn lemma_evaluate_deterministic(
    req: NormalizedRequest,
    ps: Vec<Policy>,
    s: EntityStore,
    r1: AuthorizationResponse,
    r2: AuthorizationResponse,
)
    requires
        r1@ == spec_evaluate(req@, ps@, s@),
        r2@ == spec_evaluate(req@, ps@, s@),
    ensures
        r1@ == r2@,
{
}

/// When no policy is satisfied the decision is deny with no reasons,
/// whatever faults were recorded.
pub proof fn lemma_no_satisfied_denies(ps: Seq<Policy>, req: SpecRequest, s: SpecStore)
    requires
        forall|i: int| 0 <= i < ps.len() ==> policy_outcome(#[trigger] ps[i], req, s)
            != Outcome::Satisfied,
    ensures
        spec_evaluate(req, ps, s).decision == Decision::Deny,
        spec_evaluate(req, ps, s).diagnostics->0.reasons == Seq::<Seq<char>>::empty(),
{
    lemma_satisfied_ids_empty(ps, Effect::Forbid, req, s);
    lemma_satisfied_ids_empty(ps, Effect::Permit, req, s);
}

proof fn lemma_satisfied_ids_empty(ps: Seq<Policy>, eff: Effect, req: SpecRequest, s: SpecStore)
    requires
        forall|i: int| 0 <= i < ps.len() ==> policy_outcome(#[trigger] ps[i], req, s)
            != Outcome::Satisfied,
    ensures
        satisfied_ids(ps, eff, req, s) == Seq::<Seq<char>>::empty(),
    decreases ps.len(),
{
    if ps.len() > 0 {
        assert(forall|i: int|
            0 <= i < ps.drop_first().len() ==> #[trigger] ps.drop_first()[i] == ps[i + 1]);
        lemma_satisfied_ids_empty(ps.drop_first(), eff, req, s);
    }
}

/// Cycle rejection: a policy whose resource scope consults a hierarchy
/// with a cycle reachable from the request's resource faults with
/// `CyclicHierarchy` instead of matching, so it is never satisfied and the
/// fault is recorded.
pub proof fn lemma_cycle_reported(p: Policy, req: SpecRequest, s: SpecStore, u: EntityUID)
    requires
        has_cycle_from(s, req.resource),
        p.principal_scope == ScopeConstraint::Any,
        p.action_scope == ScopeConstraint::Any,
        p.resource_scope == ScopeConstraint::InEntity(u),
    ensures
        policy_outcome(p, req, s) == Outcome::Fault(EvaluationError::CyclicHierarchy),
{
    lemma_cycle_faults(s, req.resource);
}

/// A policy whose outcome is a fault leaves its fault in the recorded
/// entries.
pub proof fn lemma_fault_recorded(
    ps: Seq<Policy>,
    i: int,
    k: EvaluationError,
    req: SpecRequest,
    s: SpecStore,
)
    requires
        0 <= i < ps.len(),
        policy_outcome(ps[i], req, s) == Outcome::Fault(k),
    ensures
        fault_entries(ps, req, s).contains((ps[i].id@, k)),
    decreases i,
{
    if i == 0 {
        assert(fault_entries(ps, req, s)[0] == (ps[0].id@, k));
    } else {
        assert(ps.drop_first()[i - 1] == ps[i]);
        lemma_fault_recorded(ps.drop_first(), i - 1, k, req, s);
        let rest = fault_entries(ps.drop_first(), req, s);
        let jj = choose|jj: int| 0 <= jj < rest.len() && rest[jj] == (ps[i].id@, k);
        match policy_outcome(ps[0], req, s) {
            Outcome::Fault(k0) => {
                assert(fault_entries(ps, req, s)[jj + 1] == (ps[i].id@, k));
            },
            _ => {
                assert(fault_entries(ps, req, s)[jj] == (ps[i].id@, k));
            },
        }
    }
}

/// Evaluates a normalized request against a policy set and an entity
/// snapshot. Pure and total: it always terminates with a decision whose
/// meaning is `spec_evaluate`, and never panics.
pub fn evaluate(req: &NormalizedRequest, policies: &Vec<Policy>, s: &EntityStore) -> (r:
    AuthorizationResponse)
    ensures
        r@ == spec_evaluate(req@, policies@, s@),
{
    let n = policies.len();
    let mut permits: Vec<String> = Vec::new();
    let mut forbids: Vec<String> = Vec::new();
    let mut errors: Vec<FaultEntry> = Vec::new();
    let mut i: usize = 0;
    proof {
        assert(policies@.take(0) =~= Seq::<Policy>::empty());
        assert(reasons_view(permits) =~= Seq::<Seq<char>>::empty());
        assert(reasons_view(forbids) =~= Seq::<Seq<char>>::empty());
        assert(faults_view(errors) =~= Seq::<(Seq<char>, EvaluationError)>::empty());
    }
    while i < n
        invariant
            n == policies@.len(),
            0 <= i <= n,
            reasons_view(permits) == satisfied_ids(
                policies@.take(i as int),
                Effect::Permit,
                req@,
                s@,
            ),
            reasons_view(forbids) == satisfied_ids(
                policies@.take(i as int),
                Effect::Forbid,
                req@,
                s@,
            ),
            faults_view(errors) == fault_entries(policies@.take(i as int), req@, s@),
        decreases n - i,
    {
        let p = &policies[i];
        let ghost prefix = policies@.take(i as int);
        proof {
            assert(policies@.take(i as int + 1) =~= prefix.push(policies@[i as int]));
            lemma_satisfied_ids_push(prefix, policies@[i as int], Effect::Permit, req@, s@);
            lemma_satisfied_ids_push(prefix, policies@[i as int], Effect::Forbid, req@, s@);
            lemma_fault_entries_push(prefix, policies@[i as int], req@, s@);
        }
        let outcome = check_policy(p, req, s);
        match outcome {
            Outcome::Satisfied => {
                let ghost permits0 = reasons_view(permits);
                let ghost forbids0 = reasons_view(forbids);
                match p.effect {
                    Effect::Permit => {
                        permits.push(p.id.clone());
                        proof {
                            assert(reasons_view(permits) =~= permits0.push(p.id@));
                            assert(permits0.push(p.id@) =~= permits0 + seq![p.id@]);
                        }
                    },
                    Effect::Forbid => {
                        forbids.push(p.id.clone());
                        proof {
                            assert(reasons_view(forbids) =~= forbids0.push(p.id@));
                            assert(forbids0.push(p.id@) =~= forbids0 + seq![p.id@]);
                        }
                    },
                }
            },
            Outcome::Fault(k) => {
                let ghost errors0 = faults_view(errors);
                errors.push(FaultEntry { policy_id: p.id.clone(), kind: k });
                proof {
                    assert(faults_view(errors) =~= errors0.push((p.id@, k)));
                    assert(errors0.push((p.id@, k)) =~= errors0 + seq![(p.id@, k)]);
                }
            },
            _ => {},
        }
        i = i + 1;
    }
    proof {
        assert(policies@.take(n as int) =~= policies@);
    }
    let ghost sforbids = reasons_view(forbids);
    let ghost spermits = reasons_view(permits);
    let ghost serrors = faults_view(errors);
    if forbids.len() > 0 {
        let d = Diagnostics { reasons: forbids, errors };
        proof {
            assert(d@.reasons =~= sforbids);
            assert(d@.errors =~= serrors);
        }
        AuthorizationResponse::authz_decision(Decision::Deny, d)
    } else if permits.len() > 0 {
        let d = Diagnostics { reasons: permits, errors };
        proof {
            assert(d@.reasons =~= spermits);
            assert(d@.errors =~= serrors);
        }
        AuthorizationResponse::authz_decision(Decision::Allow, d)
    } else {
        let d = Diagnostics { reasons: permits, errors };
        proof {
            assert(d@.reasons =~= Seq::<Seq<char>>::empty());
            assert(d@.errors =~= serrors);
        }
        AuthorizationResponse::authz_decision(Decision::Deny, d)
    }
}

} // verus!
