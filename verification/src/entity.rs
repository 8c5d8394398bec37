//! Entity identities and the entity hierarchy.
//!
//! An entity is identified by a type name and an id, carries a set of
//! attributes, and lists its parents ("member-of" edges). A snapshot of
//! entities forms a directed graph whose transitive parent closure gives the
//! ancestors of an entity; a cycle in that graph is a data error that is
//! detected and reported, never looped on.

use vstd::prelude::*;

use crate::error::EvaluationError;
use crate::value::SpecValue;
use crate::value::Value;
use crate::value::sfields;

verus! {

/// Identity of an entity: a type name and an id. Equality is structural.
#[derive(Debug, Clone, PartialEq, Eq)]
pub struct EntityUID {
    pub etype: String,
    pub id: String,
}

/// Mathematical image of an `EntityUID`: both parts as character sequences.
pub ghost struct SpecUid {
    pub etype: Seq<char>,
    pub id: Seq<char>,
}

impl View for EntityUID {
    type V = SpecUid;

    open spec fn view(&self) -> SpecUid {
        SpecUid { etype: self.etype@, id: self.id@ }
    }
}

impl EntityUID {
    /// Structural equality of two identifiers.
    pub fn same_as(&self, other: &EntityUID) -> (r: bool)
        ensures
            r == (self@ == other@),
    {
        let r = self.etype == other.etype && self.id == other.id;
        if r {
            assert(self@ == other@);
        }
        r
    }

    /// An owned copy with the same identity.
    pub fn duplicate(&self) -> (r: EntityUID)
        ensures
            r@ == self@,
    {
        EntityUID { etype: self.etype.clone(), id: self.id.clone() }
    }
}

/// An entity: its identity, its attributes, and its parents in the hierarchy.
#[derive(Debug, PartialEq, Eq)]
pub struct Entity {
    pub uid: EntityUID,
    pub attrs: Vec<(String, Value)>,
    pub parents: Vec<EntityUID>,
}

/// Mathematical image of an `Entity`.
pub ghost struct SpecEntity {
    pub uid: SpecUid,
    pub attrs: Seq<(Seq<char>, SpecValue)>,
    pub parents: Seq<SpecUid>,
}

impl View for Entity {
    type V = SpecEntity;

    open spec fn view(&self) -> SpecEntity {
        SpecEntity {
            uid: self.uid@,
            attrs: sfields(self.attrs, 0),
            parents: Seq::new(self.parents@.len(), |i: int| self.parents@[i]@),
        }
    }
}

/// A read-only snapshot of entities, handed to one evaluation as a whole.
#[derive(Debug, PartialEq, Eq)]
pub struct EntityStore {
    pub entities: Vec<Entity>,
}

/// Mathematical image of an `EntityStore`.
pub ghost struct SpecStore {
    pub entities: Seq<SpecEntity>,
}

impl View for EntityStore {
    type V = SpecStore;

    open spec fn view(&self) -> SpecStore {
        SpecStore { entities: Seq::new(self.entities@.len(), |i: int| self.entities@[i]@) }
    }
}

/// The first entity of the snapshot with identity `u`, if any.
pub open spec fn spec_resolve(s: SpecStore, u: SpecUid) -> Option<SpecEntity>
    decreases s.entities.len(),
{
    if s.entities.len() == 0 {
        None
    } else if s.entities[0].uid == u {
        Some(s.entities[0])
    } else {
        spec_resolve(SpecStore { entities: s.entities.drop_first() }, u)
    }
}

/// Whether `b` is listed among the parents of the entity `a`.
pub open spec fn has_parent(s: SpecStore, a: SpecUid, b: SpecUid) -> bool {
    match spec_resolve(s, a) {
        Some(e) => e.parents.contains(b),
        None => false,
    }
}

/// Whether a chain of exactly `n` parent edges leads from `a` to `b`.
pub open spec fn steps(s: SpecStore, a: SpecUid, b: SpecUid, n: nat) -> bool
    decreases n,
{
    if n == 0 {
        a == b
    } else {
        exists|p: SpecUid| has_parent(s, a, p) && steps(s, p, b, (n - 1) as nat)
    }
}

/// Whether `b` is a proper ancestor of `a`: reachable over one or more
/// parent edges.
pub open spec fn is_ancestor(s: SpecStore, a: SpecUid, b: SpecUid) -> bool {
    exists|n: nat| 1 <= n && steps(s, a, b, n)
}

/// Whether some chain of exactly `n` parent edges leaves `a`.
pub open spec fn has_path_len(s: SpecStore, a: SpecUid, n: nat) -> bool {
    exists|b: SpecUid| steps(s, a, b, n)
}

/// The hierarchy above `a` is faulty: a parent chain longer than the number
/// of entities in the snapshot leaves `a`. In a snapshot whose reachable
/// part is acyclic no such chain can exist, so this is what cycle detection
/// reports.
pub open spec fn hierarchy_fault(s: SpecStore, a: SpecUid) -> bool {
    has_path_len(s, a, (s.entities.len() + 1) as nat)
}

/// A parent cycle is reachable from `a` (`a` itself may lie on it).
pub open spec fn has_cycle_from(s: SpecStore, a: SpecUid) -> bool {
    exists|c: SpecUid, n: nat|
        1 <= n && (c == a || is_ancestor(s, a, c)) && steps(s, c, c, n)
}

/// Whether the identity list `v` holds `b`.
pub open spec fn uid_in(v: Seq<EntityUID>, b: SpecUid) -> bool {
    exists|i: int| 0 <= i < v.len() && v[i]@ == b
}

/// Whether `b` is reachable from `a` over at least one and at most `k`
/// parent edges.
pub open spec fn reach_within(s: SpecStore, a: SpecUid, b: SpecUid, k: nat) -> bool {
    exists|n: nat| 1 <= n <= k && steps(s, a, b, n)
}

/// What `is_descendant_or_self` returns: an error on a faulty hierarchy,
/// else whether `b` is `a` itself or an ancestor of `a`.
pub open spec fn spec_descendant_or_self(s: SpecStore, a: SpecUid, b: SpecUid) -> Result<
    bool,
    EvaluationError,
> {
    if hierarchy_fault(s, a) {
        Err(EvaluationError::CyclicHierarchy)
    } else {
        Ok(a == b || is_ancestor(s, a, b))
    }
}

/// Chains of parent edges compose.
pub proof fn lemma_steps_trans(s: SpecStore, a: SpecUid, b: SpecUid, c: SpecUid, m: nat, n: nat)
    requires
        steps(s, a, b, m),
        steps(s, b, c, n),
    ensures
        steps(s, a, c, (m + n) as nat),
    decreases m,
{
    if m == 0 {
    } else {
        let p = choose|p: SpecUid| has_parent(s, a, p) && steps(s, p, b, (m - 1) as nat);
        lemma_steps_trans(s, p, b, c, (m - 1) as nat, n);
        assert(has_parent(s, a, p) && steps(s, p, c, (m + n - 1) as nat));
    }
}

/// A chain of `n` parent edges has a prefix of any shorter length.
pub proof fn lemma_steps_shorten(s: SpecStore, a: SpecUid, b: SpecUid, n: nat, k: nat)
    requires
        steps(s, a, b, n),
        k <= n,
    ensures
        exists|c: SpecUid| steps(s, a, c, k),
    decreases k,
{
    if k == 0 {
        assert(steps(s, a, a, 0));
    } else {
        let nm1: nat = (n - 1) as nat;
        let km1: nat = (k - 1) as nat;
        let p = choose|p: SpecUid| has_parent(s, a, p) && steps(s, p, b, nm1);
        lemma_steps_shorten(s, p, b, nm1, km1);
        let c = choose|c: SpecUid| steps(s, p, c, km1);
        assert(has_parent(s, a, p) && steps(s, p, c, km1));
        assert(steps(s, a, c, k));
    }
}

/// Going round a cycle pumps a chain to any requested length or more.
proof fn lemma_pump(s: SpecStore, c: SpecUid, k: nat, t: nat)
    requires
        1 <= k,
        steps(s, c, c, k),
    ensures
        exists|n: nat| t <= n && steps(s, c, c, n),
    decreases t,
{
    if t == 0 {
        assert(steps(s, c, c, 0));
    } else {
        lemma_pump(s, c, k, (t - 1) as nat);
        let n0 = choose|n: nat| (t - 1) as nat <= n && steps(s, c, c, n);
        lemma_steps_trans(s, c, c, c, n0, k);
        assert(t <= (n0 + k) as nat && steps(s, c, c, (n0 + k) as nat));
    }
}

/// A reachable cycle always shows up as a hierarchy fault: cycle detection
/// never misses a cycle.
pub proof fn lemma_cycle_faults(s: SpecStore, a: SpecUid)
    requires
        has_cycle_from(s, a),
    ensures
        hierarchy_fault(s, a),
{
    let (c, k) = choose|c: SpecUid, n: nat|
        1 <= n && (c == a || is_ancestor(s, a, c)) && steps(s, c, c, n);
    let m: nat = if c == a {
        0
    } else {
        choose|n: nat| 1 <= n && steps(s, a, c, n)
    };
    assert(steps(s, a, c, m));
    let target = (s.entities.len() + 1) as nat;
    lemma_pump(s, c, k, target);
    let n = choose|n: nat| target <= n && steps(s, c, c, n);
    lemma_steps_trans(s, a, c, c, m, n);
    lemma_steps_shorten(s, a, c, (m + n) as nat, target);
}

/// Hierarchy membership is transitive: a parent of a parent is an ancestor,
/// so on a sound hierarchy `is_descendant_or_self` accepts the grandparent.
pub proof fn lemma_parent_transitive(s: SpecStore, a: SpecUid, b: SpecUid, c: SpecUid)
    requires
        has_parent(s, a, b),
        has_parent(s, b, c),
        !hierarchy_fault(s, a),
    ensures
        is_ancestor(s, a, c),
        spec_descendant_or_self(s, a, c) == Ok::<bool, EvaluationError>(true),
{
    assert(steps(s, c, c, 0));
    assert(has_parent(s, b, c) && steps(s, c, c, 0));
    assert(steps(s, b, c, 1));
    assert(has_parent(s, a, b) && steps(s, b, c, 1));
    assert(steps(s, a, c, 2));
}

/// A chain of identities: each one lists the next as a parent.
pub open spec fn is_chain(s: SpecStore, p: Seq<SpecUid>) -> bool {
    forall|i: int| 0 <= i < p.len() - 1 ==> has_parent(s, #[trigger] p[i], p[i + 1])
}

proof fn lemma_steps_to_chain(s: SpecStore, x: SpecUid, y: SpecUid, n: nat)
    requires
        steps(s, x, y, n),
    ensures
        exists|p: Seq<SpecUid>| #![auto]
            p.len() == n + 1 && p[0] == x && p[n as int] == y && is_chain(s, p),
    decreases n,
{
    if n == 0 {
        let p = seq![x];
        assert(p.len() == n + 1 && p[0] == x && p[n as int] == y && is_chain(s, p));
    } else {
        let nm1: nat = (n - 1) as nat;
        let q = choose|q: SpecUid| has_parent(s, x, q) && steps(s, q, y, nm1);
        lemma_steps_to_chain(s, q, y, nm1);
        let p0 = choose|p: Seq<SpecUid>| #![auto]
            p.len() == nm1 + 1 && p[0] == q && p[nm1 as int] == y && is_chain(s, p);
        let p = seq![x] + p0;
        assert(p[n as int] == p0[nm1 as int]);
        assert(is_chain(s, p)) by {
            assert forall|i: int| 0 <= i < p.len() - 1 implies has_parent(
                s,
                #[trigger] p[i],
                p[i + 1],
            ) by {
                if i == 0 {
                    assert(p[0] == x && p[1] == p0[0]);
                } else {
                    assert(p[i] == p0[i - 1] && p[i + 1] == p0[i]);
                }
            }
        }
        assert(p.len() == n + 1 && p[0] == x && p[n as int] == y && is_chain(s, p));
    }
}

proof fn lemma_chain_steps(s: SpecStore, p: Seq<SpecUid>, i1: int, i2: int)
    requires
        is_chain(s, p),
        0 <= i1 <= i2 < p.len(),
    ensures
        steps(s, p[i1], p[i2], (i2 - i1) as nat),
    decreases i2 - i1,
{
    if i1 < i2 {
        lemma_chain_steps(s, p, i1 + 1, i2);
        assert(has_parent(s, p[i1], p[i1 + 1]) && steps(
            s,
            p[i1 + 1],
            p[i2],
            (i2 - i1 - 1) as nat,
        ));
    }
}

proof fn lemma_resolve_present(s: SpecStore, u: SpecUid)
    requires
        spec_resolve(s, u) is Some,
    ensures
        exists|j: int| 0 <= j < s.entities.len() && (#[trigger] s.entities[j]).uid == u,
    decreases s.entities.len(),
{
    if s.entities.len() > 0 {
        if s.entities[0].uid == u {
            assert(0 <= 0 < s.entities.len() && s.entities[0].uid == u);
        } else {
            let s2 = SpecStore { entities: s.entities.drop_first() };
            lemma_resolve_present(s2, u);
            let j = choose|j: int| 0 <= j < s2.entities.len() && (#[trigger] s2.entities[j]).uid
                == u;
            assert(s.entities[j + 1].uid == u);
        }
    }
}

/// Cycle detection never cries wolf: a hierarchy fault above `a` is always
/// a real parent cycle reachable from `a`. Together with
/// `lemma_cycle_faults` this makes the reported fault exactly the presence
/// of a reachable cycle.
pub proof fn lemma_fault_implies_cycle(s: SpecStore, a: SpecUid)
    requires
        hierarchy_fault(s, a),
    ensures
        has_cycle_from(s, a),
{
    let len = s.entities.len() as int;
    let target: nat = (len + 1) as nat;
    let b = choose|b: SpecUid| steps(s, a, b, target);
    lemma_steps_to_chain(s, a, b, target);
    let p = choose|p: Seq<SpecUid>| #![auto]
        p.len() == target + 1 && p[0] == a && p[target as int] == b && is_chain(s, p);
    if exists|i1: int, i2: int| 0 <= i1 < i2 < len + 2 && p[i1] == p[i2] {
        let (i1, i2) = choose|i1: int, i2: int| 0 <= i1 < i2 < len + 2 && p[i1] == p[i2];
        lemma_chain_steps(s, p, i1, i2);
        lemma_chain_steps(s, p, 0, i1);
        let c = p[i1];
        let k: nat = (i2 - i1) as nat;
        assert(steps(s, c, c, k));
        if i1 > 0 {
            assert(1 <= i1 as nat && steps(s, a, c, i1 as nat));
            assert(is_ancestor(s, a, c));
        }
        assert(1 <= k && (c == a || is_ancestor(s, a, c)) && steps(s, c, c, k));
    } else {
        let f = (|i: int|
            choose|j: int| 0 <= j < s.entities.len() && (#[trigger] s.entities[j]).uid == p[i]);
        let xset = vstd::set_lib::set_int_range(0, len + 1);
        let yset = xset.map(f);
        vstd::set_lib::lemma_int_range(0, len + 1);
        assert forall|i: int| xset.contains(i) implies 0 <= f(i) < len && s.entities[f(i)].uid
            == p[i] by {
            assert(has_parent(s, p[i], p[i + 1]));
            lemma_resolve_present(s, p[i]);
        }
        assert(vstd::relations::injective_on(f, xset)) by {
            assert forall|x1: int, x2: int|
                xset.contains(x1) && xset.contains(x2) && #[trigger] f(x1) == #[trigger] f(
                    x2,
                ) implies x1 == x2 by {
                assert(s.entities[f(x1)].uid == p[x1] && s.entities[f(x2)].uid == p[x2]);
                assert(p[x1] == p[x2]);
                if x1 < x2 {
                    assert(0 <= x1 < x2 < len + 2 && p[x1] == p[x2]);
                }
                if x2 < x1 {
                    assert(0 <= x2 < x1 < len + 2 && p[x2] == p[x1]);
                }
            }
        }
        vstd::set_lib::lemma_map_size(xset, yset, f);
        let range = vstd::set_lib::set_int_range(0, len);
        assert(yset.subset_of(range)) by {
            assert forall|y: int| yset.contains(y) implies range.contains(y) by {
                let i = choose|i: int| xset.contains(i) && f(i) == y;
            }
        }
        vstd::set_lib::lemma_int_range(0, len);
        vstd::set_lib::lemma_len_subset(yset, range);
        assert(false);
    }
}

proof fn lemma_uid_in_concat(x: Seq<EntityUID>, y: Seq<EntityUID>, b: SpecUid)
    ensures
        uid_in(x + y, b) == (uid_in(x, b) || uid_in(y, b)),
{
    if uid_in(x, b) {
        let i = choose|i: int| 0 <= i < x.len() && x[i]@ == b;
        assert((x + y)[i]@ == b);
    }
    if uid_in(y, b) {
        let i = choose|i: int| 0 <= i < y.len() && y[i]@ == b;
        assert((x + y)[x.len() + i]@ == b);
    }
    if uid_in(x + y, b) {
        let i = choose|i: int| 0 <= i < (x + y).len() && (x + y)[i]@ == b;
        if i < x.len() {
            assert(x[i]@ == b);
        } else {
            assert(y[i - x.len()]@ == b);
        }
    }
}

/// One or more parent steps from `u` are exactly one parent edge followed by
/// at most `fuel - 1` further steps.
proof fn lemma_reach_unfold(s: SpecStore, u: SpecUid, e: SpecEntity, b: SpecUid, fuel: nat)
    requires
        1 <= fuel,
        spec_resolve(s, u) == Some(e),
    ensures
        reach_within(s, u, b, fuel) == (exists|jj: int|
            0 <= jj < e.parents.len() && (e.parents[jj] == b || reach_within(
                s,
                e.parents[jj],
                b,
                (fuel - 1) as nat,
            ))),
{
    if reach_within(s, u, b, fuel) {
        let n = choose|n: nat| 1 <= n <= fuel && steps(s, u, b, n);
        let p = choose|p: SpecUid| has_parent(s, u, p) && steps(s, p, b, (n - 1) as nat);
        let jj = choose|jj: int| 0 <= jj < e.parents.len() && e.parents[jj] == p;
        if n == 1 {
            assert(p == b);
        } else {
            assert(1 <= (n - 1) as nat <= (fuel - 1) as nat && steps(s, p, b, (n - 1) as nat));
            assert(reach_within(s, p, b, (fuel - 1) as nat));
        }
        assert(0 <= jj < e.parents.len() && (e.parents[jj] == b || reach_within(
            s,
            e.parents[jj],
            b,
            (fuel - 1) as nat,
        )));
    }
    if exists|jj: int|
        0 <= jj < e.parents.len() && (e.parents[jj] == b || reach_within(
            s,
            e.parents[jj],
            b,
            (fuel - 1) as nat,
        )) {
        let jj = choose|jj: int|
            0 <= jj < e.parents.len() && (e.parents[jj] == b || reach_within(
                s,
                e.parents[jj],
                b,
                (fuel - 1) as nat,
            ));
        let p = e.parents[jj];
        assert(e.parents.contains(p));
        assert(has_parent(s, u, p));
        if p == b {
            assert(steps(s, p, b, 0));
            assert(steps(s, u, b, 1));
            assert(1 <= 1nat <= fuel && steps(s, u, b, 1));
        } else {
            let n = choose|n: nat| 1 <= n <= (fuel - 1) as nat && steps(s, p, b, n);
            assert(steps(s, u, b, (n + 1) as nat));
            assert(1 <= (n + 1) as nat <= fuel && steps(s, u, b, (n + 1) as nat));
        }
    }
}

/// A chain of `fuel + 1` edges from `u` is one edge to a parent and `fuel`
/// further edges from there.
proof fn lemma_path_unfold(s: SpecStore, u: SpecUid, e: SpecEntity, fuel: nat)
    requires
        spec_resolve(s, u) == Some(e),
    ensures
        has_path_len(s, u, (fuel + 1) as nat) == (exists|jj: int|
            0 <= jj < e.parents.len() && has_path_len(s, e.parents[jj], fuel)),
{
    let f1: nat = (fuel + 1) as nat;
    if has_path_len(s, u, f1) {
        let b = choose|b: SpecUid| steps(s, u, b, f1);
        let p = choose|p: SpecUid| has_parent(s, u, p) && steps(s, p, b, fuel);
        let jj = choose|jj: int| 0 <= jj < e.parents.len() && e.parents[jj] == p;
        assert(0 <= jj < e.parents.len() && has_path_len(s, e.parents[jj], fuel));
    }
    if exists|jj: int| 0 <= jj < e.parents.len() && has_path_len(s, e.parents[jj], fuel) {
        let jj = choose|jj: int|
            0 <= jj < e.parents.len() && has_path_len(s, e.parents[jj], fuel);
        let p = e.parents[jj];
        assert(e.parents.contains(p));
        let b = choose|b: SpecUid| steps(s, p, b, fuel);
        assert(has_parent(s, u, p) && steps(s, p, b, fuel));
        assert(steps(s, u, b, f1));
    }
}

impl EntityStore {
    /// Looks an entity up in the snapshot by its identity.
    pub fn resolve(&self, u: &EntityUID) -> (r: Option<&Entity>)
        ensures
            match r {
                Some(e) => spec_resolve(self@, u@) == Some(e@),
                None => spec_resolve(self@, u@) is None,
            },
    {
        let ghost sv = self@.entities;
        proof {
            assert(sv.skip(0) =~= sv);
        }
        let n = self.entities.len();
        let mut i: usize = 0;
        while i < n
            invariant
                n == self.entities@.len(),
                0 <= i <= n,
                sv == self@.entities,
                sv.len() == n,
                spec_resolve(SpecStore { entities: sv.skip(i as int) }, u@) == spec_resolve(
                    self@,
                    u@,
                ),
            decreases n - i,
        {
            proof {
                assert(sv.skip(i as int)[0] == self.entities@[i as int]@);
            }
            if self.entities[i].uid.same_as(u) {
                return Some(&self.entities[i]);
            }
            proof {
                assert(sv.skip(i as int).drop_first() =~= sv.skip(i as int + 1));
            }
            i = i + 1;
        }
        proof {
            assert(sv.skip(n as int) =~= Seq::<SpecEntity>::empty());
        }
        None
    }

    /// All ancestors of `u`: the transitive closure of the parent relation,
    /// or `CyclicHierarchy` when a parent cycle is reachable from `u`.
    ///
    /// The traversal explores parent chains of up to as many edges as the
    /// snapshot has entities; a longer chain must revisit an entity and is
    /// reported as a cycle.
    pub fn ancestors(&self, u: &EntityUID) -> (r: Result<Vec<EntityUID>, EvaluationError>)
        ensures
            (r is Ok) == !hierarchy_fault(self@, u@),
            r is Err ==> r == Err::<Vec<EntityUID>, EvaluationError>(
                EvaluationError::CyclicHierarchy,
            ),
            forall|b: SpecUid| #![trigger uid_in(r->Ok_0@, b)]
                r is Ok ==> uid_in(r->Ok_0@, b) == is_ancestor(self@, u@, b),
    {
        let fuel = self.entities.len();
        let r = ancestors_upto(self, u, fuel);
        proof {
            assert(self@.entities.len() == self.entities@.len());
            if r is Ok {
                let v = r->Ok_0;
                assert forall|b: SpecUid| #![auto] uid_in(v@, b) == is_ancestor(
                    self@,
                    u@,
                    b,
                ) by {
                    if is_ancestor(self@, u@, b) {
                        let n = choose|n: nat| 1 <= n && steps(self@, u@, b, n);
                        if n > fuel {
                            lemma_steps_shorten(self@, u@, b, n, (fuel + 1) as nat);
                            assert(hierarchy_fault(self@, u@));
                        }
                        assert(1 <= n <= fuel as nat && steps(self@, u@, b, n));
                        assert(reach_within(self@, u@, b, fuel as nat));
                    }
                    if uid_in(v@, b) {
                        let n = choose|n: nat| 1 <= n <= fuel as nat && steps(self@, u@, b, n);
                        assert(is_ancestor(self@, u@, b));
                    }
                }
            }
        }
        r
    }

    /// Whether `anc` is `u` itself or one of its ancestors; errors on a
    /// faulty hierarchy above `u`.
    pub fn is_descendant_or_self(&self, u: &EntityUID, anc: &EntityUID) -> (r: Result<
        bool,
        EvaluationError,
    >)
        ensures
            r == spec_descendant_or_self(self@, u@, anc@),
    {
        match self.ancestors(u) {
            Err(k) => Err(k),
            Ok(v) => {
                let same = u.same_as(anc);
                let inlist = uid_list_contains(&v, anc);
                Ok(same || inlist)
            },
        }
    }
}

/// Whether the list `v` holds the identity `b`.
pub fn uid_list_contains(v: &Vec<EntityUID>, b: &EntityUID) -> (r: bool)
    ensures
        r == uid_in(v@, b@),
{
    let n = v.len();
    let mut i: usize = 0;
    while i < n
        invariant
            n == v@.len(),
            0 <= i <= n,
            forall|j: int| 0 <= j < i ==> v@[j]@ != b@,
        decreases n - i,
    {
        if v[i].same_as(b) {
            assert(v@[i as int]@ == b@);
            return true;
        }
        i = i + 1;
    }
    false
}

/// Ancestors of `u` along parent chains of at most `fuel` edges; an error
/// when a chain of `fuel + 1` edges exists.
fn ancestors_upto(s: &EntityStore, u: &EntityUID, fuel: usize) -> (r: Result<
    Vec<EntityUID>,
    EvaluationError,
>)
    ensures
        (r is Ok) == !has_path_len(s@, u@, (fuel + 1) as nat),
        r is Err ==> r == Err::<Vec<EntityUID>, EvaluationError>(EvaluationError::CyclicHierarchy),
        forall|b: SpecUid| #![trigger uid_in(r->Ok_0@, b)]
            r is Ok ==> uid_in(r->Ok_0@, b) == reach_within(s@, u@, b, fuel as nat),
    decreases fuel,
{
    let ghost f1: nat = (fuel + 1) as nat;
    let ghost fnat: nat = fuel as nat;
    let e = match s.resolve(u) {
        None => {
            proof {
                assert forall|b: SpecUid| !steps(s@, u@, b, f1) by {
                    if steps(s@, u@, b, f1) {
                        let p = choose|p: SpecUid|
                            has_parent(s@, u@, p) && steps(s@, p, b, fnat);
                    }
                }
                assert forall|b: SpecUid| !reach_within(s@, u@, b, fnat) by {
                    if reach_within(s@, u@, b, fnat) {
                        let n = choose|n: nat| 1 <= n <= fnat && steps(s@, u@, b, n);
                        let nm1: nat = (n - 1) as nat;
                        let p = choose|p: SpecUid|
                            has_parent(s@, u@, p) && steps(s@, p, b, nm1);
                    }
                }
            }
            return Ok(Vec::new());
        },
        Some(e) => e,
    };
    if e.parents.len() > 0 && fuel == 0 {
        proof {
            let p = e.parents@[0]@;
            assert(e@.parents[0] == p);
            assert(e@.parents.contains(p));
            assert(has_parent(s@, u@, p) && steps(s@, p, p, 0));
            assert(steps(s@, u@, p, 1));
        }
        return Err(EvaluationError::CyclicHierarchy);
    }
    let np = e.parents.len();
    let mut out: Vec<EntityUID> = Vec::new();
    let mut j: usize = 0;
    while j < np
        invariant
            np == e.parents@.len(),
            0 <= j <= np,
            np > 0 ==> fuel >= 1,
            f1 == (fuel + 1) as nat,
            fnat == fuel as nat,
            spec_resolve(s@, u@) == Some(e@),
            forall|k: int| 0 <= k < np ==> e@.parents[k] == e.parents@[k]@,
            forall|b: SpecUid| #![auto]
                uid_in(out@, b) == exists|jj: int|
                    0 <= jj < j && (e@.parents[jj] == b || reach_within(
                        s@,
                        e@.parents[jj],
                        b,
                        (fuel - 1) as nat,
                    )),
            forall|jj: int| 0 <= jj < j ==> !has_path_len(s@, e@.parents[jj], fuel as nat),
        decreases np - j,
    {
        let p = &e.parents[j];
        match ancestors_upto(s, p, fuel - 1) {
            Err(_) => {
                proof {
                    let b = choose|b: SpecUid| steps(s@, p@, b, fnat);
                    assert(e@.parents[j as int] == p@);
                    assert(e@.parents.contains(p@));
                    assert(has_parent(s@, u@, p@) && steps(s@, p@, b, fnat));
                    assert(steps(s@, u@, b, f1));
                }
                return Err(EvaluationError::CyclicHierarchy);
            },
            Ok(mut sub) => {
                let ghost out0 = out@;
                let ghost sub0 = sub@;
                let dup = p.duplicate();
                out.push(dup);
                out.append(&mut sub);
                proof {
                    let mid = out0 + seq![dup];
                    assert(out0.push(dup) =~= mid);
                    assert(out@ == mid + sub0);
                    assert forall|b: SpecUid| #![auto]
                        uid_in(out@, b) == exists|jj: int|
                            0 <= jj < j + 1 && (e@.parents[jj] == b || reach_within(
                                s@,
                                e@.parents[jj],
                                b,
                                (fuel - 1) as nat,
                            )) by {
                        lemma_uid_in_concat(mid, sub0, b);
                        lemma_uid_in_concat(out0, seq![dup], b);
                        assert(uid_in(seq![dup], b) == (p@ == b)) by {
                            if p@ == b {
                                assert(seq![dup][0]@ == b);
                            }
                        }
                        assert(e@.parents[j as int] == p@);
                        if uid_in(out@, b) {
                            if uid_in(out0, b) {
                                let jj = choose|jj: int|
                                    0 <= jj < j && (e@.parents[jj] == b || reach_within(
                                        s@,
                                        e@.parents[jj],
                                        b,
                                        (fuel - 1) as nat,
                                    ));
                                assert(0 <= jj < j + 1 && (e@.parents[jj] == b || reach_within(
                                    s@,
                                    e@.parents[jj],
                                    b,
                                    (fuel - 1) as nat,
                                )));
                            } else {
                                assert(p@ == b || uid_in(sub0, b));
                                assert(e@.parents[j as int] == b || reach_within(
                                    s@,
                                    e@.parents[j as int],
                                    b,
                                    (fuel - 1) as nat,
                                ));
                            }
                        }
                        if exists|jj: int|
                            0 <= jj < j + 1 && (e@.parents[jj] == b || reach_within(
                                s@,
                                e@.parents[jj],
                                b,
                                (fuel - 1) as nat,
                            )) {
                            let jj = choose|jj: int|
                                0 <= jj < j + 1 && (e@.parents[jj] == b || reach_within(
                                    s@,
                                    e@.parents[jj],
                                    b,
                                    (fuel - 1) as nat,
                                ));
                            if jj < j {
                                assert(uid_in(out0, b));
                            } else {
                                assert(p@ == b || uid_in(sub0, b));
                            }
                            assert(uid_in(out@, b));
                        }
                    }
                }
            },
        }
        j = j + 1;
    }
    proof {
        if np == 0 {
            assert forall|b: SpecUid| !steps(s@, u@, b, f1) by {
                if steps(s@, u@, b, f1) {
                    let p = choose|p: SpecUid|
                        has_parent(s@, u@, p) && steps(s@, p, b, fnat);
                    assert(e@.parents.contains(p));
                }
            }
            assert forall|b: SpecUid| !reach_within(s@, u@, b, fnat) by {
                if reach_within(s@, u@, b, fnat) {
                    let n = choose|n: nat| 1 <= n <= fnat && steps(s@, u@, b, n);
                    let nm1: nat = (n - 1) as nat;
                    let p = choose|p: SpecUid|
                        has_parent(s@, u@, p) && steps(s@, p, b, nm1);
                    assert(e@.parents.contains(p));
                }
            }
        } else {
            lemma_path_unfold(s@, u@, e@, fnat);
            assert forall|b: SpecUid| #![auto]
                uid_in(out@, b) == reach_within(s@, u@, b, fnat) by {
                lemma_reach_unfold(s@, u@, e@, b, fnat);
            }
        }
    }
    Ok(out)
}

} // verus!
