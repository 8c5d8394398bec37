//! Authorization requests.
//!
//! A raw request arrives with its principal, action and resource as strings
//! and its context as structured input; normalization parses them into a
//! `NormalizedRequest`, which is what the engine evaluates.

use vstd::prelude::*;

use crate::engine::AuthorizationResponse;
use crate::engine::Decision;
use crate::engine::evaluate;
use crate::engine::spec_evaluate;
use crate::entity::Entity;
use crate::entity::EntityStore;
use crate::entity::EntityUID;
use crate::entity::SpecEntity;
use crate::entity::SpecUid;
use crate::error::AuthorizationRequestError;
use crate::error::ValueError;
use crate::input::InputValue;
use crate::input::from_fields;
use crate::input::from_input;
use crate::input::spec_from_fields;
use crate::input::spec_from_input;
use crate::policy::Policy;
use crate::text::parse_entity_uid;
use crate::text::spec_parse_uid;
use crate::value::SpecValue;
use crate::value::Value;
use crate::value::sfields;

verus! {

/// A request after normalization: the three identities and the context
/// record the condition language can read.
#[derive(Debug, PartialEq, Eq)]
pub struct NormalizedRequest {
    pub principal: EntityUID,
    pub action: EntityUID,
    pub resource: EntityUID,
    pub context: Vec<(String, Value)>,
}

/// Mathematical image of a `NormalizedRequest`.
pub ghost struct SpecRequest {
    pub principal: SpecUid,
    pub action: SpecUid,
    pub resource: SpecUid,
    pub context: Seq<(Seq<char>, SpecValue)>,
}

impl View for NormalizedRequest {
    type V = SpecRequest;

    open spec fn view(&self) -> SpecRequest {
        SpecRequest {
            principal: self.principal@,
            action: self.action@,
            resource: self.resource@,
            context: sfields(self.context, 0),
        }
    }
}

/// An entity identity as it arrives over the wire.
#[derive(Debug, PartialEq, Eq)]
pub struct UID {
    pub etype: String,
    pub id: String,
}

/// A parent reference as it arrives over the wire.
#[derive(Debug, PartialEq, Eq)]
pub struct Parent {
    pub etype: String,
    pub id: String,
}

/// An entity record as it arrives over the wire: its identity, its
/// attributes as structured input, and its parents.
#[derive(Debug, PartialEq, Eq)]
pub struct EntityInput {
    pub uid: UID,
    pub attrs: Vec<(String, InputValue)>,
    pub parents: Vec<Parent>,
}

/// A stored policy's raw text, as submitted for storage.
#[derive(Debug, PartialEq, Eq)]
pub struct PolicyInput {
    pub content: String,
}

impl PolicyInput {
    /// A policy text is acceptable for storage only when it is non-empty.
    pub fn validate(&self) -> (r: bool)
        ensures
            r == (self.content@.len() > 0),
    {
        !self.content.as_str().is_empty()
    }
}

/// A raw authorization request: the three identities as strings, the
/// context as structured input, and optionally the entities to evaluate
/// against in place of a stored snapshot.
#[derive(Debug, PartialEq, Eq)]
pub struct AuthorizationRequest {
    pub principal: String,
    pub action: String,
    pub resource: String,
    pub context: Option<InputValue>,
    pub entities: Option<Vec<EntityInput>>,
}

/// The entity one wire record denotes, or the fault in its attributes.
pub open spec fn spec_build_entity(e: EntityInput) -> Result<SpecEntity, ValueError> {
    match spec_from_fields(e.attrs, 0) {
        Err(k) => Err(k),
        Ok(fl) => Ok(
            SpecEntity {
                uid: SpecUid { etype: e.uid.etype@, id: e.uid.id@ },
                attrs: fl,
                parents: Seq::new(
                    e.parents@.len(),
                    |i: int|
                        SpecUid { etype: e.parents@[i].etype@, id: e.parents@[i].id@ },
                ),
            },
        ),
    }
}

/// The snapshot a list of wire records denotes from index `i` on, or the
/// first fault.
pub open spec fn spec_build_entities(inputs: Seq<EntityInput>, i: int) -> Result<
    Seq<SpecEntity>,
    ValueError,
>
    decreases inputs.len() - i,
{
    if i < 0 || i >= inputs.len() {
        Ok(Seq::empty())
    } else {
        match spec_build_entity(inputs[i]) {
            Err(k) => Err(k),
            Ok(e) => match spec_build_entities(inputs, i + 1) {
                Err(k) => Err(k),
                Ok(rest) => Ok(seq![e] + rest),
            },
        }
    }
}

/// Builds one entity from its wire record.
pub fn build_entity(e: &EntityInput) -> (r: Result<Entity, ValueError>)
    ensures
        match r {
            Ok(ent) => spec_build_entity(*e) == Ok::<SpecEntity, ValueError>(ent@),
            Err(k) => spec_build_entity(*e) == Err::<SpecEntity, ValueError>(k),
        },
{
    let attrs = match from_fields(&e.attrs, 0) {
        Err(k) => {
            return Err(k);
        },
        Ok(attrs) => attrs,
    };
    let mut parents: Vec<EntityUID> = Vec::new();
    let n = e.parents.len();
    let mut i: usize = 0;
    while i < n
        invariant
            n == e.parents@.len(),
            0 <= i <= n,
            parents@.len() == i,
            forall|j: int|
                0 <= j < i ==> (#[trigger] parents@[j])@ == (SpecUid {
                    etype: e.parents@[j].etype@,
                    id: e.parents@[j].id@,
                }),
        decreases n - i,
    {
        let p = EntityUID { etype: e.parents[i].etype.clone(), id: e.parents[i].id.clone() };
        parents.push(p);
        i = i + 1;
    }
    let ent = Entity {
        uid: EntityUID { etype: e.uid.etype.clone(), id: e.uid.id.clone() },
        attrs,
        parents,
    };
    proof {
        assert(ent@.parents =~= spec_build_entity(*e)->Ok_0.parents);
    }
    Ok(ent)
}

/// Builds the entity snapshot from wire records; any malformed attribute
/// rejects the whole snapshot.
pub fn build_entities(inputs: &Vec<EntityInput>) -> (r: Result<
    EntityStore,
    AuthorizationRequestError,
>)
    ensures
        match r {
            Ok(st) => spec_build_entities(inputs@, 0) == Ok::<Seq<SpecEntity>, ValueError>(
                st@.entities,
            ),
            Err(k) => spec_build_entities(inputs@, 0) is Err && k
                == AuthorizationRequestError::InvalidEntities,
        },
{
    let mut out: Vec<Entity> = Vec::new();
    let n = inputs.len();
    let mut i: usize = 0;
    while i < n
        invariant
            n == inputs@.len(),
            0 <= i <= n,
            out@.len() == i,
            forall|j: int|
                0 <= j < i ==> spec_build_entity(inputs@[j]) == Ok::<SpecEntity, ValueError>(
                    (#[trigger] out@[j])@,
                ),
        decreases n - i,
    {
        match build_entity(&inputs[i]) {
            Err(_) => {
                proof {
                    lemma_build_entities_err(inputs@, 0, i as int);
                }
                return Err(AuthorizationRequestError::InvalidEntities);
            },
            Ok(ent) => {
                out.push(ent);
            },
        }
        i = i + 1;
    }
    let st = EntityStore { entities: out };
    proof {
        lemma_build_entities_ok(inputs@, 0, st@.entities);
    }
    Ok(st)
}

/// When one record is faulty, the whole build is.
proof fn lemma_build_entities_err(inputs: Seq<EntityInput>, i: int, bad: int)
    requires
        0 <= i <= bad < inputs.len(),
        spec_build_entity(inputs[bad]) is Err,
    ensures
        spec_build_entities(inputs, i) is Err,
    decreases bad - i,
{
    if i < bad {
        lemma_build_entities_err(inputs, i + 1, bad);
    }
}

/// When every record from `i` on builds, the whole build does, to exactly
/// those entities.
proof fn lemma_build_entities_ok(inputs: Seq<EntityInput>, i: int, built: Seq<SpecEntity>)
    requires
        0 <= i <= inputs.len(),
        built.len() == inputs.len() - i,
        forall|j: int|
            i <= j < inputs.len() ==> spec_build_entity(#[trigger] inputs[j]) == Ok::<
                SpecEntity,
                ValueError,
            >(built[j - i]),
    ensures
        spec_build_entities(inputs, i) == Ok::<Seq<SpecEntity>, ValueError>(built),
    decreases inputs.len() - i,
{
    if i >= inputs.len() {
        assert(built =~= Seq::<SpecEntity>::empty());
    } else {
        lemma_build_entities_ok(inputs, i + 1, built.drop_first());
        assert(built =~= seq![built[0]] + built.drop_first());
    }
}

/// What normalization makes of a raw request: the three identities parsed
/// and the context built, or the first failure, in the order principal,
/// action, resource, context.
pub open spec fn spec_prepare(req: AuthorizationRequest) -> Result<
    SpecRequest,
    AuthorizationRequestError,
> {
    match spec_parse_uid(req.principal@) {
        None => Err(AuthorizationRequestError::InvalidPrincipal),
        Some(p) => match spec_parse_uid(req.action@) {
            None => Err(AuthorizationRequestError::InvalidAction),
            Some(a) => match spec_parse_uid(req.resource@) {
                None => Err(AuthorizationRequestError::InvalidResource),
                Some(res) => match req.context {
                    None => Ok(
                        SpecRequest {
                            principal: p,
                            action: a,
                            resource: res,
                            context: Seq::empty(),
                        },
                    ),
                    Some(iv) => match spec_from_input(iv) {
                        Ok(SpecValue::Record(fl)) => Ok(
                            SpecRequest { principal: p, action: a, resource: res, context: fl },
                        ),
                        _ => Err(AuthorizationRequestError::InvalidContext),
                    },
                },
            },
        },
    }
}

/// Normalizes a raw request: parses the three identity strings and builds
/// the context record, failing closed on the first malformed field.
pub fn prepare_cedar_request(req: &AuthorizationRequest) -> (r: Result<
    NormalizedRequest,
    AuthorizationRequestError,
>)
    ensures
        match r {
            Ok(nr) => spec_prepare(*req) == Ok::<SpecRequest, AuthorizationRequestError>(nr@),
            Err(k) => spec_prepare(*req) == Err::<SpecRequest, AuthorizationRequestError>(k),
        },
{
    let principal = match parse_entity_uid(req.principal.as_str()) {
        None => {
            return Err(AuthorizationRequestError::InvalidPrincipal);
        },
        Some(u) => u,
    };
    let action = match parse_entity_uid(req.action.as_str()) {
        None => {
            return Err(AuthorizationRequestError::InvalidAction);
        },
        Some(u) => u,
    };
    let resource = match parse_entity_uid(req.resource.as_str()) {
        None => {
            return Err(AuthorizationRequestError::InvalidResource);
        },
        Some(u) => u,
    };
    let context: Vec<(String, Value)> = match &req.context {
        None => Vec::new(),
        Some(iv) => match from_input(iv) {
            Ok(v) => match v {
                Value::Record(fl) => fl,
                _ => {
                    return Err(AuthorizationRequestError::InvalidContext);
                },
            },
            Err(_) => {
                return Err(AuthorizationRequestError::InvalidContext);
            },
        },
    };
    let nr = NormalizedRequest { principal, action, resource, context };
    proof {
        if req.context is None {
            crate::value::lemma_sfields_index(nr.context, 0);
            assert(sfields(nr.context, 0) =~= Seq::<(Seq<char>, SpecValue)>::empty());
        }
    }
    Ok(nr)
}

/// The request pipeline after the fetches: normalize, then evaluate. A
/// malformed request field never reaches the engine: it denies with no
/// diagnostics (fail-closed), and no error is thrown to the caller.
pub fn authorize_request(
    req: &AuthorizationRequest,
    policies: &Vec<Policy>,
    store: &EntityStore,
) -> (r: AuthorizationResponse)
    ensures
        spec_prepare(*req) is Err ==> r.decision == Decision::Deny && r.diagnostics is None,
        spec_prepare(*req) matches Ok(sr) ==> r@ == spec_evaluate(sr, policies@, store@),
{
    match prepare_cedar_request(req) {
        Err(_) => AuthorizationResponse::deny(),
        Ok(nr) => evaluate(&nr, policies, store),
    }
}

} // verus!
