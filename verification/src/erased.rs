//! Agents that do not show their types.
use std::any::TypeId;
use std::sync::Arc;
use vstd::prelude::*;

verus! {

/// Declares `std::any::TypeId`, the identifier that each type has for itself.
#[verifier::external_type_specification]
#[verifier::external_body]
pub struct ExTypeId(TypeId);

/// `TypeId::of`, which returns the identifier of `T`. Nothing is claimed of it here: what it
/// returns is what [`is_id_of`] speaks of.
pub assume_specification<T: 'static + ?Sized>[ TypeId::of::<T> ]() -> (id: TypeId);

/// `==` on `TypeId`, which tells whether two identifiers are the same.
pub assume_specification[ <TypeId as PartialEq>::eq ](a: &TypeId, b: &TypeId) -> (same: bool)
    ensures
        same == (*a == *b),
;

/// A shared value that does not show its type. Verus has no `dyn Any`, so what it holds is
/// known only by [`hides`] and [`has_id`].
#[verifier::external_body]
pub struct AnyAgent {
    inner: Arc<dyn std::any::Any + Send + Sync>,
}

/// Whether `id` is the identifier of the type `T`.
#[verifier::inline]
pub open spec fn is_id_of<T: 'static + ?Sized>(id: TypeId) -> bool {
    call_ensures(TypeId::of::<T>, (), id)
}

/// Whether `id` is the identifier of the type that `any` does not show.
pub closed spec fn has_id(any: AnyAgent, id: TypeId) -> bool {
    call_ensures(id_of, (&any,), id)
}

/// Whether `any` is `agent`, with its type `T` hidden.
pub closed spec fn hides<T: Send + Sync + 'static>(any: AnyAgent, agent: Arc<T>) -> bool {
    call_ensures(erase::<T>, (agent,), any)
}

/// `Any::type_id`, which returns the identifier of the type of the hidden value. Nothing is
/// claimed of it here: what it returns is what [`has_id`] speaks of.
#[verifier::external_body]
fn id_of(any: &AnyAgent) -> (id: TypeId) {
    (*any.inner).type_id()
}

/// The coercion of an `Arc<T>` to `Arc<dyn Any + Send + Sync>`. The identifier of `T` is that
/// of the hidden value's type; what else it returns is what [`hides`] speaks of.
#[verifier::external_body]
fn erase<T: Send + Sync + 'static>(agent: Arc<T>) -> (any: AnyAgent)
    ensures
        forall|id: TypeId| #[trigger] is_id_of::<T>(id) ==> has_id(any, id),
{
    AnyAgent { inner: agent }
}

/// Hides the type of an agent.
pub(crate) fn conceal<T: Send + Sync + 'static>(agent: Arc<T>) -> (any: AnyAgent)
    ensures
        hides(any, agent),
        forall|id: TypeId| #[trigger] is_id_of::<T>(id) ==> has_id(any, id),
{
    erase(agent)
}

/// `Arc::clone`, which returns another pointer to the same value.
#[verifier::external_body]
pub(crate) fn share(any: &AnyAgent) -> (same: AnyAgent)
    ensures
        same == *any,
{
    AnyAgent { inner: any.inner.clone() }
}

/// `Arc::<dyn Any + Send + Sync>::downcast`, which returns the hidden value if it is of type
/// `T`, that is if the identifiers of the two types are the same, and fails if it is not.
#[verifier::external_body]
pub(crate) fn recover<T: Send + Sync + 'static>(any: AnyAgent) -> (found: Option<Arc<T>>)
    ensures
        forall|agent: Arc<T>| #[trigger] hides(any, agent) ==> found == Some(agent),
        found matches Some(agent) ==> hides(any, agent),
        forall|own: TypeId, asked: TypeId| #[trigger]
            has_id(any, own) && #[trigger] is_id_of::<T>(asked) ==> (found is Some <==> own
                == asked),
{
    any.inner.downcast::<T>().ok()
}

/// `<dyn Any + Send + Sync>::downcast_ref`, which returns a reference to the hidden value if it
/// is of type `T`, that is if the identifiers of the two types are the same, and nothing if it
/// is not.
#[verifier::external_body]
pub(crate) fn recover_ref<T: Send + Sync + 'static>(any: &AnyAgent) -> (found: Option<&T>)
    ensures
        forall|agent: Arc<T>| #[trigger] hides(*any, agent) ==> found == Some(&*agent),
        found matches Some(inner) ==> exists|agent: Arc<T>|
            #[trigger] hides(*any, agent) && *agent == *inner,
        forall|own: TypeId, asked: TypeId| #[trigger]
            has_id(*any, own) && #[trigger] is_id_of::<T>(asked) ==> (found is Some <==> own
                == asked),
{
    any.inner.downcast_ref::<T>()
}

/// Whether `answer` tells if the hidden type is `T`.
pub open spec fn tells_type<T: 'static>(any: AnyAgent, answer: bool) -> bool {
    exists|own: TypeId, asked: TypeId| #[trigger]
        has_id(any, own) && #[trigger] is_id_of::<T>(asked) && answer == (own == asked)
}

/// Returns whether the hidden type is `T`.
pub fn is_type<T: 'static>(any: &AnyAgent) -> (answer: bool)
    ensures
        tells_type::<T>(*any, answer),
{
    let own = id_of(any);
    let asked = TypeId::of::<T>();
    let answer: bool = own == asked;
    assert(has_id(*any, own) && is_id_of::<T>(asked));
    answer
}

} // verus!
