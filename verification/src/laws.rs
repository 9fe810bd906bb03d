//! What holds of the rules of a frame, whatever the entities and the world.

use vstd::prelude::*;
use crate::binding::Binding;
use crate::binding::BodyDescriptor;
use crate::binding::BodyHandle;
use crate::binding::PhysicsComponent;
use crate::binding::lemma_component_by_state;
use crate::entity::BodyPlacement;
use crate::entity::Entity;
use crate::entity::TargetedCommand;
use crate::frame::InsertAnswer;
use crate::frame::InsertRequest;
use crate::frame::bound_all;
use crate::frame::drained_all;
use crate::frame::frame_commands;
use crate::frame::insert_requests;
use crate::frame::synced_all;
use crate::impulse::BodyCommand;
use crate::impulse::ImpulseComponent;
use crate::impulse::lemma_wake_precedes_impulses;
use crate::scalar::Scalar;
use crate::scalar::ONE_BITS;
use crate::transform::LocalTransform;
use crate::world::BodyState;
use crate::world::activation_of;
use crate::world::body_of;

verus! {

/// Reading twice is reading once. If the body of an entity has the same pose
/// in two views of the world, or is gone in both, then reading the entity's
/// pose from the first and again from the second leaves the entity as the
/// first reading left it.
pub proof fn lemma_read_is_idempotent(
    entity: Entity,
    first: Map<u64, BodyState>,
    second: Map<u64, BodyState>,
)
    requires
        entity.bound_handle_spec() matches Some(h) ==> match (body_of(first, h), body_of(second, h)) {
            (Some(a), Some(b)) => a.pose == b.pose,
            (None, None) => true,
            _ => false,
        },
    ensures
        entity.synced(first).synced(second) == entity.synced(first),
        entity.synced(first).synced(first) == entity.synced(first),
{
}

/// Reading poses back touches nothing but transforms: bindings and impulse
/// requests are as they were.
pub proof fn lemma_read_keeps_binding_and_impulse(entity: Entity, world: Map<u64, BodyState>)
    ensures
        entity.synced(world).binding == entity.binding,
        entity.synced(world).impulse == entity.impulse,
        entity.synced(world).transform is Some <==> entity.transform is Some,
        entity.synced(world).placement_spec() == entity.placement_spec(),
{
}

/// The pose that is read back: the body's position in the plane at depth
/// zero, and the body's rotation.
pub proof fn lemma_read_copies_pose(
    entity: Entity,
    world: Map<u64, BodyState>,
    handle: BodyHandle,
    transform: LocalTransform,
    body: BodyState,
)
    requires
        entity.bound_handle_spec() == Some(handle),
        entity.transform == Some(transform),
        body_of(world, handle) == Some(body),
    ensures
        entity.synced(world).transform == Some(
            LocalTransform {
                translation: (body.pose.position.0, body.pose.position.1, Scalar { bits: 0 }),
                rotation: body.pose.rotation,
            },
        ),
{
}

/// A body is created once, where its entity stands. A pending entity with a
/// transform asks for its body with the descriptor untouched and the
/// transform's place in the plane as the offset, and the frame that asks
/// leaves the transform as it was. Once a handle is recorded the entity asks
/// for no body again, and a second handle changes nothing.
pub proof fn lemma_bound_once(
    entity: Entity,
    component: PhysicsComponent,
    descriptor: BodyDescriptor,
    transform: LocalTransform,
    world: Map<u64, BodyState>,
    handle: BodyHandle,
    later: BodyHandle,
)
    requires
        entity.binding == Some(component),
        component@ == Binding::Pending(descriptor),
        entity.transform == Some(transform),
    ensures
        entity.placement_spec() == Some(
            BodyPlacement {
                descriptor: descriptor,
                offset: (transform.translation.0, transform.translation.1),
            },
        ),
        entity.synced(world) == entity,
        entity.bound_to(handle).bound_handle_spec() == Some(handle),
        entity.bound_to(handle).placement_spec() is None,
        entity.bound_to(handle).transform == entity.transform,
        entity.bound_to(handle).bound_to(later) == entity.bound_to(handle),
{
    lemma_component_by_state(component, component, handle);
    lemma_component_by_state(component.bound_to(handle), component.bound_to(handle), later);
}

/// Only an entity that is due a body is bound. An entity without a
/// transform, without a binding, or bound already is left as it is, whatever
/// handle is offered to it.
pub proof fn lemma_only_placed_entities_are_bound(entity: Entity, offered: BodyHandle)
    requires
        entity.placement_spec() is None,
    ensures
        entity.bound_to(offered) == entity,
{
}

/// A bound entity never asks for a body and never changes its handle.
pub proof fn lemma_bound_stays_bound(entity: Entity, handle: BodyHandle, offered: BodyHandle)
    requires
        entity.bound_handle_spec() == Some(handle),
    ensures
        entity.placement_spec() is None,
        entity.bound_to(offered) == entity,
{
    lemma_component_by_state(entity.binding->Some_0, entity.binding->Some_0, offered);
}

/// No pass of a frame unbinds an entity or moves it to another body: a
/// bound entity is bound to the same body after its pose was read back,
/// after a handle was offered to it, after its impulse request was consumed,
/// and after a push was written into its request.
pub proof fn lemma_binding_never_reverts(
    entity: Entity,
    handle: BodyHandle,
    world: Map<u64, BodyState>,
    offered: BodyHandle,
    push: (Scalar, Scalar),
)
    requires
        entity.bound_handle_spec() == Some(handle),
    ensures
        entity.synced(world).bound_handle_spec() == Some(handle),
        entity.bound_to(offered).bound_handle_spec() == Some(handle),
        entity.drained().bound_handle_spec() == Some(handle),
        entity.pushed(push).bound_handle_spec() == Some(handle),
{
    lemma_bound_stays_bound(entity, handle, offered);
}

/// An impulse request is consumed once. After a bound entity's request was
/// consumed it is empty, and consuming it again, whatever state the world is
/// in by then, yields no command and changes nothing.
pub proof fn lemma_impulse_is_edge_triggered(
    entity: Entity,
    handle: BodyHandle,
    request: ImpulseComponent,
    later: Map<u64, BodyState>,
)
    requires
        entity.bound_handle_spec() == Some(handle),
        entity.impulse == Some(request),
    ensures
        entity.drained().impulse == Some(ImpulseComponent::empty_spec()),
        entity.drained().impulse_target_spec() is None,
        entity.drained().impulse_commands(later) == Seq::<TargetedCommand>::empty(),
        entity.drained().drained() == entity.drained(),
{
    let none = ImpulseComponent::empty_spec();
    assert(entity.drained().impulse_commands(later) =~= Seq::<TargetedCommand>::empty()) by {
        match activation_of(later, handle) {
            Some(state) => {
                assert(none.commands(state) =~= Seq::<BodyCommand>::empty());
            },
            None => {},
        }
    }
}

/// An entity that is not bound, or has no impulse request, is passed over by
/// the impulse pass: no command, and nothing consumed.
pub proof fn lemma_unbound_keeps_its_request(entity: Entity, world: Map<u64, BodyState>)
    requires
        entity.bound_handle_spec() is None || entity.impulse is None,
    ensures
        entity.drained() == entity,
        entity.impulse_commands(world) == Seq::<TargetedCommand>::empty(),
{
}

/// What a request amounts to for a body that was found: every command is for
/// the entity's own body, and they are the request's commands for the body's
/// state, in their order.
pub proof fn lemma_commands_of_found_body(
    entity: Entity,
    handle: BodyHandle,
    request: ImpulseComponent,
    world: Map<u64, BodyState>,
    body: BodyState,
)
    requires
        entity.bound_handle_spec() == Some(handle),
        entity.impulse == Some(request),
        body_of(world, handle) == Some(body),
    ensures
        entity.impulse_commands(world).len() == request.commands(body.activation).len(),
        forall|i: int|
            0 <= i < entity.impulse_commands(world).len() ==> (#[trigger] entity.impulse_commands(
                world,
            )[i]) == (TargetedCommand {
                handle: handle,
                command: request.commands(body.activation)[i],
            }),
{
}

/// A sleeping body is woken before it is pushed. If the body of an entity
/// sleeps and the entity's request is not empty, the first command wakes that
/// body with strength one, at least one impulse follows, and no later command
/// is a wake-up. If the body is awake, no command is a wake-up.
pub proof fn lemma_wake_comes_first(
    entity: Entity,
    handle: BodyHandle,
    world: Map<u64, BodyState>,
    body: BodyState,
)
    requires
        entity.impulse_target_spec() == Some(handle),
        body_of(world, handle) == Some(body),
    ensures
        body.activation is Inactive ==> {
            &&& entity.impulse_commands(world).len() >= 2
            &&& entity.impulse_commands(world)[0] == (TargetedCommand {
                handle: handle,
                command: BodyCommand::Activate { strength: Scalar { bits: ONE_BITS } },
            })
        },
        forall|i: int|
            1 <= i < entity.impulse_commands(world).len() ==> !((
            #[trigger] entity.impulse_commands(world)[i]).command is Activate),
        body.activation is Active ==> forall|i: int|
            0 <= i < entity.impulse_commands(world).len() ==> !((
            #[trigger] entity.impulse_commands(world)[i]).command is Activate),
{
    let request = entity.impulse->Some_0;
    lemma_wake_precedes_impulses(request, body.activation);
    let inner = request.commands(body.activation);
    let outer = entity.impulse_commands(world);
    assert(outer.len() == inner.len());
    assert forall|i: int| 0 <= i < outer.len() implies (#[trigger] outer[i]).command == inner[i] by {}
    assert forall|i: int| 1 <= i < outer.len() implies !((#[trigger] outer[i]).command
        is Activate) by {
        assert(outer[i].command == inner[i]);
    }
    if body.activation is Active {
        assert forall|i: int| 0 <= i < outer.len() implies !((#[trigger] outer[i]).command
            is Activate) by {
            assert(outer[i].command == inner[i]);
        }
    }
}

/// A body that is gone stops nothing. For an entity that is bound to a body
/// that is not in the world, reading the pose back leaves the entity as it
/// is, and the impulse pass yields no command, leaves binding and transform
/// alone, and leaves a request that asks for nothing as it is.
pub proof fn lemma_missing_body_is_tolerated(
    entity: Entity,
    handle: BodyHandle,
    world: Map<u64, BodyState>,
)
    requires
        entity.bound_handle_spec() == Some(handle),
        body_of(world, handle) is None,
    ensures
        entity.synced(world) == entity,
        entity.impulse_commands(world) == Seq::<TargetedCommand>::empty(),
        entity.drained().binding == entity.binding,
        entity.drained().transform == entity.transform,
        entity.impulse_target_spec() is None ==> entity.drained() == entity,
{
    assert(entity.impulse_commands(world) =~= Seq::<TargetedCommand>::empty());
}

/// Reading a frame's poses twice from the same world is reading them once.
pub proof fn lemma_frame_read_is_idempotent(entities: Seq<Entity>, world: Map<u64, BodyState>)
    ensures
        synced_all(synced_all(entities, world), world) == synced_all(entities, world),
        synced_all(entities, world).len() == entities.len(),
{
    assert(synced_all(synced_all(entities, world), world) =~= synced_all(entities, world));
}

/// Every request of a frame is for an entity that exists and carries the
/// placement of that entity.
pub proof fn lemma_requests_are_exact(entities: Seq<Entity>)
    requires
        entities.len() <= usize::MAX,
    ensures
        insert_requests(entities).len() <= entities.len(),
        forall|k: int|
            0 <= k < insert_requests(entities).len() ==> {
                &&& (#[trigger] insert_requests(entities)[k]).entity < entities.len()
                &&& entities[insert_requests(entities)[k].entity as int].placement_spec() == Some(
                    insert_requests(entities)[k].placement,
                )
            },
    decreases entities.len(),
{
    if entities.len() > 0 {
        let head = entities.drop_last();
        let before = insert_requests(head);
        let all = insert_requests(entities);
        lemma_requests_are_exact(head);
        assert forall|k: int| 0 <= k < all.len() implies {
            &&& (#[trigger] all[k]).entity < entities.len()
            &&& entities[all[k].entity as int].placement_spec() == Some(all[k].placement)
        } by {
            if k < before.len() {
                assert(all[k] == before[k]);
                assert(head[before[k].entity as int] == entities[before[k].entity as int]);
            }
        }
    }
}

/// The requests of a frame come in the order of the entities, one at most
/// for each.
pub proof fn lemma_requests_are_ordered(entities: Seq<Entity>, j: int, k: int)
    requires
        entities.len() <= usize::MAX,
        0 <= j < k < insert_requests(entities).len(),
    ensures
        insert_requests(entities)[j].entity < insert_requests(entities)[k].entity,
    decreases entities.len(),
{
    if entities.len() > 0 {
        let head = entities.drop_last();
        let before = insert_requests(head);
        let all = insert_requests(entities);
        lemma_requests_are_exact(head);
        if k < before.len() {
            lemma_requests_are_ordered(head, j, k);
            assert(all[k] == before[k]);
            assert(all[j] == before[j]);
        } else {
            assert(all[j] == before[j]);
            assert(before[j].entity < head.len());
        }
    }
}

/// Every entity that is due a body has a request: its index in the requests
/// is returned.
pub proof fn lemma_requests_are_complete(entities: Seq<Entity>, i: int) -> (k: int)
    requires
        entities.len() <= usize::MAX,
        0 <= i < entities.len(),
        entities[i].placement_spec() is Some,
    ensures
        0 <= k < insert_requests(entities).len(),
        insert_requests(entities)[k].entity == i,
    decreases entities.len(),
{
    let head = entities.drop_last();
    let before = insert_requests(head);
    let all = insert_requests(entities);
    if i < head.len() {
        assert(head[i] == entities[i]);
        let k = lemma_requests_are_complete(head, i);
        assert(all[k] == before[k]);
        k
    } else {
        assert(entities.last() == entities[i]);
        all.len() - 1
    }
}

/// Where no entity is due a body, the frame asks for none.
pub proof fn lemma_no_placement_no_request(entities: Seq<Entity>)
    requires
        forall|i: int| 0 <= i < entities.len() ==> (#[trigger] entities[i]).placement_spec() is None,
    ensures
        insert_requests(entities) == Seq::<InsertRequest>::empty(),
    decreases entities.len(),
{
    if entities.len() > 0 {
        let head = entities.drop_last();
        assert forall|i: int| 0 <= i < head.len() implies (#[trigger] head[i]).placement_spec()
            is None by {
            assert(head[i] == entities[i]);
        }
        lemma_no_placement_no_request(head);
        assert(entities.last() == entities[entities.len() - 1]);
    }
}

/// Reading poses back does not change which bodies are due.
pub proof fn lemma_read_keeps_requests(entities: Seq<Entity>, world: Map<u64, BodyState>)
    ensures
        insert_requests(synced_all(entities, world)) == insert_requests(entities),
    decreases entities.len(),
{
    if entities.len() > 0 {
        lemma_read_keeps_requests(entities.drop_last(), world);
        assert(synced_all(entities, world).drop_last() =~= synced_all(entities.drop_last(), world));
        assert(synced_all(entities, world).last() == entities.last().synced(world));
    }
}

/// Recording handles touches nothing but the bindings of entities that are
/// due a body. The entities stay as many; transforms and impulse requests
/// are as they were; an entity without a binding stays without; a bound
/// entity, and any other entity that is due no body, is left as it is; an
/// entity that no answer names is left as it is; and an entity that an
/// answer names is due no body afterwards.
pub proof fn lemma_binding_touches_pending_only(entities: Seq<Entity>, answers: Seq<InsertAnswer>)
    ensures
        bound_all(entities, answers).len() == entities.len(),
        forall|i: int|
            0 <= i < entities.len() ==> {
                &&& (#[trigger] bound_all(entities, answers)[i]).transform == entities[i].transform
                &&& bound_all(entities, answers)[i].impulse == entities[i].impulse
                &&& (bound_all(entities, answers)[i].binding is None <==> entities[i].binding
                    is None)
                &&& (entities[i].bound_handle_spec() is Some ==> bound_all(entities, answers)[i]
                    == entities[i])
                &&& (entities[i].placement_spec() is None ==> bound_all(entities, answers)[i]
                    == entities[i])
                &&& ((forall|k: int|
                    0 <= k < answers.len() ==> (#[trigger] answers[k]).entity != i) ==> bound_all(
                    entities,
                    answers,
                )[i] == entities[i])
                &&& ((exists|k: int| 0 <= k < answers.len() && (#[trigger] answers[k]).entity == i)
                    ==> bound_all(entities, answers)[i].placement_spec() is None)
            },
    decreases answers.len(),
{
    if answers.len() > 0 {
        let head = answers.drop_last();
        let before = bound_all(entities, head);
        let after = bound_all(entities, answers);
        let answer = answers.last();
        lemma_binding_touches_pending_only(entities, head);
        assert forall|i: int| 0 <= i < entities.len() implies {
            &&& (#[trigger] after[i]).transform == entities[i].transform
            &&& after[i].impulse == entities[i].impulse
            &&& (after[i].binding is None <==> entities[i].binding is None)
            &&& (entities[i].bound_handle_spec() is Some ==> after[i] == entities[i])
            &&& (entities[i].placement_spec() is None ==> after[i] == entities[i])
            &&& ((forall|k: int| 0 <= k < answers.len() ==> (#[trigger] answers[k]).entity != i)
                ==> after[i] == entities[i])
            &&& ((exists|k: int| 0 <= k < answers.len() && (#[trigger] answers[k]).entity == i)
                ==> after[i].placement_spec() is None)
        } by {
            assert(before[i].transform == entities[i].transform);
            if before[i].binding is Some {
                lemma_component_by_state(
                    before[i].binding->Some_0,
                    before[i].binding->Some_0,
                    answer.handle,
                );
            }
            if forall|k: int| 0 <= k < answers.len() ==> (#[trigger] answers[k]).entity != i {
                assert(answers[answers.len() - 1].entity != i);
                assert forall|k: int| 0 <= k < head.len() implies (#[trigger] head[k]).entity
                    != i by {
                    assert(head[k] == answers[k]);
                }
                assert(after[i] == entities[i]);
            }
            if exists|k: int| 0 <= k < answers.len() && (#[trigger] answers[k]).entity == i {
                let k = choose|k: int| 0 <= k < answers.len() && (#[trigger] answers[k]).entity == i;
                if k < head.len() {
                    assert(head[k] == answers[k]);
                    assert(before[i].placement_spec() is None);
                }
                assert(after[i].placement_spec() is None);
            }
        }
    }
}

/// No body is created twice. Once every request of a frame was answered,
/// every entity that has a binding and a transform is bound, and the
/// entities ask for no body: the next frame's first pass, whatever the world
/// looks like by then, returns no request.
pub proof fn lemma_answered_requests_are_gone(
    entities: Seq<Entity>,
    answers: Seq<InsertAnswer>,
    world: Map<u64, BodyState>,
)
    requires
        entities.len() <= usize::MAX,
        answers.len() == insert_requests(entities).len(),
        forall|k: int|
            0 <= k < answers.len() ==> (#[trigger] answers[k]).entity == insert_requests(
                entities,
            )[k].entity,
    ensures
        insert_requests(bound_all(entities, answers)) == Seq::<InsertRequest>::empty(),
        insert_requests(synced_all(bound_all(entities, answers), world)) == Seq::<
            InsertRequest,
        >::empty(),
        bound_all(entities, answers).len() == entities.len(),
        forall|i: int|
            0 <= i < entities.len() && (#[trigger] entities[i]).binding is Some
                && entities[i].transform is Some ==> bound_all(
                entities,
                answers,
            )[i].bound_handle_spec() is Some,
{
    let after = bound_all(entities, answers);
    let requests = insert_requests(entities);
    lemma_requests_are_exact(entities);
    lemma_binding_touches_pending_only(entities, answers);
    assert forall|i: int| 0 <= i < after.len() implies (#[trigger] after[i]).placement_spec()
        is None by {
        if entities[i].placement_spec() is Some {
            let k = lemma_requests_are_complete(entities, i);
            assert(answers[k].entity == i);
        }
    }
    lemma_no_placement_no_request(after);
    lemma_read_keeps_requests(after, world);
    assert forall|i: int|
        0 <= i < entities.len() && (#[trigger] entities[i]).binding is Some
            && entities[i].transform is Some implies after[i].bound_handle_spec() is Some by {
        assert(after[i].placement_spec() is None);
        assert(after[i].transform == entities[i].transform);
    }
}

/// Consuming impulse requests touches nothing but the requests, and a frame
/// whose requests were consumed yields no command when they are consumed
/// again: every impulse is applied on one frame only.
pub proof fn lemma_frame_impulses_apply_once(entities: Seq<Entity>, later: Map<u64, BodyState>)
    ensures
        drained_all(entities).len() == entities.len(),
        forall|i: int|
            0 <= i < entities.len() ==> {
                &&& (#[trigger] drained_all(entities)[i]).binding == entities[i].binding
                &&& drained_all(entities)[i].transform == entities[i].transform
                &&& drained_all(entities)[i].impulse_target_spec() is None
            },
        frame_commands(drained_all(entities), later) == Seq::<TargetedCommand>::empty(),
        drained_all(drained_all(entities)) == drained_all(entities),
    decreases entities.len(),
{
    assert(drained_all(drained_all(entities)) =~= drained_all(entities));
    if entities.len() > 0 {
        let head = entities.drop_last();
        lemma_frame_impulses_apply_once(head, later);
        assert(drained_all(entities).drop_last() =~= drained_all(head));
        let last = entities.last();
        assert(drained_all(entities).last() == last.drained());
        if last.bound_handle_spec() is Some && last.impulse is Some {
            lemma_impulse_is_edge_triggered(
                last,
                last.bound_handle_spec()->Some_0,
                last.impulse->Some_0,
                later,
            );
        } else {
            lemma_unbound_keeps_its_request(last, later);
        }
    }
}

} // verus!
