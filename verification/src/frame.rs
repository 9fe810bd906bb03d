//! The rules of a frame for all entities at once.
//!
//! A frame has three passes over the entities. The first reads poses back and
//! collects the bodies to create; the second records the handles of the
//! bodies that were created; the third consumes the impulse requests. Each
//! pass goes through the entities in order, and what it does to one entity
//! does not depend on any other.

use vstd::prelude::*;
use std::collections::HashMap;
use crate::binding::BodyHandle;
use crate::entity::BodyPlacement;
use crate::entity::Entity;
use crate::entity::TargetedCommand;
use crate::world::BodyState;

verus! {

/// A body to create, with the index of the entity that it is for.
#[derive(Clone, Copy, Debug, PartialEq, Eq)]
pub struct InsertRequest {
    pub entity: usize,
    pub placement: BodyPlacement,
}

/// The handle of a body that was created, with the index of the entity that
/// it was created for.
#[derive(Clone, Copy, Debug, PartialEq, Eq)]
pub struct InsertAnswer {
    pub entity: usize,
    pub handle: BodyHandle,
}

/// Every entity after its pose was read back.
pub open spec fn synced_all(entities: Seq<Entity>, world: Map<u64, BodyState>) -> Seq<Entity> {
    Seq::new(entities.len(), |i: int| entities[i].synced(world))
}

/// Every entity after its impulse request was consumed.
pub open spec fn drained_all(entities: Seq<Entity>) -> Seq<Entity> {
    Seq::new(entities.len(), |i: int| entities[i].drained())
}

/// The bodies to create for the entities, in the order of the entities.
pub open spec fn insert_requests(entities: Seq<Entity>) -> Seq<InsertRequest>
    decreases entities.len(),
{
    if entities.len() == 0 {
        Seq::<InsertRequest>::empty()
    } else {
        let before = insert_requests(entities.drop_last());
        match entities.last().placement_spec() {
            Some(p) => before.push(
                InsertRequest { entity: (entities.len() - 1) as usize, placement: p },
            ),
            None => before,
        }
    }
}

/// The entities after the answers were recorded, one after the other. An
/// answer for an entity that does not exist, or that is due no body, is
/// passed over.
pub open spec fn bound_all(entities: Seq<Entity>, answers: Seq<InsertAnswer>) -> Seq<Entity>
    decreases answers.len(),
{
    if answers.len() == 0 {
        entities
    } else {
        let before = bound_all(entities, answers.drop_last());
        let answer = answers.last();
        if answer.entity < before.len() {
            before.update(answer.entity as int, before[answer.entity as int].bound_to(answer.handle))
        } else {
            before
        }
    }
}

/// The commands that the impulse requests of the entities amount to, in the
/// order of the entities.
pub open spec fn frame_commands(entities: Seq<Entity>, world: Map<u64, BodyState>) -> Seq<
    TargetedCommand,
>
    decreases entities.len(),
{
    if entities.len() == 0 {
        Seq::<TargetedCommand>::empty()
    } else {
        frame_commands(entities.drop_last(), world) + entities.last().impulse_commands(world)
    }
}

/// The first pass: reads the pose of every bound entity back into its
/// transform and returns the bodies to create for the pending ones.
pub fn sync_entities(entities: &mut Vec<Entity>, world: &HashMap<u64, BodyState>) -> (requests:
    Vec<InsertRequest>)
    ensures
        final(entities)@ == synced_all(old(entities)@, world@),
        requests@ == insert_requests(old(entities)@),
        forall|k: int|
            0 <= k < requests@.len() ==> (#[trigger] requests@[k]).placement.descriptor
                .is_well_formed_spec(),
{
    let ghost before = entities@;
    let n = entities.len();
    let mut requests: Vec<InsertRequest> = Vec::new();
    let mut i: usize = 0;
    while i < n
        invariant
            i <= n,
            n == before.len(),
            entities@.len() == n,
            forall|j: int| 0 <= j < i ==> entities@[j] == (#[trigger] before[j]).synced(world@),
            forall|j: int| i <= j < n ==> entities@[j] == #[trigger] before[j],
            requests@ == insert_requests(before.take(i as int)),
            forall|k: int|
                0 <= k < requests@.len() ==> (#[trigger] requests@[k]).placement.descriptor
                    .is_well_formed_spec(),
        decreases n - i,
    {
        let mut entity = entities[i];
        assert(before.take(i + 1).drop_last() =~= before.take(i as int));
        assert(before.take(i + 1).last() == before[i as int]);
        match entity.placement() {
            Some(p) => {
                requests.push(InsertRequest { entity: i, placement: p });
            },
            None => {},
        }
        entity.read_pose(world);
        entities.set(i, entity);
        i += 1;
    }
    assert(before.take(n as int) =~= before);
    assert(entities@ =~= synced_all(before, world@));
    requests
}

/// The second pass: records the handles of the bodies that were created.
/// An entity that is due a body takes the first handle that is offered to
/// it; an entity that is bound keeps the handle it has, and an entity
/// without a transform or without a binding stays as it is.
pub fn bind_entities(entities: &mut Vec<Entity>, answers: &Vec<InsertAnswer>)
    ensures
        final(entities)@ == bound_all(old(entities)@, answers@),
{
    let ghost before = entities@;
    let n = answers.len();
    let mut k: usize = 0;
    while k < n
        invariant
            k <= n,
            n == answers@.len(),
            entities@ == bound_all(before, answers@.take(k as int)),
        decreases n - k,
    {
        let answer = answers[k];
        assert(answers@.take(k + 1).drop_last() =~= answers@.take(k as int));
        assert(answers@.take(k + 1).last() == answers@[k as int]);
        if answer.entity < entities.len() {
            let mut entity = entities[answer.entity];
            entity.bind(answer.handle);
            entities.set(answer.entity, entity);
        }
        k += 1;
    }
    assert(answers@.take(n as int) =~= answers@);
}

/// The third pass: consumes the impulse request of every bound entity and
/// returns the commands for the bodies.
pub fn drain_impulses(entities: &mut Vec<Entity>, world: &HashMap<u64, BodyState>) -> (commands:
    Vec<TargetedCommand>)
    ensures
        final(entities)@ == drained_all(old(entities)@),
        commands@ == frame_commands(old(entities)@, world@),
{
    let ghost before = entities@;
    let n = entities.len();
    let mut commands: Vec<TargetedCommand> = Vec::new();
    let mut i: usize = 0;
    while i < n
        invariant
            i <= n,
            n == before.len(),
            entities@.len() == n,
            forall|j: int| 0 <= j < i ==> entities@[j] == (#[trigger] before[j]).drained(),
            forall|j: int| i <= j < n ==> entities@[j] == #[trigger] before[j],
            commands@ == frame_commands(before.take(i as int), world@),
        decreases n - i,
    {
        let mut entity = entities[i];
        assert(before.take(i + 1).drop_last() =~= before.take(i as int));
        assert(before.take(i + 1).last() == before[i as int]);
        let mut more = entity.take_impulses(world);
        commands.append(&mut more);
        entities.set(i, entity);
        i += 1;
    }
    assert(before.take(n as int) =~= before);
    assert(entities@ =~= drained_all(before));
    commands
}

} // verus!
