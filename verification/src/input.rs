//! From the events of a frame to what they ask for.
//!
//! The four arrow keys push. Of the events of a frame the first press of an
//! arrow key decides, and its push is written into the impulse request of
//! every entity that has one. A closed window or the escape key ends the
//! run.

use vstd::prelude::*;
use crate::entity::Entity;
use crate::scalar::Scalar;

verus! {

/// The word of one half.
pub const HALF_BITS: u32 = 0x3F00_0000;

/// The word of minus one half.
pub const MINUS_HALF_BITS: u32 = 0xBF00_0000;

/// The keys that the mapping tells apart.
#[derive(Clone, Copy, Debug, PartialEq, Eq)]
pub enum Key {
    Up,
    Down,
    Left,
    Right,
    Other,
}

/// A key that went down or came up.
#[derive(Clone, Copy, Debug, PartialEq, Eq)]
pub struct KeyEvent {
    pub pressed: bool,
    pub key: Key,
}

impl KeyEvent {
    /// The push that the event asks for: half a unit along the arrow for a
    /// press of an arrow key, with the second axis pointing down; nothing for
    /// a release or another key.
    pub open spec fn impulse_spec(self) -> Option<(Scalar, Scalar)> {
        if !self.pressed {
            None
        } else {
            match self.key {
                Key::Up => Some((Scalar { bits: 0 }, Scalar { bits: MINUS_HALF_BITS })),
                Key::Down => Some((Scalar { bits: 0 }, Scalar { bits: HALF_BITS })),
                Key::Left => Some((Scalar { bits: MINUS_HALF_BITS }, Scalar { bits: 0 })),
                Key::Right => Some((Scalar { bits: HALF_BITS }, Scalar { bits: 0 })),
                Key::Other => None,
            }
        }
    }

    #[verifier::when_used_as_spec(impulse_spec)]
    pub fn impulse(self) -> (r: Option<(Scalar, Scalar)>)
        ensures
            r == self.impulse_spec(),
    {
        if !self.pressed {
            return None;
        }
        match self.key {
            Key::Up => Some((Scalar::zero(), Scalar::from_bits(MINUS_HALF_BITS))),
            Key::Down => Some((Scalar::zero(), Scalar::from_bits(HALF_BITS))),
            Key::Left => Some((Scalar::from_bits(MINUS_HALF_BITS), Scalar::zero())),
            Key::Right => Some((Scalar::from_bits(HALF_BITS), Scalar::zero())),
            Key::Other => None,
        }
    }
}

/// What the application is told by its window and keyboard, as far as
/// ending the run goes.
#[derive(Clone, Copy, Debug, PartialEq, Eq)]
pub enum AppEvent {
    /// The window was closed.
    Closed,
    /// The escape key was used.
    Escape,
    /// Anything else.
    Other,
}

/// Whether the events of a frame ask for the run to end: they do if the
/// window was closed or the escape key used.
pub fn wants_quit(events: &Vec<AppEvent>) -> (quit: bool)
    ensures
        quit == exists|i: int| 0 <= i < events@.len() && !(#[trigger] events@[i] is Other),
{
    let n = events.len();
    let mut i: usize = 0;
    while i < n
        invariant
            i <= n,
            n == events@.len(),
            forall|j: int| 0 <= j < i ==> #[trigger] events@[j] is Other,
        decreases n - i,
    {
        match events[i] {
            AppEvent::Other => {},
            _ => {
                assert(!(events@[i as int] is Other));
                return true;
            },
        }
        i += 1;
    }
    false
}

/// The push of the first event that asks for one.
pub open spec fn first_impulse_spec(events: Seq<KeyEvent>) -> Option<(Scalar, Scalar)>
    decreases events.len(),
{
    if events.len() == 0 {
        None
    } else {
        match events.first().impulse_spec() {
            Some(push) => Some(push),
            None => first_impulse_spec(events.drop_first()),
        }
    }
}

/// The entities after a push was written into every impulse request: the
/// linear part is the push, the angular part is what it was, and an entity
/// without a request is left as it is.
pub open spec fn pushed_all(entities: Seq<Entity>, push: (Scalar, Scalar)) -> Seq<Entity> {
    Seq::new(entities.len(), |i: int| entities[i].pushed(push))
}

impl Entity {
    /// The entity after a push was written into its impulse request.
    pub open spec fn pushed(self, push: (Scalar, Scalar)) -> Entity {
        match self.impulse {
            Some(r) => Entity {
                impulse: Some(crate::impulse::ImpulseComponent { linear: Some(push), ..r }),
                ..self
            },
            None => self,
        }
    }

    /// Writes a push into the entity's impulse request, over any push that
    /// waits there.
    pub fn push(&mut self, push: (Scalar, Scalar))
        ensures
            *final(self) == old(self).pushed(push),
    {
        match self.impulse {
            Some(r) => {
                let mut request = r;
                request.linear = Some(push);
                self.impulse = Some(request);
            },
            None => {},
        }
    }
}

/// The push that the events of a frame ask for: that of the first press of
/// an arrow key among them.
pub fn first_impulse(events: &Vec<KeyEvent>) -> (r: Option<(Scalar, Scalar)>)
    ensures
        r == first_impulse_spec(events@),
{
    let n = events.len();
    let mut i: usize = 0;
    assert(events@.skip(0) =~= events@);
    while i < n
        invariant
            i <= n,
            n == events@.len(),
            first_impulse_spec(events@) == first_impulse_spec(events@.skip(i as int)),
        decreases n - i,
    {
        assert(events@.skip(i as int).first() == events@[i as int]);
        assert(events@.skip(i as int).drop_first() =~= events@.skip(i + 1));
        match events[i].impulse() {
            Some(push) => {
                return Some(push);
            },
            None => {},
        }
        i += 1;
    }
    assert(events@.skip(n as int).len() == 0);
    None
}

/// Maps the events of a frame to a push and writes it into every impulse
/// request. Where no event asks for a push, nothing is written.
pub fn map_input(events: &Vec<KeyEvent>, entities: &mut Vec<Entity>)
    ensures
        final(entities)@ == (match first_impulse_spec(events@) {
            Some(push) => pushed_all(old(entities)@, push),
            None => old(entities)@,
        }),
{
    let push = match first_impulse(events) {
        Some(push) => push,
        None => {
            return ;
        },
    };
    let ghost before = entities@;
    let n = entities.len();
    let mut i: usize = 0;
    while i < n
        invariant
            i <= n,
            n == before.len(),
            entities@.len() == n,
            forall|j: int| 0 <= j < i ==> entities@[j] == (#[trigger] before[j]).pushed(push),
            forall|j: int| i <= j < n ==> entities@[j] == #[trigger] before[j],
        decreases n - i,
    {
        let mut entity = entities[i];
        entity.push(push);
        entities.set(i, entity);
        i += 1;
    }
    assert(entities@ =~= pushed_all(before, push));
}

} // verus!
