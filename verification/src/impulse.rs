//! Impulse requests: a slot that is filled from outside and emptied here.
//!
//! A request is applied at most once. Whoever consumes it gets the commands
//! for the body and leaves the slot empty, so that a request that nobody
//! renews applies nothing on the frames that follow.

use vstd::prelude::*;
use crate::scalar::Scalar;
use crate::scalar::ONE_BITS;

verus! {

/// Whether a body takes part in the simulation or sleeps.
#[derive(Clone, Copy, Debug, PartialEq, Eq)]
pub enum ActivationState {
    Active,
    Inactive,
}

/// One thing to do to a body.
#[derive(Clone, Copy, Debug, PartialEq, Eq)]
pub enum BodyCommand {
    /// Wake the body with the given strength.
    Activate { strength: Scalar },
    /// Add to the body's angular momentum.
    AngularImpulse(Scalar),
    /// Push the body at its centre.
    LinearImpulse((Scalar, Scalar)),
}

/// The impulse request of an entity: at most one angular and one linear
/// impulse, each waiting to be applied once.
#[derive(Clone, Copy, Debug, PartialEq, Eq)]
pub struct ImpulseComponent {
    pub angular: Option<Scalar>,
    pub linear: Option<(Scalar, Scalar)>,
}

impl ImpulseComponent {
    /// The request that asks for nothing.
    pub open spec fn empty_spec() -> ImpulseComponent {
        ImpulseComponent { angular: None, linear: None }
    }

    pub open spec fn is_empty_spec(self) -> bool {
        self.angular is None && self.linear is None
    }

    /// The command that wakes a body, due when a sleeping body is about to
    /// receive an impulse.
    pub open spec fn wake_commands(self, state: ActivationState) -> Seq<BodyCommand> {
        if state is Inactive && !self.is_empty_spec() {
            seq![BodyCommand::Activate { strength: Scalar { bits: ONE_BITS } }]
        } else {
            Seq::<BodyCommand>::empty()
        }
    }

    pub open spec fn angular_commands(self) -> Seq<BodyCommand> {
        match self.angular {
            Some(a) => seq![BodyCommand::AngularImpulse(a)],
            None => Seq::<BodyCommand>::empty(),
        }
    }

    pub open spec fn linear_commands(self) -> Seq<BodyCommand> {
        match self.linear {
            Some(l) => seq![BodyCommand::LinearImpulse(l)],
            None => Seq::<BodyCommand>::empty(),
        }
    }

    /// The commands that this request amounts to for a body in the given
    /// state: the wake-up if it is due, then the angular impulse, then the
    /// linear one.
    pub open spec fn commands(self, state: ActivationState) -> Seq<BodyCommand> {
        self.wake_commands(state) + self.angular_commands() + self.linear_commands()
    }

    /// The commands for a body that was looked up: none if it was not found.
    pub open spec fn commands_for(self, body: Option<ActivationState>) -> Seq<BodyCommand> {
        match body {
            Some(state) => self.commands(state),
            None => Seq::<BodyCommand>::empty(),
        }
    }

    pub fn empty() -> (r: ImpulseComponent)
        ensures
            r == Self::empty_spec(),
    {
        ImpulseComponent { angular: None, linear: None }
    }

    #[verifier::when_used_as_spec(is_empty_spec)]
    pub fn is_empty(self) -> (r: bool)
        ensures
            r == self.is_empty_spec(),
    {
        self.angular.is_none() && self.linear.is_none()
    }

    /// Empties the request and returns the commands that it amounts to for
    /// the body that was looked up. A request whose body was not found is
    /// emptied all the same and yields nothing.
    pub fn consume(&mut self, body: Option<ActivationState>) -> (commands: Vec<BodyCommand>)
        ensures
            *final(self) == Self::empty_spec(),
            commands@ == old(self).commands_for(body),
    {
        let request = *self;
        self.angular = None;
        self.linear = None;
        let mut commands: Vec<BodyCommand> = Vec::new();
        match body {
            None => {},
            Some(state) => {
                let asleep = match state {
                    ActivationState::Inactive => true,
                    ActivationState::Active => false,
                };
                if asleep && !request.is_empty() {
                    commands.push(BodyCommand::Activate { strength: Scalar::one() });
                }
                assert(commands@ =~= request.wake_commands(state));
                match request.angular {
                    Some(a) => {
                        commands.push(BodyCommand::AngularImpulse(a));
                    },
                    None => {},
                }
                assert(commands@ =~= request.wake_commands(state) + request.angular_commands());
                match request.linear {
                    Some(l) => {
                        commands.push(BodyCommand::LinearImpulse(l));
                    },
                    None => {},
                }
                assert(commands@ =~= request.commands(state));
            },
        }
        commands
    }
}

impl Default for ImpulseComponent {
    fn default() -> (r: ImpulseComponent)
        ensures
            r == ImpulseComponent::empty_spec(),
    {
        ImpulseComponent::empty()
    }
}

/// The three sorts of command.
#[derive(Clone, Copy, Debug, PartialEq, Eq)]
pub enum CommandKind {
    Activate,
    AngularImpulse,
    LinearImpulse,
}

impl BodyCommand {
    pub open spec fn kind_spec(self) -> CommandKind {
        match self {
            BodyCommand::Activate { .. } => CommandKind::Activate,
            BodyCommand::AngularImpulse(_) => CommandKind::AngularImpulse,
            BodyCommand::LinearImpulse(_) => CommandKind::LinearImpulse,
        }
    }

    #[verifier::when_used_as_spec(kind_spec)]
    pub fn kind(self) -> (k: CommandKind)
        ensures
            k == self.kind_spec(),
    {
        match self {
            BodyCommand::Activate { .. } => CommandKind::Activate,
            BodyCommand::AngularImpulse(_) => CommandKind::AngularImpulse,
            BodyCommand::LinearImpulse(_) => CommandKind::LinearImpulse,
        }
    }
}

/// How many of the commands are of the given sort.
pub open spec fn count_of(commands: Seq<BodyCommand>, kind: CommandKind) -> nat
    decreases commands.len(),
{
    if commands.len() == 0 {
        0
    } else {
        let rest = count_of(commands.drop_last(), kind);
        if commands.last().kind_spec() == kind {
            rest + 1
        } else {
            rest
        }
    }
}

/// Counts add up over concatenation.
pub proof fn lemma_count_concat(a: Seq<BodyCommand>, b: Seq<BodyCommand>, kind: CommandKind)
    ensures
        count_of(a + b, kind) == count_of(a, kind) + count_of(b, kind),
    decreases b.len(),
{
    if b.len() == 0 {
        assert(a + b =~= a);
    } else {
        lemma_count_concat(a, b.drop_last(), kind);
        assert((a + b).drop_last() =~= a + b.drop_last());
        assert((a + b).last() == b.last());
    }
}

/// A sequence of at most one command counts that command or nothing.
proof fn lemma_count_short(commands: Seq<BodyCommand>, kind: CommandKind)
    requires
        commands.len() <= 1,
    ensures
        count_of(commands, kind) == (if commands.len() == 1 && commands[0].kind_spec() == kind {
            1nat
        } else {
            0nat
        }),
{
    reveal_with_fuel(count_of, 2);
    if commands.len() == 1 {
        assert(commands.drop_last().len() == 0);
        assert(commands.last() == commands[0]);
    }
}

/// What a request amounts to, by sort: one wake-up exactly when the body
/// sleeps and the request asks for something, one angular impulse exactly
/// when one is set, one linear impulse exactly when one is set.
pub proof fn lemma_command_counts(request: ImpulseComponent, state: ActivationState)
    ensures
        count_of(request.commands(state), CommandKind::Activate) == (if state is Inactive
            && !request.is_empty_spec() {
            1nat
        } else {
            0nat
        }),
        count_of(request.commands(state), CommandKind::AngularImpulse) == (if request.angular
            is Some {
            1nat
        } else {
            0nat
        }),
        count_of(request.commands(state), CommandKind::LinearImpulse) == (if request.linear
            is Some {
            1nat
        } else {
            0nat
        }),
{
    let w = request.wake_commands(state);
    let a = request.angular_commands();
    let l = request.linear_commands();
    lemma_count_concat(w + a, l, CommandKind::Activate);
    lemma_count_concat(w, a, CommandKind::Activate);
    lemma_count_concat(w + a, l, CommandKind::AngularImpulse);
    lemma_count_concat(w, a, CommandKind::AngularImpulse);
    lemma_count_concat(w + a, l, CommandKind::LinearImpulse);
    lemma_count_concat(w, a, CommandKind::LinearImpulse);
    lemma_count_short(w, CommandKind::Activate);
    lemma_count_short(a, CommandKind::Activate);
    lemma_count_short(l, CommandKind::Activate);
    lemma_count_short(w, CommandKind::AngularImpulse);
    lemma_count_short(a, CommandKind::AngularImpulse);
    lemma_count_short(l, CommandKind::AngularImpulse);
    lemma_count_short(w, CommandKind::LinearImpulse);
    lemma_count_short(a, CommandKind::LinearImpulse);
    lemma_count_short(l, CommandKind::LinearImpulse);
}

/// A request is applied once. Whatever two lookups find on two frames in a
/// row, the second frame yields no command, so the two frames together hold
/// each impulse as often as the first frame alone: once if the body was found
/// and the impulse was set, else never.
pub proof fn lemma_applied_once(
    request: ImpulseComponent,
    first: Option<ActivationState>,
    second: Option<ActivationState>,
)
    ensures
        ImpulseComponent::empty_spec().commands_for(second) == Seq::<BodyCommand>::empty(),
        request.commands_for(first) + ImpulseComponent::empty_spec().commands_for(second)
            == request.commands_for(first),
        count_of(request.commands_for(first), CommandKind::LinearImpulse) == (if first is Some
            && request.linear is Some {
            1nat
        } else {
            0nat
        }),
        count_of(request.commands_for(first), CommandKind::AngularImpulse) == (if first is Some
            && request.angular is Some {
            1nat
        } else {
            0nat
        }),
{
    let none = ImpulseComponent::empty_spec();
    assert(none.commands_for(second) =~= Seq::<BodyCommand>::empty()) by {
        if let Some(state) = second {
            assert(none.commands(state) =~= Seq::<BodyCommand>::empty());
        }
    }
    assert(request.commands_for(first) + Seq::<BodyCommand>::empty() =~= request.commands_for(
        first,
    ));
    match first {
        Some(state) => {
            lemma_command_counts(request, state);
        },
        None => {},
    }
}

/// A sleeping body is woken before it receives an impulse: the wake-up is
/// the first command, with strength one, and no later command is a wake-up.
/// A body that is awake is not woken.
pub proof fn lemma_wake_precedes_impulses(request: ImpulseComponent, state: ActivationState)
    ensures
        state is Inactive && !request.is_empty_spec() ==> {
            &&& request.commands(state).len() >= 2
            &&& request.commands(state)[0] == BodyCommand::Activate {
                strength: Scalar { bits: ONE_BITS },
            }
        },
        state is Active ==> forall|i: int|
            0 <= i < request.commands(state).len() ==> !(#[trigger] request.commands(state)[i]
                is Activate),
        forall|i: int|
            1 <= i < request.commands(state).len() ==> !(#[trigger] request.commands(state)[i]
                is Activate),
        request.is_empty_spec() ==> request.commands(state).len() == 0,
{
}

} // verus!
