use physics_sync::impulse::ActivationState;
use physics_sync::impulse::BodyCommand;
use physics_sync::impulse::CommandKind;
use physics_sync::impulse::ImpulseComponent;
use physics_sync::scalar::Scalar;

fn s(x: f32) -> Scalar {
    Scalar::from_bits(x.to_bits())
}

fn wake() -> BodyCommand {
    BodyCommand::Activate { strength: s(1.0) }
}

#[test]
fn default_request_is_empty() {
    let r = ImpulseComponent::default();
    assert_eq!(r, ImpulseComponent { angular: None, linear: None });
    assert!(r.is_empty());
    assert_eq!(ImpulseComponent::empty(), r);
}

#[test]
fn empty_request_yields_nothing_in_any_state() {
    for body in [None, Some(ActivationState::Active), Some(ActivationState::Inactive)] {
        let mut r = ImpulseComponent::empty();
        assert_eq!(r.consume(body), vec![]);
        assert!(r.is_empty());
    }
}

#[test]
fn awake_body_gets_angular_then_linear() {
    let mut r = ImpulseComponent { angular: Some(s(0.25)), linear: Some((s(0.0), s(-0.5))) };
    assert!(!r.is_empty());
    let commands = r.consume(Some(ActivationState::Active));
    assert_eq!(
        commands,
        vec![BodyCommand::AngularImpulse(s(0.25)), BodyCommand::LinearImpulse((s(0.0), s(-0.5)))]
    );
    assert!(r.is_empty());
}

#[test]
fn sleeping_body_is_woken_once_before_both_impulses() {
    let mut r = ImpulseComponent { angular: Some(s(2.0)), linear: Some((s(0.5), s(0.0))) };
    let commands = r.consume(Some(ActivationState::Inactive));
    assert_eq!(
        commands,
        vec![
            wake(),
            BodyCommand::AngularImpulse(s(2.0)),
            BodyCommand::LinearImpulse((s(0.5), s(0.0))),
        ]
    );
    assert_eq!(commands.iter().filter(|c| c.kind() == CommandKind::Activate).count(), 1);
}

#[test]
fn sleeping_body_with_linear_only() {
    let mut r = ImpulseComponent { angular: None, linear: Some((s(-0.5), s(0.0))) };
    assert_eq!(
        r.consume(Some(ActivationState::Inactive)),
        vec![wake(), BodyCommand::LinearImpulse((s(-0.5), s(0.0)))]
    );
}

#[test]
fn sleeping_body_with_angular_only() {
    let mut r = ImpulseComponent { angular: Some(s(1.0)), linear: None };
    assert_eq!(
        r.consume(Some(ActivationState::Inactive)),
        vec![wake(), BodyCommand::AngularImpulse(s(1.0))]
    );
}

#[test]
fn missing_body_discards_the_request() {
    let mut r = ImpulseComponent { angular: Some(s(1.0)), linear: Some((s(1.0), s(1.0))) };
    assert_eq!(r.consume(None), vec![]);
    assert!(r.is_empty());
}

#[test]
fn request_is_consumed_once() {
    let mut r = ImpulseComponent { angular: None, linear: Some((s(0.0), s(0.5))) };
    let first = r.consume(Some(ActivationState::Active));
    assert_eq!(r.linear, None);
    let second = r.consume(Some(ActivationState::Active));
    let pushes = first
        .iter()
        .chain(second.iter())
        .filter(|c| c.kind() == CommandKind::LinearImpulse)
        .count();
    assert_eq!(pushes, 1);
    assert_eq!(second, vec![]);
}

#[test]
fn kinds_name_the_commands() {
    assert_eq!(wake().kind(), CommandKind::Activate);
    assert_eq!(BodyCommand::AngularImpulse(s(0.0)).kind(), CommandKind::AngularImpulse);
    assert_eq!(BodyCommand::LinearImpulse((s(0.0), s(0.0))).kind(), CommandKind::LinearImpulse);
}
