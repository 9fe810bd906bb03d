use physics_sync::binding::BodyHandle;
use physics_sync::binding::PhysicsComponent;
use physics_sync::entity::Entity;
use physics_sync::impulse::ImpulseComponent;
use physics_sync::input::first_impulse;
use physics_sync::input::map_input;
use physics_sync::input::wants_quit;
use physics_sync::input::AppEvent;
use physics_sync::input::Key;
use physics_sync::input::KeyEvent;
use physics_sync::input::HALF_BITS;
use physics_sync::input::MINUS_HALF_BITS;
use physics_sync::scalar::Scalar;

fn s(x: f32) -> Scalar {
    Scalar::from_bits(x.to_bits())
}

fn press(key: Key) -> KeyEvent {
    KeyEvent { pressed: true, key }
}

fn release(key: Key) -> KeyEvent {
    KeyEvent { pressed: false, key }
}

#[test]
fn half_words_are_one_half() {
    assert_eq!(HALF_BITS, 0.5f32.to_bits());
    assert_eq!(MINUS_HALF_BITS, (-0.5f32).to_bits());
}

#[test]
fn each_arrow_pushes_along_its_axis() {
    assert_eq!(press(Key::Up).impulse(), Some((s(0.0), s(-0.5))));
    assert_eq!(press(Key::Down).impulse(), Some((s(0.0), s(0.5))));
    assert_eq!(press(Key::Left).impulse(), Some((s(-0.5), s(0.0))));
    assert_eq!(press(Key::Right).impulse(), Some((s(0.5), s(0.0))));
    assert_eq!(press(Key::Other).impulse(), None);
    assert_eq!(release(Key::Up).impulse(), None);
}

#[test]
fn first_arrow_press_decides() {
    let events = vec![release(Key::Left), press(Key::Other), press(Key::Down), press(Key::Up)];
    assert_eq!(first_impulse(&events), Some((s(0.0), s(0.5))));
    assert_eq!(first_impulse(&vec![]), None);
    assert_eq!(first_impulse(&vec![release(Key::Up), press(Key::Other)]), None);
}

#[test]
fn push_is_written_into_every_request() {
    let waiting = ImpulseComponent { angular: Some(s(2.0)), linear: Some((s(9.0), s(9.0))) };
    let mut entities = vec![
        Entity { binding: None, transform: None, impulse: Some(ImpulseComponent::empty()) },
        Entity { binding: None, transform: None, impulse: None },
        Entity {
            binding: Some(PhysicsComponent::bound(BodyHandle { id: 1 })),
            transform: None,
            impulse: Some(waiting),
        },
    ];
    map_input(&vec![press(Key::Right)], &mut entities);
    let push = Some((s(0.5), s(0.0)));
    assert_eq!(entities[0].impulse, Some(ImpulseComponent { angular: None, linear: push }));
    assert_eq!(entities[1].impulse, None);
    assert_eq!(entities[2].impulse, Some(ImpulseComponent { angular: Some(s(2.0)), linear: push }));
    assert_eq!(entities[2].bound_handle(), Some(BodyHandle { id: 1 }));
}

#[test]
fn no_arrow_press_writes_nothing() {
    let waiting = ImpulseComponent { angular: None, linear: Some((s(9.0), s(9.0))) };
    let mut entities = vec![Entity { binding: None, transform: None, impulse: Some(waiting) }];
    map_input(&vec![release(Key::Right), press(Key::Other)], &mut entities);
    assert_eq!(entities[0].impulse, Some(waiting));
}

#[test]
fn closing_or_escape_ends_the_run() {
    assert!(!wants_quit(&vec![]));
    assert!(!wants_quit(&vec![AppEvent::Other, AppEvent::Other]));
    assert!(wants_quit(&vec![AppEvent::Closed]));
    assert!(wants_quit(&vec![AppEvent::Other, AppEvent::Escape]));
    assert!(wants_quit(&vec![AppEvent::Other, AppEvent::Closed, AppEvent::Other]));
}
