use physics_sync::binding::Binding;
use physics_sync::binding::BodyDescriptor;
use physics_sync::binding::BodyHandle;
use physics_sync::binding::PhysicsComponent;
use physics_sync::binding::Shape;
use physics_sync::error::SyncError;
use physics_sync::scalar::Scalar;

fn s(x: f32) -> Scalar {
    Scalar::from_bits(x.to_bits())
}

fn crate_box() -> BodyDescriptor {
    BodyDescriptor {
        shape: Shape::Cuboid { half_extents: (s(0.463), s(0.463)) },
        mass: Some(s(0.5)),
        friction: s(0.5),
        restitution: s(0.9),
        position: (s(0.0), s(0.0)),
    }
}

#[test]
fn new_component_is_pending_with_its_descriptor() {
    let c = PhysicsComponent::new(crate_box()).unwrap();
    assert_eq!(c.binding(), Binding::Pending(crate_box()));
    assert!(!c.is_bound());
    assert_eq!(c.handle(), None);
    assert_eq!(c.descriptor(), Some(crate_box()));
}

#[test]
fn fixed_body_without_mass_is_accepted() {
    let d = BodyDescriptor { mass: None, position: (s(0.8), s(1.2)), ..crate_box() };
    assert!(d.is_well_formed());
    assert_eq!(PhysicsComponent::new(d).unwrap().descriptor(), Some(d));
}

#[test]
fn zero_and_infinite_fields_are_accepted() {
    let d = BodyDescriptor {
        shape: Shape::Ball { radius: s(0.0) },
        mass: Some(s(f32::INFINITY)),
        friction: s(-0.0),
        restitution: s(0.0),
        position: (s(f32::NEG_INFINITY), s(-3.0)),
    };
    assert!(PhysicsComponent::new(d).is_ok());
}

#[test]
fn malformed_descriptors_are_refused() {
    let bad = [
        BodyDescriptor { mass: Some(s(-0.5)), ..crate_box() },
        BodyDescriptor { mass: Some(s(f32::NAN)), ..crate_box() },
        BodyDescriptor { friction: s(-1.0), ..crate_box() },
        BodyDescriptor { friction: s(f32::NAN), ..crate_box() },
        BodyDescriptor { restitution: s(-0.1), ..crate_box() },
        BodyDescriptor { position: (s(f32::NAN), s(0.0)), ..crate_box() },
        BodyDescriptor { position: (s(0.0), s(f32::NAN)), ..crate_box() },
        BodyDescriptor { shape: Shape::Ball { radius: s(-1.0) }, ..crate_box() },
        BodyDescriptor { shape: Shape::Cuboid { half_extents: (s(1.0), s(-1.0)) }, ..crate_box() },
        BodyDescriptor { shape: Shape::Cuboid { half_extents: (s(f32::NAN), s(1.0)) }, ..crate_box() },
    ];
    for d in bad {
        assert!(!d.is_well_formed());
        assert_eq!(PhysicsComponent::new(d), Err(SyncError::MalformedDescriptor));
    }
}

#[test]
fn bind_moves_pending_to_bound_once() {
    let mut c = PhysicsComponent::new(crate_box()).unwrap();
    assert!(c.bind(BodyHandle { id: 7 }));
    assert_eq!(c.binding(), Binding::Bound(BodyHandle { id: 7 }));
    assert!(c.is_bound());
    assert_eq!(c.handle(), Some(BodyHandle { id: 7 }));
    assert_eq!(c.descriptor(), None);
    assert!(!c.bind(BodyHandle { id: 8 }));
    assert_eq!(c.handle(), Some(BodyHandle { id: 7 }));
}

#[test]
fn bound_constructor_holds_the_handle() {
    let c = PhysicsComponent::bound(BodyHandle { id: 42 });
    assert_eq!(c.binding(), Binding::Bound(BodyHandle { id: 42 }));
    assert_eq!(c, {
        let mut p = PhysicsComponent::new(crate_box()).unwrap();
        p.bind(BodyHandle { id: 42 });
        p
    });
}
