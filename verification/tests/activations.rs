use deep_learn::activations::{ActivationKind, LeakyReLU, Linear, ReLU, Sigmoid, Tanh};
use deep_learn::ModelError;

#[test]
fn activation_kind_roundtrip_sigmoid() {
    let kind = ActivationKind::Sigmoid;
    let id = kind.to_id();
    let restored = ActivationKind::from_id(id, 0.0f32.to_bits()).unwrap();
    assert!(matches!(restored, ActivationKind::Sigmoid));
}

#[test]
fn activation_kind_roundtrip_leaky_relu_preserves_alpha() {
    let kind = ActivationKind::LeakyReLU(0.05f32.to_bits());
    let id = kind.to_id();
    let restored = ActivationKind::from_id(id, 0.05f32.to_bits()).unwrap();
    match restored {
        ActivationKind::LeakyReLU(alpha) => assert!((f32::from_bits(alpha) - 0.05).abs() < 1e-6),
        _ => panic!("LeakyReLU bekleniyordu"),
    }
}

#[test]
fn activation_kind_from_unknown_id_errors() {
    let result = ActivationKind::from_id(99, 0.0f32.to_bits());
    assert!(result.is_err());
}

#[test]
fn to_id_gives_each_kind_its_identifier() {
    assert_eq!(ActivationKind::Sigmoid.to_id(), 0);
    assert_eq!(ActivationKind::ReLU.to_id(), 1);
    assert_eq!(ActivationKind::LeakyReLU(0.3f32.to_bits()).to_id(), 2);
    assert_eq!(ActivationKind::Tanh.to_id(), 3);
    assert_eq!(ActivationKind::Linear.to_id(), 4);
}

#[test]
fn from_id_reads_every_known_identifier() {
    let alpha = 0.25f32.to_bits();
    assert_eq!(ActivationKind::from_id(0, alpha).unwrap(), ActivationKind::Sigmoid);
    assert_eq!(ActivationKind::from_id(1, alpha).unwrap(), ActivationKind::ReLU);
    assert_eq!(ActivationKind::from_id(2, alpha).unwrap(), ActivationKind::LeakyReLU(alpha));
    assert_eq!(ActivationKind::from_id(3, alpha).unwrap(), ActivationKind::Tanh);
    assert_eq!(ActivationKind::from_id(4, alpha).unwrap(), ActivationKind::Linear);
}

#[test]
fn from_id_reports_the_unknown_identifier() {
    assert!(matches!(ActivationKind::from_id(5, 0), Err(ModelError::UnknownActivationId(5))));
    assert!(matches!(ActivationKind::from_id(255, 7), Err(ModelError::UnknownActivationId(255))));
}

#[test]
fn every_kind_survives_its_identifier_and_parameter() {
    let kinds = [
        ActivationKind::Sigmoid,
        ActivationKind::ReLU,
        ActivationKind::LeakyReLU((-0.5f32).to_bits()),
        ActivationKind::Tanh,
        ActivationKind::Linear,
    ];
    for kind in kinds {
        let alpha = match kind {
            ActivationKind::LeakyReLU(a) => a,
            _ => 0,
        };
        assert_eq!(ActivationKind::from_id(kind.to_id(), alpha).unwrap(), kind);
    }
}

#[test]
fn each_activation_reports_its_kind() {
    assert_eq!(Sigmoid.kind(), ActivationKind::Sigmoid);
    assert_eq!(ReLU.kind(), ActivationKind::ReLU);
    assert_eq!(Tanh.kind(), ActivationKind::Tanh);
    assert_eq!(Linear.kind(), ActivationKind::Linear);
    let leaky = LeakyReLU { alpha: 0.01f32.to_bits() };
    assert_eq!(leaky.kind(), ActivationKind::LeakyReLU(0.01f32.to_bits()));
}
