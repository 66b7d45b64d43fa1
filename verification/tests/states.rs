use pumpkin_protocol::codec::var_int::VarInt;
use pumpkin_protocol::ConnectionState::{Config, HandShake, Login, Play, Status, Transfer};
use pumpkin_protocol::{
    ConnectionState, PositionFlag, Transition, CURRENT_MC_PROTOCOL, MAX_PACKET_SIZE,
};

#[test]
fn intent_one_is_status() {
    assert_eq!(ConnectionState::from(VarInt(1)), ConnectionState::Status);
}

#[test]
fn intent_two_is_login() {
    assert_eq!(ConnectionState::from(VarInt(2)), ConnectionState::Login);
}

#[test]
fn intent_three_is_transfer() {
    assert_eq!(ConnectionState::from(VarInt(3)), ConnectionState::Transfer);
}

#[test]
fn unknown_intent_defaults_to_status() {
    for value in [0, 4, 5, -1, 100, i32::MAX, i32::MIN] {
        assert_eq!(ConnectionState::from(VarInt(value)), ConnectionState::Status);
        assert_eq!(ConnectionState::from_intent(VarInt(value)), ConnectionState::Status);
        assert!(!ConnectionState::is_known_intent(VarInt(value)));
    }
    for value in [1, 2, 3] {
        assert!(ConnectionState::is_known_intent(VarInt(value)));
    }
}

#[test]
fn intent_through_into() {
    let state: ConnectionState = VarInt(2).into();
    assert_eq!(state, ConnectionState::Login);
}

#[test]
fn transition_table() {
    assert_eq!(HandShake.next(Transition::Intent(VarInt(1).into())), Some(Status));
    assert_eq!(HandShake.next(Transition::Intent(VarInt(2).into())), Some(Login));
    assert_eq!(HandShake.next(Transition::Intent(VarInt(3).into())), Some(Transfer));
    assert_eq!(HandShake.next(Transition::Intent(VarInt(9).into())), Some(Status));
    assert_eq!(HandShake.next(Transition::Intent(Status)), Some(Status));
    assert_eq!(HandShake.next(Transition::Intent(Login)), Some(Login));
    assert_eq!(HandShake.next(Transition::Intent(Transfer)), Some(Transfer));
    assert_eq!(Transfer.next(Transition::Proceed), Some(Login));
    assert_eq!(Login.next(Transition::LoginSuccess), Some(Config));
    assert_eq!(Config.next(Transition::AcknowledgeFinish), Some(Play));
    assert_eq!(Play.next(Transition::ServerTransfer), Some(Login));
}

#[test]
fn transitions_that_the_table_lacks() {
    let all = [
        Transition::Intent(Login),
        Transition::Proceed,
        Transition::LoginSuccess,
        Transition::AcknowledgeFinish,
        Transition::ServerTransfer,
    ];
    for transition in all {
        assert_eq!(Status.next(transition), None);
    }
    assert_eq!(HandShake.next(Transition::Intent(HandShake)), None);
    assert_eq!(HandShake.next(Transition::Intent(Config)), None);
    assert_eq!(HandShake.next(Transition::Intent(Play)), None);
    assert_eq!(HandShake.next(Transition::LoginSuccess), None);
    assert_eq!(HandShake.next(Transition::Proceed), None);
    assert_eq!(Login.next(Transition::Intent(Status)), None);
    assert_eq!(Login.next(Transition::AcknowledgeFinish), None);
    assert_eq!(Transfer.next(Transition::LoginSuccess), None);
    assert_eq!(Config.next(Transition::LoginSuccess), None);
    assert_eq!(Config.next(Transition::ServerTransfer), None);
    assert_eq!(Play.next(Transition::AcknowledgeFinish), None);
    assert_eq!(Play.next(Transition::Intent(Login)), None);
}

#[test]
fn constants() {
    assert_eq!(MAX_PACKET_SIZE, 2097152);
    assert_eq!(CURRENT_MC_PROTOCOL, 769);
    assert_ne!(CURRENT_MC_PROTOCOL, 0);
}

#[test]
fn masks_are_the_wire_bits() {
    assert_eq!(PositionFlag::X.get_mask(), 1);
    assert_eq!(PositionFlag::Y.get_mask(), 2);
    assert_eq!(PositionFlag::Z.get_mask(), 4);
    assert_eq!(PositionFlag::YRot.get_mask(), 8);
    assert_eq!(PositionFlag::XRot.get_mask(), 16);
    assert_eq!(PositionFlag::DeltaX.get_mask(), 32);
    assert_eq!(PositionFlag::DeltaY.get_mask(), 64);
    assert_eq!(PositionFlag::DeltaZ.get_mask(), 128);
    assert_eq!(PositionFlag::RotateDelta.get_mask(), 256);
}

#[test]
fn bitfield_values() {
    assert_eq!(PositionFlag::get_bitfield(&[]), 0);
    assert_eq!(PositionFlag::get_bitfield(&[PositionFlag::X]), 1);
    assert_eq!(PositionFlag::get_bitfield(&[PositionFlag::X, PositionFlag::Y]), 3);
    assert_eq!(
        PositionFlag::get_bitfield(&[PositionFlag::YRot, PositionFlag::RotateDelta]),
        264
    );
    let all = [
        PositionFlag::X,
        PositionFlag::Y,
        PositionFlag::Z,
        PositionFlag::YRot,
        PositionFlag::XRot,
        PositionFlag::DeltaX,
        PositionFlag::DeltaY,
        PositionFlag::DeltaZ,
        PositionFlag::RotateDelta,
    ];
    assert_eq!(PositionFlag::get_bitfield(&all), 511);
}

#[test]
fn bitfield_is_order_independent() {
    assert_eq!(
        PositionFlag::get_bitfield(&[PositionFlag::X, PositionFlag::Y]),
        PositionFlag::get_bitfield(&[PositionFlag::Y, PositionFlag::X])
    );
    assert_eq!(
        PositionFlag::get_bitfield(&[PositionFlag::DeltaZ, PositionFlag::Z, PositionFlag::XRot]),
        PositionFlag::get_bitfield(&[PositionFlag::XRot, PositionFlag::DeltaZ, PositionFlag::Z])
    );
}

#[test]
fn bitfield_is_idempotent() {
    assert_eq!(
        PositionFlag::get_bitfield(&[PositionFlag::X, PositionFlag::X]),
        PositionFlag::get_bitfield(&[PositionFlag::X])
    );
    assert_eq!(
        PositionFlag::get_bitfield(&[PositionFlag::DeltaY, PositionFlag::Y, PositionFlag::DeltaY]),
        66
    );
}
