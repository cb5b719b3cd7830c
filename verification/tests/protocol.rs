use dyrah::protocol::{ClientChannel, ClientMessages, ServerChannel};

#[test]
fn client_channel_ids() {
    assert_eq!(u8::from(ClientChannel::ClientInput), 0);
    assert_eq!(u8::from(ClientChannel::ClientMessages), 1);
}

#[test]
fn server_channel_ids() {
    assert_eq!(u8::from(ServerChannel::NetworkedEntities), 0);
    assert_eq!(u8::from(ServerChannel::ServerMessages), 1);
}

#[test]
fn attack_message_carries_both_ids() {
    let m = ClientMessages::PlayerAttack { id: 3, enemy_id: 9 };
    assert_eq!(m, ClientMessages::PlayerAttack { id: 3, enemy_id: 9 });
}
