use prfc1_token::events::{SetAllowanceEvent, TransferEvent};

#[test]
fn transfer_event_topic_layout() {
    let ev = TransferEvent {
        owner_address: [0xAA; 32],
        recipient_address: [0xBB; 32],
        amount: 7,
    };
    let topic = ev.topic();
    assert_eq!(topic.len(), 65);
    assert_eq!(topic[0], 0u8);
    assert_eq!(&topic[1..33], &[0xAA; 32]);
    assert_eq!(&topic[33..65], &[0xBB; 32]);
}

#[test]
fn transfer_event_value_is_little_endian_amount() {
    let ev = TransferEvent {
        owner_address: [1; 32],
        recipient_address: [2; 32],
        amount: 0x0102030405060708,
    };
    let value = ev.into_value();
    assert_eq!(value, vec![0x08, 0x07, 0x06, 0x05, 0x04, 0x03, 0x02, 0x01]);
}

#[test]
fn set_allowance_event_topic_layout() {
    let ev = SetAllowanceEvent {
        owner_address: [0x11; 32],
        spender_address: [0x22; 32],
        amount: 7,
    };
    let topic = ev.topic();
    assert_eq!(topic.len(), 65);
    assert_eq!(topic[0], 1u8);
    assert_eq!(&topic[1..33], &[0x11; 32]);
    assert_eq!(&topic[33..65], &[0x22; 32]);
}

#[test]
fn set_allowance_event_value_matches_native_encoding() {
    let amount: u64 = 9876543210;
    let ev = SetAllowanceEvent {
        owner_address: [0; 32],
        spender_address: [0; 32],
        amount,
    };
    assert_eq!(ev.into_value(), amount.to_le_bytes().to_vec());
}
