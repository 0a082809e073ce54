use bluedroid::persistence::{cccd_key, stored_cccd_value};

#[test]
fn cccd_key_is_address_tail_and_handle_in_hex() {
    let key = cccd_key([0x00, 0x11, 0xA1, 0xB2, 0xC3, 0xD4], 0x002B);
    assert_eq!(String::from_utf8(key).unwrap(), "A1B2C3D4-002B");
}

#[test]
fn cccd_key_pads_small_values() {
    let key = cccd_key([9, 9, 0, 1, 0x0A, 0xFF], 0xF00D);
    assert_eq!(String::from_utf8(key).unwrap(), "00010AFF-F00D");
}

#[test]
fn missing_cccd_value_means_no_subscription() {
    assert_eq!(stored_cccd_value(None), vec![0, 0]);
    assert_eq!(stored_cccd_value(Some(vec![1, 0])), vec![1, 0]);
}
