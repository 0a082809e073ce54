use bluedroid::attributes::{AttributeControl, AttributePermissions, Descriptor};
use bluedroid::characteristic::{Characteristic, CharacteristicProperties};
use bluedroid::profile::Profile;
use bluedroid::service::Service;
use bluedroid::uuid::BleUuid;

#[test]
fn user_description_holds_text_bytes() {
    let d = Descriptor::user_description("Battery");
    assert_eq!(d.uuid, BleUuid::Uuid16(0x2901));
    assert_eq!(d.name.as_deref(), Some("User Description"));
    assert_eq!(d.value, b"Battery".to_vec());
    assert_eq!(d.control, AttributeControl::AutomaticResponse);
    assert_eq!(d.permissions, AttributePermissions::new().read());
    assert!(d.attribute_handle.is_none());
}

#[test]
fn user_description_of_empty_text_is_empty() {
    let d = Descriptor::user_description("");
    assert!(d.value.is_empty());
}

#[test]
fn cccd_is_answered_by_the_host() {
    let d = Descriptor::cccd();
    assert_eq!(d.uuid, BleUuid::Uuid16(0x2902));
    assert_eq!(d.name.as_deref(), Some("Client Characteristic Configuration"));
    assert_eq!(d.control, AttributeControl::ResponseByApp);
    assert!(d.write_callback);
    assert!(d.permissions.read_access && d.permissions.write_access);
    assert!(!d.permissions.encryption_required);
}

#[test]
fn service_builder_keeps_order() {
    let mut a = Characteristic::new(BleUuid::from_uuid16(0x2A19));
    a.properties(CharacteristicProperties::new().read().notify());
    let b = Characteristic::new(BleUuid::from_uuid32(0xDEAD_BEEF));
    let mut s = Service::new(BleUuid::from_uuid16(0x180F));
    s.name("Battery").primary().characteristic(&a).characteristic(&b);
    assert!(s.primary);
    assert_eq!(s.name.as_deref(), Some("Battery"));
    assert_eq!(s.characteristics.len(), 2);
    assert_eq!(s.characteristics[0].uuid, BleUuid::Uuid16(0x2A19));
    assert!(s.characteristics[0].properties.notify);
    assert_eq!(s.characteristics[1].uuid, BleUuid::Uuid32(0xDEAD_BEEF));
    let built = s.build();
    assert_eq!(built.characteristics.len(), 2);
    assert!(built.handle.is_none());
}

#[test]
fn new_service_is_secondary_and_empty() {
    let s = Service::new(BleUuid::from_uuid128(1));
    assert!(!s.primary);
    assert!(s.characteristics.is_empty());
    assert!(s.name.is_none());
}

#[test]
fn characteristic_by_handle_finds_first() {
    let mut s = Service::new(BleUuid::from_uuid16(0x180F));
    let a = Characteristic::new(BleUuid::from_uuid16(1));
    let b = Characteristic::new(BleUuid::from_uuid16(2));
    s.characteristic(&a).characteristic(&b);
    s.characteristics[1].attribute_handle = Some(42);
    assert_eq!(s.get_characteristic_by_handle(42), Some(1));
    assert_eq!(s.get_characteristic_by_handle(43), None);
}

#[test]
fn profile_builder_copies_services() {
    let s = Service::new(BleUuid::from_uuid16(0x180F));
    let mut p = Profile::new(7);
    p.name("Main").service(&s);
    let built = p.build();
    assert_eq!(built.identifier, 7);
    assert_eq!(built.services.len(), 1);
    assert!(built.interface.is_none());
    assert_eq!(built.name.as_deref(), Some("Main"));
}

#[test]
fn characteristic_descriptor_copies() {
    let mut c = Characteristic::new(BleUuid::from_uuid16(0x2A19));
    c.descriptor(&Descriptor::cccd()).descriptor(&Descriptor::user_description("x"));
    assert_eq!(c.descriptors.len(), 2);
    assert_eq!(c.descriptors[0].uuid, BleUuid::Uuid16(0x2902));
    assert_eq!(c.descriptors[1].value, b"x".to_vec());
}

#[test]
fn cccd_has_no_cached_value() {
    assert!(Descriptor::cccd().value.is_empty());
}
