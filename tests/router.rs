use bluedroid::attributes::Descriptor;
use bluedroid::characteristic::{Characteristic, CharacteristicProperties};
use bluedroid::event::{AttributeRef, GattCommand, GattsEvent};
use bluedroid::notify::{cccd_status, notifications, read_response, CccdReading, Push};
use bluedroid::profile::Profile;
use bluedroid::server::GattServer;
use bluedroid::service::Service;
use bluedroid::uuid::BleUuid;

const IFACE: u8 = 3;
const SVC: u16 = 40;

/// One profile (id 0) with one primary service holding a notifying
/// characteristic with two configuration descriptors, and an
/// application-handled characteristic that accepts writes.
fn sample_server() -> GattServer {
    let mut level = Characteristic::new(BleUuid::from_uuid16(0x2A19));
    level
        .properties(CharacteristicProperties::new().read().notify())
        .descriptor(&Descriptor::cccd())
        .descriptor(&Descriptor::user_description("Level"))
        .descriptor(&Descriptor::cccd());
    let mut ctl = Characteristic::new(BleUuid::from_uuid16(0x2A20));
    ctl.properties(CharacteristicProperties::new().read().write()).on_read().on_write();
    let mut service = Service::new(BleUuid::from_uuid16(0x180F));
    service.primary().characteristic(&level).characteristic(&ctl);
    let mut profile = Profile::new(0);
    profile.service(&service);
    let mut server = GattServer::new("dev");
    server.profile(&profile);
    server
}

fn register(server: &mut GattServer) -> Vec<GattCommand> {
    server.handle_event(IFACE, GattsEvent::Register { success: true, app_id: 0 })
}

fn registered_server() -> GattServer {
    let mut server = sample_server();
    register(&mut server);
    server.handle_event(
        IFACE,
        GattsEvent::Create {
            success: true,
            service_uuid: BleUuid::from_uuid16(0x180F),
            service_handle: SVC,
        },
    );
    server.handle_event(
        IFACE,
        GattsEvent::AddChar {
            success: true,
            service_handle: SVC,
            char_uuid: BleUuid::from_uuid16(0x2A19),
            attr_handle: 42,
        },
    );
    for h in [43u16, 44, 45] {
        let uuid = if h == 44 { 0x2901 } else { 0x2902 };
        server.handle_event(
            IFACE,
            GattsEvent::AddCharDescr {
                success: true,
                service_handle: SVC,
                descr_uuid: BleUuid::from_uuid16(uuid),
                attr_handle: h,
            },
        );
    }
    server.handle_event(
        IFACE,
        GattsEvent::AddChar {
            success: true,
            service_handle: SVC,
            char_uuid: BleUuid::from_uuid16(0x2A20),
            attr_handle: 50,
        },
    );
    server
}

#[test]
fn start_registers_every_profile() {
    let mut server = sample_server();
    server.profile(&Profile::new(9));
    let cmds = server.start();
    assert_eq!(cmds.len(), 2);
    assert!(matches!(cmds[0], GattCommand::RegisterApp { app_id: 0 }));
    assert!(matches!(cmds[1], GattCommand::RegisterApp { app_id: 9 }));
}

#[test]
fn first_registration_sets_up_device_once() {
    let mut server = sample_server();
    server.profile(&Profile::new(1));
    let first = register(&mut server);
    assert_eq!(first.len(), 4);
    assert!(matches!(first[0], GattCommand::SetDeviceName));
    assert!(matches!(first[1], GattCommand::ConfigAdvertisingData));
    assert!(matches!(first[2], GattCommand::ConfigScanResponseData));
    assert!(matches!(
        first[3],
        GattCommand::CreateService { interface: IFACE, primary: true, num_handles: 256, .. }
    ));
    assert_eq!(server.profiles[0].interface, Some(IFACE));
    let second = server.handle_event(4, GattsEvent::Register { success: true, app_id: 1 });
    assert!(second.is_empty());
    assert_eq!(server.profiles[1].interface, Some(4));
    let again = register(&mut server);
    assert!(again.iter().all(|c| !matches!(c, GattCommand::SetDeviceName)));
}

#[test]
fn failed_or_unknown_registration_changes_nothing() {
    let mut server = sample_server();
    let failed = server.handle_event(IFACE, GattsEvent::Register { success: false, app_id: 0 });
    assert!(failed.is_empty());
    let unknown = server.handle_event(IFACE, GattsEvent::Register { success: true, app_id: 5 });
    assert!(unknown.is_empty());
    assert!(!server.advertisement_configured);
    assert_eq!(server.profiles[0].interface, None);
}

#[test]
fn characteristics_are_registered_one_at_a_time() {
    let mut server = sample_server();
    register(&mut server);
    let created = server.handle_event(
        IFACE,
        GattsEvent::Create {
            success: true,
            service_uuid: BleUuid::from_uuid16(0x180F),
            service_handle: SVC,
        },
    );
    assert_eq!(created.len(), 2);
    assert!(matches!(created[0], GattCommand::StartService { service_handle: SVC }));
    assert!(matches!(
        created[1],
        GattCommand::AddCharacteristic {
            service_handle: SVC,
            target: AttributeRef::Characteristic { profile: 0, service: 0, characteristic: 0 }
        }
    ));
    // A confirmation for a type that is not awaited is dropped.
    let stray = server.handle_event(
        IFACE,
        GattsEvent::AddChar {
            success: true,
            service_handle: SVC,
            char_uuid: BleUuid::from_uuid16(0x2A20),
            attr_handle: 99,
        },
    );
    assert!(stray.is_empty());
    let first = server.handle_event(
        IFACE,
        GattsEvent::AddChar {
            success: true,
            service_handle: SVC,
            char_uuid: BleUuid::from_uuid16(0x2A19),
            attr_handle: 42,
        },
    );
    assert_eq!(first.len(), 4);
    for (j, c) in first[..3].iter().enumerate() {
        match c {
            GattCommand::AddDescriptor {
                service_handle: SVC,
                target: AttributeRef::Descriptor { profile: 0, service: 0, characteristic: 0, descriptor },
            } => assert_eq!(*descriptor, j),
            _ => panic!("expected a descriptor registration"),
        }
    }
    assert!(matches!(
        first[3],
        GattCommand::AddCharacteristic {
            service_handle: SVC,
            target: AttributeRef::Characteristic { profile: 0, service: 0, characteristic: 1 }
        }
    ));
    let second = server.handle_event(
        IFACE,
        GattsEvent::AddChar {
            success: true,
            service_handle: SVC,
            char_uuid: BleUuid::from_uuid16(0x2A20),
            attr_handle: 50,
        },
    );
    assert!(second.is_empty());
    let svc = &server.profiles[0].services[0];
    assert_eq!(svc.characteristics[0].attribute_handle, Some(42));
    assert_eq!(svc.characteristics[1].attribute_handle, Some(50));
    assert!(!svc.characteristic_in_flight);
    assert_eq!(svc.characteristics_issued, 2);
}

#[test]
fn failed_service_creation_leaves_no_handle() {
    let mut server = sample_server();
    register(&mut server);
    let cmds = server.handle_event(
        IFACE,
        GattsEvent::Create {
            success: false,
            service_uuid: BleUuid::from_uuid16(0x180F),
            service_handle: SVC,
        },
    );
    assert!(cmds.is_empty());
    assert_eq!(server.profiles[0].services[0].handle, None);
}

#[test]
fn duplicate_descriptors_take_handles_in_order() {
    let server = registered_server();
    let ds = &server.profiles[0].services[0].characteristics[0].descriptors;
    assert_eq!(ds[0].attribute_handle, Some(43));
    assert_eq!(ds[1].attribute_handle, Some(44));
    assert_eq!(ds[2].attribute_handle, Some(45));
}

#[test]
fn events_for_unknown_interface_are_dropped() {
    let mut server = registered_server();
    let cmds = server.handle_event(
        IFACE + 1,
        GattsEvent::Read { conn_id: 1, trans_id: 2, remote_bda: [0; 6], handle: 50 },
    );
    assert!(cmds.is_empty());
}

#[test]
fn disconnect_removes_even_unknown_connection() {
    let mut server = registered_server();
    server.handle_event(IFACE, GattsEvent::Connect { conn_id: 1, remote_bda: [1; 6] });
    server.handle_event(IFACE, GattsEvent::Connect { conn_id: 2, remote_bda: [2; 6] });
    server.handle_event(IFACE, GattsEvent::Connect { conn_id: 1, remote_bda: [9; 6] });
    assert_eq!(server.active_connections.len(), 2);
    let cmds = server.handle_event(IFACE, GattsEvent::Disconnect { conn_id: 1, remote_bda: [9; 6] });
    assert_eq!(cmds.len(), 1);
    assert!(matches!(cmds[0], GattCommand::StartAdvertising));
    assert_eq!(server.active_connections.len(), 1);
    assert_eq!(server.active_connections[0].id, 2);
    let cmds = server.handle_event(IFACE, GattsEvent::Disconnect { conn_id: 7, remote_bda: [7; 6] });
    assert!(matches!(cmds[0], GattCommand::StartAdvertising));
    assert!(server.active_connections.iter().all(|c| c.id != 7));
    assert_eq!(server.active_connections.len(), 1);
}

#[test]
fn value_change_reads_each_subscription() {
    let mut server = registered_server();
    server.handle_event(IFACE, GattsEvent::Connect { conn_id: 1, remote_bda: [1; 6] });
    server.handle_event(IFACE, GattsEvent::Connect { conn_id: 2, remote_bda: [2; 6] });
    let cmds = server.handle_event(
        IFACE,
        GattsEvent::SetAttrValue { success: true, service_handle: SVC, attr_handle: 42 },
    );
    assert_eq!(cmds.len(), 1);
    match &cmds[0] {
        GattCommand::CheckSubscriptions { target, interface, attr_handle, reads } => {
            assert_eq!(
                *target,
                AttributeRef::Characteristic { profile: 0, service: 0, characteristic: 0 }
            );
            assert_eq!(*interface, IFACE);
            assert_eq!(*attr_handle, 42);
            assert_eq!(reads.len(), 2);
            assert_eq!(reads[0].conn_id, 1);
            assert_eq!(reads[0].cccd_handle, 43);
            assert_eq!(reads[1].conn_id, 2);
            assert_eq!(reads[1].remote_bda, [2; 6]);
        }
        _ => panic!("expected a subscription check"),
    }
    let none = server.handle_event(
        IFACE,
        GattsEvent::SetAttrValue { success: true, service_handle: SVC, attr_handle: 77 },
    );
    assert!(none.is_empty());
}

#[test]
fn notify_goes_only_to_subscribed_connection() {
    let props = CharacteristicProperties::new().notify();
    let readings = vec![
        CccdReading { conn_id: 1, value: vec![1, 0] },
        CccdReading { conn_id: 2, value: vec![0, 0] },
    ];
    let pushes = notifications(props, &readings);
    assert_eq!(pushes, vec![Push { conn_id: 1, indicate: false }]);
}

#[test]
fn indicate_wins_over_notify() {
    let props = CharacteristicProperties::new().notify().indicate();
    let readings = vec![CccdReading { conn_id: 5, value: vec![3, 0] }];
    assert_eq!(notifications(props, &readings), vec![Push { conn_id: 5, indicate: true }]);
}

#[test]
fn empty_subscription_value_is_skipped() {
    let props = CharacteristicProperties::new().notify().indicate();
    let readings = vec![
        CccdReading { conn_id: 1, value: vec![] },
        CccdReading { conn_id: 2, value: vec![2, 0] },
    ];
    assert_eq!(notifications(props, &readings), vec![Push { conn_id: 2, indicate: true }]);
    assert_eq!(cccd_status(&vec![]), None);
    assert_eq!(cccd_status(&vec![1, 0]), Some((true, false)));
    assert_eq!(cccd_status(&vec![2, 0]), Some((false, true)));
}

#[test]
fn indication_enabled_without_support_sends_nothing() {
    let props = CharacteristicProperties::new().notify();
    let readings = vec![CccdReading { conn_id: 1, value: vec![2, 0] }];
    assert!(notifications(props, &readings).is_empty());
}

#[test]
fn read_of_app_handled_characteristic_asks_callback_once() {
    let mut server = registered_server();
    let cmds = server.handle_event(
        IFACE,
        GattsEvent::Read { conn_id: 1, trans_id: 8, remote_bda: [1; 6], handle: 50 },
    );
    assert_eq!(cmds.len(), 1);
    assert!(matches!(
        cmds[0],
        GattCommand::RespondFromRead {
            target: AttributeRef::Characteristic { profile: 0, service: 0, characteristic: 1 },
            interface: IFACE,
            conn_id: 1,
            trans_id: 8,
            handle: 50,
            ..
        }
    ));
    let auto = server.handle_event(
        IFACE,
        GattsEvent::Read { conn_id: 1, trans_id: 9, remote_bda: [1; 6], handle: 42 },
    );
    assert!(auto.is_empty());
}

#[test]
fn read_of_cccd_goes_to_descriptor() {
    let mut server = registered_server();
    let cmds = server.handle_event(
        IFACE,
        GattsEvent::Read { conn_id: 1, trans_id: 8, remote_bda: [1; 6], handle: 45 },
    );
    assert_eq!(cmds.len(), 1);
    assert!(matches!(
        cmds[0],
        GattCommand::RespondFromRead {
            target: AttributeRef::Descriptor {
                profile: 0,
                service: 0,
                characteristic: 0,
                descriptor: 2
            },
            ..
        }
    ));
}

#[test]
fn response_is_padded_to_buffer() {
    let r = read_response(50, &vec![1, 2, 3]);
    assert_eq!(r.handle, 50);
    assert_eq!(r.len, 3);
    assert_eq!(r.value.len(), 600);
    assert_eq!(&r.value[..3], &[1, 2, 3]);
    assert!(r.value[3..].iter().all(|b| *b == 0));
}

#[test]
fn response_is_truncated_to_buffer() {
    let long: Vec<u8> = (0..700u32).map(|i| (i % 251) as u8).collect();
    let r = read_response(1, &long);
    assert_eq!(r.len, 600);
    assert_eq!(r.value, long[..600].to_vec());
}

#[test]
fn write_with_response_calls_write_then_read() {
    let mut server = registered_server();
    let cmds = server.handle_event(
        IFACE,
        GattsEvent::Write {
            conn_id: 1,
            trans_id: 4,
            remote_bda: [1; 6],
            handle: 50,
            need_rsp: true,
            value: vec![7, 8],
        },
    );
    assert_eq!(cmds.len(), 2);
    match &cmds[0] {
        GattCommand::InvokeWrite { target, value, handle, .. } => {
            assert_eq!(
                *target,
                AttributeRef::Characteristic { profile: 0, service: 0, characteristic: 1 }
            );
            assert_eq!(value, &vec![7, 8]);
            assert_eq!(*handle, 50);
        }
        _ => panic!("expected the write callback first"),
    }
    assert!(matches!(cmds[1], GattCommand::RespondFromRead { trans_id: 4, handle: 50, .. }));
}

#[test]
fn write_without_response_calls_write_only() {
    let mut server = registered_server();
    let cmds = server.handle_event(
        IFACE,
        GattsEvent::Write {
            conn_id: 1,
            trans_id: 4,
            remote_bda: [1; 6],
            handle: 50,
            need_rsp: false,
            value: vec![1],
        },
    );
    assert_eq!(cmds.len(), 1);
    assert!(matches!(cmds[0], GattCommand::InvokeWrite { .. }));
    let ignored = server.handle_event(
        IFACE,
        GattsEvent::Write {
            conn_id: 1,
            trans_id: 5,
            remote_bda: [1; 6],
            handle: 42,
            need_rsp: true,
            value: vec![1],
        },
    );
    assert!(ignored.is_empty());
}

#[test]
fn failed_characteristic_stops_the_service() {
    let mut server = sample_server();
    register(&mut server);
    server.handle_event(
        IFACE,
        GattsEvent::Create {
            success: true,
            service_uuid: BleUuid::from_uuid16(0x180F),
            service_handle: SVC,
        },
    );
    let cmds = server.handle_event(
        IFACE,
        GattsEvent::AddChar {
            success: false,
            service_handle: SVC,
            char_uuid: BleUuid::from_uuid16(0x2A19),
            attr_handle: 42,
        },
    );
    assert!(cmds.is_empty());
    let svc = &server.profiles[0].services[0];
    assert_eq!(svc.characteristics[0].attribute_handle, None);
    assert_eq!(svc.characteristics_issued, 1);
    assert!(!svc.characteristic_in_flight);
    let later = server.handle_event(
        IFACE,
        GattsEvent::AddChar {
            success: true,
            service_handle: SVC,
            char_uuid: BleUuid::from_uuid16(0x2A20),
            attr_handle: 50,
        },
    );
    assert!(later.is_empty());
    assert_eq!(server.profiles[0].services[0].characteristics[1].attribute_handle, None);
}

#[test]
fn registration_on_a_taken_interface_is_dropped() {
    let mut server = sample_server();
    server.profile(&Profile::new(1));
    register(&mut server);
    let cmds = server.handle_event(IFACE, GattsEvent::Register { success: true, app_id: 1 });
    assert!(cmds.is_empty());
    assert_eq!(server.profiles[1].interface, None);
    assert_eq!(server.profiles[0].interface, Some(IFACE));
}

#[test]
fn value_change_pushes_follow_characteristic_properties() {
    let server = registered_server();
    let target = AttributeRef::Characteristic { profile: 0, service: 0, characteristic: 0 };
    let readings = vec![
        CccdReading { conn_id: 1, value: vec![1, 0] },
        CccdReading { conn_id: 2, value: vec![0, 0] },
    ];
    assert_eq!(
        server.value_change_pushes(target, &readings),
        vec![Push { conn_id: 1, indicate: false }]
    );
    let missing = AttributeRef::Characteristic { profile: 0, service: 0, characteristic: 9 };
    assert!(server.value_change_pushes(missing, &readings).is_empty());
}

#[test]
fn connect_keeps_other_connections() {
    let mut server = registered_server();
    server.handle_event(IFACE, GattsEvent::Connect { conn_id: 1, remote_bda: [1; 6] });
    server.handle_event(IFACE, GattsEvent::Connect { conn_id: 2, remote_bda: [2; 6] });
    let a = server.active_connections.iter().find(|c| c.id == 1).unwrap();
    assert_eq!(a.remote_bda, [1; 6]);
    assert_eq!(server.active_connections.len(), 2);
}

#[test]
fn failed_descriptor_keeps_no_handle() {
    let mut server = sample_server();
    register(&mut server);
    server.handle_event(
        IFACE,
        GattsEvent::Create {
            success: true,
            service_uuid: BleUuid::from_uuid16(0x180F),
            service_handle: SVC,
        },
    );
    server.handle_event(
        IFACE,
        GattsEvent::AddChar {
            success: true,
            service_handle: SVC,
            char_uuid: BleUuid::from_uuid16(0x2A19),
            attr_handle: 42,
        },
    );
    let cmds = server.handle_event(
        IFACE,
        GattsEvent::AddCharDescr {
            success: false,
            service_handle: SVC,
            descr_uuid: BleUuid::from_uuid16(0x2902),
            attr_handle: 43,
        },
    );
    assert!(cmds.is_empty());
    let ds = &server.profiles[0].services[0].characteristics[0].descriptors;
    assert!(ds.iter().all(|d| d.attribute_handle.is_none()));
}

#[test]
fn value_change_without_registered_cccd_reads_nothing() {
    let mut server = sample_server();
    register(&mut server);
    server.handle_event(
        IFACE,
        GattsEvent::Create {
            success: true,
            service_uuid: BleUuid::from_uuid16(0x180F),
            service_handle: SVC,
        },
    );
    server.handle_event(
        IFACE,
        GattsEvent::AddChar {
            success: true,
            service_handle: SVC,
            char_uuid: BleUuid::from_uuid16(0x2A19),
            attr_handle: 42,
        },
    );
    server.handle_event(IFACE, GattsEvent::Connect { conn_id: 1, remote_bda: [1; 6] });
    let cmds = server.handle_event(
        IFACE,
        GattsEvent::SetAttrValue { success: true, service_handle: SVC, attr_handle: 42 },
    );
    match &cmds[0] {
        GattCommand::CheckSubscriptions { reads, .. } => assert!(reads.is_empty()),
        _ => panic!("expected a subscription check"),
    }
}

#[test]
fn other_events_change_nothing() {
    let mut server = registered_server();
    let before = server.active_connections.len();
    assert!(server.handle_event(IFACE, GattsEvent::Mtu { conn_id: 1, mtu: 200 }).is_empty());
    assert!(server
        .handle_event(IFACE, GattsEvent::Response { success: true, handle: 50 })
        .is_empty());
    assert!(server
        .handle_event(IFACE, GattsEvent::Start { success: true, service_handle: SVC })
        .is_empty());
    assert!(server.handle_event(IFACE, GattsEvent::Other { code: 99 }).is_empty());
    assert_eq!(server.active_connections.len(), before);
}
