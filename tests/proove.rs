use proove::addressing::derive_ids;
use proove::codec::{encode_device, encode_group};
use proove::config::{create_devices, default_topic, Config, ConfigError, DeviceConfig, GroupConfig, IdKind};
use proove::devices::{has_unique_names, Device, DeviceManager, Group, ManagementError, PacketLog};
use proove::pulse::{bit_pulses, frame_pulses, Pulse};

fn device_cfg(device_id: u64, name: Option<&str>, tries: Option<usize>) -> DeviceConfig {
    DeviceConfig { device_id, name: name.map(|n| n.to_owned()), tries }
}

fn compact_group(group_id: Option<u64>, house_id: Option<u64>, name: Option<&str>, devices: Vec<DeviceConfig>) -> GroupConfig {
    GroupConfig {
        enable_compat: Some(true),
        group_id,
        house_id,
        name: name.map(|n| n.to_owned()),
        tries: None,
        devices,
    }
}

fn extended_group(name: Option<&str>, devices: Vec<DeviceConfig>) -> GroupConfig {
    GroupConfig {
        enable_compat: Some(false),
        group_id: None,
        house_id: None,
        name: name.map(|n| n.to_owned()),
        tries: None,
        devices,
    }
}

fn config(groups: Vec<GroupConfig>) -> Config {
    Config {
        tx_pin: 17,
        enable_compat: true,
        broker: "localhost".to_owned(),
        root_topic: default_topic(),
        tries: 2,
        house_id: Some(9),
        groups,
    }
}

fn named(name: &str, group: Group) -> (String, Group) {
    (name.to_owned(), group)
}

#[test]
fn derive_ids_splits_flat_id() {
    assert_eq!(derive_ids(0b1011_01_10), (0b1011, 0b01, 0b10));
    assert_eq!(derive_ids(0), (0, 0, 0));
    let top = (1u64 << 30) - 1;
    assert_eq!(derive_ids(top), ((1 << 26) - 1, 3, 3));
}

#[test]
fn derive_ids_recomposes() {
    for f in [0u64, 1, 5, 21, 255, 123_456_789, (1 << 30) - 1] {
        let (h, g, d) = derive_ids(f);
        assert_eq!((h << 4) | (g << 2) | d, f);
    }
}

#[test]
fn device_packet_layout() {
    let d = Device::new(1, 2, 3, 1);
    assert_eq!(d.get_proove_packet(true), 0b1_0_1_10_11);
    assert_eq!(d.get_proove_packet(false), 0b1_0_0_10_11);
    assert_eq!(encode_device(0x3FF_FFFF, 3, 3, true), 0xFFFF_FFDF);
}

#[test]
fn device_packet_truncates_ids() {
    let d = Device::new((1 << 26) + 1, 4 + 2, 4 + 1, 1);
    assert_eq!(d.get_proove_packet(false), (1 << 6) | (2 << 2) | 1);
}

#[test]
fn device_states_differ_only_in_bit_four() {
    for (h, g, d) in [(0u64, 0u64, 0u64), (12345, 1, 2), (0x3FF_FFFF, 3, 3)] {
        assert_eq!(encode_device(h, g, d, true) ^ encode_device(h, g, d, false), 0x10);
    }
}

#[test]
fn group_packet_layout() {
    let g = Group::new(Some(1), Some(2), vec![], Some(3));
    assert_eq!(g.get_proove_packet(true), Some(0b1_1_0_10_00));
    assert_eq!(g.get_proove_packet(false), Some(0b1_0_0_10_00));
    assert_eq!(encode_group(5, 3, true) & 0b11, 0);
}

#[test]
fn group_packet_needs_both_ids() {
    assert_eq!(Group::new(None, Some(2), vec![], Some(3)).get_proove_packet(true), None);
    assert_eq!(Group::new(Some(1), None, vec![], Some(3)).get_proove_packet(true), None);
    assert_eq!(Group::new(None, None, vec![], None).get_proove_packet(false), None);
}

#[test]
fn packet_fields_read_back() {
    let p = encode_device(777, 1, 2, true);
    assert_eq!(p >> 6, 777);
    assert_eq!((p >> 5) & 1, 0);
    assert_eq!((p >> 4) & 1, 1);
    assert_eq!((p >> 2) & 3, 1);
    assert_eq!(p & 3, 2);
    let q = encode_group(777, 3, true);
    assert_eq!(q >> 6, 777);
    assert_eq!((q >> 5) & 1, 1);
    assert_eq!((q >> 4) & 1, 0);
    assert_eq!((q >> 2) & 3, 3);
    assert_eq!(q & 3, 0);
}

#[test]
fn bit_pulses_order() {
    assert_eq!(bit_pulses(1), (Pulse::Short, Pulse::Long));
    assert_eq!(bit_pulses(0), (Pulse::Long, Pulse::Short));
    assert_eq!(bit_pulses(7), (Pulse::Short, Pulse::Long));
}

#[test]
fn pulse_durations() {
    assert_eq!(Pulse::Sync.high_micros(), 250);
    assert_eq!(Pulse::Sync.low_micros(), 2500);
    assert_eq!(Pulse::Short.low_micros(), 250);
    assert_eq!(Pulse::Long.low_micros(), 1250);
    assert_eq!(Pulse::Pause.low_micros(), 10000);
    assert_eq!(Pulse::Pause.high_micros(), 250);
}

#[test]
fn frame_of_packet() {
    let pulses = frame_pulses(0x8000_0001);
    assert_eq!(pulses.len(), 66);
    assert_eq!(pulses[0], Pulse::Sync);
    assert_eq!(pulses[65], Pulse::Pause);
    assert_eq!((pulses[1], pulses[2]), (Pulse::Short, Pulse::Long));
    for k in 1..31 {
        assert_eq!((pulses[1 + 2 * k], pulses[2 + 2 * k]), (Pulse::Long, Pulse::Short));
    }
    assert_eq!((pulses[63], pulses[64]), (Pulse::Short, Pulse::Long));
    let all_zero = frame_pulses(0);
    assert_eq!(all_zero.iter().filter(|p| **p == Pulse::Long).count(), 32);
    assert_eq!(all_zero.iter().filter(|p| **p == Pulse::Sync).count(), 1);
    assert_eq!(all_zero.iter().filter(|p| **p == Pulse::Pause).count(), 1);
}

#[test]
fn group_with_tries_sends_group_packet() {
    let devices = vec![("a".to_owned(), Device::new(1, 2, 0, 7))];
    let groups = vec![named("hall", Group::new(Some(1), Some(2), devices, Some(3)))];
    let mut manager = DeviceManager::new(groups, PacketLog::new());
    assert!(manager.set_group_state("hall".to_owned(), true).is_ok());
    let p = 0b1_1_0_10_00;
    assert_eq!(manager.tx.packets, vec![p, p, p]);
}

#[test]
fn group_without_tries_fans_out() {
    let d1 = Device::new(0, 1, 1, 2);
    let d2 = Device::new(1, 1, 1, 5);
    let devices = vec![("one".to_owned(), d1), ("two".to_owned(), d2)];
    let groups = vec![named("room", Group::new(None, None, devices, None))];
    let mut manager = DeviceManager::new(groups, PacketLog::new());
    assert!(manager.set_group_state("room".to_owned(), true).is_ok());
    let p1 = d1.get_proove_packet(true);
    let p2 = d2.get_proove_packet(true);
    let mut expected = vec![p1; 2];
    expected.extend(vec![p2; 5]);
    assert_eq!(manager.tx.packets, expected);
}

#[test]
fn device_state_repeats_tries() {
    let devices = vec![("lamp".to_owned(), Device::new(4, 0, 2, 4))];
    let groups = vec![named("desk", Group::new(None, None, devices, None))];
    let mut manager = DeviceManager::new(groups, PacketLog::new());
    assert!(manager.set_device_state("desk".to_owned(), "lamp".to_owned(), false).is_ok());
    let p = (4 << 6) | 2;
    assert_eq!(manager.tx.packets, vec![p; 4]);
}

#[test]
fn unknown_group_sends_nothing() {
    let groups = vec![named("desk", Group::new(None, None, vec![], None))];
    let mut manager = DeviceManager::new(groups, PacketLog::new());
    match manager.set_group_state("attic".to_owned(), true) {
        Err(ManagementError::GroupNotFound { group_name }) => assert_eq!(group_name, "attic"),
        other => panic!("unexpected {:?}", other),
    }
    match manager.set_device_state("attic".to_owned(), "lamp".to_owned(), true) {
        Err(ManagementError::GroupNotFound { group_name }) => assert_eq!(group_name, "attic"),
        other => panic!("unexpected {:?}", other),
    }
    assert!(manager.tx.packets.is_empty());
}

#[test]
fn unknown_device_sends_nothing() {
    let devices = vec![("lamp".to_owned(), Device::new(4, 0, 2, 4))];
    let groups = vec![named("desk", Group::new(None, None, devices, None))];
    let mut manager = DeviceManager::new(groups, PacketLog::new());
    match manager.set_device_state("desk".to_owned(), "fan".to_owned(), true) {
        Err(ManagementError::DeviceNotFound { device_name }) => assert_eq!(device_name, "fan"),
        other => panic!("unexpected {:?}", other),
    }
    assert!(manager.tx.packets.is_empty());
}

#[test]
fn group_tries_without_ids_is_inconsistent() {
    let groups = vec![named("odd", Group::new(None, None, vec![], Some(2)))];
    let mut manager = DeviceManager::new(groups, PacketLog::new());
    assert!(matches!(
        manager.set_group_state("odd".to_owned(), true),
        Err(ManagementError::Inconsistency)
    ));
    assert!(manager.tx.packets.is_empty());
}

#[test]
fn flat_ids_five_and_twenty_one_do_not_collide() {
    let cfg = config(vec![
        extended_group(Some("a"), vec![device_cfg(5, None, None)]),
        extended_group(Some("b"), vec![device_cfg(21, None, None)]),
    ]);
    let groups = create_devices(cfg).unwrap();
    let d5 = groups[0].1.devices[0].1;
    let d21 = groups[1].1.devices[0].1;
    assert_eq!((d5.house_id, d5.group_id, d5.device_id), (0, 1, 1));
    assert_eq!((d21.house_id, d21.group_id, d21.device_id), (1, 1, 1));
    for s1 in [true, false] {
        for s2 in [true, false] {
            assert_ne!(d5.get_proove_packet(s1), d21.get_proove_packet(s2));
        }
    }
}

#[test]
fn create_devices_compact_defaults() {
    let cfg = config(vec![compact_group(
        Some(1),
        None,
        None,
        vec![device_cfg(3, None, None), device_cfg(2, Some("lamp"), Some(6))],
    )]);
    let groups = create_devices(cfg).unwrap();
    assert_eq!(groups.len(), 1);
    let (name, group) = &groups[0];
    assert_eq!(name, "1.9");
    assert_eq!((group.house_id, group.group_id, group.tries), (Some(9), Some(1), Some(2)));
    assert_eq!(group.devices.len(), 2);
    assert_eq!(group.devices[0].0, "3");
    let d0 = group.devices[0].1;
    assert_eq!((d0.house_id, d0.group_id, d0.device_id, d0.tries), (9, 1, 3, 2));
    assert_eq!(group.devices[1].0, "lamp");
    assert_eq!(group.devices[1].1.tries, 6);
}

#[test]
fn create_devices_extended_mode() {
    let mut g = extended_group(Some("den"), vec![device_cfg(1_000_000, None, None)]);
    g.tries = Some(4);
    let groups = create_devices(config(vec![g])).unwrap();
    let (name, group) = &groups[0];
    assert_eq!(name, "den");
    assert_eq!((group.house_id, group.group_id, group.tries), (None, None, None));
    assert_eq!(group.devices[0].0, "1000000");
    let d = group.devices[0].1;
    assert_eq!((d.house_id, d.group_id, d.device_id, d.tries), (1_000_000 >> 4, 0, 0, 4));
}

#[test]
fn create_devices_mode_errors() {
    let r = create_devices(config(vec![compact_group(None, Some(1), None, vec![])]));
    assert!(matches!(r, Err(ConfigError::GIDNotSet)));
    let mut c = config(vec![compact_group(Some(1), None, None, vec![])]);
    c.house_id = None;
    assert!(matches!(create_devices(c), Err(ConfigError::HIDNotSet)));
    let mut g = extended_group(Some("x"), vec![]);
    g.group_id = Some(1);
    assert!(matches!(create_devices(config(vec![g])), Err(ConfigError::GIDSet)));
    let mut g = extended_group(Some("x"), vec![]);
    g.house_id = Some(1);
    assert!(matches!(create_devices(config(vec![g])), Err(ConfigError::HIDSet)));
    let g = extended_group(None, vec![]);
    assert!(matches!(create_devices(config(vec![g])), Err(ConfigError::NameNotSet)));
}

#[test]
fn create_devices_bounds() {
    let r = create_devices(config(vec![compact_group(Some(4), None, None, vec![])]));
    assert!(matches!(
        r,
        Err(ConfigError::OutOfBounds { value: 4, kind: IdKind::GroupId, max: 4 })
    ));
    let r = create_devices(config(vec![compact_group(Some(0), Some(1 << 26), None, vec![])]));
    assert!(matches!(
        r,
        Err(ConfigError::OutOfBounds { value: 67_108_864, kind: IdKind::HouseId, max: 67_108_864 })
    ));
    let r = create_devices(config(vec![compact_group(Some(0), None, None, vec![device_cfg(4, None, None)])]));
    assert!(matches!(
        r,
        Err(ConfigError::OutOfBounds { value: 4, kind: IdKind::DeviceId, max: 4 })
    ));
    let r = create_devices(config(vec![extended_group(Some("x"), vec![device_cfg(1 << 30, None, None)])]));
    assert!(matches!(
        r,
        Err(ConfigError::OutOfBounds { value: 1_073_741_824, kind: IdKind::GlobalDeviceId, max: 1_073_741_824 })
    ));
    let r = create_devices(config(vec![extended_group(Some("x"), vec![device_cfg((1 << 30) - 1, None, None)])]));
    assert!(r.is_ok());
}

#[test]
fn create_devices_duplicate_names() {
    let r = create_devices(config(vec![extended_group(
        Some("x"),
        vec![device_cfg(1, Some("lamp"), None), device_cfg(2, Some("lamp"), None)],
    )]));
    match r {
        Err(ConfigError::DeviceNotUnique { device_name }) => assert_eq!(device_name, "lamp"),
        other => panic!("unexpected {:?}", other),
    }
    let r = create_devices(config(vec![compact_group(
        Some(0),
        None,
        None,
        vec![device_cfg(1, None, None), device_cfg(1, None, None)],
    )]));
    match r {
        Err(ConfigError::DeviceNotUnique { device_name }) => assert_eq!(device_name, "1"),
        other => panic!("unexpected {:?}", other),
    }
    let r = create_devices(config(vec![
        extended_group(Some("0.9"), vec![]),
        compact_group(Some(0), None, None, vec![]),
    ]));
    match r {
        Err(ConfigError::GroupNotUnique { group_name }) => assert_eq!(group_name, "0.9"),
        other => panic!("unexpected {:?}", other),
    }
}

#[test]
fn default_topic_is_proove() {
    assert_eq!(default_topic(), "proove");
}

#[test]
fn compact_group_tries_three_sends_three_packets() {
    let groups = vec![named("g", Group::new(Some(1), Some(2), vec![], Some(3)))];
    let mut manager = DeviceManager::new(groups, PacketLog::new());
    assert!(manager.set_group_state("g".to_owned(), true).is_ok());
    assert_eq!(manager.tx.packets, vec![0x68, 0x68, 0x68]);
}

#[test]
fn device_in_compact_group_uses_device_packet() {
    let devices = vec![("lamp".to_owned(), Device::new(1, 2, 3, 2))];
    let groups = vec![named("g", Group::new(Some(1), Some(2), devices, Some(3)))];
    let mut manager = DeviceManager::new(groups, PacketLog::new());
    assert!(manager.set_device_state("g".to_owned(), "lamp".to_owned(), true).is_ok());
    assert_eq!(manager.tx.packets, vec![0x5B, 0x5B]);
}

#[test]
fn unique_names_are_checked() {
    let ok = vec![
        named("a", Group::new(None, None, vec![("x".to_owned(), Device::new(0, 0, 0, 1))], None)),
        named("b", Group::new(None, None, vec![("x".to_owned(), Device::new(0, 0, 1, 1))], None)),
    ];
    assert!(has_unique_names(&ok));
    let twice_device = vec![named(
        "a",
        Group::new(
            None,
            None,
            vec![("x".to_owned(), Device::new(0, 0, 0, 1)), ("x".to_owned(), Device::new(0, 0, 1, 1))],
            None,
        ),
    )];
    assert!(!has_unique_names(&twice_device));
    let twice_group = vec![
        named("a", Group::new(None, None, vec![], None)),
        named("a", Group::new(None, None, vec![], None)),
    ];
    assert!(!has_unique_names(&twice_group));
    let built = create_devices(config(vec![
        compact_group(Some(1), None, None, vec![device_cfg(0, None, None), device_cfg(1, None, None)]),
        extended_group(Some("den"), vec![device_cfg(5, None, None)]),
    ]))
    .unwrap();
    assert!(has_unique_names(&built));
}
