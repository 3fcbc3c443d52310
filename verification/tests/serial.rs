use vmm_io::serial::{
    find_port_by_nr, get_max_nr, port_of_queue, ChardevStatus, ChardevType, PciBdf, PortBinding,
    Serial, SerialPort, VirtioConsoleConfig, VirtioSerialInfo, VirtioSerialPort,
    VirtioSerialState, CONFIG_SPACE_SIZE, CONTROL_RX_QUEUE, CONTROL_TX_QUEUE, SERIAL_FEATURES,
    STATE_SIZE,
};
use vmm_io::virtio::{
    read_config_default, read_u32, write_u64, VirtioBase, VirtioError, DEFAULT_VIRTQUEUE_SIZE,
    VIRTIO_CONSOLE_F_MULTIPORT, VIRTIO_CONSOLE_F_SIZE, VIRTIO_F_VERSION_1, VIRTIO_TYPE_CONSOLE,
};

fn console(max_ports: u32) -> Serial {
    Serial::new(VirtioSerialInfo {
        id: "serial".to_string(),
        pci_bdf: Some(PciBdf { bus: "pcie.0".to_string(), addr: (0, 0) }),
        multifunction: false,
        max_ports,
    })
}

fn port(id: &str, nr: u32, is_console: bool, backend: ChardevType) -> SerialPort {
    SerialPort::new(VirtioSerialPort { id: id.to_string(), backend, nr, is_console })
}

#[test]
fn test_set_driver_features() {
    let mut serial = Serial::new(VirtioSerialInfo {
        id: "serial".to_string(),
        pci_bdf: Some(PciBdf { bus: "pcie.0".to_string(), addr: (0, 0) }),
        multifunction: false,
        max_ports: 31,
    });

    // If the device feature is 0, all driver features are not supported.
    serial.base.device_features = 0;
    let driver_feature: u32 = 0xFF;
    let page = 0_u32;
    serial.set_driver_features(page, driver_feature);
    assert_eq!(serial.base.driver_features, 0_u64);
    assert_eq!(serial.driver_features(page) as u64, 0_u64);

    let driver_feature: u32 = 0xFF;
    let page = 1_u32;
    serial.set_driver_features(page, driver_feature);
    assert_eq!(serial.base.driver_features, 0_u64);
    assert_eq!(serial.driver_features(page) as u64, 0_u64);

    // If both the device feature bit and the front-end driver feature bit are
    // supported at the same time, this driver feature bit is supported.
    serial.base.device_features = 1_u64 << VIRTIO_F_VERSION_1 | 1_u64 << VIRTIO_CONSOLE_F_SIZE;
    let driver_feature: u32 = (1_u64 << VIRTIO_CONSOLE_F_SIZE) as u32;
    let page = 0_u32;
    serial.set_driver_features(page, driver_feature);
    assert_eq!(serial.base.driver_features, (1_u64 << VIRTIO_CONSOLE_F_SIZE));
    assert_eq!(serial.driver_features(page) as u64, (1_u64 << VIRTIO_CONSOLE_F_SIZE));
    serial.base.driver_features = 0;

    serial.base.device_features = 1_u64 << VIRTIO_F_VERSION_1;
    let driver_feature: u32 = (1_u64 << VIRTIO_CONSOLE_F_SIZE) as u32;
    let page = 0_u32;
    serial.set_driver_features(page, driver_feature);
    assert_eq!(serial.base.driver_features, 0);
    serial.base.driver_features = 0;

    serial.base.device_features = 1_u64 << VIRTIO_F_VERSION_1
        | 1_u64 << VIRTIO_CONSOLE_F_SIZE
        | 1_u64 << VIRTIO_CONSOLE_F_MULTIPORT;
    let driver_feature: u32 = (1_u64 << VIRTIO_CONSOLE_F_MULTIPORT) as u32;
    let page = 0_u32;
    serial.set_driver_features(page, driver_feature);
    assert_eq!(serial.base.driver_features, (1_u64 << VIRTIO_CONSOLE_F_MULTIPORT));
    let driver_feature: u32 = ((1_u64 << VIRTIO_F_VERSION_1) >> 32) as u32;
    let page = 1_u32;
    serial.set_driver_features(page, driver_feature);
    assert_eq!(
        serial.base.driver_features,
        (1_u64 << VIRTIO_F_VERSION_1 | 1_u64 << VIRTIO_CONSOLE_F_MULTIPORT)
    );
}

#[test]
fn test_read_config() {
    let max_ports: u8 = 31;
    let serial = Serial::new(VirtioSerialInfo {
        id: "serial".to_string(),
        pci_bdf: Some(PciBdf { bus: "pcie.0".to_string(), addr: (0, 0) }),
        multifunction: false,
        max_ports: max_ports as u32,
    });

    // The offset of configuration that needs to be read exceeds the maximum.
    let offset = CONFIG_SPACE_SIZE as u64;
    let mut read_data: Vec<u8> = vec![0; 8];
    assert_eq!(serial.read_config(offset, &mut read_data).is_ok(), false);

    // Check the configuration that needs to be read.
    let offset = 0_u64;
    let mut read_data: Vec<u8> = vec![0; 12];
    let expect_data: Vec<u8> = vec![0, 0, 0, 0, max_ports, 0, 0, 0, 0, 0, 0, 0];
    assert_eq!(serial.read_config(offset, &mut read_data).is_ok(), true);
    assert_eq!(read_data, expect_data);
}

#[test]
fn a_new_console_has_two_queues_per_port_and_two_for_control() {
    let serial = console(31);
    assert_eq!(
        serial.base,
        VirtioBase {
            device_type: VIRTIO_TYPE_CONSOLE,
            queue_num: 64,
            queue_size_max: DEFAULT_VIRTQUEUE_SIZE,
            device_features: 0,
            driver_features: 0,
            broken: false,
        }
    );
    assert_eq!(serial.queue_num(), 64);
    assert_eq!(serial.max_nr_ports, 31);
    assert_eq!(
        serial.config_space,
        VirtioConsoleConfig { cols: 0, rows: 0, max_nr_ports: 31, emerg_wr: 0 }
    );
    assert!(serial.ports.is_empty());
    assert_eq!(console(1).queue_num(), 4);
    assert_eq!(console(u32::MAX).queue_num(), 0x2_0000_0000);
}

#[test]
fn realize_offers_version_size_and_multiport() {
    let mut serial = console(4);
    serial.realize();
    assert_eq!(serial.base.device_features, 0x1_0000_0003);
    assert_eq!(SERIAL_FEATURES, 0x1_0000_0003);
    assert_eq!(serial.device_features(0), 0b11);
    assert_eq!(serial.device_features(1), 1);
    assert_eq!(serial.device_features(2), 0);
    assert_eq!(serial.base.driver_features, 0);
}

#[test]
fn unoffered_features_are_clipped() {
    let mut serial = console(4);
    serial.base.device_features = 1_u64 << VIRTIO_F_VERSION_1 | 1_u64 << VIRTIO_CONSOLE_F_SIZE;
    serial.set_driver_features(0, 1_u32 << VIRTIO_CONSOLE_F_MULTIPORT);
    assert_eq!(serial.base.driver_features, 0);
    // Of several requested features those that are offered remain.
    serial.set_driver_features(0, 0b111);
    assert_eq!(serial.base.driver_features, 0b001);
}

#[test]
fn negotiation_agrees_on_offered_and_requested() {
    let offered = [0u64, SERIAL_FEATURES, u64::MAX, 0xdead_beef_0123_4567, 1 << 63];
    let requested = [0u64, 3, 1 << 32, u64::MAX, 0xffff_0000_ffff_0000, 0x1_0000_0002];
    for device in offered {
        for request in requested {
            for before in [0u64, u64::MAX, 0x1234_5678_9abc_def0] {
                let mut serial = console(2);
                serial.base.device_features = device;
                serial.base.driver_features = before;
                serial.set_driver_features(0, request as u32);
                assert_eq!(serial.driver_features(0), (device & request) as u32);
                assert_eq!(serial.driver_features(1), (before >> 32) as u32);
                serial.set_driver_features(1, (request >> 32) as u32);
                assert_eq!(serial.base.driver_features, device & request);

                let mut serial = console(2);
                serial.base.device_features = device;
                serial.base.driver_features = before;
                serial.set_driver_features(1, (request >> 32) as u32);
                serial.set_driver_features(0, request as u32);
                assert_eq!(serial.base.driver_features, device & request);
            }
        }
    }
}

#[test]
fn a_page_beyond_the_second_offers_nothing() {
    let mut serial = console(2);
    serial.base.device_features = u64::MAX;
    serial.base.driver_features = 0xaaaa_bbbb_cccc_dddd;
    assert_eq!(serial.device_features(2), 0);
    assert_eq!(serial.driver_features(7), 0);
    // Nothing is agreed on there; the acknowledgement lands on the high half.
    serial.set_driver_features(2, 0xffff_ffff);
    assert_eq!(serial.base.driver_features, 0x0000_0000_cccc_dddd);
}

#[test]
fn feature_pages() {
    assert_eq!(read_u32(0x1122_3344_5566_7788, 0), 0x5566_7788);
    assert_eq!(read_u32(0x1122_3344_5566_7788, 1), 0x1122_3344);
    assert_eq!(read_u32(0x1122_3344_5566_7788, 2), 0);
    assert_eq!(read_u32(u64::MAX, u32::MAX), 0);
    assert_eq!(write_u64(0x5566_7788, 0x1122_3344), 0x1122_3344_5566_7788);
    assert_eq!(write_u64(u32::MAX, u32::MAX), u64::MAX);
    assert_eq!(write_u64(0, 0), 0);
}

#[test]
fn config_reads_inside_and_outside() {
    let serial = console(0x0403_0201);
    let all = [0, 0, 0, 0, 1, 2, 3, 4, 0, 0, 0, 0];
    for offset in 0..=12u64 {
        for len in 0..=(12 - offset as usize) {
            let mut data = vec![0xeeu8; len];
            assert_eq!(serial.read_config(offset, &mut data), Ok(()));
            assert_eq!(data, all[offset as usize..offset as usize + len].to_vec());
        }
        let len = 13 - offset as usize;
        let mut data = vec![0xeeu8; len];
        assert_eq!(
            serial.read_config(offset, &mut data),
            Err(VirtioError::DevConfigOverflow { offset, len: len as u64, size: 12 })
        );
        assert_eq!(data, vec![0xeeu8; len]);
    }
    let mut data = [0u8; 1];
    assert_eq!(
        serial.read_config(u64::MAX, &mut data),
        Err(VirtioError::DevConfigOverflow { offset: u64::MAX, len: 1, size: 12 })
    );
    let mut none: [u8; 0] = [];
    assert_eq!(
        serial.read_config(13, &mut none),
        Err(VirtioError::DevConfigOverflow { offset: 13, len: 0, size: 12 })
    );
}

#[test]
fn config_read_out_of_range() {
    let serial = console(31);
    let mut data = vec![0u8; 8];
    assert_eq!(
        serial.read_config(12, &mut data),
        Err(VirtioError::DevConfigOverflow { offset: 12, len: 8, size: 12 })
    );
    let mut data = vec![0xffu8; 12];
    assert_eq!(serial.read_config(0, &mut data), Ok(()));
    assert_eq!(data, vec![0, 0, 0, 0, 31, 0, 0, 0, 0, 0, 0, 0]);
}

#[test]
fn config_space_is_little_endian() {
    let config = VirtioConsoleConfig {
        cols: 0x0102,
        rows: 0x0304,
        max_nr_ports: 0x0506_0708,
        emerg_wr: 0x090a_0b0c,
    };
    assert_eq!(
        config.as_bytes(),
        vec![0x02, 0x01, 0x04, 0x03, 0x08, 0x07, 0x06, 0x05, 0x0c, 0x0b, 0x0a, 0x09]
    );
    assert_eq!(VirtioConsoleConfig::new(7).as_bytes().len(), CONFIG_SPACE_SIZE);
}

#[test]
fn read_config_default_copies_a_part() {
    let config = [1u8, 2, 3, 4, 5];
    let mut data = [0u8; 2];
    assert_eq!(read_config_default(&config, 3, &mut data), Ok(()));
    assert_eq!(data, [4, 5]);
    assert_eq!(
        read_config_default(&config, 4, &mut data),
        Err(VirtioError::DevConfigOverflow { offset: 4, len: 2, size: 5 })
    );
    assert_eq!(data, [4, 5]);
}

#[test]
fn config_writes_are_refused() {
    let mut serial = console(31);
    let before = serial.clone();
    assert_eq!(serial.write_config(0, &[1, 2, 3, 4]), Err(VirtioError::ConfigWriteUnsupported));
    assert_eq!(serial.write_config(4, &[]), Err(VirtioError::ConfigWriteUnsupported));
    assert_eq!(serial.write_config(100, &[0]), Err(VirtioError::ConfigWriteUnsupported));
    assert_eq!(serial, before);
}

#[test]
fn ports_start_closed_to_the_guest() {
    let hvc = port("hvc0", 0, true, ChardevType::Socket);
    assert_eq!(
        hvc,
        SerialPort {
            name: Some("hvc0".to_string()),
            nr: 0,
            is_console: true,
            guest_connected: false,
            host_connected: true,
            activated: false,
            ctrl_attached: false,
        }
    );
    assert!(port("p", 1, false, ChardevType::Pty).host_connected);
    assert!(!port("p", 1, false, ChardevType::Socket).host_connected);
    assert!(!port("p", 1, false, ChardevType::File).host_connected);
    assert!(!port("p", 1, false, ChardevType::Stdio).host_connected);
    assert!(port("p", 1, true, ChardevType::Stdio).host_connected);
}

#[test]
fn ports_are_found_by_number() {
    let ports = vec![
        port("a", 3, false, ChardevType::Pty),
        port("b", 0, true, ChardevType::Pty),
        port("c", 3, false, ChardevType::Pty),
        port("d", 9, false, ChardevType::Pty),
    ];
    assert_eq!(find_port_by_nr(&ports, 3), Some(0));
    assert_eq!(find_port_by_nr(&ports, 0), Some(1));
    assert_eq!(find_port_by_nr(&ports, 9), Some(3));
    assert_eq!(find_port_by_nr(&ports, 1), None);
    assert_eq!(find_port_by_nr(&Vec::new(), 0), None);
    assert_eq!(get_max_nr(&ports), 9);
    assert_eq!(get_max_nr(&Vec::new()), 0);
    assert_eq!(get_max_nr(&vec![port("z", 0, false, ChardevType::Pty)]), 0);
    assert_eq!(get_max_nr(&vec![port("z", u32::MAX, false, ChardevType::Pty)]), u32::MAX);
}

#[test]
fn queues_belong_to_ports() {
    assert_eq!(port_of_queue(0), Some(0));
    assert_eq!(port_of_queue(1), Some(0));
    assert_eq!(port_of_queue(2), None);
    assert_eq!(port_of_queue(3), None);
    assert_eq!(port_of_queue(4), Some(1));
    assert_eq!(port_of_queue(5), Some(1));
    assert_eq!(port_of_queue(6), Some(2));
    assert_eq!(port_of_queue(63), Some(30));
    assert_eq!(CONTROL_RX_QUEUE, 2);
    assert_eq!(CONTROL_TX_QUEUE, 3);
}

#[test]
fn activation_needs_the_right_number_of_queues() {
    let mut serial = console(2);
    serial.ports.push(port("hvc0", 0, true, ChardevType::Pty));
    let before = serial.clone();
    for count in [0u64, 2, 5, 7, 64] {
        assert_eq!(
            serial.activate(count),
            Err(VirtioError::IncorrectQueueNum { expected: 6, actual: count })
        );
        assert_eq!(serial, before);
    }
}

#[test]
fn activation_wires_ports_to_queues() {
    let mut serial = console(3);
    serial.ports.push(port("hvc0", 0, true, ChardevType::Pty));
    serial.ports.push(port("late", 2, false, ChardevType::Socket));
    serial.ports.push(port("twin", 2, false, ChardevType::Socket));
    serial.ports.push(port("far", 7, false, ChardevType::Socket));
    let bindings = serial.activate(8).unwrap();
    assert_eq!(
        bindings,
        vec![
            PortBinding { nr: 0, rx_queue: 0, tx_queue: 1, port: Some(0) },
            // No port has number 1: what arrives on its queues is thrown away.
            PortBinding { nr: 1, rx_queue: 4, tx_queue: 5, port: None },
            PortBinding { nr: 2, rx_queue: 6, tx_queue: 7, port: Some(1) },
        ]
    );
    for binding in &bindings {
        assert_eq!(port_of_queue(binding.rx_queue), Some(binding.nr));
        assert_eq!(port_of_queue(binding.tx_queue), Some(binding.nr));
    }
    let activated: Vec<bool> = serial.ports.iter().map(|p| p.activated).collect();
    // The second port with number 2 and the port beyond the queues get none.
    assert_eq!(activated, vec![true, true, false, false]);
    assert!(serial.ports.iter().all(|p| p.ctrl_attached));

    serial.ports[0].guest_connected = true;
    serial.deactivate();
    assert!(serial.ports.iter().all(|p| !p.activated && !p.guest_connected && !p.ctrl_attached));
    assert!(serial.ports[0].host_connected);
    assert_eq!(serial.ports[1].name, Some("late".to_string()));
}

#[test]
fn a_broken_device_is_marked() {
    let mut serial = console(1);
    serial.realize();
    serial.report_virtio_error();
    assert!(serial.base.broken);
    assert_eq!(serial.base.device_features, SERIAL_FEATURES);
}

#[test]
fn port_life_cycle() {
    let mut p = port("p", 4, false, ChardevType::Socket);
    p.realize();
    assert!(!p.activated);
    p.activate();
    assert!(p.activated);
    p.guest_connected = true;
    p.ctrl_attached = true;
    p.deactivate();
    assert_eq!(p, port("p", 4, false, ChardevType::Socket));
}

#[test]
fn state_round_trip() {
    let mut serial = console(31);
    serial.realize();
    serial.set_driver_features(0, 0b10);
    serial.set_driver_features(1, 1);
    let saved = serial.get_state_vec();
    assert_eq!(saved.len(), STATE_SIZE);
    assert_eq!(
        saved,
        vec![
            3, 0, 0, 0, 1, 0, 0, 0, // offered
            2, 0, 0, 0, 1, 0, 0, 0, // agreed
            0, 0, 0, 0, 31, 0, 0, 0, 0, 0, 0, 0, // configuration space
            0, 0, 0, 0,
        ]
    );
    assert_eq!(
        serial.get_state(),
        VirtioSerialState {
            device_features: 0x1_0000_0003,
            driver_features: 0x1_0000_0002,
            config_space: VirtioConsoleConfig { cols: 0, rows: 0, max_nr_ports: 31, emerg_wr: 0 },
        }
    );

    let mut other = console(5);
    other.ports.push(port("hvc0", 0, true, ChardevType::Pty));
    assert_eq!(other.set_state_mut(&saved), Ok(()));
    assert_eq!(other.get_state(), serial.get_state());
    assert_eq!(other.get_state_vec(), saved);
    // What is not part of the state stays.
    assert_eq!(other.max_nr_ports, 5);
    assert_eq!(other.ports.len(), 1);
    assert_eq!(other.base.queue_num, 12);
}

#[test]
fn state_of_the_wrong_size_is_refused() {
    let mut serial = console(3);
    serial.realize();
    let before = serial.clone();
    for len in [0usize, 1, 28, 31, 33, 64] {
        assert_eq!(
            serial.set_state_mut(&vec![0xffu8; len]),
            Err(VirtioError::BadState { got: len as u64, expected: 32 })
        );
        assert_eq!(serial, before);
    }
    assert_eq!(VirtioSerialState::from_bytes(&[0u8; 31]), None);
}

#[test]
fn state_bytes_are_little_endian() {
    let state = VirtioSerialState {
        device_features: 0x0102_0304_0506_0708,
        driver_features: 0x1112_1314_1516_1718,
        config_space: VirtioConsoleConfig {
            cols: 0x2122,
            rows: 0x2324,
            max_nr_ports: 0x2526_2728,
            emerg_wr: 0x292a_2b2c,
        },
    };
    let bytes = state.as_bytes();
    assert_eq!(
        bytes,
        vec![
            0x08, 0x07, 0x06, 0x05, 0x04, 0x03, 0x02, 0x01, 0x18, 0x17, 0x16, 0x15, 0x14, 0x13,
            0x12, 0x11, 0x22, 0x21, 0x24, 0x23, 0x28, 0x27, 0x26, 0x25, 0x2c, 0x2b, 0x2a, 0x29, 0,
            0, 0, 0,
        ]
    );
    assert_eq!(VirtioSerialState::from_bytes(&bytes), Some(state));
    // The fill bytes say nothing.
    let mut noisy = bytes.clone();
    noisy[28] = 0xff;
    noisy[31] = 0x01;
    assert_eq!(VirtioSerialState::from_bytes(&noisy), Some(state));
    let extremes = VirtioSerialState {
        device_features: u64::MAX,
        driver_features: 0,
        config_space: VirtioConsoleConfig {
            cols: u16::MAX,
            rows: 0,
            max_nr_ports: u32::MAX,
            emerg_wr: 0x8000_0000,
        },
    };
    assert_eq!(VirtioSerialState::from_bytes(&extremes.as_bytes()), Some(extremes));
}

#[test]
fn host_side_transitions() {
    let mut p = port("p", 5, false, ChardevType::Socket);
    // Without a way to the control queues nothing is told.
    assert_eq!(p.chardev_notify(ChardevStatus::Open), None);
    assert!(p.host_connected);
    p.host_connected = false;
    p.ctrl_attached = true;

    let opened = p.chardev_notify(ChardevStatus::Open).unwrap();
    assert!(p.host_connected);
    assert_eq!((opened.ctrl.id, opened.ctrl.event, opened.ctrl.value), (5, 6, 1));
    assert!(opened.extra.is_empty());
    // Open when already open: nothing happens.
    assert_eq!(p.chardev_notify(ChardevStatus::Open), None);
    assert!(p.host_connected);

    let closed = p.chardev_notify(ChardevStatus::Close).unwrap();
    assert!(!p.host_connected);
    assert_eq!((closed.ctrl.id, closed.ctrl.event, closed.ctrl.value), (5, 6, 0));
    // Close when already closed is told again.
    let again = p.chardev_notify(ChardevStatus::Close).unwrap();
    assert_eq!(again, closed);
    assert!(!p.host_connected);
    assert!(!p.guest_connected);
}
