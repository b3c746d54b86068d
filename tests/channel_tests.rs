use venom_memory::channel::{
    ChannelConfig, ChannelHeader, ChannelRegion, DaemonChannel, ShellChannel, VenomConfig,
};
use venom_memory::error::VenomError;
use venom_memory::layout::{VENOM_MAGIC, VENOM_VERSION};

fn small_config(data_size: usize, cmd_slots: usize) -> ChannelConfig {
    ChannelConfig { data_size, cmd_slots, max_clients: 4 }
}

#[test]
fn test_channel_create_connect() {
    let namespace = "test_channel";
    let config = ChannelConfig::default();
    let (daemon, mut region) = DaemonChannel::create(namespace, config).unwrap();
    let shell = ShellChannel::connect(namespace, &mut region).unwrap();
    assert_eq!(shell.client_id(), 1);
    daemon.write_data(&mut region, b"Hello from daemon!");
    let mut buf = [0u8; 256];
    let len = shell.read_data(&region, &mut buf);
    assert!(len >= 18);
    assert_eq!(&buf[..18], b"Hello from daemon!");
}

#[test]
fn smoke_hello_with_len() {
    let (daemon, mut region) = DaemonChannel::create("t1", small_config(1024, 16)).unwrap();
    let shell = ShellChannel::connect("t1", &mut region).unwrap();
    assert_eq!(shell.client_id(), 1);
    daemon.write_data_with_len(&mut region, b"hello");
    let mut buf = [0u8; 64];
    assert_eq!(shell.read_data_with_len(&region, &mut buf), 5);
    assert_eq!(&buf[..5], b"hello");
}

#[test]
fn magic_mismatch_on_zeroed_region() {
    let mut region = ChannelRegion::zeroed();
    match ShellChannel::connect("zero", &mut region) {
        Err(VenomError::InvalidMagic { expected, got }) => {
            assert_eq!(expected, 0x564E4F4D);
            assert_eq!(got, 0);
        }
        _ => panic!("expected InvalidMagic"),
    }
    assert_eq!(region.header.next_client_id, 0);
}

#[test]
fn magic_mismatch_on_zero_bytes() {
    let bytes = vec![0u8; 4096];
    let header = ChannelHeader::from_bytes(&bytes);
    match header.check() {
        Err(VenomError::InvalidMagic { expected, got }) => {
            assert_eq!(expected, VENOM_MAGIC);
            assert_eq!(got, 0);
        }
        _ => panic!("expected InvalidMagic"),
    }
}

#[test]
fn version_mismatch_is_reported() {
    let (_daemon, mut region) = DaemonChannel::create("v", small_config(64, 2)).unwrap();
    region.header.version = 1;
    match ShellChannel::connect("v", &mut region) {
        Err(VenomError::VersionMismatch { expected, got }) => {
            assert_eq!(expected, VENOM_VERSION);
            assert_eq!(got, 1);
        }
        _ => panic!("expected VersionMismatch"),
    }
    assert_eq!(region.header.next_client_id, 1);
}

#[test]
fn namespace_too_long_is_rejected() {
    let long = "n".repeat(249);
    match DaemonChannel::create(&long, small_config(64, 2)) {
        Err(VenomError::NamespaceTooLong { max, got }) => {
            assert_eq!(max, 248);
            assert_eq!(got, 249);
        }
        _ => panic!("expected NamespaceTooLong"),
    }
    let fits = "n".repeat(248);
    assert!(DaemonChannel::create(&fits, small_config(64, 2)).is_ok());
}

#[test]
fn handshake_gives_consecutive_ids() {
    let (_daemon, mut region) = DaemonChannel::create("ids", small_config(64, 2)).unwrap();
    for expected in 1u32..=10 {
        let shell = ShellChannel::connect("ids", &mut region).unwrap();
        assert_eq!(shell.client_id(), expected);
    }
    assert_eq!(region.header.next_client_id, 11);
}

#[test]
fn mpsc_round_trip_four_shells() {
    let (daemon, mut region) = DaemonChannel::create("mpsc", small_config(256, 16)).unwrap();
    let shells: Vec<ShellChannel> =
        (0..4).map(|_| ShellChannel::connect("mpsc", &mut region).unwrap()).collect();
    let mut received: Vec<Vec<u32>> = vec![Vec::new(); 4];
    let mut buf = [0u8; 64];
    let mut drain = |region: &mut ChannelRegion, received: &mut Vec<Vec<u32>>| {
        while let Some((id, len)) = daemon.try_recv_command(region, &mut buf) {
            assert_eq!(len, 5);
            assert_eq!(buf[0] as u32, id);
            let counter = u32::from_le_bytes([buf[1], buf[2], buf[3], buf[4]]);
            received[(id - 1) as usize].push(counter);
        }
    };
    for counter in 0u32..1000 {
        for shell in &shells {
            let mut cmd = vec![shell.client_id() as u8];
            cmd.extend_from_slice(&counter.to_le_bytes());
            while !shell.try_send_command(&mut region, &cmd) {
                drain(&mut region, &mut received);
            }
        }
    }
    drain(&mut region, &mut received);
    let total: usize = received.iter().map(|r| r.len()).sum();
    assert_eq!(total, 4000);
    for group in &received {
        assert_eq!(group.len(), 1000);
        for (i, c) in group.iter().enumerate() {
            assert_eq!(*c, i as u32);
        }
    }
}

#[test]
fn queue_full_backpressure() {
    let (daemon, mut region) = DaemonChannel::create("bp", small_config(64, 2)).unwrap();
    let shell = ShellChannel::connect("bp", &mut region).unwrap();
    assert!(shell.try_send_command(&mut region, b"one"));
    assert!(shell.try_send_command(&mut region, b"two"));
    assert!(!shell.try_send_command(&mut region, b"three"));
    let mut buf = [0u8; 16];
    assert_eq!(daemon.try_recv_command(&mut region, &mut buf), Some((1, 3)));
    assert_eq!(&buf[..3], b"one");
    assert!(shell.try_send_command(&mut region, b"three"));
    assert_eq!(daemon.recv_command(&mut region, &mut buf), (1, 3));
    assert_eq!(&buf[..3], b"two");
    assert_eq!(daemon.recv_command(&mut region, &mut buf), (1, 5));
    assert_eq!(&buf[..5], b"three");
    assert_eq!(daemon.try_recv_command(&mut region, &mut buf), None);
}

#[test]
fn shutdown_ends_run() {
    let (daemon, mut region) = DaemonChannel::create("sd", small_config(128, 4)).unwrap();
    let shell = ShellChannel::connect("sd", &mut region).unwrap();
    shell.send_command(&mut region, b"ping");
    shell.send_command(&mut region, b"__SHUTDOWN__");
    shell.send_command(&mut region, b"later");
    let mut calls = 0u32;
    daemon.run(&mut region, |id, cmd| {
        calls += 1;
        assert_eq!(id, 1);
        let mut response = b"re:".to_vec();
        response.extend_from_slice(cmd);
        response
    });
    assert_eq!(calls, 1);
    let mut buf = [0u8; 32];
    assert_eq!(shell.read_data_with_len(&region, &mut buf), 7);
    assert_eq!(&buf[..7], b"re:ping");
    assert_eq!(daemon.try_recv_command(&mut region, &mut buf), Some((1, 5)));
    assert_eq!(&buf[..5], b"later");
}

#[test]
fn request_reads_published_response() {
    let (daemon, mut region) = DaemonChannel::create("rq", small_config(128, 4)).unwrap();
    let shell = ShellChannel::connect("rq", &mut region).unwrap();
    daemon.write_data_with_len(&mut region, b"status:ok");
    let mut buf = [0u8; 4];
    assert_eq!(shell.request(&mut region, b"status", &mut buf), 9);
    assert_eq!(&buf, b"stat");
    let mut cmd = [0u8; 8];
    assert_eq!(daemon.try_recv_command(&mut region, &mut cmd), Some((1, 6)));
    assert_eq!(&cmd[..6], b"status");
}

#[test]
fn layout_sizes_and_offsets() {
    let config = ChannelConfig::default();
    assert_eq!(config.data_size, 65536);
    assert_eq!(config.cmd_slots, 32);
    assert_eq!(config.max_clients, 16);
    assert_eq!(ChannelHeader::total_size(&config), 199040);
    let t1 = small_config(1024, 16);
    assert_eq!(ChannelHeader::total_size(&t1), 67968);
    let (_d, region) = DaemonChannel::create("lay", t1).unwrap();
    assert_eq!(region.header.seqlock_offset, 64);
    assert_eq!(region.header.cmd_queue_offset, 1216);
    assert_eq!(region.header.next_client_id, 1);
    assert_eq!((region.queue.write_idx.0, region.queue.read_idx.0), (0, 0));
    assert!(region.queue.slots.iter().all(|s| s.state == 0));
    assert_eq!(region.frame.header.sequence.0, 0);
    assert_eq!(region.header.magic, 0x564E4F4D);
    assert_eq!(region.header.version, 2);
}

#[test]
fn config_validity() {
    assert!(ChannelConfig::default().is_valid());
    assert!(!small_config(64, 0).is_valid());
    assert!(!small_config(64, 65).is_valid());
    assert!(small_config(64, 64).is_valid());
    assert!(!small_config(usize::MAX - 100, 1).is_valid());
    let ffi = VenomConfig { data_size: 10, cmd_slots: 3, max_clients: 7 };
    let c = ffi.to_channel_config();
    assert_eq!((c.data_size, c.cmd_slots, c.max_clients), (10, 3, 7));
}

#[test]
fn header_bytes_round_trip() {
    let (_d, region) = DaemonChannel::create("hb", small_config(1024, 16)).unwrap();
    let bytes = region.header.to_bytes();
    assert_eq!(bytes.len(), 64);
    assert_eq!(&bytes[0..4], &[0x4D, 0x4F, 0x4E, 0x56]);
    assert_eq!(&bytes[4..8], &[2, 0, 0, 0]);
    assert_eq!(&bytes[8..16], &1024u64.to_le_bytes());
    assert_eq!(&bytes[32..36], &1u32.to_le_bytes());
    assert_eq!(&bytes[48..56], &1216u64.to_le_bytes());
    let back = ChannelHeader::from_bytes(&bytes);
    assert_eq!(back.data_size, 1024);
    assert_eq!(back.cmd_slots, 16);
    assert_eq!(back.max_clients, 4);
    assert_eq!(back.cmd_queue_offset, 1216);
    assert!(back.check().is_ok());
}

#[test]
fn namespaces_are_kept() {
    let (daemon, mut region) = DaemonChannel::create("named", small_config(64, 1)).unwrap();
    let shell = ShellChannel::connect("named", &mut region).unwrap();
    assert_eq!(daemon.namespace(), "named");
    assert_eq!(shell.namespace(), "named");
}
