use growtopia_proxy::packet_handler::{disconnect, handle, on_connect, on_disconnect, upstream_ready};
use growtopia_proxy::routing::{Command, Leg, Payload, RoutingTable};
use growtopia_proxy::variant::{Variant, VariantList};
use growtopia_proxy::variant_handler::recreate_variant;

const GAME_MESSAGE: u32 = 3;
const GAME_PACKET: u32 = 4;
const CLIENT: usize = 0;
const SERVER: usize = 7;

fn header(sub_type: u8, flags: u32, payload_len: u32) -> Vec<u8> {
    let mut h = vec![0u8; 56];
    h[0] = sub_type;
    h[1] = 0xaa;
    h[8..12].copy_from_slice(&0x12345678u32.to_le_bytes());
    h[12..16].copy_from_slice(&flags.to_le_bytes());
    h[44..48].copy_from_slice(&0xdeadbeefu32.to_le_bytes());
    h[52..56].copy_from_slice(&payload_len.to_le_bytes());
    h
}

fn game_packet(sub_type: u8, payload: &[u8]) -> Vec<u8> {
    let mut p = GAME_PACKET.to_le_bytes().to_vec();
    p.extend(header(sub_type, 0xe0000011, payload.len() as u32));
    p.extend_from_slice(payload);
    p
}

fn call(args: Vec<Variant>) -> Vec<u8> {
    game_packet(1, &VariantList::new(args).serialize())
}

fn bridged() -> RoutingTable {
    let mut t = RoutingTable::new();
    on_connect(&mut t, Leg::Downstream, CLIENT);
    on_connect(&mut t, Leg::Upstream, SERVER);
    t
}

fn sent_bytes(cmds: &[Command], to: Leg, peer: usize) -> Vec<u8> {
    assert_eq!(cmds.len(), 1, "{:?}", cmds);
    match &cmds[0] {
        Command::Send { to: t, peer: p, payload: Payload::Reliable(b) } => {
            assert_eq!(*t, to);
            assert_eq!(*p, peer);
            b.clone()
        }
        other => panic!("unexpected {:?}", other),
    }
}

fn is_forward(cmds: &[Command], to: Leg, peer: usize) -> bool {
    cmds.len() == 1
        && matches!(&cmds[0], Command::Send { to: t, peer: p, payload: Payload::Received } if *t == to && *p == peer)
}

#[test]
fn on_send_to_server_rewrite() {
    let mut table = bridged();
    let packet = call(vec![
        Variant::String("OnSendToServer".to_string()),
        Variant::Signed(17242),
        Variant::Signed(0),
        Variant::Signed(0),
        Variant::String("213.179.209.168|".to_string()),
    ]);
    let cmds = handle(&mut table, &packet, Leg::Upstream);
    let out = sent_bytes(&cmds, Leg::Downstream, CLIENT);

    assert_eq!(table.server_data.get("server").unwrap(), "213.179.209.168");
    assert_eq!(table.server_data.get("port").unwrap(), "17242");

    let expected = VariantList::new(vec![
        Variant::String("OnSendToServer".to_string()),
        Variant::Signed(17176),
        Variant::Signed(0),
        Variant::Signed(0),
        Variant::String("127.0.0.1|".to_string()),
    ])
    .serialize();
    assert_eq!(&out[..56], &packet[..56]);
    assert_eq!(&out[56..60], &(expected.len() as u32).to_le_bytes());
    assert_eq!(&out[60..], &expected[..]);
    let args = VariantList::deserialize(&out[60..]).unwrap();
    assert_eq!(args.get(1).unwrap().as_int32(), 17176);
    assert_eq!(args.get(4).unwrap().as_string(), "127.0.0.1|");
}

#[test]
fn on_spawn_local() {
    let mut table = bridged();
    let packet = call(vec![
        Variant::String("OnSpawn".to_string()),
        Variant::String("type|local\nname|foo\n".to_string()),
    ]);
    let cmds = handle(&mut table, &packet, Leg::Upstream);
    let out = sent_bytes(&cmds, Leg::Downstream, CLIENT);
    let args = VariantList::deserialize(&out[60..]).unwrap();
    assert_eq!(args.get(1).unwrap().as_string(), "type|local\nname|foo\nmstate|1");
    assert_eq!(&out[..56], &packet[..56]);
    assert_eq!(out.len(), 60 + VariantList::deserialize(&out[60..]).unwrap().serialize().len());
}

#[test]
fn on_spawn_non_local() {
    let mut table = bridged();
    let packet = call(vec![
        Variant::String("OnSpawn".to_string()),
        Variant::String("type|avatar\nname|bar".to_string()),
    ]);
    let cmds = handle(&mut table, &packet, Leg::Upstream);
    assert!(is_forward(&cmds, Leg::Downstream, CLIENT));
}

#[test]
fn other_calls_go_on_unchanged() {
    let mut table = bridged();
    for name in ["OnConsoleMessage", "OnDialogRequest", "OnTalkBubble"] {
        let packet = call(vec![Variant::String(name.to_string()), Variant::String("hi".to_string())]);
        let cmds = handle(&mut table, &packet, Leg::Downstream);
        assert!(is_forward(&cmds, Leg::Upstream, SERVER));
    }
    assert!(table.server_data.get("server").is_none());
}

#[test]
fn unreadable_call_arguments_go_on_unchanged() {
    let mut table = bridged();
    let packet = game_packet(1, &[3, 0, 2, 0xff]);
    assert!(is_forward(&handle(&mut table, &packet, Leg::Upstream), Leg::Downstream, CLIENT));
    let short = call(vec![Variant::String("OnSendToServer".to_string()), Variant::Signed(1)]);
    assert!(is_forward(&handle(&mut table, &short, Leg::Upstream), Leg::Downstream, CLIENT));
}

#[test]
fn app_integrity_fail_is_dropped() {
    let mut table = bridged();
    let packet = game_packet(25, &[]);
    assert!(handle(&mut table, &packet, Leg::Upstream).is_empty());
    assert!(handle(&mut table, &packet, Leg::Downstream).is_empty());
    assert_eq!(table.client_peer, Some(CLIENT));
    assert_eq!(table.upstream_peer, Some(SERVER));
}

#[test]
fn graceful_quit() {
    let mut table = bridged();
    let mut packet = GAME_MESSAGE.to_le_bytes().to_vec();
    packet.extend_from_slice(b"action|quit");
    let cmds = handle(&mut table, &packet, Leg::Downstream);
    assert_eq!(cmds.len(), 3);
    assert!(is_forward(&cmds[..1], Leg::Upstream, SERVER));
    assert!(matches!(cmds[1], Command::Disconnect { leg: Leg::Downstream, peer: CLIENT }));
    assert!(matches!(cmds[2], Command::Disconnect { leg: Leg::Upstream, peer: SERVER }));
    assert_eq!(table.client_peer, None);
    assert_eq!(table.upstream_peer, None);
}

#[test]
fn other_game_messages_go_on() {
    let mut table = bridged();
    let mut packet = GAME_MESSAGE.to_le_bytes().to_vec();
    packet.extend_from_slice(b"action|quit_to_exit");
    assert!(is_forward(&handle(&mut table, &packet, Leg::Downstream), Leg::Upstream, SERVER));
}

#[test]
fn disconnect_loopback() {
    for from in [Leg::Upstream, Leg::Downstream] {
        let mut table = bridged();
        table.server_data.insert("server".to_string(), "213.179.209.168".to_string());
        table.server_data.insert("port".to_string(), "17242".to_string());
        let cmds = handle(&mut table, &game_packet(26, &[]), from);
        assert_eq!(cmds.len(), 2);
        let other = if from == Leg::Upstream { Leg::Downstream } else { Leg::Upstream };
        let other_peer = if from == Leg::Upstream { CLIENT } else { SERVER };
        match &cmds[0] {
            Command::Disconnect { leg, peer } => {
                assert_eq!(*leg, other);
                assert_eq!(*peer, other_peer);
            }
            c => panic!("unexpected {:?}", c),
        }
        match &cmds[1] {
            Command::Connect { server, port, channels } => {
                assert_eq!(server, "213.179.209.168");
                assert_eq!(port, "17242");
                assert_eq!(*channels, 2);
            }
            c => panic!("unexpected {:?}", c),
        }
        if from == Leg::Upstream {
            assert_eq!(table.client_peer, None);
        } else {
            assert_eq!(table.upstream_peer, None);
        }
    }
}

#[test]
fn forwarding_of_other_packets() {
    let mut table = bridged();
    let packets = vec![
        vec![2, 0, 0, 0, b'h', b'i'],
        vec![6, 0, 0, 0],
        vec![99, 0, 0, 0, 1, 2, 3],
        game_packet(0, &[1, 2, 3]),
        vec![4, 0, 0, 0, 1, 2],
    ];
    for p in &packets {
        assert!(is_forward(&handle(&mut table, p, Leg::Downstream), Leg::Upstream, SERVER));
        assert!(is_forward(&handle(&mut table, p, Leg::Upstream), Leg::Downstream, CLIENT));
    }
}

#[test]
fn short_packets_are_dropped() {
    let mut table = bridged();
    assert!(handle(&mut table, &[4, 0, 0], Leg::Downstream).is_empty());
    assert!(handle(&mut table, &[], Leg::Upstream).is_empty());
}

#[test]
fn nothing_is_forwarded_without_both_peers() {
    let mut table = RoutingTable::new();
    on_connect(&mut table, Leg::Downstream, CLIENT);
    assert!(handle(&mut table, &[2, 0, 0, 0, b'x'], Leg::Downstream).is_empty());
    assert!(!handle(&mut bridged(), &[2, 0, 0, 0, b'x'], Leg::Downstream).is_empty());
}

#[test]
fn disconnect_events_are_symmetric() {
    let mut table = bridged();
    let c = on_disconnect(&mut table, Leg::Downstream);
    assert!(matches!(c, Some(Command::Disconnect { leg: Leg::Upstream, peer: SERVER })));
    assert_eq!(table.client_peer, None);
    assert_eq!(table.upstream_peer, None);
    assert!(!upstream_ready(&table));
    assert!(disconnect(&mut table, Leg::Upstream).is_none());
}

#[test]
fn recomposition_replaces_only_the_payload_length() {
    let packet = call(vec![Variant::String("x".to_string())]);
    let payload = vec![9u8; 300];
    let out = recreate_variant(&payload, &packet);
    assert_eq!(out.len(), 360);
    assert_eq!(&out[..56], &packet[..56]);
    assert_eq!(&out[56..60], &300u32.to_le_bytes());
    assert_eq!(&out[60..], &payload[..]);
}
