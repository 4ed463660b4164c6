use growtopia_proxy::config::{
    get_enet_server_port, get_web_server_port, set_enet_server_port, set_web_server_port, Config,
};
use growtopia_proxy::packet_flag::PacketFlag;
use growtopia_proxy::tank_packet::TankPacket;
use growtopia_proxy::resolver::{accept_server_data, mark_server_data, ServerDataInput};
use growtopia_proxy::routing::{Command, RoutingTable};
use growtopia_proxy::text_parse::{
    map_to_string, parse_and_store_as_map, parse_and_store_as_vec, vec_to_string, TextMap,
};

#[test]
fn split_trims_trailing_space() {
    assert_eq!(
        parse_and_store_as_vec("213.179.209.168 |17091\t|"),
        vec!["213.179.209.168".to_string(), "17091".to_string(), String::new()]
    );
    assert_eq!(parse_and_store_as_vec(""), vec![String::new()]);
}

#[test]
fn join_with_bars() {
    let parts = vec!["127.0.0.1".to_string(), String::new()];
    assert_eq!(vec_to_string(&parts), "127.0.0.1|");
    assert_eq!(vec_to_string(&vec![]), "");
}

#[test]
fn map_parsing_keeps_text_after_first_bar() {
    let m = parse_and_store_as_map("server|1.2.3.4\r\nmeta|a|b\nnobar\n\ntype|x\ntype|y\n");
    assert_eq!(m.get("server").unwrap(), "1.2.3.4");
    assert_eq!(m.get("meta").unwrap(), "a|b");
    assert_eq!(m.get("type").unwrap(), "y");
    assert!(m.get("nobar").is_none());
    assert_eq!(map_to_string(&m), "server|1.2.3.4\nmeta|a|b\ntype|y");
}

#[test]
fn map_insert_replaces_in_place() {
    let mut m = TextMap::new();
    m.insert("a".to_string(), "1".to_string());
    m.insert("b".to_string(), "2".to_string());
    m.insert("a".to_string(), "3".to_string());
    assert_eq!(map_to_string(&m), "a|3\nb|2");
}

#[test]
fn server_data_gets_type2() {
    assert_eq!(
        mark_server_data("server|213.179.209.168\nport|17091\n"),
        "server|213.179.209.168\nport|17091\ntype2|0"
    );
}

#[test]
fn fresh_client_handshake() {
    let input = ServerDataInput {
        version: "4.61".to_string(),
        platform: "0".to_string(),
        protocol: "209".to_string(),
    };
    assert_eq!(input.form_body(), "version=4.61&platform=0&protocol=209");

    let upstream = mark_server_data("server|213.179.209.168\nport|17091\nloginurl|x\n");
    let mut table = RoutingTable::new();
    let (reply, connect) = accept_server_data(&mut table, &upstream);
    assert_eq!(reply, "server|127.0.0.1\nport|17176\nloginurl|x\ntype2|0");
    assert_eq!(table.server_data.get("server").unwrap(), "213.179.209.168");
    assert_eq!(table.server_data.get("port").unwrap(), "17091");
    match connect {
        Some(Command::Connect { server, port, channels }) => {
            assert_eq!(server, "213.179.209.168");
            assert_eq!(port, "17091");
            assert_eq!(channels, 1);
        }
        other => panic!("unexpected {:?}", other),
    }
}

#[test]
fn server_data_without_port_gives_no_connect() {
    let mut table = RoutingTable::new();
    let (_, connect) = accept_server_data(&mut table, "server|1.2.3.4");
    assert!(connect.is_none());
}

#[test]
fn flags_from_word() {
    let f = PacketFlag::from_u32(0x1 | 0x10 | 0x10000000 | 0x80000000);
    assert!(f.walk && f.facing_left && f.acid_damage);
    assert!(!f.none && !f.unk_2 && !f.unk_3);
    assert_eq!(f.to_u32(), 0x1 | 0x10 | 0x10000000);
}

#[test]
fn flags_to_word() {
    let mut f = PacketFlag::default();
    f.none = true;
    f.jump = true;
    f.swim = true;
    assert_eq!(f.to_u32(), 0x80 | 0x100000);
    assert_eq!(PacketFlag::from_u32(0x1fffffff).to_u32(), 0x1fffffff);
}

#[test]
fn config_defaults_and_setters() {
    let mut c = Config::default();
    assert_eq!(get_web_server_port(&c), 443);
    assert_eq!(get_enet_server_port(&c), 17111);
    set_web_server_port(&mut c, 8443);
    set_enet_server_port(&mut c, 17091);
    assert_eq!(c, Config { web_server_port: 8443, enet_server_port: 17091 });
}

#[test]
fn tank_header_round_trip() {
    let bytes: Vec<u8> = (0u8..56).map(|i| i.wrapping_mul(37)).collect();
    let h = TankPacket::from_bytes(&bytes).unwrap();
    assert_eq!(h.packet_type, bytes[0]);
    assert_eq!(h.net_id, u32::from_le_bytes([bytes[4], bytes[5], bytes[6], bytes[7]]));
    assert_eq!(
        h.extended_data_length,
        u32::from_le_bytes([bytes[52], bytes[53], bytes[54], bytes[55]])
    );
    assert_eq!(h.to_bytes(), bytes);
    assert!(TankPacket::from_bytes(&bytes[..55]).is_none());
}

#[test]
fn tank_header_flags() {
    let mut bytes = vec![0u8; 60];
    bytes[12..16].copy_from_slice(&(0x80u32 | 0x400).to_le_bytes());
    let f = TankPacket::from_bytes(&bytes).unwrap().packet_flags();
    assert!(f.jump && f.place && !f.walk);
}
