use vstd::prelude::*;
use vstd::string::*;
use crate::text_parse::{
    decimal, decimal_text, entry_text, fold_lines, insert_entry, join, keys_unique, lines_of,
    lookup, map_to_string, parse_and_store_as_map, parse_and_store_as_vec, split_on, trim_end,
    vec_to_string, TextMap,
};
use crate::variant::{
    decode_list, encode_list, int32_of, text_of, Variant, VariantList, VariantValue,
};
use crate::tank_packet::{header_bytes, lemma_header_bytes_of_read, TankPacket};
use crate::wire::{le_bytes, push_bytes};

verus! {

/// Where the payload of a game packet starts: after the four-byte outer type and the
/// 56-byte header.
pub const PAYLOAD_OFFSET: usize = 60;

/// Where the header's payload length field starts.
pub const LENGTH_OFFSET: usize = 56;

/// The port of the local bridge that redirected clients are sent to.
pub const LOCAL_PORT: i32 = 17176;

/// The host of the local bridge.
pub open spec fn local_host() -> Seq<char> {
    "127.0.0.1"@
}

/// A packet rebuilt around a new payload: the outer type and the header as they were, but
/// for the header's payload length, which becomes the new payload's length.
pub open spec fn recompose(packet: Seq<u8>, payload: Seq<u8>) -> Seq<u8> {
    packet.subrange(0, LENGTH_OFFSET as int) + le_bytes(payload.len() as u32) + payload
}

/// Builds the packet that carries `serialized` in place of the payload of `packet`.
pub fn recreate_variant(serialized: &Vec<u8>, packet: &[u8]) -> (r: Vec<u8>)
    requires
        packet@.len() >= PAYLOAD_OFFSET,
    ensures
        r@ == recompose(packet@, serialized@),
        r@.len() == PAYLOAD_OFFSET + serialized@.len(),
        r@.subrange(0, 4) == packet@.subrange(0, 4),
        r@.subrange(4, LENGTH_OFFSET as int) == packet@.subrange(4, LENGTH_OFFSET as int),
        r@.subrange(LENGTH_OFFSET as int, PAYLOAD_OFFSET as int) == le_bytes(serialized@.len() as u32),
        r@.subrange(PAYLOAD_OFFSET as int, r@.len() as int) == serialized@,
{
    let header_bytes_in = vstd::slice::slice_subrange(packet, 4, packet.len());
    let mut header = TankPacket::from_bytes(header_bytes_in).unwrap();
    let ghost original = header;
    header.extended_data_length = serialized.len() as u32;
    let mut data: Vec<u8> = Vec::new();
    push_bytes(&mut data, vstd::slice::slice_subrange(packet, 0, 4));
    let header_out = header.to_bytes();
    push_bytes(&mut data, header_out.as_slice());
    push_bytes(&mut data, serialized.as_slice());
    proof {
        let hb = header_bytes_in@;
        lemma_header_bytes_of_read(hb);
        let head = packet@.subrange(0, LENGTH_OFFSET as int);
        let len_bytes = le_bytes(serialized@.len() as u32);
        let before_len = header_bytes(original).subrange(0, 52);
        assert(header_bytes(original) =~= before_len + le_bytes(original.extended_data_length));
        assert(header_bytes(header) =~= before_len + len_bytes);
        assert(before_len =~= packet@.subrange(4, LENGTH_OFFSET as int));
        assert(data@ =~= head + len_bytes + serialized@);
        assert(data@.subrange(0, 4) =~= packet@.subrange(0, 4));
        assert(data@.subrange(4, LENGTH_OFFSET as int) =~= packet@.subrange(4, LENGTH_OFFSET as int));
        assert(data@.subrange(LENGTH_OFFSET as int, PAYLOAD_OFFSET as int) =~= len_bytes);
        assert(data@.subrange(PAYLOAD_OFFSET as int, data@.len() as int) =~= serialized@);
    }
    data
}

/// The pieces of the address argument of a redirect, each without trailing white space.
pub open spec fn address_pieces(vs: Seq<VariantValue>) -> Seq<Seq<char>> {
    split_on(text_of(vs[4]), '|').map_values(|p: Seq<char>| trim_end(p))
}

/// The arguments of a redirect once it points at the local bridge: the port argument and
/// the first address piece are replaced.
pub open spec fn redirected_args(vs: Seq<VariantValue>) -> Seq<VariantValue> {
    vs.update(1, VariantValue::Signed(LOCAL_PORT)).update(
        4,
        VariantValue::Text(join(address_pieces(vs).update(0, local_host()), "|"@)),
    )
}

/// The spawn record of a spawn call.
pub open spec fn spawn_record(vs: Seq<VariantValue>) -> Seq<(Seq<char>, Seq<char>)> {
    fold_lines(lines_of(text_of(vs[1])))
}

/// The arguments of a spawn call of the local player, marked with `mstate|1`.
pub open spec fn marked_spawn_args(vs: Seq<VariantValue>) -> Seq<VariantValue> {
    vs.update(
        1,
        VariantValue::Text(
            join(
                insert_entry(spawn_record(vs), "mstate"@, "1"@).map_values(
                    |e: (Seq<char>, Seq<char>)| entry_text(e),
                ),
                "\n"@,
            ),
        ),
    )
}

/// Whether a spawn call is that of the local player.
pub open spec fn spawns_local(vs: Seq<VariantValue>) -> bool {
    lookup(spawn_record(vs), "type"@) == Some("local"@)
}

/// The arguments of a call packet, where they can be read.
pub open spec fn call_args(packet: Seq<u8>) -> Option<Seq<VariantValue>> {
    decode_list(packet.subrange(PAYLOAD_OFFSET as int, packet.len() as int))
}

/// Whether the call is a redirect to another game server that can be rewritten.
pub open spec fn is_redirect(vs: Seq<VariantValue>) -> bool {
    vs.len() > 4 && text_of(vs[0]) == "OnSendToServer"@
}

/// Whether the call is a spawn of the local player.
pub open spec fn is_local_spawn(vs: Seq<VariantValue>) -> bool {
    vs.len() > 1 && text_of(vs[0]) == "OnSpawn"@ && spawns_local(vs)
}

/// The packet that replaces a call packet, or `None` where it goes on unchanged.
pub open spec fn call_rewrite(packet: Seq<u8>) -> Option<Seq<u8>> {
    match call_args(packet) {
        None => None,
        Some(vs) => if is_redirect(vs) {
            Some(recompose(packet, encode_list(redirected_args(vs))))
        } else if is_local_spawn(vs) {
            Some(recompose(packet, encode_list(marked_spawn_args(vs))))
        } else {
            None
        },
    }
}

/// The server data after a call packet: a redirect records the real server's host (the
/// first address piece) and port.
pub open spec fn call_server_data(sd: Seq<(Seq<char>, Seq<char>)>, packet: Seq<u8>) -> Seq<
    (Seq<char>, Seq<char>),
> {
    match call_args(packet) {
        Some(vs) => if is_redirect(vs) {
            insert_entry(
                insert_entry(sd, "server"@, address_pieces(vs)[0]),
                "port"@,
                decimal(int32_of(vs[1]) as int),
            )
        } else {
            sd
        },
        None => sd,
    }
}

/// Handles a remote function call packet. A redirect to another game server is recorded
/// in `server_data` and rewritten to point at the local bridge; a spawn of the local
/// player is marked with `mstate|1`. Gives the replacement packet, or `None` where the
/// packet goes on unchanged, which is also the case where its arguments cannot be read.
pub fn handle(server_data: &mut TextMap, packet: &[u8]) -> (r: Option<Vec<u8>>)
    requires
        packet@.len() >= PAYLOAD_OFFSET,
        keys_unique(old(server_data)@),
    ensures
        keys_unique(final(server_data)@),
        final(server_data)@ == call_server_data(old(server_data)@, packet@),
        match call_rewrite(packet@) {
            Some(b) => r is Some && r->0@ == b,
            None => r is None,
        },
{
    let payload = vstd::slice::slice_subrange(packet, PAYLOAD_OFFSET, packet.len());
    let mut list = match VariantList::deserialize(payload) {
        Ok(l) => l,
        Err(_) => {
            return None;
        },
    };
    let ghost vs = list@;
    if list.len() == 0 {
        return None;
    }
    let name = match list.get(0) {
        Some(v) => v.as_string(),
        None => {
            return None;
        },
    };
    if list.len() > 4 && name == String::from_str("OnSendToServer") {
        let port = match list.get(1) {
            Some(v) => v.as_int32(),
            None => {
                return None;
            },
        };
        let address = match list.get(4) {
            Some(v) => v.as_string(),
            None => {
                return None;
            },
        };
        let mut pieces = parse_and_store_as_vec(address.as_str());
        let ghost pv = pieces@.map_values(|x: String| x@);
        let ip = pieces[0].clone();
        server_data.insert(String::from_str("server"), ip);
        server_data.insert(String::from_str("port"), decimal_text(port as i64));
        pieces.set(0, String::from_str("127.0.0.1"));
        assert(pieces@.map_values(|x: String| x@) =~= pv.update(0, local_host()));
        list.set(1, Variant::Signed(LOCAL_PORT));
        list.set(4, Variant::String(vec_to_string(&pieces)));
        assert(list@ =~= redirected_args(vs));
        let serialized = list.serialize();
        return Some(recreate_variant(&serialized, packet));
    }
    if list.len() > 1 && name == String::from_str("OnSpawn") {
        let message = match list.get(1) {
            Some(v) => v.as_string(),
            None => {
                return None;
            },
        };
        let mut record = parse_and_store_as_map(message.as_str());
        let is_local = match record.get("type") {
            Some(t) => *t == String::from_str("local"),
            None => false,
        };
        if is_local {
            record.insert(String::from_str("mstate"), String::from_str("1"));
            list.set(1, Variant::String(map_to_string(&record)));
            assert(list@ =~= marked_spawn_args(vs));
            let serialized = list.serialize();
            return Some(recreate_variant(&serialized, packet));
        }
    }
    None
}

} // verus!
