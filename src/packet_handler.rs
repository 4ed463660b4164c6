use vstd::prelude::*;
use crate::packet_type::{
    packet_type_of, tank_type_of, EPacketType, ETankPacketType, APP_INTEGRITY_FAIL, DISCONNECT,
    CALL_FUNCTION,
};
use crate::routing::{
    commands_view, opposite, peer_of, with_peer, Command, CommandView, Leg, Payload, PayloadView,
    RoutingTable, TableView,
};
use crate::tank_packet::TankPacket;
use crate::text_parse::lookup;
use crate::variant::encode_list;
use crate::variant_handler::{
    call_args, call_rewrite, call_server_data, is_redirect, marked_spawn_args, recompose,
    redirected_args, LENGTH_OFFSET, PAYLOAD_OFFSET,
};
use crate::wire::{le_at, le_bytes, read_u32_le};
use crate::variant_handler;

verus! {

/// The bytes of the message `action|quit`.
pub open spec fn quit_bytes() -> Seq<u8> {
    seq![97u8, 99u8, 116u8, 105u8, 111u8, 110u8, 124u8, 113u8, 117u8, 105u8, 116u8]
}

/// What the pipeline does with a packet.
pub enum Route {
    /// Nothing goes on.
    Drop,
    /// The packet goes on unchanged.
    Forward,
    /// These bytes go on in its place.
    Rewrite(Seq<u8>),
    /// The session restarts: the other side is dropped and the upstream side reconnects.
    Reconnect,
    /// The packet goes on and both sides are disconnected.
    Quit,
}

/// Whether `data` is a game packet whose header can be read.
pub open spec fn is_game_packet(data: Seq<u8>) -> bool {
    data.len() >= PAYLOAD_OFFSET && packet_type_of(le_at(data, 0)) == EPacketType::NetMessageGamePacket
}

/// Whether `data` is the game message `action|quit`.
pub open spec fn is_quit(data: Seq<u8>) -> bool {
    data.len() >= 4 && packet_type_of(le_at(data, 0)) == EPacketType::NetMessageGameMessage
        && data.subrange(4, data.len() as int) == quit_bytes()
}

/// The route of a packet. A game packet whose header cannot be read goes on unchanged.
pub open spec fn route(data: Seq<u8>) -> Route {
    if data.len() < 4 {
        Route::Drop
    } else if is_game_packet(data) {
        match tank_type_of(data[4]) {
            ETankPacketType::NetGamePacketCallFunction => match call_rewrite(data) {
                Some(b) => Route::Rewrite(b),
                None => Route::Forward,
            },
            ETankPacketType::NetGamePacketDisconnect => Route::Reconnect,
            ETankPacketType::NetGamePacketAppIntegrityFail => Route::Drop,
            ETankPacketType::Other(_) => Route::Forward,
        }
    } else if is_quit(data) {
        Route::Quit
    } else {
        Route::Forward
    }
}

/// Sending `payload` to the other side: only while both sides have a peer.
pub open spec fn forward_commands(t: TableView, from: Leg, payload: PayloadView) -> Seq<CommandView> {
    if t.client_peer is Some && t.upstream_peer is Some {
        seq![
            CommandView::Send {
                to: opposite(from),
                peer: peer_of(t, opposite(from))->0,
                payload: payload,
            },
        ]
    } else {
        Seq::empty()
    }
}

/// Disconnecting side `l`: only where it has a peer.
pub open spec fn disconnect_commands(t: TableView, l: Leg) -> Seq<CommandView> {
    match peer_of(t, l) {
        Some(p) => seq![CommandView::Disconnect { leg: l, peer: p }],
        None => Seq::empty(),
    }
}

/// Connecting upstream to the recorded server and port, with `channels` channels: only
/// where both are recorded.
pub open spec fn connect_commands(sd: Seq<(Seq<char>, Seq<char>)>, channels: usize) -> Seq<
    CommandView,
> {
    match (lookup(sd, "server"@), lookup(sd, "port"@)) {
        (Some(s), Some(p)) => seq![CommandView::Connect { server: s, port: p, channels: channels }],
        _ => Seq::empty(),
    }
}

/// The table once a packet has been handled.
pub open spec fn table_after(t: TableView, data: Seq<u8>, from: Leg) -> TableView {
    let t1 = if is_game_packet(data) && data[4] == CALL_FUNCTION {
        TableView { server_data: call_server_data(t.server_data, data), ..t }
    } else {
        t
    };
    match route(data) {
        Route::Reconnect => with_peer(t1, opposite(from), None),
        Route::Quit => with_peer(with_peer(t1, Leg::Downstream, None), Leg::Upstream, None),
        _ => t1,
    }
}

/// The commands that handling a packet gives, in order.
pub open spec fn packet_commands(t: TableView, data: Seq<u8>, from: Leg) -> Seq<CommandView> {
    match route(data) {
        Route::Drop => Seq::empty(),
        Route::Forward => forward_commands(t, from, PayloadView::Received),
        Route::Rewrite(b) => forward_commands(t, from, PayloadView::Reliable(b)),
        Route::Reconnect => disconnect_commands(t, opposite(from)) + connect_commands(
            t.server_data,
            2,
        ),
        Route::Quit => forward_commands(t, from, PayloadView::Received) + disconnect_commands(
            t,
            Leg::Downstream,
        ) + disconnect_commands(t, Leg::Upstream),
    }
}

/// Whether the body of `data` is `action|quit`.
fn body_is_quit(data: &[u8]) -> (r: bool)
    requires
        data@.len() >= 4,
    ensures
        r == (data@.subrange(4, data@.len() as int) == quit_bytes()),
{
    let q: Vec<u8> = vec![97u8, 99u8, 116u8, 105u8, 111u8, 110u8, 124u8, 113u8, 117u8, 105u8, 116u8];
    assert(q@ =~= quit_bytes());
    if data.len() != 15 {
        assert(data@.subrange(4, data@.len() as int).len() != quit_bytes().len());
        return false;
    }
    let mut i: usize = 0;
    while i < 11
        invariant
            data@.len() == 15,
            q@ == quit_bytes(),
            i <= 11,
            forall|j: int| 0 <= j < i ==> data@[4 + j] == q@[j],
        decreases 11 - i,
    {
        if data[4 + i] != q[i] {
            assert(data@.subrange(4, 15)[i as int] != quit_bytes()[i as int]);
            return false;
        }
        i = i + 1;
    }
    assert(data@.subrange(4, 15) =~= quit_bytes());
    true
}

/// The command that sends `payload` from side `from` to the other side, where both sides
/// have a peer; none where either lacks one.
pub fn resend_packet(table: &RoutingTable, from: Leg, payload: Payload) -> (r: Option<Command>)
    ensures
        r is Some ==> forward_commands(table@, from, payload@) == seq![r->0@],
        r is None ==> forward_commands(table@, from, payload@) == Seq::<CommandView>::empty(),
{
    match (table.client_peer, table.upstream_peer) {
        (Some(_), Some(_)) => {
            let to = from.other();
            match table.peer(to) {
                Some(peer) => Some(Command::Send { to, peer, payload }),
                None => None,
            }
        },
        _ => None,
    }
}

/// Disconnects side `l`: its peer is cleared, and the command to drop it given, where it
/// has one.
pub fn disconnect(table: &mut RoutingTable, l: Leg) -> (r: Option<Command>)
    ensures
        final(table)@ == with_peer(old(table)@, l, None),
        final(table).server_data == old(table).server_data,
        r is Some ==> disconnect_commands(old(table)@, l) == seq![r->0@],
        r is None ==> disconnect_commands(old(table)@, l) == Seq::<CommandView>::empty(),
{
    let p = table.peer(l);
    table.set_peer(l, None);
    match p {
        Some(peer) => Some(Command::Disconnect { leg: l, peer }),
        None => None,
    }
}

/// Appends an optional command.
fn push_some(out: &mut Vec<Command>, c: Option<Command>)
    ensures
        commands_view(final(out)@) == match c {
            Some(x) => commands_view(old(out)@).push(x@),
            None => commands_view(old(out)@),
        },
{
    match c {
        Some(x) => {
            let ghost v = x@;
            out.push(x);
            assert(commands_view(out@) =~= commands_view(old(out)@).push(v));
        },
        None => {},
    }
}

/// The command that reconnects upstream to the recorded server, where one is recorded.
fn reconnect(table: &RoutingTable, channels: usize) -> (r: Option<Command>)
    ensures
        r is Some ==> connect_commands(table@.server_data, channels) == seq![r->0@],
        r is None ==> connect_commands(table@.server_data, channels) == Seq::<CommandView>::empty(),
{
    match (table.server_data.get("server"), table.server_data.get("port")) {
        (Some(s), Some(p)) => Some(
            Command::Connect { server: s.clone(), port: p.clone(), channels },
        ),
        _ => None,
    }
}

/// Handles a packet received from side `from`: the pipeline's decision for it, as the
/// commands to carry out in order, with the table updated.
pub fn handle(table: &mut RoutingTable, data: &[u8], from: Leg) -> (r: Vec<Command>)
    requires
        old(table).wf(),
    ensures
        final(table).wf(),
        final(table)@ == table_after(old(table)@, data@, from),
        commands_view(r@) == packet_commands(old(table)@, data@, from),
{
    let mut out: Vec<Command> = Vec::new();
    let ghost t0 = table@;
    if data.len() < 4 {
        assert(commands_view(out@) =~= Seq::<CommandView>::empty());
        return out;
    }
    let kind = EPacketType::from_u32(read_u32_le(data, 0));
    if data.len() >= PAYLOAD_OFFSET && kind == EPacketType::NetMessageGamePacket {
        let header = TankPacket::from_bytes(vstd::slice::slice_subrange(data, 4, data.len()));
        let sub_type = header.unwrap().packet_type;
        match ETankPacketType::from_u8(sub_type) {
            ETankPacketType::NetGamePacketCallFunction => {
                let rewritten = variant_handler::handle(&mut table.server_data, data);
                match rewritten {
                    Some(b) => push_some(&mut out, resend_packet(table, from, Payload::Reliable(b))),
                    None => push_some(&mut out, resend_packet(table, from, Payload::Received)),
                }
            },
            ETankPacketType::NetGamePacketDisconnect => {
                let d = disconnect(table, from.other());
                push_some(&mut out, d);
                let c = reconnect(table, 2);
                push_some(&mut out, c);
            },
            ETankPacketType::NetGamePacketAppIntegrityFail => {},
            ETankPacketType::Other(_) => {
                push_some(&mut out, resend_packet(table, from, Payload::Received));
            },
        }
        assert(commands_view(out@) =~= packet_commands(t0, data@, from));
        return out;
    }
    if kind == EPacketType::NetMessageGameMessage && body_is_quit(data) {
        push_some(&mut out, resend_packet(table, from, Payload::Received));
        let d = disconnect(table, Leg::Downstream);
        push_some(&mut out, d);
        let ghost t1 = table@;
        let u = disconnect(table, Leg::Upstream);
        assert(disconnect_commands(t1, Leg::Upstream) == disconnect_commands(t0, Leg::Upstream));
        push_some(&mut out, u);
        assert(commands_view(out@) =~= packet_commands(t0, data@, from));
        return out;
    }
    push_some(&mut out, resend_packet(table, from, Payload::Received));
    assert(commands_view(out@) =~= packet_commands(t0, data@, from));
    out
}

/// A peer connected on side `l`: it becomes that side's peer.
pub fn on_connect(table: &mut RoutingTable, l: Leg, peer: usize)
    ensures
        final(table)@ == with_peer(old(table)@, l, Some(peer)),
        final(table).server_data == old(table).server_data,
{
    table.set_peer(l, Some(peer));
}

/// The peer of side `l` disconnected: that side's peer is cleared, and the other side is
/// disconnected too.
pub fn on_disconnect(table: &mut RoutingTable, l: Leg) -> (r: Option<Command>)
    ensures
        final(table)@ == with_peer(with_peer(old(table)@, l, None), opposite(l), None),
        final(table).server_data == old(table).server_data,
        r is Some ==> disconnect_commands(old(table)@, opposite(l)) == seq![r->0@],
        r is None ==> disconnect_commands(old(table)@, opposite(l)) == Seq::<CommandView>::empty(),
{
    table.set_peer(l, None);
    disconnect(table, l.other())
}

/// Whether the upstream side should be serviced: only while a client is connected.
pub fn upstream_ready(table: &RoutingTable) -> (r: bool)
    ensures
        r == table@.client_peer is Some,
{
    table.client_peer.is_some()
}

/// A rewritten call packet keeps the outer type and the header of the packet it replaces,
/// but for the header's payload length, which is the length of the new payload; the new
/// payload is the wire form of the rewritten arguments.
pub proof fn lemma_recomposition(data: Seq<u8>, out: Seq<u8>)
    requires
        route(data) == Route::Rewrite(out),
    ensures
        out.len() >= PAYLOAD_OFFSET,
        out.subrange(0, 4) == data.subrange(0, 4),
        out.subrange(4, LENGTH_OFFSET as int) == data.subrange(4, LENGTH_OFFSET as int),
        out.subrange(LENGTH_OFFSET as int, PAYLOAD_OFFSET as int) == le_bytes(
            (out.len() - PAYLOAD_OFFSET) as u32,
        ),
        call_args(data) is Some,
        out.subrange(PAYLOAD_OFFSET as int, out.len() as int) == encode_list(
            if is_redirect(call_args(data)->0) {
                redirected_args(call_args(data)->0)
            } else {
                marked_spawn_args(call_args(data)->0)
            },
        ),
{
    let vs = call_args(data)->0;
    let args = if is_redirect(vs) {
        redirected_args(vs)
    } else {
        marked_spawn_args(vs)
    };
    let payload = encode_list(args);
    assert(out == recompose(data, payload));
    assert(out.subrange(0, 4) =~= data.subrange(0, 4));
    assert(out.subrange(4, LENGTH_OFFSET as int) =~= data.subrange(4, LENGTH_OFFSET as int));
    assert(out.subrange(LENGTH_OFFSET as int, PAYLOAD_OFFSET as int) =~= le_bytes(payload.len() as u32));
    assert(out.subrange(PAYLOAD_OFFSET as int, out.len() as int) =~= payload);
}

/// Whether one of the pipeline's rules applies to a packet: a game packet that is a call
/// to rewrite, a session restart or an integrity failure report, or the message
/// `action|quit`.
pub open spec fn intercepted(data: Seq<u8>) -> bool {
    ||| (is_game_packet(data) && data[4] == CALL_FUNCTION && call_rewrite(data) is Some)
    ||| (is_game_packet(data) && data[4] == DISCONNECT)
    ||| (is_game_packet(data) && data[4] == APP_INTEGRITY_FAIL)
    ||| is_quit(data)
}

/// Where both sides have a peer and no rule applies to a packet of four bytes or more,
/// exactly that packet goes on, unchanged, to the peer of the other side, and the table
/// stays as it was.
pub proof fn lemma_forwarding_liveness(t: TableView, data: Seq<u8>, from: Leg)
    requires
        t.client_peer is Some,
        t.upstream_peer is Some,
        data.len() >= 4,
        !intercepted(data),
    ensures
        packet_commands(t, data, from) == seq![
            CommandView::Send {
                to: opposite(from),
                peer: peer_of(t, opposite(from))->0,
                payload: PayloadView::Received,
            },
        ],
        table_after(t, data, from) == t,
{
    if is_game_packet(data) && data[4] == CALL_FUNCTION {
        assert(call_server_data(t.server_data, data) == t.server_data);
        assert(TableView { server_data: t.server_data, ..t } == t);
    }
}

/// An integrity failure report is never sent on, from either side, whatever the table.
pub proof fn lemma_integrity_fail_suppressed(t: TableView, data: Seq<u8>, from: Leg)
    requires
        is_game_packet(data),
        data[4] == APP_INTEGRITY_FAIL,
    ensures
        packet_commands(t, data, from) == Seq::<CommandView>::empty(),
        table_after(t, data, from) == t,
{
}

/// A session restart from either side, while the other side has a peer and the real
/// server's host and port are recorded, gives exactly two commands: one disconnect of the
/// other side's peer, then one connect to the recorded server, with two channels.
pub proof fn lemma_disconnect_loopback(t: TableView, data: Seq<u8>, from: Leg)
    requires
        is_game_packet(data),
        data[4] == DISCONNECT,
        peer_of(t, opposite(from)) is Some,
        lookup(t.server_data, "server"@) is Some,
        lookup(t.server_data, "port"@) is Some,
    ensures
        packet_commands(t, data, from) == seq![
            CommandView::Disconnect { leg: opposite(from), peer: peer_of(t, opposite(from))->0 },
            CommandView::Connect {
                server: lookup(t.server_data, "server"@)->0,
                port: lookup(t.server_data, "port"@)->0,
                channels: 2,
            },
        ],
        peer_of(table_after(t, data, from), opposite(from)) is None,
{
    assert(packet_commands(t, data, from) =~= seq![
        CommandView::Disconnect { leg: opposite(from), peer: peer_of(t, opposite(from))->0 },
        CommandView::Connect {
            server: lookup(t.server_data, "server"@)->0,
            port: lookup(t.server_data, "port"@)->0,
            channels: 2,
        },
    ]);
}

} // verus!
