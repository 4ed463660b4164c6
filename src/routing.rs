use vstd::prelude::*;
use crate::text_parse::{keys_unique, TextMap};

verus! {

/// One side of the bridge.
#[derive(Debug, Clone, Copy, PartialEq, Eq, Structural)]
pub enum Leg {
    /// The game client, which connects to the local listener.
    Downstream,
    /// The real game server, which the local connector connects to.
    Upstream,
}

/// The other side of the bridge.
pub open spec fn opposite(l: Leg) -> Leg {
    match l {
        Leg::Downstream => Leg::Upstream,
        Leg::Upstream => Leg::Downstream,
    }
}

impl Leg {
    /// The other side of the bridge.
    pub fn other(self) -> (r: Leg)
        ensures
            r == opposite(self),
    {
        match self {
            Leg::Downstream => Leg::Upstream,
            Leg::Upstream => Leg::Downstream,
        }
    }
}

/// What is sent: the packet just received, unchanged, or new bytes sent reliably.
#[derive(Debug, Clone)]
pub enum Payload {
    Received,
    Reliable(Vec<u8>),
}

/// The value of a [`Payload`].
pub enum PayloadView {
    Received,
    Reliable(Seq<u8>),
}

impl View for Payload {
    type V = PayloadView;

    open spec fn view(&self) -> PayloadView {
        match self {
            Payload::Received => PayloadView::Received,
            Payload::Reliable(b) => PayloadView::Reliable(b@),
        }
    }
}

/// An action on the transport that the event loops carry out, in order.
#[derive(Debug, Clone)]
pub enum Command {
    /// Send on channel 0 to `peer` on the `to` side.
    Send { to: Leg, peer: usize, payload: Payload },
    /// Disconnect `peer` on the `leg` side at once, and flush.
    Disconnect { leg: Leg, peer: usize },
    /// Connect the upstream side to `server`:`port` with `channels` channels.
    Connect { server: String, port: String, channels: usize },
}

/// The value of a [`Command`].
pub enum CommandView {
    Send { to: Leg, peer: usize, payload: PayloadView },
    Disconnect { leg: Leg, peer: usize },
    Connect { server: Seq<char>, port: Seq<char>, channels: usize },
}

impl View for Command {
    type V = CommandView;

    open spec fn view(&self) -> CommandView {
        match self {
            Command::Send { to, peer, payload } => CommandView::Send {
                to: *to,
                peer: *peer,
                payload: payload@,
            },
            Command::Disconnect { leg, peer } => CommandView::Disconnect { leg: *leg, peer: *peer },
            Command::Connect { server, port, channels } => CommandView::Connect {
                server: server@,
                port: port@,
                channels: *channels,
            },
        }
    }
}

/// The values of a list of commands.
pub open spec fn commands_view(cs: Seq<Command>) -> Seq<CommandView> {
    cs.map_values(|c: Command| c@)
}

/// The state the two sides share: the server data last seen, and the peer of each side
/// while it is connected.
#[derive(Debug, Clone)]
pub struct RoutingTable {
    pub server_data: TextMap,
    pub client_peer: Option<usize>,
    pub upstream_peer: Option<usize>,
}

/// The value of a [`RoutingTable`].
pub struct TableView {
    pub server_data: Seq<(Seq<char>, Seq<char>)>,
    pub client_peer: Option<usize>,
    pub upstream_peer: Option<usize>,
}

impl View for RoutingTable {
    type V = TableView;

    open spec fn view(&self) -> TableView {
        TableView {
            server_data: self.server_data@,
            client_peer: self.client_peer,
            upstream_peer: self.upstream_peer,
        }
    }
}

/// The peer of a side.
pub open spec fn peer_of(t: TableView, l: Leg) -> Option<usize> {
    match l {
        Leg::Downstream => t.client_peer,
        Leg::Upstream => t.upstream_peer,
    }
}

/// The table with the peer of side `l` set to `p`.
pub open spec fn with_peer(t: TableView, l: Leg, p: Option<usize>) -> TableView {
    match l {
        Leg::Downstream => TableView { client_peer: p, ..t },
        Leg::Upstream => TableView { upstream_peer: p, ..t },
    }
}

impl RoutingTable {
    /// A table with no server data and no peers.
    pub fn new() -> (r: RoutingTable)
        ensures
            r@.server_data == Seq::<(Seq<char>, Seq<char>)>::empty(),
            r@.client_peer is None,
            r@.upstream_peer is None,
            r.wf(),
    {
        RoutingTable { server_data: TextMap::new(), client_peer: None, upstream_peer: None }
    }

    /// The table's invariant: the server data has unique keys.
    pub open spec fn wf(&self) -> bool {
        keys_unique(self.server_data@)
    }

    /// The peer of side `l`.
    pub fn peer(&self, l: Leg) -> (r: Option<usize>)
        ensures
            r == peer_of(self@, l),
    {
        match l {
            Leg::Downstream => self.client_peer,
            Leg::Upstream => self.upstream_peer,
        }
    }

    /// Sets the peer of side `l`.
    pub fn set_peer(&mut self, l: Leg, p: Option<usize>)
        ensures
            final(self)@ == with_peer(old(self)@, l, p),
            final(self).server_data == old(self).server_data,
    {
        match l {
            Leg::Downstream => {
                self.client_peer = p;
            },
            Leg::Upstream => {
                self.upstream_peer = p;
            },
        }
    }
}

} // verus!
