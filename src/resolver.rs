use vstd::prelude::*;
use vstd::string::*;
use crate::packet_handler::connect_commands;
use crate::routing::{CommandView, Command, RoutingTable};
use crate::text_parse::{
    entry_text, fold_lines, insert_entry, join, lines_of, map_to_string, parse_and_store_as_map,
};

verus! {

/// The form a game client posts to ask for server data.
#[derive(Debug, Clone)]
pub struct ServerDataInput {
    pub version: String,
    pub platform: String,
    pub protocol: String,
}

impl ServerDataInput {
    /// The form as a URL-encoded body, in the order the game sends it.
    pub fn form_body(&self) -> (r: String)
        ensures
            r@ == "version="@ + self.version@ + "&platform="@ + self.platform@ + "&protocol="@
                + self.protocol@,
    {
        let mut out = String::from_str("version=");
        out.append(self.version.as_str());
        out.append("&platform=");
        out.append(self.platform.as_str());
        out.append("&protocol=");
        out.append(self.protocol.as_str());
        out
    }
}

/// The text of a record: its entries as `key|value` lines.
pub open spec fn record_text(m: Seq<(Seq<char>, Seq<char>)>) -> Seq<char> {
    join(m.map_values(|e: (Seq<char>, Seq<char>)| entry_text(e)), "\n"@)
}

/// The server data the real web endpoint gave, with `type2|0` added.
pub fn mark_server_data(body: &str) -> (r: String)
    ensures
        r@ == record_text(insert_entry(fold_lines(lines_of(body@)), "type2"@, "0"@)),
{
    let mut record = parse_and_store_as_map(body);
    record.insert(String::from_str("type2"), String::from_str("0"));
    map_to_string(&record)
}

/// The port of the local listener as it is given to clients.
pub open spec fn local_port_text() -> Seq<char> {
    "17176"@
}

/// The server data a client gets from the local web endpoint: the real server's data, with
/// the host and port of the local listener in place of the real ones.
pub open spec fn redirected_record(m: Seq<(Seq<char>, Seq<char>)>) -> Seq<(Seq<char>, Seq<char>)> {
    insert_entry(insert_entry(m, "server"@, "127.0.0.1"@), "port"@, local_port_text())
}

/// Takes the server data of the real server: records it, gives the command that connects
/// upstream to it with one channel where it names a host and a port, and the text to reply
/// to the client with.
pub fn accept_server_data(table: &mut RoutingTable, text: &str) -> (r: (String, Option<Command>))
    ensures
        final(table)@.server_data == fold_lines(lines_of(text@)),
        final(table)@.client_peer == old(table)@.client_peer,
        final(table)@.upstream_peer == old(table)@.upstream_peer,
        final(table).wf(),
        r.0@ == record_text(redirected_record(fold_lines(lines_of(text@)))),
        r.1 is Some ==> connect_commands(fold_lines(lines_of(text@)), 1) == seq![r.1->0@],
        r.1 is None ==> connect_commands(fold_lines(lines_of(text@)), 1) == Seq::<CommandView>::empty(),
{
    let mut record = parse_and_store_as_map(text);
    let connect = match (record.get("server"), record.get("port")) {
        (Some(s), Some(p)) => Some(Command::Connect { server: s.clone(), port: p.clone(), channels: 1 }),
        _ => None,
    };
    table.server_data = record.copy();
    record.insert(String::from_str("server"), String::from_str("127.0.0.1"));
    record.insert(String::from_str("port"), String::from_str("17176"));
    (map_to_string(&record), connect)
}

} // verus!
