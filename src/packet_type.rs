use vstd::prelude::*;

verus! {

/// The outer type of a message, from the little-endian word that starts it.
#[derive(Debug, Clone, Copy, PartialEq, Eq, Structural)]
pub enum EPacketType {
    NetMessageUnknown,
    NetMessageServerHello,
    NetMessageGenericText,
    NetMessageGameMessage,
    NetMessageGamePacket,
    NetMessageError,
    NetMessageTrack,
    NetMessageClientLogRequest,
    NetMessageClientLogResponse,
}

/// The outer type that a word names; any other word is unknown.
pub open spec fn packet_type_of(v: u32) -> EPacketType {
    if v == 1 {
        EPacketType::NetMessageServerHello
    } else if v == 2 {
        EPacketType::NetMessageGenericText
    } else if v == 3 {
        EPacketType::NetMessageGameMessage
    } else if v == 4 {
        EPacketType::NetMessageGamePacket
    } else if v == 5 {
        EPacketType::NetMessageError
    } else if v == 6 {
        EPacketType::NetMessageTrack
    } else if v == 7 {
        EPacketType::NetMessageClientLogRequest
    } else if v == 8 {
        EPacketType::NetMessageClientLogResponse
    } else {
        EPacketType::NetMessageUnknown
    }
}

impl EPacketType {
    /// The outer type that `v` names.
    pub fn from_u32(v: u32) -> (r: EPacketType)
        ensures
            r == packet_type_of(v),
    {
        if v == 1 {
            EPacketType::NetMessageServerHello
        } else if v == 2 {
            EPacketType::NetMessageGenericText
        } else if v == 3 {
            EPacketType::NetMessageGameMessage
        } else if v == 4 {
            EPacketType::NetMessageGamePacket
        } else if v == 5 {
            EPacketType::NetMessageError
        } else if v == 6 {
            EPacketType::NetMessageTrack
        } else if v == 7 {
            EPacketType::NetMessageClientLogRequest
        } else if v == 8 {
            EPacketType::NetMessageClientLogResponse
        } else {
            EPacketType::NetMessageUnknown
        }
    }
}

/// The sub-type of a game packet, from the first byte of its header.
#[derive(Debug, Clone, Copy, PartialEq, Eq, Structural)]
pub enum ETankPacketType {
    NetGamePacketCallFunction,
    NetGamePacketAppIntegrityFail,
    NetGamePacketDisconnect,
    Other(u8),
}

/// The sub-type byte of a remote function call.
pub const CALL_FUNCTION: u8 = 1;

/// The sub-type byte of the game's integrity-check failure report.
pub const APP_INTEGRITY_FAIL: u8 = 25;

/// The sub-type byte of the game's request to end the session and reconnect.
pub const DISCONNECT: u8 = 26;

/// The sub-type that a byte names.
pub open spec fn tank_type_of(b: u8) -> ETankPacketType {
    if b == CALL_FUNCTION {
        ETankPacketType::NetGamePacketCallFunction
    } else if b == APP_INTEGRITY_FAIL {
        ETankPacketType::NetGamePacketAppIntegrityFail
    } else if b == DISCONNECT {
        ETankPacketType::NetGamePacketDisconnect
    } else {
        ETankPacketType::Other(b)
    }
}

impl ETankPacketType {
    /// The sub-type that `b` names.
    pub fn from_u8(b: u8) -> (r: ETankPacketType)
        ensures
            r == tank_type_of(b),
    {
        if b == CALL_FUNCTION {
            ETankPacketType::NetGamePacketCallFunction
        } else if b == APP_INTEGRITY_FAIL {
            ETankPacketType::NetGamePacketAppIntegrityFail
        } else if b == DISCONNECT {
            ETankPacketType::NetGamePacketDisconnect
        } else {
            ETankPacketType::Other(b)
        }
    }
}

} // verus!
