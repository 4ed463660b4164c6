use vstd::prelude::*;
use crate::packet_flag::{flags_of, PacketFlag};
use crate::wire::{le_at, le_bytes, lemma_le_bytes_of_read, lemma_le_round_trip, push_u32_le, read_u32_le};

verus! {

/// The size of a game packet header.
pub const HEADER_SIZE: usize = 56;

/// The fixed header of a game packet, field by field as it lies in little-endian order.
/// Floating-point fields are held as their bit patterns.
#[derive(Debug, Clone, Copy, PartialEq, Eq, Structural)]
pub struct TankPacket {
    pub packet_type: u8,
    pub object_type: u8,
    pub jump_count: u8,
    pub animation_type: u8,
    pub net_id: u32,
    pub target_net_id: u32,
    pub flags: u32,
    pub float_var: u32,
    pub value: u32,
    pub vector_x: u32,
    pub vector_y: u32,
    pub vector_x2: u32,
    pub vector_y2: u32,
    pub particle_rotation: u32,
    pub int_x: u32,
    pub int_y: u32,
    pub extended_data_length: u32,
}

/// The header that the first 56 bytes of `b` hold.
pub open spec fn header_of(b: Seq<u8>) -> TankPacket {
    TankPacket {
        packet_type: b[0],
        object_type: b[1],
        jump_count: b[2],
        animation_type: b[3],
        net_id: le_at(b, 4),
        target_net_id: le_at(b, 8),
        flags: le_at(b, 12),
        float_var: le_at(b, 16),
        value: le_at(b, 20),
        vector_x: le_at(b, 24),
        vector_y: le_at(b, 28),
        vector_x2: le_at(b, 32),
        vector_y2: le_at(b, 36),
        particle_rotation: le_at(b, 40),
        int_x: le_at(b, 44),
        int_y: le_at(b, 48),
        extended_data_length: le_at(b, 52),
    }
}

/// The 56 bytes of a header.
pub open spec fn header_bytes(h: TankPacket) -> Seq<u8> {
    seq![h.packet_type, h.object_type, h.jump_count, h.animation_type]
        + le_bytes(h.net_id)
        + le_bytes(h.target_net_id)
        + le_bytes(h.flags)
        + le_bytes(h.float_var)
        + le_bytes(h.value)
        + le_bytes(h.vector_x)
        + le_bytes(h.vector_y)
        + le_bytes(h.vector_x2)
        + le_bytes(h.vector_y2)
        + le_bytes(h.particle_rotation)
        + le_bytes(h.int_x)
        + le_bytes(h.int_y)
        + le_bytes(h.extended_data_length)
}

/// Writing the header read from 56 bytes gives those bytes back.
pub proof fn lemma_header_bytes_of_read(b: Seq<u8>)
    requires
        b.len() >= HEADER_SIZE,
    ensures
        header_bytes(header_of(b)) == b.subrange(0, HEADER_SIZE as int),
{
    lemma_le_bytes_of_read(b, 4);
    lemma_le_bytes_of_read(b, 8);
    lemma_le_bytes_of_read(b, 12);
    lemma_le_bytes_of_read(b, 16);
    lemma_le_bytes_of_read(b, 20);
    lemma_le_bytes_of_read(b, 24);
    lemma_le_bytes_of_read(b, 28);
    lemma_le_bytes_of_read(b, 32);
    lemma_le_bytes_of_read(b, 36);
    lemma_le_bytes_of_read(b, 40);
    lemma_le_bytes_of_read(b, 44);
    lemma_le_bytes_of_read(b, 48);
    lemma_le_bytes_of_read(b, 52);
    let h = header_of(b);
    assert forall|i: int| 0 <= i < HEADER_SIZE implies #[trigger] header_bytes(h)[i] == b[i] by {
        if i >= 4 {
            let k = (i - 4) / 4;
            let o = 4 + 4 * k;
            assert(b.subrange(o, o + 4)[i - o] == b[i]);
        }
    }
    assert(header_bytes(h) =~= b.subrange(0, HEADER_SIZE as int));
}

/// Reading back the bytes of a header gives that header.
pub proof fn lemma_header_round_trip(h: TankPacket)
    ensures
        header_bytes(h).len() == HEADER_SIZE,
        header_of(header_bytes(h)) == h,
{
    let b = header_bytes(h);
    lemma_le_round_trip(h.net_id);
    assert(b.subrange(4, 8) =~= le_bytes(h.net_id));
    assert(le_at(b, 4) == le_at(le_bytes(h.net_id), 0));
    lemma_le_round_trip(h.target_net_id);
    assert(b.subrange(8, 12) =~= le_bytes(h.target_net_id));
    assert(le_at(b, 8) == le_at(le_bytes(h.target_net_id), 0));
    lemma_le_round_trip(h.flags);
    assert(b.subrange(12, 16) =~= le_bytes(h.flags));
    assert(le_at(b, 12) == le_at(le_bytes(h.flags), 0));
    lemma_le_round_trip(h.float_var);
    assert(b.subrange(16, 20) =~= le_bytes(h.float_var));
    assert(le_at(b, 16) == le_at(le_bytes(h.float_var), 0));
    lemma_le_round_trip(h.value);
    assert(b.subrange(20, 24) =~= le_bytes(h.value));
    assert(le_at(b, 20) == le_at(le_bytes(h.value), 0));
    lemma_le_round_trip(h.vector_x);
    assert(b.subrange(24, 28) =~= le_bytes(h.vector_x));
    assert(le_at(b, 24) == le_at(le_bytes(h.vector_x), 0));
    lemma_le_round_trip(h.vector_y);
    assert(b.subrange(28, 32) =~= le_bytes(h.vector_y));
    assert(le_at(b, 28) == le_at(le_bytes(h.vector_y), 0));
    lemma_le_round_trip(h.vector_x2);
    assert(b.subrange(32, 36) =~= le_bytes(h.vector_x2));
    assert(le_at(b, 32) == le_at(le_bytes(h.vector_x2), 0));
    lemma_le_round_trip(h.vector_y2);
    assert(b.subrange(36, 40) =~= le_bytes(h.vector_y2));
    assert(le_at(b, 36) == le_at(le_bytes(h.vector_y2), 0));
    lemma_le_round_trip(h.particle_rotation);
    assert(b.subrange(40, 44) =~= le_bytes(h.particle_rotation));
    assert(le_at(b, 40) == le_at(le_bytes(h.particle_rotation), 0));
    lemma_le_round_trip(h.int_x);
    assert(b.subrange(44, 48) =~= le_bytes(h.int_x));
    assert(le_at(b, 44) == le_at(le_bytes(h.int_x), 0));
    lemma_le_round_trip(h.int_y);
    assert(b.subrange(48, 52) =~= le_bytes(h.int_y));
    assert(le_at(b, 48) == le_at(le_bytes(h.int_y), 0));
    lemma_le_round_trip(h.extended_data_length);
    assert(b.subrange(52, 56) =~= le_bytes(h.extended_data_length));
    assert(le_at(b, 52) == le_at(le_bytes(h.extended_data_length), 0));
}

impl TankPacket {
    /// Reads a header from the first 56 bytes of `b`; `None` where there are fewer.
    pub fn from_bytes(b: &[u8]) -> (r: Option<TankPacket>)
        ensures
            b@.len() >= HEADER_SIZE ==> r == Some(header_of(b@)),
            b@.len() < HEADER_SIZE ==> r is None,
    {
        if b.len() < HEADER_SIZE {
            return None;
        }
        Some(TankPacket {
            packet_type: b[0],
            object_type: b[1],
            jump_count: b[2],
            animation_type: b[3],
            net_id: read_u32_le(b, 4),
            target_net_id: read_u32_le(b, 8),
            flags: read_u32_le(b, 12),
            float_var: read_u32_le(b, 16),
            value: read_u32_le(b, 20),
            vector_x: read_u32_le(b, 24),
            vector_y: read_u32_le(b, 28),
            vector_x2: read_u32_le(b, 32),
            vector_y2: read_u32_le(b, 36),
            particle_rotation: read_u32_le(b, 40),
            int_x: read_u32_le(b, 44),
            int_y: read_u32_le(b, 48),
            extended_data_length: read_u32_le(b, 52),
        })
    }

    /// The 56 bytes of this header.
    pub fn to_bytes(&self) -> (r: Vec<u8>)
        ensures
            r@ == header_bytes(*self),
    {
        let mut out: Vec<u8> = Vec::new();
        out.push(self.packet_type);
        out.push(self.object_type);
        out.push(self.jump_count);
        out.push(self.animation_type);
        push_u32_le(&mut out, self.net_id);
        push_u32_le(&mut out, self.target_net_id);
        push_u32_le(&mut out, self.flags);
        push_u32_le(&mut out, self.float_var);
        push_u32_le(&mut out, self.value);
        push_u32_le(&mut out, self.vector_x);
        push_u32_le(&mut out, self.vector_y);
        push_u32_le(&mut out, self.vector_x2);
        push_u32_le(&mut out, self.vector_y2);
        push_u32_le(&mut out, self.particle_rotation);
        push_u32_le(&mut out, self.int_x);
        push_u32_le(&mut out, self.int_y);
        push_u32_le(&mut out, self.extended_data_length);
        assert(out@ =~= header_bytes(*self));
        out
    }

    /// The flags of this header.
    pub fn packet_flags(&self) -> (r: PacketFlag)
        ensures
            r == flags_of(self.flags),
    {
        PacketFlag::from_u32(self.flags)
    }
}

} // verus!
