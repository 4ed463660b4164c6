use vstd::prelude::*;

verus! {

/// The flag word of a game packet header, one field per named bit. `none` names no bit
/// and is never set from a word nor written to one.
#[derive(Debug, Clone, Copy, PartialEq, Eq, Structural, Default)]
pub struct PacketFlag {
    pub none: bool,
    pub walk: bool,
    pub unk_2: bool,
    pub spawn_related: bool,
    pub extended: bool,
    pub facing_left: bool,
    pub standing: bool,
    pub fire_damage: bool,
    pub jump: bool,
    pub got_killed: bool,
    pub punch: bool,
    pub place: bool,
    pub tile_change: bool,
    pub got_punched: bool,
    pub respawn: bool,
    pub object_collect: bool,
    pub trampoline: bool,
    pub damage: bool,
    pub slide: bool,
    pub parasol: bool,
    pub unk_gravity_related: bool,
    pub swim: bool,
    pub wall_hang: bool,
    pub power_up_punch_start: bool,
    pub power_up_punch_end: bool,
    pub unk_tile_change: bool,
    pub hay_cart_related: bool,
    pub acid_related_damage: bool,
    pub unk_3: bool,
    pub acid_damage: bool,
}

/// The flags that a word sets: each named bit of the word gives its field.
pub open spec fn flags_of(value: u32) -> PacketFlag {
    PacketFlag {
        none: false,
        walk: value & 0x1u32 != 0,
        unk_2: value & 0x2u32 != 0,
        spawn_related: value & 0x4u32 != 0,
        extended: value & 0x8u32 != 0,
        facing_left: value & 0x10u32 != 0,
        standing: value & 0x20u32 != 0,
        fire_damage: value & 0x40u32 != 0,
        jump: value & 0x80u32 != 0,
        got_killed: value & 0x100u32 != 0,
        punch: value & 0x200u32 != 0,
        place: value & 0x400u32 != 0,
        tile_change: value & 0x800u32 != 0,
        got_punched: value & 0x1000u32 != 0,
        respawn: value & 0x2000u32 != 0,
        object_collect: value & 0x4000u32 != 0,
        trampoline: value & 0x8000u32 != 0,
        damage: value & 0x10000u32 != 0,
        slide: value & 0x20000u32 != 0,
        parasol: value & 0x40000u32 != 0,
        unk_gravity_related: value & 0x80000u32 != 0,
        swim: value & 0x100000u32 != 0,
        wall_hang: value & 0x200000u32 != 0,
        power_up_punch_start: value & 0x400000u32 != 0,
        power_up_punch_end: value & 0x800000u32 != 0,
        unk_tile_change: value & 0x1000000u32 != 0,
        hay_cart_related: value & 0x2000000u32 != 0,
        acid_related_damage: value & 0x4000000u32 != 0,
        unk_3: value & 0x8000000u32 != 0,
        acid_damage: value & 0x10000000u32 != 0,
    }
}

/// The bit of a flag in the word, where it is set.
#[verifier::opaque]
pub open spec fn bit_if(set: bool, mask: u32) -> u32 {
    if set {
        mask
    } else {
        0
    }
}

/// The word of a set of flags: the bit of each set flag.
#[verifier::opaque]
pub open spec fn word_of(f: PacketFlag) -> u32 {
    0u32 | bit_if(f.walk, 0x1u32)
        | bit_if(f.unk_2, 0x2u32)
        | bit_if(f.spawn_related, 0x4u32)
        | bit_if(f.extended, 0x8u32)
        | bit_if(f.facing_left, 0x10u32)
        | bit_if(f.standing, 0x20u32)
        | bit_if(f.fire_damage, 0x40u32)
        | bit_if(f.jump, 0x80u32)
        | bit_if(f.got_killed, 0x100u32)
        | bit_if(f.punch, 0x200u32)
        | bit_if(f.place, 0x400u32)
        | bit_if(f.tile_change, 0x800u32)
        | bit_if(f.got_punched, 0x1000u32)
        | bit_if(f.respawn, 0x2000u32)
        | bit_if(f.object_collect, 0x4000u32)
        | bit_if(f.trampoline, 0x8000u32)
        | bit_if(f.damage, 0x10000u32)
        | bit_if(f.slide, 0x20000u32)
        | bit_if(f.parasol, 0x40000u32)
        | bit_if(f.unk_gravity_related, 0x80000u32)
        | bit_if(f.swim, 0x100000u32)
        | bit_if(f.wall_hang, 0x200000u32)
        | bit_if(f.power_up_punch_start, 0x400000u32)
        | bit_if(f.power_up_punch_end, 0x800000u32)
        | bit_if(f.unk_tile_change, 0x1000000u32)
        | bit_if(f.hay_cart_related, 0x2000000u32)
        | bit_if(f.acid_related_damage, 0x4000000u32)
        | bit_if(f.unk_3, 0x8000000u32)
        | bit_if(f.acid_damage, 0x10000000u32)
}

/// The bit of a flag in the word, where it is set.
fn bit(set: bool, mask: u32) -> (r: u32)
    ensures
        r == bit_if(set, mask),
{
    proof {
        reveal(bit_if);
    }
    if set {
        mask
    } else {
        0
    }
}

proof fn lemma_word_bits(v: u32, s0: bool, s1: bool, s2: bool, s3: bool, s4: bool, s5: bool, s6: bool, s7: bool, s8: bool, s9: bool, s10: bool, s11: bool, s12: bool, s13: bool, s14: bool, s15: bool, s16: bool, s17: bool, s18: bool, s19: bool, s20: bool, s21: bool, s22: bool, s23: bool, s24: bool, s25: bool, s26: bool, s27: bool, s28: bool)
    requires
        v == 0u32 | (if s0 { 0x1u32 } else { 0u32 }) | (if s1 { 0x2u32 } else { 0u32 }) | (if s2 { 0x4u32 } else { 0u32 }) | (if s3 { 0x8u32 } else { 0u32 }) | (if s4 { 0x10u32 } else { 0u32 }) | (if s5 { 0x20u32 } else { 0u32 }) | (if s6 { 0x40u32 } else { 0u32 }) | (if s7 { 0x80u32 } else { 0u32 }) | (if s8 { 0x100u32 } else { 0u32 }) | (if s9 { 0x200u32 } else { 0u32 }) | (if s10 { 0x400u32 } else { 0u32 }) | (if s11 { 0x800u32 } else { 0u32 }) | (if s12 { 0x1000u32 } else { 0u32 }) | (if s13 { 0x2000u32 } else { 0u32 }) | (if s14 { 0x4000u32 } else { 0u32 }) | (if s15 { 0x8000u32 } else { 0u32 }) | (if s16 { 0x10000u32 } else { 0u32 }) | (if s17 { 0x20000u32 } else { 0u32 }) | (if s18 { 0x40000u32 } else { 0u32 }) | (if s19 { 0x80000u32 } else { 0u32 }) | (if s20 { 0x100000u32 } else { 0u32 }) | (if s21 { 0x200000u32 } else { 0u32 }) | (if s22 { 0x400000u32 } else { 0u32 }) | (if s23 { 0x800000u32 } else { 0u32 }) | (if s24 { 0x1000000u32 } else { 0u32 }) | (if s25 { 0x2000000u32 } else { 0u32 }) | (if s26 { 0x4000000u32 } else { 0u32 }) | (if s27 { 0x8000000u32 } else { 0u32 }) | (if s28 { 0x10000000u32 } else { 0u32 }),
    ensures
        (v & 0x1u32 != 0) == s0,
        (v & 0x2u32 != 0) == s1,
        (v & 0x4u32 != 0) == s2,
        (v & 0x8u32 != 0) == s3,
        (v & 0x10u32 != 0) == s4,
        (v & 0x20u32 != 0) == s5,
        (v & 0x40u32 != 0) == s6,
        (v & 0x80u32 != 0) == s7,
        (v & 0x100u32 != 0) == s8,
        (v & 0x200u32 != 0) == s9,
        (v & 0x400u32 != 0) == s10,
        (v & 0x800u32 != 0) == s11,
        (v & 0x1000u32 != 0) == s12,
        (v & 0x2000u32 != 0) == s13,
        (v & 0x4000u32 != 0) == s14,
        (v & 0x8000u32 != 0) == s15,
        (v & 0x10000u32 != 0) == s16,
        (v & 0x20000u32 != 0) == s17,
        (v & 0x40000u32 != 0) == s18,
        (v & 0x80000u32 != 0) == s19,
        (v & 0x100000u32 != 0) == s20,
        (v & 0x200000u32 != 0) == s21,
        (v & 0x400000u32 != 0) == s22,
        (v & 0x800000u32 != 0) == s23,
        (v & 0x1000000u32 != 0) == s24,
        (v & 0x2000000u32 != 0) == s25,
        (v & 0x4000000u32 != 0) == s26,
        (v & 0x8000000u32 != 0) == s27,
        (v & 0x10000000u32 != 0) == s28,
        v & 0xe0000000u32 == 0,
{
    assert((v & 0x1u32 != 0) == s0 && (v & 0x2u32 != 0) == s1 && (v & 0x4u32 != 0) == s2 && (v & 0x8u32 != 0) == s3 && (v & 0x10u32 != 0) == s4 && (v & 0x20u32 != 0) == s5 && (v & 0x40u32 != 0) == s6 && (v & 0x80u32 != 0) == s7 && (v & 0x100u32 != 0) == s8 && (v & 0x200u32 != 0) == s9 && (v & 0x400u32 != 0) == s10 && (v & 0x800u32 != 0) == s11 && (v & 0x1000u32 != 0) == s12 && (v & 0x2000u32 != 0) == s13 && (v & 0x4000u32 != 0) == s14 && (v & 0x8000u32 != 0) == s15 && (v & 0x10000u32 != 0) == s16 && (v & 0x20000u32 != 0) == s17 && (v & 0x40000u32 != 0) == s18 && (v & 0x80000u32 != 0) == s19 && (v & 0x100000u32 != 0) == s20 && (v & 0x200000u32 != 0) == s21 && (v & 0x400000u32 != 0) == s22 && (v & 0x800000u32 != 0) == s23 && (v & 0x1000000u32 != 0) == s24 && (v & 0x2000000u32 != 0) == s25 && (v & 0x4000000u32 != 0) == s26 && (v & 0x8000000u32 != 0) == s27 && (v & 0x10000000u32 != 0) == s28 && v & 0xe0000000u32 == 0) by (bit_vector)
        requires
            v == 0u32 | (if s0 { 0x1u32 } else { 0u32 }) | (if s1 { 0x2u32 } else { 0u32 }) | (if s2 { 0x4u32 } else { 0u32 }) | (if s3 { 0x8u32 } else { 0u32 }) | (if s4 { 0x10u32 } else { 0u32 }) | (if s5 { 0x20u32 } else { 0u32 }) | (if s6 { 0x40u32 } else { 0u32 }) | (if s7 { 0x80u32 } else { 0u32 }) | (if s8 { 0x100u32 } else { 0u32 }) | (if s9 { 0x200u32 } else { 0u32 }) | (if s10 { 0x400u32 } else { 0u32 }) | (if s11 { 0x800u32 } else { 0u32 }) | (if s12 { 0x1000u32 } else { 0u32 }) | (if s13 { 0x2000u32 } else { 0u32 }) | (if s14 { 0x4000u32 } else { 0u32 }) | (if s15 { 0x8000u32 } else { 0u32 }) | (if s16 { 0x10000u32 } else { 0u32 }) | (if s17 { 0x20000u32 } else { 0u32 }) | (if s18 { 0x40000u32 } else { 0u32 }) | (if s19 { 0x80000u32 } else { 0u32 }) | (if s20 { 0x100000u32 } else { 0u32 }) | (if s21 { 0x200000u32 } else { 0u32 }) | (if s22 { 0x400000u32 } else { 0u32 }) | (if s23 { 0x800000u32 } else { 0u32 }) | (if s24 { 0x1000000u32 } else { 0u32 }) | (if s25 { 0x2000000u32 } else { 0u32 }) | (if s26 { 0x4000000u32 } else { 0u32 }) | (if s27 { 0x8000000u32 } else { 0u32 }) | (if s28 { 0x10000000u32 } else { 0u32 }),
    ;
}

/// Reading back the word of a set of flags gives those flags, but for `none`; the word's
/// top three bits are clear.
pub proof fn lemma_word_of(f: PacketFlag)
    ensures
        flags_of(word_of(f)) == (PacketFlag { none: false, ..f }),
        word_of(f) & 0xe0000000u32 == 0,
{
    assert(word_of(f) == 0u32 | (if f.walk { 0x1u32 } else { 0u32 }) | (if f.unk_2 { 0x2u32 } else { 0u32 }) | (if f.spawn_related { 0x4u32 } else { 0u32 }) | (if f.extended { 0x8u32 } else { 0u32 }) | (if f.facing_left { 0x10u32 } else { 0u32 }) | (if f.standing { 0x20u32 } else { 0u32 }) | (if f.fire_damage { 0x40u32 } else { 0u32 }) | (if f.jump { 0x80u32 } else { 0u32 }) | (if f.got_killed { 0x100u32 } else { 0u32 }) | (if f.punch { 0x200u32 } else { 0u32 }) | (if f.place { 0x400u32 } else { 0u32 }) | (if f.tile_change { 0x800u32 } else { 0u32 }) | (if f.got_punched { 0x1000u32 } else { 0u32 }) | (if f.respawn { 0x2000u32 } else { 0u32 }) | (if f.object_collect { 0x4000u32 } else { 0u32 }) | (if f.trampoline { 0x8000u32 } else { 0u32 }) | (if f.damage { 0x10000u32 } else { 0u32 }) | (if f.slide { 0x20000u32 } else { 0u32 }) | (if f.parasol { 0x40000u32 } else { 0u32 }) | (if f.unk_gravity_related { 0x80000u32 } else { 0u32 }) | (if f.swim { 0x100000u32 } else { 0u32 }) | (if f.wall_hang { 0x200000u32 } else { 0u32 }) | (if f.power_up_punch_start { 0x400000u32 } else { 0u32 }) | (if f.power_up_punch_end { 0x800000u32 } else { 0u32 }) | (if f.unk_tile_change { 0x1000000u32 } else { 0u32 }) | (if f.hay_cart_related { 0x2000000u32 } else { 0u32 }) | (if f.acid_related_damage { 0x4000000u32 } else { 0u32 }) | (if f.unk_3 { 0x8000000u32 } else { 0u32 }) | (if f.acid_damage { 0x10000000u32 } else { 0u32 })) by {
        reveal(word_of);
        reveal(bit_if);
    }
    lemma_word_bits(word_of(f), f.walk, f.unk_2, f.spawn_related, f.extended, f.facing_left, f.standing, f.fire_damage, f.jump, f.got_killed, f.punch, f.place, f.tile_change, f.got_punched, f.respawn, f.object_collect, f.trampoline, f.damage, f.slide, f.parasol, f.unk_gravity_related, f.swim, f.wall_hang, f.power_up_punch_start, f.power_up_punch_end, f.unk_tile_change, f.hay_cart_related, f.acid_related_damage, f.unk_3, f.acid_damage);
}

/// The word of the flags that a word sets is that word without its top three bits.
pub proof fn lemma_flags_of_word(v: u32)
    ensures
        word_of(flags_of(v)) == v & 0x1fffffffu32,
{
    assert(word_of(flags_of(v)) == 0u32 | (if v & 0x1u32 != 0 { 0x1u32 } else { 0u32 }) | (if v & 0x2u32 != 0 { 0x2u32 } else { 0u32 }) | (if v & 0x4u32 != 0 { 0x4u32 } else { 0u32 }) | (if v & 0x8u32 != 0 { 0x8u32 } else { 0u32 }) | (if v & 0x10u32 != 0 { 0x10u32 } else { 0u32 }) | (if v & 0x20u32 != 0 { 0x20u32 } else { 0u32 }) | (if v & 0x40u32 != 0 { 0x40u32 } else { 0u32 }) | (if v & 0x80u32 != 0 { 0x80u32 } else { 0u32 }) | (if v & 0x100u32 != 0 { 0x100u32 } else { 0u32 }) | (if v & 0x200u32 != 0 { 0x200u32 } else { 0u32 }) | (if v & 0x400u32 != 0 { 0x400u32 } else { 0u32 }) | (if v & 0x800u32 != 0 { 0x800u32 } else { 0u32 }) | (if v & 0x1000u32 != 0 { 0x1000u32 } else { 0u32 }) | (if v & 0x2000u32 != 0 { 0x2000u32 } else { 0u32 }) | (if v & 0x4000u32 != 0 { 0x4000u32 } else { 0u32 }) | (if v & 0x8000u32 != 0 { 0x8000u32 } else { 0u32 }) | (if v & 0x10000u32 != 0 { 0x10000u32 } else { 0u32 }) | (if v & 0x20000u32 != 0 { 0x20000u32 } else { 0u32 }) | (if v & 0x40000u32 != 0 { 0x40000u32 } else { 0u32 }) | (if v & 0x80000u32 != 0 { 0x80000u32 } else { 0u32 }) | (if v & 0x100000u32 != 0 { 0x100000u32 } else { 0u32 }) | (if v & 0x200000u32 != 0 { 0x200000u32 } else { 0u32 }) | (if v & 0x400000u32 != 0 { 0x400000u32 } else { 0u32 }) | (if v & 0x800000u32 != 0 { 0x800000u32 } else { 0u32 }) | (if v & 0x1000000u32 != 0 { 0x1000000u32 } else { 0u32 }) | (if v & 0x2000000u32 != 0 { 0x2000000u32 } else { 0u32 }) | (if v & 0x4000000u32 != 0 { 0x4000000u32 } else { 0u32 }) | (if v & 0x8000000u32 != 0 { 0x8000000u32 } else { 0u32 }) | (if v & 0x10000000u32 != 0 { 0x10000000u32 } else { 0u32 })) by {
        reveal(word_of);
        reveal(bit_if);
    }
    assert(0u32 | (if v & 0x1u32 != 0 { 0x1u32 } else { 0u32 }) | (if v & 0x2u32 != 0 { 0x2u32 } else { 0u32 }) | (if v & 0x4u32 != 0 { 0x4u32 } else { 0u32 }) | (if v & 0x8u32 != 0 { 0x8u32 } else { 0u32 }) | (if v & 0x10u32 != 0 { 0x10u32 } else { 0u32 }) | (if v & 0x20u32 != 0 { 0x20u32 } else { 0u32 }) | (if v & 0x40u32 != 0 { 0x40u32 } else { 0u32 }) | (if v & 0x80u32 != 0 { 0x80u32 } else { 0u32 }) | (if v & 0x100u32 != 0 { 0x100u32 } else { 0u32 }) | (if v & 0x200u32 != 0 { 0x200u32 } else { 0u32 }) | (if v & 0x400u32 != 0 { 0x400u32 } else { 0u32 }) | (if v & 0x800u32 != 0 { 0x800u32 } else { 0u32 }) | (if v & 0x1000u32 != 0 { 0x1000u32 } else { 0u32 }) | (if v & 0x2000u32 != 0 { 0x2000u32 } else { 0u32 }) | (if v & 0x4000u32 != 0 { 0x4000u32 } else { 0u32 }) | (if v & 0x8000u32 != 0 { 0x8000u32 } else { 0u32 }) | (if v & 0x10000u32 != 0 { 0x10000u32 } else { 0u32 }) | (if v & 0x20000u32 != 0 { 0x20000u32 } else { 0u32 }) | (if v & 0x40000u32 != 0 { 0x40000u32 } else { 0u32 }) | (if v & 0x80000u32 != 0 { 0x80000u32 } else { 0u32 }) | (if v & 0x100000u32 != 0 { 0x100000u32 } else { 0u32 }) | (if v & 0x200000u32 != 0 { 0x200000u32 } else { 0u32 }) | (if v & 0x400000u32 != 0 { 0x400000u32 } else { 0u32 }) | (if v & 0x800000u32 != 0 { 0x800000u32 } else { 0u32 }) | (if v & 0x1000000u32 != 0 { 0x1000000u32 } else { 0u32 }) | (if v & 0x2000000u32 != 0 { 0x2000000u32 } else { 0u32 }) | (if v & 0x4000000u32 != 0 { 0x4000000u32 } else { 0u32 }) | (if v & 0x8000000u32 != 0 { 0x8000000u32 } else { 0u32 }) | (if v & 0x10000000u32 != 0 { 0x10000000u32 } else { 0u32 }) == v & 0x1fffffffu32) by (bit_vector);
}

impl PacketFlag {
    /// The flags that `value` sets; its top three bits name no flag.
    pub fn from_u32(value: u32) -> (r: PacketFlag)
        ensures
            r == flags_of(value),
    {
        PacketFlag {
            none: false,
            walk: value & 0x1u32 != 0,
            unk_2: value & 0x2u32 != 0,
            spawn_related: value & 0x4u32 != 0,
            extended: value & 0x8u32 != 0,
            facing_left: value & 0x10u32 != 0,
            standing: value & 0x20u32 != 0,
            fire_damage: value & 0x40u32 != 0,
            jump: value & 0x80u32 != 0,
            got_killed: value & 0x100u32 != 0,
            punch: value & 0x200u32 != 0,
            place: value & 0x400u32 != 0,
            tile_change: value & 0x800u32 != 0,
            got_punched: value & 0x1000u32 != 0,
            respawn: value & 0x2000u32 != 0,
            object_collect: value & 0x4000u32 != 0,
            trampoline: value & 0x8000u32 != 0,
            damage: value & 0x10000u32 != 0,
            slide: value & 0x20000u32 != 0,
            parasol: value & 0x40000u32 != 0,
            unk_gravity_related: value & 0x80000u32 != 0,
            swim: value & 0x100000u32 != 0,
            wall_hang: value & 0x200000u32 != 0,
            power_up_punch_start: value & 0x400000u32 != 0,
            power_up_punch_end: value & 0x800000u32 != 0,
            unk_tile_change: value & 0x1000000u32 != 0,
            hay_cart_related: value & 0x2000000u32 != 0,
            acid_related_damage: value & 0x4000000u32 != 0,
            unk_3: value & 0x8000000u32 != 0,
            acid_damage: value & 0x10000000u32 != 0,
        }
    }

    /// The word with the bit of each set flag, and no other bit (see `lemma_word_of` for
    /// reading it back).
    pub fn to_u32(&self) -> (r: u32)
        ensures
            r == word_of(*self),
    {
        let mut value: u32 = 0;
        value = value | bit(self.walk, 0x1u32);
        value = value | bit(self.unk_2, 0x2u32);
        value = value | bit(self.spawn_related, 0x4u32);
        value = value | bit(self.extended, 0x8u32);
        value = value | bit(self.facing_left, 0x10u32);
        value = value | bit(self.standing, 0x20u32);
        value = value | bit(self.fire_damage, 0x40u32);
        value = value | bit(self.jump, 0x80u32);
        value = value | bit(self.got_killed, 0x100u32);
        value = value | bit(self.punch, 0x200u32);
        value = value | bit(self.place, 0x400u32);
        value = value | bit(self.tile_change, 0x800u32);
        value = value | bit(self.got_punched, 0x1000u32);
        value = value | bit(self.respawn, 0x2000u32);
        value = value | bit(self.object_collect, 0x4000u32);
        value = value | bit(self.trampoline, 0x8000u32);
        value = value | bit(self.damage, 0x10000u32);
        value = value | bit(self.slide, 0x20000u32);
        value = value | bit(self.parasol, 0x40000u32);
        value = value | bit(self.unk_gravity_related, 0x80000u32);
        value = value | bit(self.swim, 0x100000u32);
        value = value | bit(self.wall_hang, 0x200000u32);
        value = value | bit(self.power_up_punch_start, 0x400000u32);
        value = value | bit(self.power_up_punch_end, 0x800000u32);
        value = value | bit(self.unk_tile_change, 0x1000000u32);
        value = value | bit(self.hay_cart_related, 0x2000000u32);
        value = value | bit(self.acid_related_damage, 0x4000000u32);
        value = value | bit(self.unk_3, 0x8000000u32);
        value = value | bit(self.acid_damage, 0x10000000u32);
        proof {
            assert(value == word_of(*self)) by {
                reveal(word_of);
            }
        }
        value
    }
}

} // verus!
