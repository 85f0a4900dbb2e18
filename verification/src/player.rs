//! The save-file codec.
//!
//! On disk a character record is, in this exact order: the fixed
//! appearance/equipment record (`PlayerPart1`, 71 bytes), ten quickslots,
//! the fixed cosmetic record (`PlayerPart2`, 6 bytes), the length-prefixed
//! nickname, and then the tail — every remaining byte, whose internal
//! structure is unknown and which is preserved verbatim. This order is the
//! wire protocol; nothing here may be reordered or resized on its own.

use vstd::prelude::*;
use vstd::bytes::{spec_u32_from_le_bytes, lemma_auto_spec_u32_to_from_le_bytes};
use vstd::slice::{slice_subrange, slice_to_vec};

use crate::error::CodecError;
use crate::primitive::{bool_byte, enc_i32, i32_of_u32, res_matches, read_u8, read_bool, read_i32_le, write_u8, write_bool, write_i32_le};
use crate::csharp_string::{CSharpString, enc_csharp, dec_csharp, read_csharp_string, write_csharp_string};
use crate::quickslot::{QuickSlot, enc_quickslots, dec_quickslot, dec_quickslots, quickslots_canonical, read_quickslots, write_quickslots};
use crate::utf8::is_utf8;

verus! {

/// The fixed appearance/equipment record: 17 little-endian 32-bit fields,
/// one body-type byte, two visibility flags, in this exact order.
#[derive(Clone, Copy, Debug, PartialEq, Eq, Structural)]
pub struct PlayerPart1 {
    pub magic_byte: i32,
    pub equip_hat: i32,
    pub equip_facegear: i32,
    pub style_bodytype: u8,
    pub style_hair: i32,
    pub equip_weapon: i32,
    pub equip_shield: i32,
    pub equip_armor: i32,
    pub equip_shoes: i32,
    pub equip_accessory1: i32,
    pub equip_accessory2: i32,
    pub style_hat: i32,
    pub style_facegear: i32,
    pub style_weapon: i32,
    pub style_shield: i32,
    pub style_hat_hidden: bool,
    pub style_facegear_hidden: bool,
    pub last_two_hander: i32,
    pub last_one_hander: i32,
    pub last_bow: i32,
}

/// The fixed cosmetic record: five color indices and the sex flag, one byte
/// each.
#[derive(Clone, Copy, Debug, PartialEq, Eq, Structural)]
pub struct PlayerPart2 {
    pub style_hair_color: u8,
    pub style_skin_color: u8,
    pub style_poncho_color: u8,
    pub style_shirt_color: u8,
    pub style_pants_color: u8,
    pub style_sex: u8,
}

/// Width in bytes of the encoded `PlayerPart1`.
pub const PART1_LEN: usize = 71;

/// Width in bytes of the encoded `PlayerPart2`.
pub const PART2_LEN: usize = 6;

/// The 32-bit value decoded at a fixed offset.
pub open spec fn dec_i32_at(b: Seq<u8>, p: int) -> i32 {
    i32_of_u32(spec_u32_from_le_bytes(b.subrange(p, p + 4)))
}

/// The on-disk form of the appearance/equipment record.
pub open spec fn enc_part1(p: PlayerPart1) -> Seq<u8> {
    enc_i32(p.magic_byte) + enc_i32(p.equip_hat) + enc_i32(p.equip_facegear) + seq![
        p.style_bodytype,
    ] + enc_i32(p.style_hair) + enc_i32(p.equip_weapon) + enc_i32(p.equip_shield) + enc_i32(
        p.equip_armor,
    ) + enc_i32(p.equip_shoes) + enc_i32(p.equip_accessory1) + enc_i32(p.equip_accessory2)
        + enc_i32(p.style_hat) + enc_i32(p.style_facegear) + enc_i32(p.style_weapon) + enc_i32(
        p.style_shield,
    ) + seq![bool_byte(p.style_hat_hidden)] + seq![bool_byte(p.style_facegear_hidden)] + enc_i32(
        p.last_two_hander,
    ) + enc_i32(p.last_one_hander) + enc_i32(p.last_bow)
}

/// Total description of decoding the appearance/equipment record at `pos`.
/// All fields are fixed-width, so the record decodes exactly when 71 bytes
/// remain; any nonzero byte reads as a set flag.
pub open spec fn dec_part1(b: Seq<u8>, pos: int) -> Result<(PlayerPart1, int), CodecError>
    recommends
        0 <= pos,
{
    if pos + 71 <= b.len() {
        Ok(
            (
                PlayerPart1 {
                    magic_byte: dec_i32_at(b, pos),
                    equip_hat: dec_i32_at(b, pos + 4),
                    equip_facegear: dec_i32_at(b, pos + 8),
                    style_bodytype: b[pos + 12],
                    style_hair: dec_i32_at(b, pos + 13),
                    equip_weapon: dec_i32_at(b, pos + 17),
                    equip_shield: dec_i32_at(b, pos + 21),
                    equip_armor: dec_i32_at(b, pos + 25),
                    equip_shoes: dec_i32_at(b, pos + 29),
                    equip_accessory1: dec_i32_at(b, pos + 33),
                    equip_accessory2: dec_i32_at(b, pos + 37),
                    style_hat: dec_i32_at(b, pos + 41),
                    style_facegear: dec_i32_at(b, pos + 45),
                    style_weapon: dec_i32_at(b, pos + 49),
                    style_shield: dec_i32_at(b, pos + 53),
                    style_hat_hidden: b[pos + 57] != 0,
                    style_facegear_hidden: b[pos + 58] != 0,
                    last_two_hander: dec_i32_at(b, pos + 59),
                    last_one_hander: dec_i32_at(b, pos + 63),
                    last_bow: dec_i32_at(b, pos + 67),
                },
                pos + 71,
            ),
        )
    } else {
        Err(CodecError::TruncatedInput)
    }
}

/// The on-disk form of the cosmetic record.
pub open spec fn enc_part2(p: PlayerPart2) -> Seq<u8> {
    seq![
        p.style_hair_color,
        p.style_skin_color,
        p.style_poncho_color,
        p.style_shirt_color,
        p.style_pants_color,
        p.style_sex,
    ]
}

/// Total description of decoding the cosmetic record at `pos`.
pub open spec fn dec_part2(b: Seq<u8>, pos: int) -> Result<(PlayerPart2, int), CodecError>
    recommends
        0 <= pos,
{
    if pos + 6 <= b.len() {
        Ok(
            (
                PlayerPart2 {
                    style_hair_color: b[pos],
                    style_skin_color: b[pos + 1],
                    style_poncho_color: b[pos + 2],
                    style_shirt_color: b[pos + 3],
                    style_pants_color: b[pos + 4],
                    style_sex: b[pos + 5],
                },
                pos + 6,
            ),
        )
    } else {
        Err(CodecError::TruncatedInput)
    }
}

pub proof fn lemma_enc_part1_len(p: PlayerPart1)
    ensures
        enc_part1(p).len() == 71,
{
    lemma_auto_spec_u32_to_from_le_bytes();
}

/// The two visibility-flag bytes of an encoded appearance record are
/// always canonical 0-or-1 values.
#[verifier::rlimit(60)]
pub proof fn lemma_enc_part1_flag_bytes(p: PlayerPart1)
    ensures
        enc_part1(p)[57] == bool_byte(p.style_hat_hidden),
        enc_part1(p)[58] == bool_byte(p.style_facegear_hidden),
{
    lemma_auto_spec_u32_to_from_le_bytes();
    lemma_enc_part1_len(p);
}

/// Decoding the appearance/equipment record reads back exactly what
/// encoding wrote.
#[verifier::rlimit(60)]
pub proof fn lemma_part1_enc_dec(b: Seq<u8>, pos: int, p: PlayerPart1)
    requires
        0 <= pos,
        pos + 71 <= b.len(),
        b.subrange(pos, pos + 71) == enc_part1(p),
    ensures
        dec_part1(b, pos) == Ok::<_, CodecError>((p, pos + 71)),
{
    lemma_auto_spec_u32_to_from_le_bytes();
    let e = enc_part1(p);
    lemma_enc_part1_len(p);
    assert forall|k: int| 0 <= k < 71 implies b[pos + k] == #[trigger] e[k] by {
        assert(b[pos + k] == b.subrange(pos, pos + 71)[k]);
    }
    assert(b.subrange(pos + 0, pos + 4) =~= enc_i32(p.magic_byte)) by {
        assert forall|k: int| 0 <= k < 4 implies b.subrange(pos + 0, pos + 4)[k] == enc_i32(
            p.magic_byte,
        )[k] by {
            assert(b[pos + 0 + k] == e[0 + k]);
            assert(e[0 + k] == enc_i32(p.magic_byte)[k]);
        }
    }
    assert(b.subrange(pos + 4, pos + 8) =~= enc_i32(p.equip_hat)) by {
        assert forall|k: int| 0 <= k < 4 implies b.subrange(pos + 4, pos + 8)[k] == enc_i32(
            p.equip_hat,
        )[k] by {
            assert(b[pos + 4 + k] == e[4 + k]);
            assert(e[4 + k] == enc_i32(p.equip_hat)[k]);
        }
    }
    assert(b.subrange(pos + 8, pos + 12) =~= enc_i32(p.equip_facegear)) by {
        assert forall|k: int| 0 <= k < 4 implies b.subrange(pos + 8, pos + 12)[k] == enc_i32(
            p.equip_facegear,
        )[k] by {
            assert(b[pos + 8 + k] == e[8 + k]);
            assert(e[8 + k] == enc_i32(p.equip_facegear)[k]);
        }
    }
    assert(b[pos + 12] == e[12]);
    assert(e[12] == p.style_bodytype);
    assert(b.subrange(pos + 13, pos + 17) =~= enc_i32(p.style_hair)) by {
        assert forall|k: int| 0 <= k < 4 implies b.subrange(pos + 13, pos + 17)[k] == enc_i32(
            p.style_hair,
        )[k] by {
            assert(b[pos + 13 + k] == e[13 + k]);
            assert(e[13 + k] == enc_i32(p.style_hair)[k]);
        }
    }
    assert(b.subrange(pos + 17, pos + 21) =~= enc_i32(p.equip_weapon)) by {
        assert forall|k: int| 0 <= k < 4 implies b.subrange(pos + 17, pos + 21)[k] == enc_i32(
            p.equip_weapon,
        )[k] by {
            assert(b[pos + 17 + k] == e[17 + k]);
            assert(e[17 + k] == enc_i32(p.equip_weapon)[k]);
        }
    }
    assert(b.subrange(pos + 21, pos + 25) =~= enc_i32(p.equip_shield)) by {
        assert forall|k: int| 0 <= k < 4 implies b.subrange(pos + 21, pos + 25)[k] == enc_i32(
            p.equip_shield,
        )[k] by {
            assert(b[pos + 21 + k] == e[21 + k]);
            assert(e[21 + k] == enc_i32(p.equip_shield)[k]);
        }
    }
    assert(b.subrange(pos + 25, pos + 29) =~= enc_i32(p.equip_armor)) by {
        assert forall|k: int| 0 <= k < 4 implies b.subrange(pos + 25, pos + 29)[k] == enc_i32(
            p.equip_armor,
        )[k] by {
            assert(b[pos + 25 + k] == e[25 + k]);
            assert(e[25 + k] == enc_i32(p.equip_armor)[k]);
        }
    }
    assert(b.subrange(pos + 29, pos + 33) =~= enc_i32(p.equip_shoes)) by {
        assert forall|k: int| 0 <= k < 4 implies b.subrange(pos + 29, pos + 33)[k] == enc_i32(
            p.equip_shoes,
        )[k] by {
            assert(b[pos + 29 + k] == e[29 + k]);
            assert(e[29 + k] == enc_i32(p.equip_shoes)[k]);
        }
    }
    assert(b.subrange(pos + 33, pos + 37) =~= enc_i32(p.equip_accessory1)) by {
        assert forall|k: int| 0 <= k < 4 implies b.subrange(pos + 33, pos + 37)[k] == enc_i32(
            p.equip_accessory1,
        )[k] by {
            assert(b[pos + 33 + k] == e[33 + k]);
            assert(e[33 + k] == enc_i32(p.equip_accessory1)[k]);
        }
    }
    assert(b.subrange(pos + 37, pos + 41) =~= enc_i32(p.equip_accessory2)) by {
        assert forall|k: int| 0 <= k < 4 implies b.subrange(pos + 37, pos + 41)[k] == enc_i32(
            p.equip_accessory2,
        )[k] by {
            assert(b[pos + 37 + k] == e[37 + k]);
            assert(e[37 + k] == enc_i32(p.equip_accessory2)[k]);
        }
    }
    assert(b.subrange(pos + 41, pos + 45) =~= enc_i32(p.style_hat)) by {
        assert forall|k: int| 0 <= k < 4 implies b.subrange(pos + 41, pos + 45)[k] == enc_i32(
            p.style_hat,
        )[k] by {
            assert(b[pos + 41 + k] == e[41 + k]);
            assert(e[41 + k] == enc_i32(p.style_hat)[k]);
        }
    }
    assert(b.subrange(pos + 45, pos + 49) =~= enc_i32(p.style_facegear)) by {
        assert forall|k: int| 0 <= k < 4 implies b.subrange(pos + 45, pos + 49)[k] == enc_i32(
            p.style_facegear,
        )[k] by {
            assert(b[pos + 45 + k] == e[45 + k]);
            assert(e[45 + k] == enc_i32(p.style_facegear)[k]);
        }
    }
    assert(b.subrange(pos + 49, pos + 53) =~= enc_i32(p.style_weapon)) by {
        assert forall|k: int| 0 <= k < 4 implies b.subrange(pos + 49, pos + 53)[k] == enc_i32(
            p.style_weapon,
        )[k] by {
            assert(b[pos + 49 + k] == e[49 + k]);
            assert(e[49 + k] == enc_i32(p.style_weapon)[k]);
        }
    }
    assert(b.subrange(pos + 53, pos + 57) =~= enc_i32(p.style_shield)) by {
        assert forall|k: int| 0 <= k < 4 implies b.subrange(pos + 53, pos + 57)[k] == enc_i32(
            p.style_shield,
        )[k] by {
            assert(b[pos + 53 + k] == e[53 + k]);
            assert(e[53 + k] == enc_i32(p.style_shield)[k]);
        }
    }
    assert(b[pos + 57] == e[57]);
    assert(e[57] == bool_byte(p.style_hat_hidden));
    assert(b[pos + 58] == e[58]);
    assert(e[58] == bool_byte(p.style_facegear_hidden));
    assert(b.subrange(pos + 59, pos + 63) =~= enc_i32(p.last_two_hander)) by {
        assert forall|k: int| 0 <= k < 4 implies b.subrange(pos + 59, pos + 63)[k] == enc_i32(
            p.last_two_hander,
        )[k] by {
            assert(b[pos + 59 + k] == e[59 + k]);
            assert(e[59 + k] == enc_i32(p.last_two_hander)[k]);
        }
    }
    assert(b.subrange(pos + 63, pos + 67) =~= enc_i32(p.last_one_hander)) by {
        assert forall|k: int| 0 <= k < 4 implies b.subrange(pos + 63, pos + 67)[k] == enc_i32(
            p.last_one_hander,
        )[k] by {
            assert(b[pos + 63 + k] == e[63 + k]);
            assert(e[63 + k] == enc_i32(p.last_one_hander)[k]);
        }
    }
    assert(b.subrange(pos + 67, pos + 71) =~= enc_i32(p.last_bow)) by {
        assert forall|k: int| 0 <= k < 4 implies b.subrange(pos + 67, pos + 71)[k] == enc_i32(
            p.last_bow,
        )[k] by {
            assert(b[pos + 67 + k] == e[67 + k]);
            assert(e[67 + k] == enc_i32(p.last_bow)[k]);
        }
    }
    crate::primitive::lemma_i32_u32_round(p.magic_byte, 0);
    crate::primitive::lemma_i32_u32_round(p.equip_hat, 0);
    crate::primitive::lemma_i32_u32_round(p.equip_facegear, 0);
    crate::primitive::lemma_i32_u32_round(p.style_hair, 0);
    crate::primitive::lemma_i32_u32_round(p.equip_weapon, 0);
    crate::primitive::lemma_i32_u32_round(p.equip_shield, 0);
    crate::primitive::lemma_i32_u32_round(p.equip_armor, 0);
    crate::primitive::lemma_i32_u32_round(p.equip_shoes, 0);
    crate::primitive::lemma_i32_u32_round(p.equip_accessory1, 0);
    crate::primitive::lemma_i32_u32_round(p.equip_accessory2, 0);
    crate::primitive::lemma_i32_u32_round(p.style_hat, 0);
    crate::primitive::lemma_i32_u32_round(p.style_facegear, 0);
    crate::primitive::lemma_i32_u32_round(p.style_weapon, 0);
    crate::primitive::lemma_i32_u32_round(p.style_shield, 0);
    crate::primitive::lemma_i32_u32_round(p.last_two_hander, 0);
    crate::primitive::lemma_i32_u32_round(p.last_one_hander, 0);
    crate::primitive::lemma_i32_u32_round(p.last_bow, 0);
    if p.style_hat_hidden {
        assert(b[pos + 57] != 0);
    } else {
        assert(b[pos + 57] == 0);
    }
    if p.style_facegear_hidden {
        assert(b[pos + 58] != 0);
    } else {
        assert(b[pos + 58] == 0);
    }
    assert(dec_part1(b, pos)->Ok_0.0 == p);
}

/// A decoded appearance/equipment record re-encodes to the bytes it was
/// read from, provided the two flag bytes are canonical (0 or 1).
#[verifier::rlimit(60)]
pub proof fn lemma_part1_dec_enc(b: Seq<u8>, pos: int, p: PlayerPart1, n: int)
    requires
        0 <= pos,
        dec_part1(b, pos) == Ok::<_, CodecError>((p, n)),
        b[pos + 57] <= 1,
        b[pos + 58] <= 1,
    ensures
        n == pos + 71,
        enc_part1(p) == b.subrange(pos, pos + 71),
{
    lemma_auto_spec_u32_to_from_le_bytes();
    assert forall|off: int| pos <= off && off + 4 <= pos + 71 implies #[trigger] enc_i32(
        dec_i32_at(b, off),
    ) == b.subrange(off, off + 4) by {
        let u = spec_u32_from_le_bytes(b.subrange(off, off + 4));
        crate::primitive::lemma_i32_u32_round(0, u);
    }
    lemma_enc_part1_len(p);
    assert(enc_part1(p) =~= b.subrange(pos, pos + 71));
}

/// Decoding the cosmetic record reads back exactly what encoding wrote.
pub proof fn lemma_part2_enc_dec(b: Seq<u8>, pos: int, p: PlayerPart2)
    requires
        0 <= pos,
        pos + 6 <= b.len(),
        b.subrange(pos, pos + 6) == enc_part2(p),
    ensures
        dec_part2(b, pos) == Ok::<_, CodecError>((p, pos + 6)),
{
    assert(forall|k: int| 0 <= k < 6 ==> b[pos + k] == #[trigger] enc_part2(p)[k]) by {
        assert(forall|k: int|
            0 <= k < 6 ==> b[pos + k] == #[trigger] b.subrange(pos, pos + 6)[k]);
    }
}

/// A decoded cosmetic record re-encodes to the bytes it was read from: this
/// record is canonical with no side condition.
pub proof fn lemma_part2_dec_enc(b: Seq<u8>, pos: int, p: PlayerPart2, n: int)
    requires
        0 <= pos,
        dec_part2(b, pos) == Ok::<_, CodecError>((p, n)),
    ensures
        n == pos + 6,
        enc_part2(p) == b.subrange(pos, pos + 6),
{
    assert(enc_part2(p) =~= b.subrange(pos, pos + 6));
}

pub fn read_part1(data: &[u8], pos: usize) -> (r: Result<(PlayerPart1, usize), CodecError>)
    ensures
        res_matches(dec_part1(data@, pos as int), r),
{
    if !(data.len() >= PART1_LEN && pos <= data.len() - PART1_LEN) {
        return Err(CodecError::TruncatedInput);
    }
    let (magic_byte, c) = match read_i32_le(data, pos) {
        Ok(v) => v,
        Err(e) => {
            return Err(e);
        },
    };
    let (equip_hat, c) = match read_i32_le(data, c) {
        Ok(v) => v,
        Err(e) => {
            return Err(e);
        },
    };
    let (equip_facegear, c) = match read_i32_le(data, c) {
        Ok(v) => v,
        Err(e) => {
            return Err(e);
        },
    };
    let (style_bodytype, c) = match read_u8(data, c) {
        Ok(v) => v,
        Err(e) => {
            return Err(e);
        },
    };
    let (style_hair, c) = match read_i32_le(data, c) {
        Ok(v) => v,
        Err(e) => {
            return Err(e);
        },
    };
    let (equip_weapon, c) = match read_i32_le(data, c) {
        Ok(v) => v,
        Err(e) => {
            return Err(e);
        },
    };
    let (equip_shield, c) = match read_i32_le(data, c) {
        Ok(v) => v,
        Err(e) => {
            return Err(e);
        },
    };
    let (equip_armor, c) = match read_i32_le(data, c) {
        Ok(v) => v,
        Err(e) => {
            return Err(e);
        },
    };
    let (equip_shoes, c) = match read_i32_le(data, c) {
        Ok(v) => v,
        Err(e) => {
            return Err(e);
        },
    };
    let (equip_accessory1, c) = match read_i32_le(data, c) {
        Ok(v) => v,
        Err(e) => {
            return Err(e);
        },
    };
    let (equip_accessory2, c) = match read_i32_le(data, c) {
        Ok(v) => v,
        Err(e) => {
            return Err(e);
        },
    };
    let (style_hat, c) = match read_i32_le(data, c) {
        Ok(v) => v,
        Err(e) => {
            return Err(e);
        },
    };
    let (style_facegear, c) = match read_i32_le(data, c) {
        Ok(v) => v,
        Err(e) => {
            return Err(e);
        },
    };
    let (style_weapon, c) = match read_i32_le(data, c) {
        Ok(v) => v,
        Err(e) => {
            return Err(e);
        },
    };
    let (style_shield, c) = match read_i32_le(data, c) {
        Ok(v) => v,
        Err(e) => {
            return Err(e);
        },
    };
    let (style_hat_hidden, c) = match read_bool(data, c) {
        Ok(v) => v,
        Err(e) => {
            return Err(e);
        },
    };
    let (style_facegear_hidden, c) = match read_bool(data, c) {
        Ok(v) => v,
        Err(e) => {
            return Err(e);
        },
    };
    let (last_two_hander, c) = match read_i32_le(data, c) {
        Ok(v) => v,
        Err(e) => {
            return Err(e);
        },
    };
    let (last_one_hander, c) = match read_i32_le(data, c) {
        Ok(v) => v,
        Err(e) => {
            return Err(e);
        },
    };
    let (last_bow, c) = match read_i32_le(data, c) {
        Ok(v) => v,
        Err(e) => {
            return Err(e);
        },
    };
    Ok(
        (
            PlayerPart1 {
                magic_byte,
                equip_hat,
                equip_facegear,
                style_bodytype,
                style_hair,
                equip_weapon,
                equip_shield,
                equip_armor,
                equip_shoes,
                equip_accessory1,
                equip_accessory2,
                style_hat,
                style_facegear,
                style_weapon,
                style_shield,
                style_hat_hidden,
                style_facegear_hidden,
                last_two_hander,
                last_one_hander,
                last_bow,
            },
            c,
        ),
    )
}

#[verifier::rlimit(60)]
pub fn write_part1(out: &mut Vec<u8>, p: &PlayerPart1)
    ensures
        final(out)@ == old(out)@ + enc_part1(*p),
{
    proof {
        lemma_auto_spec_u32_to_from_le_bytes();
    }
    write_i32_le(out, p.magic_byte);
    write_i32_le(out, p.equip_hat);
    write_i32_le(out, p.equip_facegear);
    write_u8(out, p.style_bodytype);
    write_i32_le(out, p.style_hair);
    write_i32_le(out, p.equip_weapon);
    write_i32_le(out, p.equip_shield);
    write_i32_le(out, p.equip_armor);
    write_i32_le(out, p.equip_shoes);
    write_i32_le(out, p.equip_accessory1);
    write_i32_le(out, p.equip_accessory2);
    write_i32_le(out, p.style_hat);
    write_i32_le(out, p.style_facegear);
    write_i32_le(out, p.style_weapon);
    write_i32_le(out, p.style_shield);
    write_bool(out, p.style_hat_hidden);
    write_bool(out, p.style_facegear_hidden);
    write_i32_le(out, p.last_two_hander);
    write_i32_le(out, p.last_one_hander);
    write_i32_le(out, p.last_bow);
    assert(out@ =~= old(out)@ + enc_part1(*p));
}

pub fn read_part2(data: &[u8], pos: usize) -> (r: Result<(PlayerPart2, usize), CodecError>)
    ensures
        res_matches(dec_part2(data@, pos as int), r),
{
    if !(data.len() >= PART2_LEN && pos <= data.len() - PART2_LEN) {
        return Err(CodecError::TruncatedInput);
    }
    let (style_hair_color, c) = match read_u8(data, pos) {
        Ok(v) => v,
        Err(e) => {
            return Err(e);
        },
    };
    let (style_skin_color, c) = match read_u8(data, c) {
        Ok(v) => v,
        Err(e) => {
            return Err(e);
        },
    };
    let (style_poncho_color, c) = match read_u8(data, c) {
        Ok(v) => v,
        Err(e) => {
            return Err(e);
        },
    };
    let (style_shirt_color, c) = match read_u8(data, c) {
        Ok(v) => v,
        Err(e) => {
            return Err(e);
        },
    };
    let (style_pants_color, c) = match read_u8(data, c) {
        Ok(v) => v,
        Err(e) => {
            return Err(e);
        },
    };
    let (style_sex, c) = match read_u8(data, c) {
        Ok(v) => v,
        Err(e) => {
            return Err(e);
        },
    };
    Ok(
        (
            PlayerPart2 {
                style_hair_color,
                style_skin_color,
                style_poncho_color,
                style_shirt_color,
                style_pants_color,
                style_sex,
            },
            c,
        ),
    )
}

pub fn write_part2(out: &mut Vec<u8>, p: &PlayerPart2)
    ensures
        final(out)@ == old(out)@ + enc_part2(*p),
{
    write_u8(out, p.style_hair_color);
    write_u8(out, p.style_skin_color);
    write_u8(out, p.style_poncho_color);
    write_u8(out, p.style_shirt_color);
    write_u8(out, p.style_pants_color);
    write_u8(out, p.style_sex);
    assert(out@ =~= old(out)@ + enc_part2(*p));
}

/// The mathematical content of a decoded save file: the two fixed records,
/// the slot run, and the nickname bytes.
pub struct PlayerView {
    pub part1: PlayerPart1,
    pub quickslots: Seq<QuickSlot>,
    pub part2: PlayerPart2,
    pub nickname: Seq<u8>,
}

/// A decoded character: the fixed-schema prefix of a save file. The opaque
/// tail travels beside it and is handed back at write time.
#[derive(Debug)]
pub struct Player {
    pub player_part1: PlayerPart1,
    pub quickslots: Vec<QuickSlot>,
    pub player_part2: PlayerPart2,
    pub nickname: CSharpString,
}

impl View for Player {
    type V = PlayerView;

    open spec fn view(&self) -> PlayerView {
        PlayerView {
            part1: self.player_part1,
            quickslots: self.quickslots@,
            part2: self.player_part2,
            nickname: self.nickname@,
        }
    }
}

/// The on-disk form of the fixed-schema prefix: both records, the ten
/// slots and the nickname, in wire order. The tail is appended after it.
pub open spec fn enc_player(v: PlayerView) -> Seq<u8> {
    enc_part1(v.part1) + enc_quickslots(v.quickslots) + enc_part2(v.part2) + enc_csharp(v.nickname)
}

/// Total description of decoding the fixed-schema prefix from the start of
/// a file: the four sections in wire order, with the position where the
/// tail begins. Any failure in any section aborts the whole decode.
pub open spec fn dec_player(b: Seq<u8>) -> Result<(PlayerView, int), CodecError> {
    match dec_part1(b, 0) {
        Err(e) => Err(e),
        Ok((part1, c1)) => match dec_quickslots(b, c1, 10) {
            Err(e) => Err(e),
            Ok((quickslots, c2)) => match dec_part2(b, c2) {
                Err(e) => Err(e),
                Ok((part2, c3)) => match dec_csharp(b, c3) {
                    Err(e) => Err(e),
                    Ok((nickname, c4)) => Ok(
                        (PlayerView { part1, quickslots, part2, nickname }, c4),
                    ),
                },
            },
        },
    }
}

/// A successful slot-run decode yields exactly `n` slots and never moves
/// backwards or past the end of the input.
pub proof fn lemma_dec_quickslots_shape(b: Seq<u8>, pos: int, n: nat, qs: Seq<QuickSlot>, end: int)
    requires
        0 <= pos <= b.len(),
        dec_quickslots(b, pos, n) == Ok::<_, CodecError>((qs, end)),
    ensures
        qs.len() == n,
        pos <= end <= b.len(),
    decreases n,
{
    if n != 0 {
        let (q, p) = dec_quickslot(b, pos)->Ok_0;
        let (qs1, end1) = dec_quickslots(b, p, (n - 1) as nat)->Ok_0;
        lemma_dec_quickslots_shape(b, p, (n - 1) as nat, qs1, end1);
    }
}

impl Player {
    /// A structurally valid character holds exactly ten quickslots.
    pub open spec fn wf(self) -> bool {
        self.quickslots@.len() == 10
    }

    /// Decodes the fixed-schema prefix of `data` and captures everything
    /// after it, byte for byte, as the tail. Exactly the errors of
    /// `dec_player` are reported; no partial value is ever returned.
    pub fn from_bytes(data: &[u8]) -> (r: Result<(Player, Vec<u8>), CodecError>)
        ensures
            match dec_player(data@) {
                Ok((v, n)) => r matches Ok((p, tail)) && p@ == v && p.wf() && tail@
                    == data@.subrange(n, data@.len() as int),
                Err(e) => r matches Err(e2) && e2 == e,
            },
    {
        let (player_part1, c1) = match read_part1(data, 0) {
            Ok(v) => v,
            Err(e) => {
                return Err(e);
            },
        };
        let (quickslots, c2) = match read_quickslots(data, c1) {
            Ok(v) => v,
            Err(e) => {
                return Err(e);
            },
        };
        let (player_part2, c3) = match read_part2(data, c2) {
            Ok(v) => v,
            Err(e) => {
                return Err(e);
            },
        };
        let (nickname, c4) = match read_csharp_string(data, c3) {
            Ok(v) => v,
            Err(e) => {
                return Err(e);
            },
        };
        proof {
            let (qspec, c2spec) = dec_quickslots(data@, c1 as int, 10)->Ok_0;
            lemma_dec_quickslots_shape(data@, c1 as int, 10, qspec, c2spec);
        }
        let tail = slice_to_vec(slice_subrange(data, c4, data.len()));
        Ok((Player { player_part1, quickslots, player_part2, nickname }, tail))
    }

    /// Re-emits the four schema sections in wire order followed by the tail
    /// verbatim. A nickname over 255 UTF-8 bytes fails with `StringTooLong`
    /// and no output is produced.
    pub fn to_bytes(&self, tail: &[u8]) -> (r: Result<Vec<u8>, CodecError>)
        ensures
            self@.nickname.len() <= 255 ==> (r matches Ok(out) && out@ == enc_player(self@)
                + tail@),
            self@.nickname.len() > 255 ==> (r matches Err(e) && e == CodecError::StringTooLong),
    {
        let mut out: Vec<u8> = Vec::new();
        write_part1(&mut out, &self.player_part1);
        write_quickslots(&mut out, &self.quickslots);
        write_part2(&mut out, &self.player_part2);
        match write_csharp_string(&mut out, &self.nickname) {
            Ok(u) => {},
            Err(e) => {
                return Err(e);
            },
        }
        out.extend_from_slice(tail);
        assert(out@ =~= enc_player(self@) + tail@);
        Ok(out)
    }

    pub fn nickname(&self) -> (r: &CSharpString)
        ensures
            r@ == self@.nickname,
    {
        &self.nickname
    }

    /// Replaces the nickname and nothing else.
    pub fn set_nickname(&mut self, nickname: CSharpString)
        ensures
            final(self)@ == (PlayerView { nickname: nickname@, ..old(self)@ }),
    {
        self.nickname = nickname;
    }

    pub fn style_sex(&self) -> (r: u8)
        ensures
            r == self@.part2.style_sex,
    {
        self.player_part2.style_sex
    }

    /// Replaces the sex flag and nothing else.
    pub fn set_style_sex(&mut self, sex: u8)
        ensures
            final(self)@ == (PlayerView {
                part2: (PlayerPart2 { style_sex: sex, ..old(self)@.part2 }),
                ..old(self)@
            }),
    {
        self.player_part2.style_sex = sex;
    }
}

/// Where each section of the encoded prefix lies: the appearance record at
/// 0, the slots at 71, the cosmetic record after them, the nickname last.
pub proof fn lemma_enc_player_layout(v: PlayerView)
    ensures
        enc_player(v).len() == 77 + enc_quickslots(v.quickslots).len() + enc_csharp(
            v.nickname,
        ).len(),
        forall|k: int| 0 <= k < 71 ==> #[trigger] enc_part1(v.part1)[k] == enc_player(v)[k],
        forall|k: int|
            0 <= k < enc_quickslots(v.quickslots).len() ==> #[trigger] enc_quickslots(
                v.quickslots,
            )[k] == enc_player(v)[71 + k],
        forall|k: int|
            0 <= k < 6 ==> #[trigger] enc_part2(v.part2)[k] == enc_player(v)[71 + enc_quickslots(
                v.quickslots,
            ).len() + k],
        forall|k: int|
            0 <= k < enc_csharp(v.nickname).len() ==> #[trigger] enc_csharp(v.nickname)[k]
                == enc_player(v)[77 + enc_quickslots(v.quickslots).len() + k],
{
    lemma_enc_part1_len(v.part1);
}

/// All tag and flag bytes under a successful decode are canonical: the two
/// visibility flags are 0 or 1 and every slot tag is 0, 1 or 2. Exactly
/// these files — and every file this codec itself writes is one — re-encode
/// byte for byte.
pub open spec fn file_canonical(b: Seq<u8>) -> bool {
    match dec_part1(b, 0) {
        Err(e) => true,
        Ok((part1, c1)) => b[57] <= 1 && b[58] <= 1 && quickslots_canonical(b, c1, 10),
    }
}

/// Round-trip identity, write-then-read direction: a well-formed character
/// encoded with any tail decodes back to exactly that character, with the
/// tail recovered byte for byte.
pub proof fn lemma_save_round_trip(v: PlayerView, tail: Seq<u8>)
    requires
        v.quickslots.len() == 10,
        is_utf8(v.nickname),
        v.nickname.len() <= 255,
    ensures
        dec_player(enc_player(v) + tail) == Ok::<_, CodecError>(
            (v, enc_player(v).len() as int),
        ),
        (enc_player(v) + tail).subrange(
            enc_player(v).len() as int,
            (enc_player(v) + tail).len() as int,
        ) == tail,
        file_canonical(enc_player(v) + tail),
{
    lemma_enc_player_layout(v);
    let f = enc_player(v) + tail;
    let e1 = enc_part1(v.part1);
    let e2 = enc_quickslots(v.quickslots);
    let e3 = enc_part2(v.part2);
    let e4 = enc_csharp(v.nickname);
    let c1: int = 71;
    let c2: int = c1 + e2.len();
    let c3: int = c2 + 6;
    let c4: int = c3 + e4.len();
    assert(forall|k: int| 0 <= k < c4 ==> #[trigger] f[k] == enc_player(v)[k]);
    assert(f.subrange(0, 71) =~= e1) by {
        assert forall|k: int| 0 <= k < 71 implies f.subrange(0, 71)[k] == e1[k] by {
            assert(e1[k] == enc_player(v)[k]);
        }
    }
    lemma_part1_enc_dec(f, 0, v.part1);
    assert(f.subrange(c1, c1 + e2.len()) =~= e2) by {
        assert forall|k: int| 0 <= k < e2.len() implies f.subrange(c1, c1 + e2.len())[k]
            == e2[k] by {
            assert(e2[k] == enc_player(v)[71 + k]);
        }
    }
    crate::quickslot::lemma_quickslots_enc_dec(f, c1, v.quickslots);
    assert(f.subrange(c2, c2 + 6) =~= e3) by {
        assert forall|k: int| 0 <= k < 6 implies f.subrange(c2, c2 + 6)[k] == e3[k] by {
            assert(e3[k] == enc_player(v)[c2 + k]);
        }
    }
    lemma_part2_enc_dec(f, c2, v.part2);
    assert(f.subrange(c3, c3 + 1 + v.nickname.len()) =~= e4) by {
        assert forall|k: int| 0 <= k < e4.len() implies f.subrange(c3, c3 + 1 + v.nickname.len())[k]
            == e4[k] by {
            assert(e4[k] == enc_player(v)[c3 + k]);
        }
    }
    crate::csharp_string::lemma_csharp_enc_dec(f, c3, v.nickname);
    assert(dec_player(f) == Ok::<_, CodecError>((v, c4)));
    assert(f.subrange(c4, f.len() as int) =~= tail);
    lemma_enc_part1_flag_bytes(v.part1);
    assert(f[57] == e1[57]);
    assert(f[58] == e1[58]);
    assert(file_canonical(f));
}

/// Round-trip identity, read-then-write direction: a file whose flag and
/// tag bytes are canonical re-encodes, together with its tail, to exactly
/// the bytes it was decoded from. (A file with a nonzero unknown slot tag
/// or a flag byte above 1 decodes all the same, but such a byte has no
/// canonical preimage and is re-written canonically.)
pub proof fn lemma_file_round_trip(b: Seq<u8>, v: PlayerView, n: int)
    requires
        dec_player(b) == Ok::<_, CodecError>((v, n)),
        file_canonical(b),
    ensures
        0 <= n <= b.len(),
        enc_player(v) == b.subrange(0, n),
        enc_player(v) + b.subrange(n, b.len() as int) == b,
{
    let (part1, c1) = dec_part1(b, 0)->Ok_0;
    let (qs, c2) = dec_quickslots(b, c1, 10)->Ok_0;
    let (part2, c3) = dec_part2(b, c2)->Ok_0;
    let (nick, c4) = dec_csharp(b, c3)->Ok_0;
    lemma_part1_dec_enc(b, 0, part1, c1);
    lemma_dec_quickslots_shape(b, c1, 10, qs, c2);
    crate::quickslot::lemma_quickslots_dec_enc(b, c1, 10, qs, c2);
    crate::csharp_string::lemma_csharp_dec_enc(b, c3, nick, c4);
    lemma_enc_player_layout(v);
    assert(enc_part2(v.part2) == b.subrange(c2, c3)) by {
        lemma_part2_dec_enc(b, c2, part2, c3);
    }
    assert(enc_player(v) =~= b.subrange(0, n)) by {
        assert forall|k: int| 0 <= k < enc_player(v).len() implies enc_player(v)[k]
            == b.subrange(0, n)[k] by {
            if k < 71 {
                assert(enc_player(v)[k] == enc_part1(v.part1)[k]);
                assert(enc_part1(v.part1)[k] == b.subrange(0, 71)[k]);
            } else if k < c2 {
                assert(enc_player(v)[k] == enc_quickslots(v.quickslots)[k - 71]);
                assert(enc_quickslots(v.quickslots)[k - 71] == b.subrange(c1, c2)[k - 71]);
            } else if k < c3 {
                assert(enc_player(v)[k] == enc_part2(v.part2)[k - c2]);
                assert(enc_part2(v.part2)[k - c2] == b.subrange(c2, c3)[k - c2]);
            } else {
                assert(enc_player(v)[k] == enc_csharp(v.nickname)[k - c3]);
                assert(enc_csharp(v.nickname)[k - c3] == b.subrange(c3, c4)[k - c3]);
            }
        }
    }
    assert(enc_player(v) + b.subrange(n, b.len() as int) =~= b);
}

/// Truncation safety: cutting a valid file anywhere inside its fixed-schema
/// prefix makes the decode fail with `TruncatedInput` — never a partial
/// value.
pub proof fn lemma_truncation_fails(v: PlayerView, tail: Seq<u8>, cut: int)
    requires
        v.quickslots.len() == 10,
        v.nickname.len() <= 255,
        0 <= cut < enc_player(v).len(),
    ensures
        dec_player((enc_player(v) + tail).subrange(0, cut)) == Err::<(PlayerView, int), _>(
            CodecError::TruncatedInput,
        ),
{
    lemma_enc_player_layout(v);
    let e2 = enc_quickslots(v.quickslots);
    let e4 = enc_csharp(v.nickname);
    let c1: int = 71;
    let c2: int = c1 + e2.len();
    let c3: int = c2 + 6;
    let c4: int = c3 + e4.len();
    let b = (enc_player(v) + tail).subrange(0, cut);
    assert(b.len() == cut);
    assert(forall|k: int| 0 <= k < cut ==> #[trigger] b[k] == enc_player(v)[k]);
    if cut < c1 {
        assert(dec_part1(b, 0) == Err::<(PlayerPart1, int), _>(CodecError::TruncatedInput));
    } else {
        let (part1, p1) = dec_part1(b, 0)->Ok_0;
        assert(p1 == c1);
        if cut < c2 {
            assert(b.subrange(c1, b.len() as int) =~= e2.subrange(0, b.len() - c1)) by {
                assert forall|k: int| 0 <= k < cut - c1 implies #[trigger] b.subrange(
                    c1,
                    b.len() as int,
                )[k] == e2.subrange(0, b.len() - c1)[k] by {
                    assert(b[c1 + k] == enc_player(v)[71 + k]);
                    assert(e2[k] == enc_player(v)[71 + k]);
                }
            }
            crate::quickslot::lemma_quickslots_truncated(b, c1, v.quickslots);
        } else {
            assert(b.subrange(c1, c2) =~= e2) by {
                assert forall|k: int| 0 <= k < e2.len() implies #[trigger] b.subrange(c1, c2)[k]
                    == e2[k] by {
                    assert(b[c1 + k] == enc_player(v)[71 + k]);
                    assert(e2[k] == enc_player(v)[71 + k]);
                }
            }
            crate::quickslot::lemma_quickslots_enc_dec(b, c1, v.quickslots);
            if cut < c3 {
                assert(dec_part2(b, c2) == Err::<(PlayerPart2, int), _>(
                    CodecError::TruncatedInput,
                ));
            } else {
                let (part2, p3) = dec_part2(b, c2)->Ok_0;
                assert(p3 == c3);
                assert(b.subrange(c3, b.len() as int) =~= e4.subrange(0, b.len() - c3)) by {
                    assert forall|k: int| 0 <= k < cut - c3 implies #[trigger] b.subrange(
                        c3,
                        b.len() as int,
                    )[k] == e4.subrange(0, b.len() - c3)[k] by {
                        assert(b[c3 + k] == enc_player(v)[c3 + k]);
                        assert(e4[k] == enc_player(v)[c3 + k]);
                    }
                }
                crate::csharp_string::lemma_csharp_truncated(b, c3, v.nickname);
            }
        }
    }
}

/// Editing the sex flag alone changes exactly one byte of the encoded
/// prefix — the sixth byte of the cosmetic record — and nothing else.
pub proof fn lemma_set_sex_single_byte(v: PlayerView, v2: PlayerView)
    requires
        v2 == (PlayerView {
            part2: (PlayerPart2 { style_sex: v2.part2.style_sex, ..v.part2 }),
            ..v
        }),
    ensures
        enc_player(v2).len() == enc_player(v).len(),
        enc_player(v2)[71 + enc_quickslots(v.quickslots).len() as int + 5] == v2.part2.style_sex,
        forall|k: int|
            0 <= k < enc_player(v).len() && k != 71 + enc_quickslots(v.quickslots).len() as int + 5
                ==> #[trigger] enc_player(v2)[k] == enc_player(v)[k],
{
    lemma_enc_player_layout(v);
    lemma_enc_player_layout(v2);
    let c2 = 71 + enc_quickslots(v.quickslots).len() as int;
    let idx = c2 + 5;
    assert(enc_part2(v2.part2)[5] == v2.part2.style_sex);
    assert(enc_player(v2)[idx] == v2.part2.style_sex);
    assert forall|k: int|
        0 <= k < enc_player(v).len() && k != idx implies #[trigger] enc_player(v2)[k]
        == enc_player(v)[k] by {
        if k < 71 {
            assert(enc_player(v)[k] == enc_part1(v.part1)[k]);
            assert(enc_player(v2)[k] == enc_part1(v2.part1)[k]);
        } else if k < c2 {
            assert(enc_player(v)[k] == enc_quickslots(v.quickslots)[k - 71]);
            assert(enc_player(v2)[k] == enc_quickslots(v2.quickslots)[k - 71]);
        } else if k < c2 + 6 {
            assert(enc_player(v)[k] == enc_part2(v.part2)[k - c2]);
            assert(enc_player(v2)[k] == enc_part2(v2.part2)[k - c2]);
            assert(enc_part2(v2.part2)[k - c2] == enc_part2(v.part2)[k - c2]);
        } else {
            assert(enc_player(v)[k] == enc_csharp(v.nickname)[k - c2 - 6]);
            assert(enc_player(v2)[k] == enc_csharp(v2.nickname)[k - c2 - 6]);
        }
    }
}

} // verus!
