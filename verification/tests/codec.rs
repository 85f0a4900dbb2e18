use savegame_lib::csharp_string::{CSharpString, read_csharp_string, write_csharp_string};
use savegame_lib::error::CodecError;
use savegame_lib::outfit_color::OutfitColor;
use savegame_lib::player::{Player, PlayerPart1, PlayerPart2, read_part1, read_part2, write_part1, write_part2};
use savegame_lib::quickslot::{QuickSlot, read_quickslot, read_quickslots, write_quickslot, write_quickslots};
use savegame_lib::utf8::validate_utf8;

fn sample_part1() -> PlayerPart1 {
    PlayerPart1 {
        magic_byte: 0x0107,
        equip_hat: 100,
        equip_facegear: -1,
        style_bodytype: b'V',
        style_hair: 12,
        equip_weapon: 7000,
        equip_shield: 7100,
        equip_armor: 7200,
        equip_shoes: 7300,
        equip_accessory1: -1,
        equip_accessory2: 0,
        style_hat: 2500,
        style_facegear: -1,
        style_weapon: 7000,
        style_shield: 7100,
        style_hat_hidden: true,
        style_facegear_hidden: false,
        last_two_hander: 7400,
        last_one_hander: 7000,
        last_bow: 7500,
    }
}

fn sample_part1_bytes() -> Vec<u8> {
    let p = sample_part1();
    let mut b = Vec::new();
    b.extend_from_slice(&p.magic_byte.to_le_bytes());
    b.extend_from_slice(&p.equip_hat.to_le_bytes());
    b.extend_from_slice(&p.equip_facegear.to_le_bytes());
    b.push(p.style_bodytype);
    b.extend_from_slice(&p.style_hair.to_le_bytes());
    b.extend_from_slice(&p.equip_weapon.to_le_bytes());
    b.extend_from_slice(&p.equip_shield.to_le_bytes());
    b.extend_from_slice(&p.equip_armor.to_le_bytes());
    b.extend_from_slice(&p.equip_shoes.to_le_bytes());
    b.extend_from_slice(&p.equip_accessory1.to_le_bytes());
    b.extend_from_slice(&p.equip_accessory2.to_le_bytes());
    b.extend_from_slice(&p.style_hat.to_le_bytes());
    b.extend_from_slice(&p.style_facegear.to_le_bytes());
    b.extend_from_slice(&p.style_weapon.to_le_bytes());
    b.extend_from_slice(&p.style_shield.to_le_bytes());
    b.push(1);
    b.push(0);
    b.extend_from_slice(&p.last_two_hander.to_le_bytes());
    b.extend_from_slice(&p.last_one_hander.to_le_bytes());
    b.extend_from_slice(&p.last_bow.to_le_bytes());
    b
}

fn sample_slots() -> Vec<QuickSlot> {
    vec![
        QuickSlot::Item(9001),
        QuickSlot::Empty,
        QuickSlot::Skill(3),
        QuickSlot::Item(-5),
        QuickSlot::Empty,
        QuickSlot::Empty,
        QuickSlot::Skill(65535),
        QuickSlot::Empty,
        QuickSlot::Item(i32::MIN),
        QuickSlot::Item(i32::MAX),
    ]
}

fn sample_slot_bytes() -> Vec<u8> {
    let mut b = Vec::new();
    b.push(1);
    b.extend_from_slice(&9001i32.to_le_bytes());
    b.push(0);
    b.push(2);
    b.extend_from_slice(&3u16.to_le_bytes());
    b.push(1);
    b.extend_from_slice(&(-5i32).to_le_bytes());
    b.push(0);
    b.push(0);
    b.push(2);
    b.extend_from_slice(&65535u16.to_le_bytes());
    b.push(0);
    b.push(1);
    b.extend_from_slice(&i32::MIN.to_le_bytes());
    b.push(1);
    b.extend_from_slice(&i32::MAX.to_le_bytes());
    b
}

fn sample_file(sex: u8, nickname: &[u8], tail: &[u8]) -> Vec<u8> {
    let mut b = sample_part1_bytes();
    b.extend_from_slice(&sample_slot_bytes());
    b.extend_from_slice(&[4, 9, 13, 2, 6, sex]);
    b.push(nickname.len() as u8);
    b.extend_from_slice(nickname);
    b.extend_from_slice(tail);
    b
}

#[test]
fn quickslot_type_values() {
    assert_eq!(QuickSlot::Empty.type_value(), 0);
    assert_eq!(QuickSlot::Item(42).type_value(), 1);
    assert_eq!(QuickSlot::Skill(42).type_value(), 2);
}

#[test]
fn quickslot_encodings_are_exact() {
    let mut out = Vec::new();
    write_quickslot(&mut out, &QuickSlot::Empty);
    assert_eq!(out, vec![0]);

    let mut out = Vec::new();
    write_quickslot(&mut out, &QuickSlot::Item(1));
    assert_eq!(out, vec![1, 1, 0, 0, 0]);

    let mut out = Vec::new();
    write_quickslot(&mut out, &QuickSlot::Item(-2));
    assert_eq!(out, vec![1, 0xFE, 0xFF, 0xFF, 0xFF]);

    let mut out = Vec::new();
    write_quickslot(&mut out, &QuickSlot::Skill(0x1234));
    assert_eq!(out, vec![2, 0x34, 0x12]);
}

#[test]
fn quickslot_tag_bijection_round_trips() {
    let samples = [
        QuickSlot::Empty,
        QuickSlot::Item(0),
        QuickSlot::Item(1),
        QuickSlot::Item(-1),
        QuickSlot::Item(i32::MIN),
        QuickSlot::Item(i32::MAX),
        QuickSlot::Skill(0),
        QuickSlot::Skill(1),
        QuickSlot::Skill(u16::MAX),
    ];
    for q in samples {
        let mut out = Vec::new();
        write_quickslot(&mut out, &q);
        let (back, used) = read_quickslot(&out, 0).unwrap();
        assert_eq!(back, q);
        assert_eq!(used, out.len());
    }
}

#[test]
fn unknown_quickslot_tag_decodes_empty() {
    // An unrecognised tag such as 7 is an empty slot consuming no payload.
    let bytes = vec![7, 0xAA, 0xBB];
    let (q, used) = read_quickslot(&bytes, 0).unwrap();
    assert_eq!(q, QuickSlot::Empty);
    assert_eq!(used, 1);

    // Ten slots, all with strange tags, still decode as ten empties.
    let bytes = vec![3, 4, 5, 6, 7, 8, 9, 255, 254, 253];
    let (qs, used) = read_quickslots(&bytes, 0).unwrap();
    assert_eq!(used, 10);
    assert_eq!(qs, vec![QuickSlot::Empty; 10]);
}

#[test]
fn quickslots_round_trip() {
    let slots = sample_slots();
    let mut out = Vec::new();
    write_quickslots(&mut out, &slots);
    assert_eq!(out, sample_slot_bytes());
    let (back, used) = read_quickslots(&out, 0).unwrap();
    assert_eq!(back, slots);
    assert_eq!(used, out.len());
}

#[test]
fn quickslots_truncated_payload_fails() {
    // Tag 1 promises four payload bytes; only three remain.
    let bytes = vec![1, 0x01, 0x02, 0x03];
    assert_eq!(read_quickslot(&bytes, 0), Err(CodecError::TruncatedInput));
}

#[test]
fn csharp_string_new_checks_utf8() {
    let s = CSharpString::new(b"snowy village".to_vec()).unwrap();
    assert_eq!(s.as_bytes(), b"snowy village");
    assert_eq!(s.byte_len(), 13);
    assert_eq!(CSharpString::new(vec![0xFF]).err(), Some(CodecError::InvalidEncoding));
    // Multi-byte UTF-8 passes.
    assert!(CSharpString::new("héros".as_bytes().to_vec()).is_ok());
}

#[test]
fn validate_utf8_agrees_with_std() {
    let cases: Vec<Vec<u8>> = vec![
        b"".to_vec(),
        b"plain ascii".to_vec(),
        "áé€𝄞".as_bytes().to_vec(),
        vec![0xC2, 0xA9],
        vec![0x80],
        vec![0xC0, 0xAF],
        vec![0xE0, 0x80, 0x80],
        vec![0xED, 0xA0, 0x80],
        vec![0xF4, 0x90, 0x80, 0x80],
        vec![0xF0, 0x9F, 0x92],
        vec![0x41, 0xC2],
    ];
    for c in cases {
        assert_eq!(validate_utf8(&c), std::str::from_utf8(&c).is_ok(), "bytes {:?}", c);
    }
}

#[test]
fn nickname_boundary_255_encodes() {
    let long = vec![b'a'; 255];
    let s = CSharpString::new(long.clone()).unwrap();
    let mut out = Vec::new();
    write_csharp_string(&mut out, &s).unwrap();
    assert_eq!(out.len(), 256);
    assert_eq!(out[0], 255);
    let (back, used) = read_csharp_string(&out, 0).unwrap();
    assert_eq!(back.as_bytes(), &long[..]);
    assert_eq!(used, 256);
}

#[test]
fn nickname_boundary_256_fails() {
    let too_long = vec![b'a'; 256];
    let s = CSharpString::new(too_long).unwrap();
    let mut out = Vec::new();
    assert_eq!(write_csharp_string(&mut out, &s), Err(CodecError::StringTooLong));
    assert!(out.is_empty());
}

#[test]
fn string_decode_errors() {
    // Declared length 5, only 2 bytes follow.
    assert_eq!(read_csharp_string(&[5, b'a', b'b'], 0).err(), Some(CodecError::TruncatedInput));
    // No length byte at all.
    assert_eq!(read_csharp_string(&[], 0).err(), Some(CodecError::TruncatedInput));
    // Length is fine but the bytes are not UTF-8.
    assert_eq!(read_csharp_string(&[1, 0xFF], 0).err(), Some(CodecError::InvalidEncoding));
    // The empty string round-trips.
    let (s, used) = read_csharp_string(&[0], 0).unwrap();
    assert_eq!(s.byte_len(), 0);
    assert_eq!(used, 1);
}

#[test]
fn part1_round_trips() {
    let p = sample_part1();
    let mut out = Vec::new();
    write_part1(&mut out, &p);
    assert_eq!(out, sample_part1_bytes());
    let (back, used) = read_part1(&out, 0).unwrap();
    assert_eq!(back, p);
    assert_eq!(used, 71);
}

#[test]
fn part1_nonzero_flag_byte_reads_true() {
    let mut bytes = sample_part1_bytes();
    bytes[57] = 2;
    let (p, _) = read_part1(&bytes, 0).unwrap();
    assert!(p.style_hat_hidden);
}

#[test]
fn part2_round_trips() {
    let p = PlayerPart2 {
        style_hair_color: 4,
        style_skin_color: 9,
        style_poncho_color: 13,
        style_shirt_color: 2,
        style_pants_color: 6,
        style_sex: 1,
    };
    let mut out = Vec::new();
    write_part2(&mut out, &p);
    assert_eq!(out, vec![4, 9, 13, 2, 6, 1]);
    let (back, used) = read_part2(&out, 0).unwrap();
    assert_eq!(back, p);
    assert_eq!(used, 6);
}

#[test]
fn file_round_trip_identity() {
    let tail = b"opaque tail bytes \x00\x01\x02 the codec never interprets";
    let file = sample_file(1, b"tolik", tail);
    let (player, got_tail) = Player::from_bytes(&file).unwrap();
    assert_eq!(got_tail, tail.to_vec());
    assert_eq!(player.nickname().as_bytes(), b"tolik");
    assert_eq!(player.style_sex(), 1);
    let rewritten = player.to_bytes(&got_tail).unwrap();
    assert_eq!(rewritten, file);
}

#[test]
fn file_round_trip_empty_tail_and_nickname() {
    let file = sample_file(0, b"", b"");
    let (player, tail) = Player::from_bytes(&file).unwrap();
    assert!(tail.is_empty());
    assert_eq!(player.nickname().byte_len(), 0);
    assert_eq!(player.to_bytes(&tail).unwrap(), file);
}

#[test]
fn truncation_anywhere_in_prefix_fails() {
    let tail = b"tail";
    let file = sample_file(1, b"nick", tail);
    let prefix_len = file.len() - tail.len();
    for cut in 0..prefix_len {
        let truncated = &file[..cut];
        assert_eq!(
            Player::from_bytes(truncated).err(),
            Some(CodecError::TruncatedInput),
            "cut at {}",
            cut
        );
    }
    // At the exact end of the prefix the file is whole, with an empty tail.
    let (_, t) = Player::from_bytes(&file[..prefix_len]).unwrap();
    assert!(t.is_empty());
}

#[test]
fn invalid_nickname_bytes_fail_decode() {
    let file = sample_file(1, &[0xC3, 0x28], b"");
    assert_eq!(Player::from_bytes(&file).err(), Some(CodecError::InvalidEncoding));
}

#[test]
fn edit_sex_changes_exactly_one_byte() {
    let tail = b"unknown trailing structure";
    let file = sample_file(1, b"heroine", tail);
    let (mut player, got_tail) = Player::from_bytes(&file).unwrap();
    assert_eq!(player.style_sex(), 1);
    player.set_style_sex(0);
    let rewritten = player.to_bytes(&got_tail).unwrap();
    assert_eq!(rewritten.len(), file.len());
    let sex_index = 71 + sample_slot_bytes().len() + 5;
    let mut diffs = Vec::new();
    for i in 0..file.len() {
        if file[i] != rewritten[i] {
            diffs.push(i);
        }
    }
    assert_eq!(diffs, vec![sex_index]);
    assert_eq!(rewritten[sex_index], 0);
}

#[test]
fn set_nickname_replaces_only_the_name() {
    let file = sample_file(0, b"old", b"tailtail");
    let (mut player, tail) = Player::from_bytes(&file).unwrap();
    let renamed = CSharpString::new(b"new name".to_vec()).unwrap();
    player.set_nickname(renamed);
    assert_eq!(player.nickname().as_bytes(), b"new name");
    let rewritten = player.to_bytes(&tail).unwrap();
    let expected = sample_file(0, b"new name", b"tailtail");
    assert_eq!(rewritten, expected);
}

#[test]
fn oversized_nickname_blocks_write() {
    let file = sample_file(0, b"ok", b"");
    let (mut player, tail) = Player::from_bytes(&file).unwrap();
    player.set_nickname(CSharpString::new(vec![b'x'; 300]).unwrap());
    assert_eq!(player.to_bytes(&tail), Err(CodecError::StringTooLong));
}

#[test]
fn outfit_color_codes_are_a_bijection() {
    for code in 0u8..=29 {
        let color = OutfitColor::from_code(code).unwrap();
        assert_eq!(color.code(), code);
    }
    assert_eq!(OutfitColor::from_code(30), None);
    assert_eq!(OutfitColor::from_code(255), None);
}

#[test]
fn outfit_color_rgb_values() {
    assert_eq!(OutfitColor::from_code(0).unwrap().rgb(), (0x2C, 0x1D, 0x1D));
    assert_eq!(OutfitColor::from_code(7).unwrap().rgb(), (0xCD, 0x26, 0x27));
    assert_eq!(OutfitColor::from_code(29).unwrap().rgb(), (0xEC, 0x7B, 0xD9));
}
