use fwop::apply_presses;
use fwop::apply_transform;
use fwop::apply_transform_inverse;
use fwop::blit;
use fwop::canonicalize;
use fwop::generate_map;
use fwop::output;
use fwop::parse;
use fwop::press_weight;
use fwop::reflect;
use fwop::rotate;
use fwop::spread;
use fwop::ParseError;

#[test]
fn lib_test_blit() {
    assert_eq!(blit(0, 00), 0b_00000_00000_00000_00001_00011);
    assert_eq!(blit(0, 01), 0b_00000_00000_00000_00010_00111);
    assert_eq!(blit(0, 02), 0b_00000_00000_00000_00100_01110);
    assert_eq!(blit(0, 03), 0b_00000_00000_00000_01000_11100);
    assert_eq!(blit(0, 04), 0b_00000_00000_00000_10000_11000);
    assert_eq!(blit(0, 05), 0b_00000_00000_00001_00011_00001);
    assert_eq!(blit(0, 06), 0b_00000_00000_00010_00111_00010);
    assert_eq!(blit(0, 07), 0b_00000_00000_00100_01110_00100);
    assert_eq!(blit(0, 08), 0b_00000_00000_01000_11100_01000);
    assert_eq!(blit(0, 09), 0b_00000_00000_10000_11000_10000);
    assert_eq!(blit(0, 10), 0b_00000_00001_00011_00001_00000);
    assert_eq!(blit(0, 11), 0b_00000_00010_00111_00010_00000);
    assert_eq!(blit(0, 12), 0b_00000_00100_01110_00100_00000);
    assert_eq!(blit(0, 13), 0b_00000_01000_11100_01000_00000);
    assert_eq!(blit(0, 14), 0b_00000_10000_11000_10000_00000);
    assert_eq!(blit(0, 15), 0b_00001_00011_00001_00000_00000);
    assert_eq!(blit(0, 16), 0b_00010_00111_00010_00000_00000);
    assert_eq!(blit(0, 17), 0b_00100_01110_00100_00000_00000);
    assert_eq!(blit(0, 18), 0b_01000_11100_01000_00000_00000);
    assert_eq!(blit(0, 19), 0b_10000_11000_10000_00000_00000);
    assert_eq!(blit(0, 20), 0b_00011_00001_00000_00000_00000);
    assert_eq!(blit(0, 21), 0b_00111_00010_00000_00000_00000);
    assert_eq!(blit(0, 22), 0b_01110_00100_00000_00000_00000);
    assert_eq!(blit(0, 23), 0b_11100_01000_00000_00000_00000);
    assert_eq!(blit(0, 24), 0b_11000_10000_00000_00000_00000);
}

#[test]
fn main_test_blit() {
    assert_eq!(blit(0, 00), 0b0000100011);
    assert_eq!(blit(0, 01), 0b0001000111);
    assert_eq!(blit(0, 02), 0b0010001110);
    assert_eq!(blit(0, 03), 0b0100011100);
    assert_eq!(blit(0, 04), 0b1000011000);
    assert_eq!(blit(0, 05), 0b000010001100001);
    assert_eq!(blit(0, 06), 0b000100011100010);
    assert_eq!(blit(0, 07), 0b001000111000100);
    assert_eq!(blit(0, 08), 0b010001110001000);
    assert_eq!(blit(0, 09), 0b100001100010000);
    assert_eq!(blit(0, 10), 0b00001000110000100000);
    assert_eq!(blit(0, 11), 0b00010001110001000000);
    assert_eq!(blit(0, 12), 0b00100011100010000000);
    assert_eq!(blit(0, 13), 0b01000111000100000000);
    assert_eq!(blit(0, 14), 0b10000110001000000000);
    assert_eq!(blit(0, 15), 0b0000100011000010000000000);
    assert_eq!(blit(0, 16), 0b0001000111000100000000000);
    assert_eq!(blit(0, 17), 0b0010001110001000000000000);
    assert_eq!(blit(0, 18), 0b0100011100010000000000000);
    assert_eq!(blit(0, 19), 0b1000011000100000000000000);
    assert_eq!(blit(0, 20), 0b0001100001000000000000000);
    assert_eq!(blit(0, 21), 0b0011100010000000000000000);
    assert_eq!(blit(0, 22), 0b0111000100000000000000000);
    assert_eq!(blit(0, 23), 0b1110001000000000000000000);
    assert_eq!(blit(0, 24), 0b1100010000000000000000000);
}

#[test]
fn test_rotate_example() {
    assert_eq!(
        rotate(0b_00000_00000_00000_00000_00000),
        0b_00000_00000_00000_00000_00000
    );
    assert_eq!(
        rotate(0b_11111_11111_11111_11111_11111),
        0b_11111_11111_11111_11111_11111
    );
}

#[test]
fn test_spread() {
    assert_eq!(spread(0b11111), 0b_00001_00001_00001_00001_00001);
}

#[test]
fn lib_test_generate_map() {
    assert_eq!(generate_map(0b_00000_00100_00000_10000_01011), 4674152);
}

#[test]
fn main_test_generate_map() {
    assert_eq!(generate_map(0b100000001000001011), 4674152);
}

#[test]
fn test_output_parse() {
    let text = "##---|---#-|###-#|#-#--|###-#";
    assert_eq!(output(parse(text).unwrap()), text);
}

#[test]
fn test_parse_output_inverse() {
    for x in [0u32, 1, 35, 4674152, 0x1FFFFFF, 0x155_5555] {
        assert_eq!(parse(&output(x)).unwrap(), x);
    }
}

#[test]
fn test_parse_errors() {
    assert_eq!(parse(""), Err(ParseError::WrongLength));
    assert_eq!(
        parse("##---x---#-|###-#|#-#--|###-#"),
        Err(ParseError::WrongChunkLength)
    );
    assert_eq!(
        parse("##--x|---#-|###-#|#-#--|###-#"),
        Err(ParseError::InvalidChunk)
    );
}

#[test]
fn test_linearity() {
    assert_eq!(generate_map(0), 0);
    for (a, b) in [(1u32, 2u32), (4674152, 35), (0x1FFFFFF, 0x155_5555), (99, 12345)] {
        assert_eq!(generate_map(a ^ b), generate_map(a) ^ generate_map(b));
    }
}

#[test]
fn test_apply_presses_fold() {
    let board = generate_map(17);
    assert_eq!(apply_presses(board, 40), board ^ generate_map(40));
    assert_eq!(apply_presses(0, 4674152 & 0x1FFFFFF), generate_map(4674152));
}

#[test]
fn test_reflect_axis() {
    // The mirror keeps rows and reverses columns: cell (0,0) moves to (0,4),
    // and a whole first row stays the first row.
    assert_eq!(reflect(1), 1 << 4);
    assert_eq!(reflect(0x1F), 0x1F);
    assert_eq!(reflect(0b00010), 0b01000);
    // Cell (4,0) (bit 20) moves to (4,4) (bit 24).
    assert_eq!(reflect(1 << 20), 1 << 24);
}

#[test]
fn test_reflect_involution() {
    for x in [0u32, 1, 35, 4674152, 0x1FFFFFF, 0xABCDE] {
        assert_eq!(reflect(reflect(x)), x);
    }
}

#[test]
fn test_dihedral_relations() {
    for x in [0u32, 1, 35, 4674152, 0x1FFFFFF, 0xABCDE] {
        assert_eq!(rotate(x), reflect(rotate(rotate(rotate(reflect(x))))));
        assert_eq!(rotate(rotate(x)), reflect(rotate(rotate(reflect(x)))));
        assert_eq!(rotate(rotate(rotate(x))), reflect(rotate(reflect(x))));
        assert_eq!(rotate(rotate(rotate(rotate(x)))), x);
    }
}

#[test]
fn test_transform_inverses() {
    for x in [0u32, 1, 35, 4674152, 0xABCDE] {
        for r in 0u8..4 {
            for f in [false, true] {
                assert_eq!(apply_transform_inverse(apply_transform(x, r, f), r, f), x);
                assert_eq!(apply_transform(apply_transform_inverse(x, r, f), r, f), x);
            }
        }
    }
}

#[test]
fn test_canonical_minimality() {
    for x in [0u32, 1, 35, 4674152, 0xABCDE, 0x1FFFFFF] {
        let (c, rot, refl) = canonicalize(x);
        assert!(c <= x);
        assert!(rot < 4);
        assert_eq!(c, apply_transform(x, rot, refl));
        assert_eq!(x, apply_transform_inverse(c, rot, refl));
        for r in 0u8..4 {
            for f in [false, true] {
                assert!(c <= apply_transform(x, r, f));
            }
        }
    }
}

#[test]
fn test_canonical_transform_commutation() {
    for i in [0u32, 1, 35, 99, 4674152, 0xABCDE] {
        let m = generate_map(i);
        let (c, rot, refl) = canonicalize(m);
        let i2 = apply_transform(i, rot, refl);
        assert_eq!(generate_map(i2), c);
        assert_eq!(apply_transform_inverse(i2, rot, refl), i);
    }
}

#[test]
fn test_press_weight() {
    assert_eq!(press_weight(0), 0);
    assert_eq!(press_weight(1), 1);
    assert_eq!(press_weight(0b_00000_00100_00000_10000_01011), 5);
    assert_eq!(press_weight(0x1FFFFFF), 25);
}

#[test]
fn test_press_scenarios() {
    assert_eq!(generate_map(1), 0b_00000_00000_00000_00001_00011);
    let center = generate_map(1 << 12);
    assert_eq!(center, (1 << 7) | (1 << 11) | (1 << 12) | (1 << 13) | (1 << 17));
}
