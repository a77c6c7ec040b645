use kitties::genome::{payload, random_value};
use kitties::{combine, Kitty};

#[test]
fn payload_lays_the_fields_out_in_order() {
    let mut seed = [0u8; 32];
    for (i, byte) in seed.iter_mut().enumerate() {
        *byte = i as u8;
    }
    let bytes = payload(&seed, 0x0102030405060708, 0x1112131415161718, Some(0xA1B2C3D4));
    let expected: Vec<u8> = vec![
        0, 1, 2, 3, 4, 5, 6, 7, 8, 9, 10, 11, 12, 13, 14, 15, 16, 17, 18, 19, 20, 21, 22, 23, 24,
        25, 26, 27, 28, 29, 30, 31, 8, 7, 6, 5, 4, 3, 2, 1, 24, 23, 22, 21, 20, 19, 18, 17, 1,
        212, 195, 178, 161,
    ];
    assert_eq!(bytes, expected);
}

#[test]
fn payload_without_an_extrinsic_ends_in_a_zero() {
    let bytes = payload(&[0u8; 32], 0, 1, None);
    let mut expected = vec![0u8; 49];
    expected[40] = 1;
    assert_eq!(bytes, expected);
    assert_eq!(payload(&[0u8; 32], 0, 1, Some(0)).len(), 53);
}

#[test]
fn random_value_is_the_digest_of_the_payload() {
    assert_eq!(
        random_value(&[0u8; 32], 0, 1, None),
        [13, 230, 184, 118, 55, 106, 96, 136, 215, 112, 142, 153, 15, 242, 178, 234]
    );
    assert_eq!(
        random_value(&[7u8; 32], 5, 1, Some(3)),
        [222, 74, 100, 79, 130, 232, 71, 221, 34, 217, 195, 25, 113, 20, 180, 38]
    );
    assert_eq!(
        random_value(&[7u8; 32], 5, 2, Some(3)),
        [230, 112, 55, 161, 121, 177, 213, 220, 253, 45, 213, 226, 213, 125, 223, 218]
    );
    let mut seed = [0u8; 32];
    for (i, byte) in seed.iter_mut().enumerate() {
        *byte = i as u8;
    }
    assert_eq!(
        random_value(&seed, 0x0102030405060708, 0x1112131415161718, Some(0xA1B2C3D4)),
        [167, 89, 94, 11, 153, 156, 188, 15, 93, 176, 216, 19, 42, 246, 14, 199]
    );
}

#[test]
fn random_value_agrees_with_the_hash_of_the_layout() {
    let bytes = payload(&[9u8; 32], 77, 42, Some(6));
    assert_eq!(random_value(&[9u8; 32], 77, 42, Some(6)), sp_io::hashing::blake2_128(&bytes));
    assert_ne!(random_value(&[9u8; 32], 77, 42, Some(6)), random_value(&[9u8; 32], 77, 42, Some(7)));
    assert_ne!(random_value(&[9u8; 32], 77, 42, Some(6)), random_value(&[9u8; 32], 77, 42, None));
    assert_ne!(random_value(&[9u8; 32], 77, 42, Some(6)), random_value(&[9u8; 32], 78, 42, Some(6)));
    assert_ne!(random_value(&[9u8; 32], 77, 42, Some(6)), random_value(&[8u8; 32], 77, 42, Some(6)));
}

#[test]
fn combine_takes_each_bit_from_the_parent_the_selector_names() {
    let parent_1 = [0b1111_0000u8; 16];
    let parent_2 = [0b0000_1111u8; 16];
    let mut selector = [0u8; 16];
    selector[0] = 0b1010_1010;
    selector[1] = 0xff;
    selector[15] = 0b1100_0011;
    let child = combine(&parent_1, &parent_2, &selector);
    let mut expected = [0b0000_1111u8; 16];
    expected[0] = 0b1010_0101;
    expected[1] = 0b1111_0000;
    expected[15] = 0b1100_1100;
    assert_eq!(child, expected);
}

#[test]
fn combine_follows_the_formula_on_every_byte() {
    let mut parent_1 = [0u8; 16];
    let mut parent_2 = [0u8; 16];
    let mut selector = [0u8; 16];
    for i in 0..16 {
        parent_1[i] = (i as u8).wrapping_mul(37).wrapping_add(11);
        parent_2[i] = (i as u8).wrapping_mul(101).wrapping_add(200);
        selector[i] = (i as u8).wrapping_mul(53).wrapping_add(7);
    }
    let child = combine(&parent_1, &parent_2, &selector);
    for i in 0..16 {
        assert_eq!(child[i], (parent_1[i] & selector[i]) | (parent_2[i] & !selector[i]));
    }
}

#[test]
fn combine_at_the_extremes() {
    let parent_1 = [0x5au8; 16];
    let parent_2 = [0xc3u8; 16];
    assert_eq!(combine(&parent_1, &parent_2, &[0xff; 16]), parent_1);
    assert_eq!(combine(&parent_1, &parent_2, &[0x00; 16]), parent_2);
    assert_eq!(combine(&parent_1, &parent_1, &[0x6b; 16]), parent_1);
}

#[test]
fn kitties_are_equal_when_their_genomes_are() {
    let mut dna = [3u8; 16];
    assert_eq!(Kitty(dna), Kitty([3u8; 16]));
    assert!(Kitty(dna).same(&Kitty([3u8; 16])));
    dna[15] = 4;
    assert_ne!(Kitty(dna), Kitty([3u8; 16]));
    assert!(!Kitty(dna).same(&Kitty([3u8; 16])));
    dna[15] = 3;
    dna[0] = 0;
    assert_ne!(Kitty(dna), Kitty([3u8; 16]));
}
