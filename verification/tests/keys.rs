use signal_backup::keys::{backup_key, normalize_password, stretch, KeyMaterial};

const BACKUP_KEY: [u8; 32] = [
    92, 126, 201, 251, 12, 254, 3, 191, 43, 98, 188, 148, 193, 136, 155, 235, 160, 186, 108, 64,
    0, 199, 63, 101, 229, 180, 136, 141, 42, 186, 219, 227,
];

const CIPHER_KEY: [u8; 32] = [
    31, 198, 153, 183, 68, 214, 51, 117, 123, 111, 221, 123, 25, 116, 54, 119, 61, 186, 235, 84,
    211, 119, 251, 31, 235, 179, 130, 75, 112, 229, 253, 98,
];

const MAC_KEY: [u8; 32] = [
    195, 58, 91, 138, 26, 135, 2, 184, 191, 171, 144, 44, 201, 127, 85, 181, 73, 89, 234, 228, 16,
    177, 209, 140, 208, 215, 222, 12, 233, 122, 23, 131,
];

const SALTED_BACKUP_KEY: [u8; 32] = [
    13, 162, 228, 124, 128, 132, 33, 104, 184, 14, 48, 221, 29, 148, 233, 216, 32, 215, 164, 187,
    83, 145, 166, 30, 235, 226, 130, 186, 188, 151, 173, 68,
];

const SALTED_CIPHER_KEY: [u8; 32] = [
    108, 73, 124, 123, 134, 169, 35, 66, 104, 169, 15, 46, 91, 144, 65, 231, 169, 48, 240, 166,
    104, 196, 91, 94, 189, 50, 166, 110, 91, 146, 163, 241,
];

const SALTED_MAC_KEY: [u8; 32] = [
    12, 159, 238, 214, 242, 188, 135, 166, 207, 48, 127, 134, 255, 138, 13, 104, 13, 132, 0, 75,
    153, 213, 63, 154, 190, 163, 235, 154, 113, 168, 166, 95,
];

fn salt_of_32() -> Vec<u8> {
    (0u8..32).collect()
}

#[test]
fn normalize_password_strips_white_space_and_spaces() {
    assert_eq!(normalize_password("correct horse"), b"correcthorse".to_vec());
    assert_eq!(normalize_password("  correct   horse \n"), b"correcthorse".to_vec());
    assert_eq!(normalize_password("\u{3000}\tcorrect  horse\n "), b"correcthorse".to_vec());
    assert_eq!(normalize_password("12345 67890 12345"), b"123456789012345".to_vec());
}

#[test]
fn normalize_password_keeps_inner_white_space_that_is_no_space() {
    assert_eq!(normalize_password(" a\tb c "), vec![97, 9, 98, 99]);
    assert_eq!(normalize_password("a\nb"), vec![97, 10, 98]);
}

#[test]
fn normalize_password_encodes_as_utf8() {
    assert_eq!(normalize_password(" \u{e9} \u{20ac} "), vec![0xc3, 0xa9, 0xe2, 0x82, 0xac]);
}

#[test]
fn normalize_password_of_nothing_is_empty() {
    assert_eq!(normalize_password(""), Vec::<u8>::new());
    assert_eq!(normalize_password("   \t\n"), Vec::<u8>::new());
}

#[test]
fn stretch_without_rounds_is_the_zero_buffer() {
    assert_eq!(stretch(b"abc", &[1, 2], 0), vec![0u8; 64]);
}

#[test]
fn stretch_first_round_digests_salt_and_input_twice() {
    assert_eq!(
        stretch(b"abc", &[1, 2], 1),
        vec![
            155, 246, 61, 232, 83, 57, 85, 109, 7, 61, 185, 195, 224, 56, 207, 126, 214, 74, 62,
            18, 15, 135, 31, 131, 216, 153, 249, 180, 11, 53, 228, 25, 228, 52, 62, 37, 78, 126,
            170, 44, 12, 14, 180, 16, 74, 58, 145, 70, 139, 19, 87, 41, 116, 12, 184, 204, 178,
            192, 211, 33, 166, 77, 117, 24
        ]
    );
}

#[test]
fn stretch_first_round_without_salt() {
    assert_eq!(
        stretch(b"abc", &[], 1),
        vec![
            243, 196, 30, 123, 99, 238, 134, 149, 150, 252, 40, 186, 214, 65, 32, 97, 44, 82, 15,
            101, 146, 138, 180, 209, 38, 199, 44, 105, 152, 181, 81, 184, 255, 28, 237, 223, 237,
            67, 115, 230, 113, 117, 84, 220, 137, 209, 238, 230, 240, 171, 34, 253, 54, 117, 229,
            97, 171, 169, 174, 38, 163, 238, 197, 59
        ]
    );
}

#[test]
fn stretch_later_rounds_digest_hash_and_input() {
    assert_eq!(
        stretch(b"abc", &[1, 2], 2),
        vec![
            44, 170, 196, 241, 135, 133, 220, 142, 212, 198, 135, 39, 117, 72, 83, 214, 244, 95,
            170, 103, 70, 72, 223, 91, 35, 10, 63, 130, 243, 160, 176, 216, 24, 117, 225, 12, 130,
            246, 242, 53, 224, 175, 161, 167, 62, 177, 93, 251, 180, 45, 132, 55, 4, 52, 142, 11,
            187, 149, 242, 177, 187, 194, 133, 239
        ]
    );
    assert_eq!(
        stretch(b"abc", &[1, 2], 3),
        vec![
            39, 22, 133, 231, 39, 207, 170, 60, 197, 108, 135, 115, 86, 6, 209, 247, 255, 193, 26,
            149, 212, 234, 229, 241, 239, 228, 243, 7, 121, 230, 233, 141, 193, 13, 103, 80, 0,
            246, 221, 180, 132, 254, 193, 195, 234, 92, 33, 197, 114, 189, 54, 33, 136, 111, 144,
            57, 108, 231, 176, 11, 55, 155, 121, 92
        ]
    );
}

#[test]
fn backup_key_matches_known_vector() {
    assert_eq!(backup_key("correct horse", &[]), BACKUP_KEY.to_vec());
}

#[test]
fn backup_key_with_salt_matches_known_vector() {
    assert_eq!(backup_key("correct horse", &salt_of_32()), SALTED_BACKUP_KEY.to_vec());
}

#[test]
fn derive_matches_known_vector_for_empty_salt() {
    let keys = KeyMaterial::derive("correct horse", &[]);
    assert_eq!(keys.cipher_key(), &CIPHER_KEY[..]);
    assert_eq!(keys.mac_key(), &MAC_KEY[..]);
}

#[test]
fn derive_matches_known_vector_with_salt() {
    let keys = KeyMaterial::derive("correct horse", &salt_of_32());
    assert_eq!(keys.cipher_key(), &SALTED_CIPHER_KEY[..]);
    assert_eq!(keys.mac_key(), &SALTED_MAC_KEY[..]);
}

#[test]
fn derive_is_deterministic() {
    let first = KeyMaterial::derive("hunter2", &[9, 8, 7]);
    let second = KeyMaterial::derive("hunter2", &[9, 8, 7]);
    assert_eq!(first.cipher_key(), second.cipher_key());
    assert_eq!(first.mac_key(), second.mac_key());
    assert_ne!(first.cipher_key(), first.mac_key());
}

#[test]
fn derive_ignores_white_space_in_the_password() {
    let keys = KeyMaterial::derive("  correct    horse\n", &[]);
    assert_eq!(keys.cipher_key(), &CIPHER_KEY[..]);
    assert_eq!(keys.mac_key(), &MAC_KEY[..]);
}

#[test]
fn derive_depends_on_password_and_salt() {
    let keys = KeyMaterial::derive("correct horses", &[]);
    assert_ne!(keys.cipher_key(), &CIPHER_KEY[..]);
    assert_ne!(keys.mac_key(), &MAC_KEY[..]);
    let salted = KeyMaterial::derive("correct horse", &[0]);
    assert_ne!(salted.cipher_key(), &CIPHER_KEY[..]);
}

#[test]
fn expand_splits_the_output_into_two_keys() {
    let keys = KeyMaterial::expand(&BACKUP_KEY);
    assert_eq!(keys.cipher_key(), &CIPHER_KEY[..]);
    assert_eq!(keys.mac_key(), &MAC_KEY[..]);
    assert_eq!(keys.cipher_key().len(), 32);
    assert_eq!(keys.mac_key().len(), 32);
}

#[test]
fn expand_of_the_zero_key_matches_known_vector() {
    let keys = KeyMaterial::expand(&[0u8; 32]);
    assert_eq!(
        keys.cipher_key(),
        &[
            197, 247, 181, 246, 80, 163, 254, 111, 38, 45, 112, 46, 65, 99, 68, 156, 57, 210, 212,
            39, 97, 23, 169, 148, 128, 109, 99, 117, 70, 117, 19, 155
        ][..]
    );
    assert_eq!(
        keys.mac_key(),
        &[
            254, 110, 136, 20, 144, 163, 212, 14, 163, 216, 169, 152, 68, 169, 87, 14, 180, 104,
            151, 121, 115, 196, 104, 115, 100, 104, 145, 182, 113, 142, 214, 121
        ][..]
    );
}

#[test]
fn split_halves_the_keying_material() {
    let okm: Vec<u8> = (0u8..64).collect();
    let keys = KeyMaterial::split(okm.clone());
    assert_eq!(keys.cipher_key(), &okm[..32]);
    assert_eq!(keys.mac_key(), &okm[32..]);
}
