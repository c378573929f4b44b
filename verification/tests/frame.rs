use signal_backup::error::ErrorKind;
use signal_backup::frame::{
    check_tag, split_frame, verify, FrameCipher, CIPHER_KEY_SIZE, IV_SIZE, TAG_SIZE,
};
use signal_backup::keys::KeyMaterial;

const ZERO_KEY_MAC_KEY: [u8; 32] = [
    254, 110, 136, 20, 144, 163, 212, 14, 163, 216, 169, 152, 68, 169, 87, 14, 180, 104, 151, 121,
    115, 196, 104, 115, 100, 104, 145, 182, 113, 142, 214, 121,
];

const CODE: [u8; 32] = [
    221, 248, 86, 219, 143, 40, 201, 188, 101, 219, 222, 29, 154, 109, 33, 54, 12, 235, 87, 227,
    31, 76, 221, 224, 28, 50, 5, 4, 33, 231, 62, 122,
];

const CIPHERTEXT: [u8; 33] = [
    204, 168, 21, 157, 83, 106, 153, 203, 13, 242, 71, 2, 119, 104, 106, 204, 73, 25, 67, 27, 190,
    103, 24, 11, 188, 253, 57, 186, 66, 46, 154, 233, 107,
];

fn counting_iv() -> Vec<u8> {
    (0u8..16).collect()
}

fn zero_keys() -> KeyMaterial {
    KeyMaterial::expand(&[0u8; 32])
}

#[test]
fn sizes_are_those_of_the_format() {
    assert_eq!(TAG_SIZE, 10);
    assert_eq!(IV_SIZE, 16);
    assert_eq!(CIPHER_KEY_SIZE, 16);
}

#[test]
fn split_frame_cuts_off_the_last_ten_bytes() {
    let body: Vec<u8> = (1u8..=13).collect();
    let (ciphertext, tag) = split_frame(&body).unwrap();
    assert_eq!(ciphertext, &[1, 2, 3][..]);
    assert_eq!(tag, &[4, 5, 6, 7, 8, 9, 10, 11, 12, 13][..]);
}

#[test]
fn split_frame_accepts_an_empty_ciphertext() {
    let body: Vec<u8> = (1u8..=10).collect();
    let (ciphertext, tag) = split_frame(&body).unwrap();
    assert!(ciphertext.is_empty());
    assert_eq!(tag, &body[..]);
}

#[test]
fn split_frame_refuses_a_body_shorter_than_a_tag() {
    let e = split_frame(&[1, 2, 3, 4, 5, 6, 7, 8, 9]).unwrap_err();
    assert_eq!(e.kind(), ErrorKind::Format);
    assert_eq!(e.message(), "frame too short");
    assert_eq!(e.frame(), None);
    assert!(split_frame(&[]).is_err());
}

#[test]
fn verify_accepts_the_truncated_code() {
    assert!(verify(b"ciphertext bytes", &CODE[..10], &ZERO_KEY_MAC_KEY).is_ok());
}

#[test]
fn verify_refuses_every_flipped_tag_bit() {
    for bit in 0..80usize {
        let mut tag = CODE[..10].to_vec();
        tag[bit / 8] ^= 1u8 << (bit % 8);
        let e = verify(b"ciphertext bytes", &tag, &ZERO_KEY_MAC_KEY).unwrap_err();
        assert_eq!(e.kind(), ErrorKind::Authentication);
        assert_eq!(e.message(), "frame authentication failed");
    }
}

#[test]
fn verify_refuses_every_flipped_ciphertext_bit() {
    let ciphertext = b"ciphertext bytes".to_vec();
    for bit in 0..ciphertext.len() * 8 {
        let mut changed = ciphertext.clone();
        changed[bit / 8] ^= 1u8 << (bit % 8);
        let e = verify(&changed, &CODE[..10], &ZERO_KEY_MAC_KEY).unwrap_err();
        assert_eq!(e.kind(), ErrorKind::Authentication);
    }
}

#[test]
fn verify_refuses_tags_of_other_lengths() {
    assert!(verify(b"ciphertext bytes", &CODE[..9], &ZERO_KEY_MAC_KEY).is_err());
    assert!(verify(b"ciphertext bytes", &CODE[..11], &ZERO_KEY_MAC_KEY).is_err());
    assert!(verify(b"ciphertext bytes", &CODE[..], &ZERO_KEY_MAC_KEY).is_err());
    assert!(verify(b"ciphertext bytes", &[], &ZERO_KEY_MAC_KEY).is_err());
}

#[test]
fn verify_refuses_another_key() {
    let mut key = ZERO_KEY_MAC_KEY;
    key[31] ^= 1;
    assert!(verify(b"ciphertext bytes", &CODE[..10], &key).is_err());
}

#[test]
fn verify_does_not_accept_the_ciphertext_as_its_own_tag() {
    let ciphertext: [u8; 10] = [1, 2, 3, 4, 5, 6, 7, 8, 9, 10];
    assert!(verify(&ciphertext, &ciphertext, &ZERO_KEY_MAC_KEY).is_err());
}

#[test]
fn cipher_refuses_a_counter_block_of_another_length() {
    let keys = zero_keys();
    for len in [0usize, 4, 15, 17, 32] {
        let iv = vec![7u8; len];
        let e = match FrameCipher::new(&keys, &iv) {
            Ok(_) => panic!("accepted a counter block of {} bytes", len),
            Err(e) => e,
        };
        assert_eq!(e.kind(), ErrorKind::Format);
        assert_eq!(e.message(), "invalid iv length");
        assert_eq!(e.frame(), None);
    }
}

#[test]
fn cipher_counter_starts_at_the_first_four_bytes() {
    let cipher = FrameCipher::new(&zero_keys(), &counting_iv()).unwrap();
    assert_eq!(cipher.counter(), 0x0001_0203);
    assert_eq!(cipher.iv(), &counting_iv()[..]);
}

#[test]
fn decrypt_frame_matches_known_vector() {
    let mut cipher = FrameCipher::new(&zero_keys(), &counting_iv()).unwrap();
    let plaintext = cipher.decrypt_frame(&CIPHERTEXT);
    assert_eq!(plaintext, b"attack at dawn, attack at dusk!!+".to_vec());
    assert_eq!(cipher.iv(), &[0, 1, 2, 3, 4, 5, 6, 7, 8, 9, 10, 11, 0, 1, 2, 3][..]);
    assert_eq!(cipher.counter(), 0x0001_0204);
    let second = cipher.decrypt_frame(&[91, 8, 84, 21, 179, 104]);
    assert_eq!(second, b"second".to_vec());
    assert_eq!(cipher.iv(), &[0, 1, 2, 3, 4, 5, 6, 7, 8, 9, 10, 11, 0, 1, 2, 4][..]);
    assert_eq!(cipher.counter(), 0x0001_0205);
}

#[test]
fn decrypt_frame_does_not_hand_back_its_input() {
    let mut cipher = FrameCipher::new(&zero_keys(), &counting_iv()).unwrap();
    let plaintext = cipher.decrypt_frame(&CIPHERTEXT);
    assert_ne!(plaintext, CIPHERTEXT.to_vec());
    assert_eq!(plaintext.len(), CIPHERTEXT.len());
}

#[test]
fn decrypt_frame_of_nothing_still_counts() {
    let mut cipher = FrameCipher::new(&zero_keys(), &counting_iv()).unwrap();
    assert_eq!(cipher.decrypt_frame(&[]), Vec::<u8>::new());
    assert_eq!(cipher.counter(), 0x0001_0204);
    assert_eq!(cipher.decrypt_frame(&[91, 8, 84, 21, 179, 104]), b"second".to_vec());
}

#[test]
fn decrypting_twice_from_the_same_state_gives_the_data_back() {
    let data = b"any bytes at all \x00\x01\x02\xff, longer than a block".to_vec();
    let mut seal = FrameCipher::new(&zero_keys(), &counting_iv()).unwrap();
    let mut open = FrameCipher::new(&zero_keys(), &counting_iv()).unwrap();
    let sealed = seal.decrypt_frame(&data);
    assert_ne!(sealed, data);
    assert_eq!(open.decrypt_frame(&sealed), data);
}

#[test]
fn counter_block_follows_the_frames() {
    let iv: Vec<u8> = vec![0, 0, 0, 41, 1, 2, 3, 4, 5, 6, 7, 8, 9, 9, 9, 9];
    let mut cipher = FrameCipher::new(&zero_keys(), &iv).unwrap();
    for k in 0..20u32 {
        assert_eq!(cipher.counter(), 41 + k);
        let _ = cipher.decrypt_frame(&[1, 2, 3]);
        let used = cipher.iv().to_vec();
        assert_eq!(&used[..12], &iv[..12]);
        assert_eq!(&used[12..], &(41 + k).to_be_bytes()[..]);
    }
    assert_eq!(cipher.counter(), 61);
}

#[test]
fn counter_wraps_after_the_largest() {
    let iv: Vec<u8> = vec![255, 255, 255, 254, 16, 17, 18, 19, 20, 21, 22, 23, 160, 161, 162, 163];
    let mut cipher = FrameCipher::new(&zero_keys(), &iv).unwrap();
    assert_eq!(cipher.counter(), 0xffff_fffe);
    let _ = cipher.decrypt_frame(&[0]);
    assert_eq!(&cipher.iv()[12..], &[255, 255, 255, 254][..]);
    let _ = cipher.decrypt_frame(&[0]);
    assert_eq!(&cipher.iv()[12..], &[255, 255, 255, 255][..]);
    assert_eq!(cipher.counter(), 0);
    let _ = cipher.decrypt_frame(&[0]);
    assert_eq!(&cipher.iv()[12..], &[0, 0, 0, 0][..]);
    assert_eq!(&cipher.iv()[..12], &iv[..12]);
    assert_eq!(cipher.counter(), 1);
}

#[test]
fn frames_with_different_counters_decrypt_differently() {
    let mut cipher = FrameCipher::new(&zero_keys(), &counting_iv()).unwrap();
    let first = cipher.decrypt_frame(&[0u8; 16]);
    let second = cipher.decrypt_frame(&[0u8; 16]);
    assert_ne!(first, second);
}

#[test]
fn check_tag_accepts_the_head_of_the_code() {
    let code: Vec<u8> = (1u8..=32).collect();
    assert!(check_tag(&code[..10], &code).is_ok());
    assert!(check_tag(&[1, 2, 3, 4, 5, 6, 7, 8, 9, 10], &code[..10]).is_ok());
}

#[test]
fn check_tag_refuses_anything_else() {
    let code: Vec<u8> = (1u8..=32).collect();
    let e = check_tag(&[1, 2, 3, 4, 5, 6, 7, 8, 9, 11], &code).unwrap_err();
    assert_eq!(e.kind(), ErrorKind::Authentication);
    assert_eq!(e.message(), "frame authentication failed");
    assert_eq!(e.frame(), None);
    assert!(check_tag(&code[..9], &code).is_err());
    assert!(check_tag(&code[..11], &code).is_err());
    assert!(check_tag(&code[1..11], &code).is_err());
    assert!(check_tag(&code, &code).is_err());
    assert!(check_tag(&[], &code).is_err());
}

#[test]
fn check_tag_refuses_a_code_shorter_than_a_tag() {
    assert!(check_tag(&[1, 2, 3], &[1, 2, 3]).is_err());
    assert!(check_tag(&[], &[]).is_err());
    assert!(check_tag(&[1, 2, 3, 4, 5, 6, 7, 8, 9, 10], &[1, 2, 3, 4, 5, 6, 7, 8, 9]).is_err());
}
