use signal_backup::util::{
    array_as_u32, fill_to, u32_as_vec, u32_into_vec, vec_as_u32, zeroed, VecExt,
};

#[test]
fn array_as_u32_reads_most_significant_byte_first() {
    assert_eq!(array_as_u32(&[0x01, 0x02, 0x03, 0x04]), 0x0102_0304);
    assert_eq!(array_as_u32(&[0, 0, 0, 0]), 0);
    assert_eq!(array_as_u32(&[0xff, 0xff, 0xff, 0xff]), u32::MAX);
    assert_eq!(array_as_u32(&[0, 0, 1, 0]), 256);
}

#[test]
fn vec_as_u32_reads_the_first_four_bytes() {
    assert_eq!(vec_as_u32(&[0xde, 0xad, 0xbe, 0xef]), 0xdead_beef);
    assert_eq!(vec_as_u32(&[0, 0, 0, 22, 99, 98, 97]), 22);
    assert_eq!(vec_as_u32(&[0x80, 0, 0, 0, 0xff]), 0x8000_0000);
}

#[test]
fn u32_as_vec_spells_most_significant_byte_first() {
    assert_eq!(u32_as_vec(0x0102_0304), vec![1, 2, 3, 4]);
    assert_eq!(u32_as_vec(0), vec![0, 0, 0, 0]);
    assert_eq!(u32_as_vec(u32::MAX), vec![255, 255, 255, 255]);
    assert_eq!(u32_as_vec(0xdead_beef), vec![0xde, 0xad, 0xbe, 0xef]);
}

#[test]
fn u32_round_trips_through_bytes() {
    let samples: [u32; 7] = [0, 1, 255, 256, 0x00ff_ff00, 0x8000_0001, u32::MAX];
    for n in samples {
        assert_eq!(vec_as_u32(&u32_as_vec(n)), n);
    }
    let bytes: [u8; 4] = [9, 0, 200, 17];
    assert_eq!(u32_as_vec(array_as_u32(&bytes)), bytes.to_vec());
}

#[test]
fn u32_into_vec_overwrites_only_the_first_four_bytes() {
    let mut dest: Vec<u8> = vec![9, 9, 9, 9, 5, 6, 7];
    u32_into_vec(&mut dest, 0x0a0b_0c0d);
    assert_eq!(dest, vec![0x0a, 0x0b, 0x0c, 0x0d, 5, 6, 7]);
    let mut exact: Vec<u8> = vec![1, 1, 1, 1];
    u32_into_vec(&mut exact, 1);
    assert_eq!(exact, vec![0, 0, 0, 1]);
}

#[test]
fn zeroed_has_the_length_asked_for() {
    assert_eq!(zeroed(0), Vec::<u8>::new());
    assert_eq!(zeroed(5), vec![0, 0, 0, 0, 0]);
    assert_eq!(zeroed(64), vec![0u8; 64]);
}

#[test]
fn fill_to_pads_with_zeros() {
    assert_eq!(fill_to(vec![1, 2, 3], 6), vec![1, 2, 3, 0, 0, 0]);
    assert_eq!(fill_to(vec![1, 2, 3], 3), vec![1, 2, 3]);
    assert_eq!(fill_to(Vec::new(), 2), vec![0, 0]);
}

#[test]
fn chew_takes_items_off_the_front() {
    let mut v: Vec<u8> = vec![1, 2, 3, 4, 5];
    let head = v.chew(2);
    assert_eq!(head, vec![1, 2]);
    assert_eq!(v, vec![3, 4, 5]);
    let none = v.chew(0);
    assert_eq!(none, Vec::<u8>::new());
    assert_eq!(v, vec![3, 4, 5]);
    let all = v.chew(3);
    assert_eq!(all, vec![3, 4, 5]);
    assert!(v.is_empty());
}

#[test]
fn chew_works_on_other_items_than_bytes() {
    let mut words: Vec<String> = vec!["a".to_string(), "b".to_string(), "c".to_string()];
    let head = words.chew(1);
    assert_eq!(head, vec!["a".to_string()]);
    assert_eq!(words, vec!["b".to_string(), "c".to_string()]);
}
