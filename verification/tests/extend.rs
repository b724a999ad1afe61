use fixedvec::FixedVec;

#[test]
fn test_extend() {
    let mut space: [u8; 16] = [0; 16];
    let mut vec = FixedVec::new(&mut space);
    vec.extend(0..6);
    assert_eq!(&[0, 1, 2, 3, 4, 5], vec.as_slice());
}
