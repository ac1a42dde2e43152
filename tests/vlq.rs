use midi_reader::vlq::Vlq;

#[test]
fn it_works() {
    let result = 2 + 2;
    assert_eq!(result, 4);
}

#[test]
fn vlq_tests() {
    let bytes = [0x7f, 0, 0, 0];
    let my_vlq = Vlq::from(bytes);
    let decoded = u32::from(my_vlq);
    assert_eq!(decoded, 127);

    let bytes = [0x81, 0, 0, 0];
    let my_vlq = Vlq::from(bytes);
    let decoded = u32::from(my_vlq);
    assert_eq!(decoded, 128);

    let bytes = [0xff, 0xff, 0xff, 0x7f];
    let my_vlq = Vlq::from(bytes);
    let decoded = u32::from(my_vlq);
    assert_eq!(decoded, 0x0fffffff);

    let decoded = u32::from(Vlq::from([0x7f, 0, 0, 0]));
    assert_eq!(decoded, 127);

    let decoded = u32::from(Vlq::from([0x81, 0, 0, 0]));
    assert_eq!(decoded, 128);

    let decoded = u32::from(Vlq::from([0xff, 0xff, 0xff, 0x7f]));
    assert_eq!(decoded, 0x0fffffff);
}

#[test]
fn vlq_single_byte_is_its_own_value() {
    for b in 0u8..=127 {
        assert_eq!(u32::from(Vlq::from([b, 0, 0, 0])), b as u32);
        assert_eq!(u32::from(Vlq::from([b, 0xff, 0x12, 0x80])), b as u32);
    }
}

#[test]
fn vlq_two_and_three_bytes() {
    assert_eq!(u32::from(Vlq::from([0x82, 0x01, 0xff, 0xff])), 0x101);
    assert_eq!(u32::from(Vlq::from([0x81, 0x80, 0x00, 0x55])), 0x4000);
    assert_eq!(u32::from(Vlq::from([0x80, 0x80, 0x80, 0x80])), 0);
}
