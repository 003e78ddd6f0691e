use wows_replays::decxxd::decode_decimal_bytes;

#[test]
fn comma_separated_decimals_become_bytes() {
    assert_eq!(decode_decimal_bytes("12, 0, 255"), vec![12, 0, 255]);
    assert_eq!(decode_decimal_bytes("1,2,3\n"), vec![1, 2, 3]);
}

#[test]
fn fields_that_are_not_bytes_are_skipped() {
    assert_eq!(decode_decimal_bytes("7, 256, x, -1, , +9"), vec![7, 9]);
    assert_eq!(decode_decimal_bytes(""), Vec::<u8>::new());
}
