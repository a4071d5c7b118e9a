use barcoders::sym::ean8::EAN8;
use barcoders::sym::ean_supp::EANSUPP;

fn collapse_vec(v: Vec<u8>) -> String {
    let chars = v.iter().map(|d| char::from_digit(*d as u32, 10).unwrap());
    chars.collect()
}

#[test]
fn new_ean8() {
    let ean8 = EAN8::new("1234567".to_string());

    assert!(ean8.is_ok());
}

#[test]
fn invalid_data_ean8() {
    let ean8 = EAN8::new("1234er123412".to_string());

    assert!(ean8.is_err());
}

#[test]
fn invalid_len_ean8() {
    let ean8 = EAN8::new("1111112222222333333".to_string());

    assert!(ean8.is_err());
}

#[test]
fn ean8_raw_data() {
    let ean8 = EAN8::new("1234567".to_string()).unwrap();

    assert_eq!(ean8.raw_data(), &[1, 2, 3, 4, 5, 6, 7]);
}

#[test]
fn ean8_encode() {
    let ean81 = EAN8::new("5512345".to_string()).unwrap(); // Check digit: 7
    let ean82 = EAN8::new("9834651".to_string()).unwrap(); // Check digit: 6

    assert_eq!(
        collapse_vec(ean81.encode()),
        "1010110001011000100110010010011010101000010101110010011101000100101".to_string()
    );
    assert_eq!(
        collapse_vec(ean82.encode()),
        "1010001011011011101111010100011010101010000100111011001101010000101".to_string()
    );
}

#[test]
fn ean8_checksum_calculation() {
    let ean81 = EAN8::new("4575678".to_string()).unwrap(); // Check digit: 8
    let ean82 = EAN8::new("9534763".to_string()).unwrap(); // Check digit: 9

    assert_eq!(ean81.checksum_digit(), 8);
    assert_eq!(ean82.checksum_digit(), 9);
}

#[test]
fn new_ean2() {
    let ean2 = EANSUPP::new("12".to_string());

    assert!(ean2.is_ok());
}

#[test]
fn new_ean5() {
    let ean5 = EANSUPP::new("12345".to_string());

    assert!(ean5.is_ok());
}

#[test]
fn invalid_data_ean2() {
    let ean2 = EANSUPP::new("AT".to_string());

    assert!(ean2.is_err());
}

#[test]
fn invalid_len_ean2() {
    let ean2 = EANSUPP::new("123".to_string());

    assert!(ean2.is_err());
}

#[test]
fn ean2_raw_data() {
    let ean2 = EANSUPP::new("98".to_string()).unwrap();

    assert_eq!(ean2.raw_data(), &[9, 8]);
}

#[test]
fn ean5_raw_data() {
    let ean5 = EANSUPP::new("98567".to_string()).unwrap();

    assert_eq!(ean5.raw_data(), &[9, 8, 5, 6, 7]);
}

#[test]
fn ean2_encode() {
    let ean21 = EANSUPP::new("34".to_string()).unwrap();

    assert_eq!(collapse_vec(ean21.encode()), "10110100001010100011".to_string());
}

#[test]
fn ean5_encode() {
    let ean51 = EANSUPP::new("51234".to_string()).unwrap();

    assert_eq!(
        collapse_vec(ean51.encode()),
        "10110110001010011001010011011010111101010011101".to_string()
    );
}
