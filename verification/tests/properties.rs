use barcoders::sym::ean8::EAN8;
use barcoders::sym::ean_supp::EANSUPP;
use barcoders::sym::ValidationError;

#[test]
fn ean8_encodes_sixty_seven_bits() {
    let ean8 = EAN8::new("1234567".to_string()).unwrap();

    assert_eq!(ean8.encode().len(), 67);
}

#[test]
fn ean8_checksum_rederived_from_raw_data() {
    let ean8 = EAN8::new("4575678".to_string()).unwrap();
    let digits = ean8.raw_data();
    let mut odds: u32 = 0;
    let mut evens: u32 = 0;
    for (i, d) in digits.iter().enumerate() {
        if i % 2 == 1 {
            evens += *d as u32;
        } else {
            odds += *d as u32;
        }
    }
    let rederived = (10 - (odds * 3 + evens) % 10) % 10;

    assert_eq!(rederived as u8, ean8.checksum_digit());
}

#[test]
fn ean8_rejects_length_outside_range() {
    assert_eq!(
        EAN8::new("123456".to_string()),
        Err(ValidationError::Length { min: 7, max: 7 })
    );
    assert_eq!(
        EAN8::new("12345678".to_string()),
        Err(ValidationError::Length { min: 7, max: 7 })
    );
    assert_eq!(
        EAN8::new("".to_string()),
        Err(ValidationError::Length { min: 7, max: 7 })
    );
    assert!(EAN8::new("1234567".to_string()).is_ok());
}

#[test]
fn ean8_rejects_first_invalid_character() {
    assert_eq!(
        EAN8::new("12e4567".to_string()),
        Err(ValidationError::InvalidCharacter { found: 'e' })
    );
    assert_eq!(
        EAN8::new("1a2b567".to_string()),
        Err(ValidationError::InvalidCharacter { found: 'a' })
    );
}

#[test]
fn eansupp_variant_selected_by_digit_count() {
    assert!(matches!(
        EANSUPP::new("12".to_string()),
        Ok(EANSUPP::EAN2 { .. })
    ));
    assert!(matches!(
        EANSUPP::new("12345".to_string()),
        Ok(EANSUPP::EAN5 { .. })
    ));
    assert_eq!(
        EANSUPP::new("123".to_string()),
        Err(ValidationError::UnsupportedLength { len: 3 })
    );
    assert_eq!(
        EANSUPP::new("1234".to_string()),
        Err(ValidationError::UnsupportedLength { len: 4 })
    );
}

#[test]
fn eansupp_rejects_length_outside_range() {
    assert_eq!(
        EANSUPP::new("1".to_string()),
        Err(ValidationError::Length { min: 2, max: 5 })
    );
    assert_eq!(
        EANSUPP::new("123456".to_string()),
        Err(ValidationError::Length { min: 2, max: 5 })
    );
}

#[test]
fn eansupp_rejects_first_invalid_character() {
    assert_eq!(
        EANSUPP::new("1x345".to_string()),
        Err(ValidationError::InvalidCharacter { found: 'x' })
    );
}

#[test]
fn eansupp_encode_lengths() {
    let ean2 = EANSUPP::new("34".to_string()).unwrap();
    let ean5 = EANSUPP::new("51234".to_string()).unwrap();

    assert_eq!(ean2.encode().len(), 20);
    assert_eq!(ean5.encode().len(), 47);
}

#[test]
fn eansupp_checksum_calculation() {
    let ean5 = EANSUPP::new("51234".to_string()).unwrap();
    let ean2 = EANSUPP::new("34".to_string()).unwrap();

    assert_eq!(ean5.checksum_digit(), 9);
    assert_eq!(ean2.checksum_digit(), 5);
}

#[test]
fn encode_is_idempotent() {
    let ean8 = EAN8::new("5512345".to_string()).unwrap();
    let supp = EANSUPP::new("51234".to_string()).unwrap();

    assert_eq!(ean8.encode(), ean8.encode());
    assert_eq!(supp.encode(), supp.encode());
}

#[test]
fn raw_data_round_trips_the_input() {
    let ean8 = EAN8::new("9834651".to_string()).unwrap();
    let supp = EANSUPP::new("05943".to_string()).unwrap();

    assert_eq!(ean8.raw_data(), &[9, 8, 3, 4, 6, 5, 1]);
    assert_eq!(supp.raw_data(), &[0, 5, 9, 4, 3]);
}
