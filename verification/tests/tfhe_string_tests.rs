use transciphering::he::{HeError, HomomorphicEncryption};
use transciphering::tfhe_bool::TfheBool;
use transciphering::tfhe_string::{ClearString, FheStringIsEmpty, FheStringLen, TfheString};
use transciphering::tfhe_uint::TfheU32;

#[test]
fn test_encrypt_decrypt_string() {
    let (client_key, _server_key) = TfheString::keygen().unwrap();

    let value = String::from("Hello TFHE!");
    let ct = TfheString::encrypt(&client_key, &value).unwrap();
    let dec = TfheString::decrypt_string(&ct, &client_key);

    assert_eq!(dec, value);
}

#[test]
fn test_string_eq_ne() {
    let (ck, _sk) = TfheString::keygen().unwrap();

    let s1 = TfheString::encrypt(&ck, &String::from("Zama")).unwrap();
    let s2 = TfheString::encrypt(&ck, &String::from("zama")).unwrap();

    let eq_false = TfheString::eq_enc(&s1, &s2);
    let eq_true = TfheString::eq_enc(&s1, &s1);
    let ne_true = TfheString::ne_enc(&s1, &s2);
    let ne_false = TfheString::ne_enc(&s1, &s1);

    assert!(!TfheString::decrypt_bool(&eq_false, &ck));
    assert!(TfheString::decrypt_bool(&eq_true, &ck));
    assert!(TfheString::decrypt_bool(&ne_true, &ck));
    assert!(!TfheString::decrypt_bool(&ne_false, &ck));
}

#[test]
fn test_case_conversion() {
    let (ck, _sk) = TfheString::keygen().unwrap();

    let s = TfheString::encrypt(&ck, &String::from("TfHe123!")).unwrap();
    let lower = TfheString::to_lowercase_enc(&s);
    let upper = TfheString::to_uppercase_enc(&s);

    assert_eq!(TfheString::decrypt_string(&lower, &ck), "tfhe123!");
    assert_eq!(TfheString::decrypt_string(&upper, &ck), "TFHE123!");
}

#[test]
fn test_trim_and_strip() {
    let (ck, _sk) = TfheString::keygen().unwrap();

    let s = TfheString::encrypt(&ck, &String::from("   tfhe-rs   zama   ")).unwrap();

    let trimmed_start = TfheString::trim_start_enc(&s);
    let trimmed_end = TfheString::trim_end_enc(&s);
    let trimmed = TfheString::trim_enc(&s);

    assert_eq!(TfheString::decrypt_string(&trimmed_start, &ck), "tfhe-rs   zama   ");
    assert_eq!(TfheString::decrypt_string(&trimmed_end, &ck), "   tfhe-rs   zama");
    assert_eq!(TfheString::decrypt_string(&trimmed, &ck), "tfhe-rs   zama");

    let s = TfheString::encrypt(&ck, &String::from("The lazy cat")).unwrap();

    let (res, ok) = TfheString::strip_prefix_enc(&s, &ClearString::new("The".into()));
    assert!(TfheString::decrypt_bool(&ok, &ck));
    assert_eq!(TfheString::decrypt_string(&res, &ck), " lazy cat");

    let (res, ok) = TfheString::strip_suffix_enc(&s, &ClearString::new("cat".into()));
    assert!(TfheString::decrypt_bool(&ok, &ck));
    assert_eq!(TfheString::decrypt_string(&res, &ck), "The lazy ");
}

#[test]
fn test_strip_absent_prefix_leaves_string() {
    let (ck, _sk) = TfheString::keygen().unwrap();

    let s = TfheString::encrypt(&ck, &String::from("The lazy cat")).unwrap();
    let (res, ok) = TfheString::strip_prefix_enc(&s, &ClearString::new("cat".into()));
    assert!(!TfheString::decrypt_bool(&ok, &ck));
    assert_eq!(TfheString::decrypt_string(&res, &ck), "The lazy cat");

    let (res, ok) = TfheString::strip_suffix_enc(&s, &ClearString::new("The".into()));
    assert!(!TfheString::decrypt_bool(&ok, &ck));
    assert_eq!(TfheString::decrypt_string(&res, &ck), "The lazy cat");
}

#[test]
fn test_len_and_is_empty() {
    let (ck, _sk) = TfheString::keygen().unwrap();

    let s = TfheString::encrypt(&ck, &String::from("Zama")).unwrap();
    let len = TfheString::len_enc(&s);
    assert_eq!(TfheString::decrypt_len(&len, &ck), 4);
    let empty_flag = TfheString::is_empty_enc(&s);
    assert!(!TfheString::decrypt_is_empty(&empty_flag, &ck));

    let e = TfheString::encrypt(&ck, &String::new()).unwrap();
    let len = TfheString::len_enc(&e);
    assert_eq!(TfheString::decrypt_len(&len, &ck), 0);
    let empty_flag = TfheString::is_empty_enc(&e);
    assert!(TfheString::decrypt_is_empty(&empty_flag, &ck));

    match TfheString::len_enc(&s) {
        FheStringLen::NoPadding(l) => assert_eq!(l, 4),
        FheStringLen::Padding(_) => panic!("reference strings carry no padding"),
    }
    match TfheString::is_empty_enc(&e) {
        FheStringIsEmpty::NoPadding(b) => assert!(b),
        FheStringIsEmpty::Padding(_) => panic!("reference strings carry no padding"),
    }
}

#[test]
fn test_decrypt_padded_len_and_flag() {
    let (ck, _sk) = TfheString::keygen().unwrap();

    let enc_len = TfheU32::encrypt(&ck, &42).unwrap();
    let len = FheStringLen::Padding(enc_len);
    assert_eq!(TfheString::decrypt_len(&len, &ck), 42);

    let enc_flag = TfheBool::encrypt(&ck, &true).unwrap();
    let flag = FheStringIsEmpty::Padding(enc_flag);
    assert!(TfheString::decrypt_is_empty(&flag, &ck));
}

#[test]
fn test_encrypt_rejects_non_ascii() {
    let (ck, _sk) = TfheString::keygen().unwrap();

    let res = TfheString::encrypt(&ck, &String::from("caf\u{e9}"));
    assert!(matches!(res, Err(HeError::EncryptError)));
}

#[test]
fn test_string_add_mul_unsupported() {
    let (ck, _sk) = TfheString::keygen().unwrap();

    let a = TfheString::encrypt(&ck, &String::from("a")).unwrap();
    let b = TfheString::encrypt(&ck, &String::from("b")).unwrap();

    assert!(matches!(TfheString::add(&a, &b), Err(HeError::UnsupportedOperation(_))));
    assert!(matches!(TfheString::mul(&a, &b), Err(HeError::UnsupportedOperation(_))));
}
