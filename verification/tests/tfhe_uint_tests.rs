use transciphering::he::{HeError, HomomorphicEncryption};
use transciphering::tfhe_uint::TfheU32;

#[test]
fn tfhe_test_encrypt_decrypt_roundtrip() {
    let (client_key, _server_key) = TfheU32::keygen().unwrap();

    let value: u32 = 12345;
    let ct = TfheU32::encrypt(&client_key, &value).unwrap();
    let dec = TfheU32::decrypt(&client_key, &ct).unwrap();

    assert_eq!(dec, value);
}

#[test]
fn tfhe_test_addition() {
    let (client_key, _server_key) = TfheU32::keygen().unwrap();

    let a: u32 = 5;
    let b: u32 = 7;

    let ct_a = TfheU32::encrypt(&client_key, &a).unwrap();
    let ct_b = TfheU32::encrypt(&client_key, &b).unwrap();

    let ct_sum = TfheU32::add(&ct_a, &ct_b).unwrap();
    let dec_sum = TfheU32::decrypt(&client_key, &ct_sum).unwrap();

    assert_eq!(dec_sum, a + b);
}

#[test]
fn tfhe_test_multiplication() {
    let (client_key, _server_key) = TfheU32::keygen().unwrap();

    let a: u32 = 2;
    let b: u32 = 3;

    let ct_a = TfheU32::encrypt(&client_key, &a).unwrap();
    let ct_b = TfheU32::encrypt(&client_key, &b).unwrap();

    let ct_prod = TfheU32::mul(&ct_a, &ct_b).unwrap();
    let dec_prod = TfheU32::decrypt(&client_key, &ct_prod).unwrap();

    assert_eq!(dec_prod, a * b);
}

#[test]
fn tfhe_test_chain_operations() {
    let (client_key, _server_key) = TfheU32::keygen().unwrap();

    let x: u32 = 9;
    let y: u32 = 4;
    let z: u32 = 2;

    let ct_x = TfheU32::encrypt(&client_key, &x).unwrap();
    let ct_y = TfheU32::encrypt(&client_key, &y).unwrap();
    let ct_z = TfheU32::encrypt(&client_key, &z).unwrap();

    let ct_sum = TfheU32::add(&ct_x, &ct_y).unwrap();
    let ct_expr = TfheU32::mul(&ct_sum, &ct_z).unwrap();

    let dec = TfheU32::decrypt(&client_key, &ct_expr).unwrap();

    assert_eq!(dec, (x + y) * z);
}

#[test]
fn tfhe_uint_test_encrypt_decrypt_roundtrip() {
    let (client_key, _server_key) = TfheU32::keygen().unwrap();

    let value: u32 = 12345;
    let ct = TfheU32::encrypt(&client_key, &value).unwrap();
    let dec = TfheU32::decrypt(&client_key, &ct).unwrap();

    assert_eq!(dec, value);
}

#[test]
fn tfhe_uint_test_addition() {
    let (client_key, _server_key) = TfheU32::keygen().unwrap();

    let a: u32 = 5;
    let b: u32 = 7;

    let ct_a = TfheU32::encrypt(&client_key, &a).unwrap();
    let ct_b = TfheU32::encrypt(&client_key, &b).unwrap();
    let ct_sum = TfheU32::add(&ct_a, &ct_b).unwrap();
    let dec_sum = TfheU32::decrypt(&client_key, &ct_sum).unwrap();

    assert_eq!(dec_sum, a + b);
}

#[test]
fn tfhe_uint_test_multiplication() {
    let (client_key, _server_key) = TfheU32::keygen().unwrap();

    let a: u32 = 2;
    let b: u32 = 3;

    let ct_a = TfheU32::encrypt(&client_key, &a).unwrap();
    let ct_b = TfheU32::encrypt(&client_key, &b).unwrap();

    let ct_prod = TfheU32::mul(&ct_a, &ct_b).unwrap();
    let dec_prod = TfheU32::decrypt(&client_key, &ct_prod).unwrap();

    assert_eq!(dec_prod, a * b);
}

#[test]
fn tfhe_uint_test_chain_operations() {
    let (client_key, _server_key) = TfheU32::keygen().unwrap();

    let x: u32 = 9;
    let y: u32 = 4;
    let z: u32 = 2;

    let ct_x = TfheU32::encrypt(&client_key, &x).unwrap();
    let ct_y = TfheU32::encrypt(&client_key, &y).unwrap();
    let ct_z = TfheU32::encrypt(&client_key, &z).unwrap();

    let ct_sum = TfheU32::add(&ct_x, &ct_y).unwrap();
    let ct_expr = TfheU32::mul(&ct_sum, &ct_z).unwrap();

    let dec = TfheU32::decrypt(&client_key, &ct_expr).unwrap();

    assert_eq!(dec, (x + y) * z);
}

#[test]
fn tfhe_uint_test_bitwise_and_rotations() {
    let (client_key, _server_key) = TfheU32::keygen().unwrap();

    let a: u32 = 0xDEAD_BEEF;
    let b: u32 = 0x0F0F_0F0F;

    let ct_a = TfheU32::encrypt(&client_key, &a).unwrap();
    let ct_b = TfheU32::encrypt(&client_key, &b).unwrap();

    let ct_xor = TfheU32::xor(&ct_a, &ct_b).unwrap();
    assert_eq!(TfheU32::decrypt(&client_key, &ct_xor).unwrap(), a ^ b);

    let ct_and = TfheU32::and(&ct_a, &ct_b).unwrap();
    assert_eq!(TfheU32::decrypt(&client_key, &ct_and).unwrap(), a & b);

    let ct_or = TfheU32::or(&ct_a, &ct_b).unwrap();
    assert_eq!(TfheU32::decrypt(&client_key, &ct_or).unwrap(), a | b);

    let ct_rotl = TfheU32::rotl(&ct_a, 7).unwrap();
    assert_eq!(TfheU32::decrypt(&client_key, &ct_rotl).unwrap(), a.rotate_left(7));

    let ct_rotr = TfheU32::rotr(&ct_a, 12).unwrap();
    assert_eq!(TfheU32::decrypt(&client_key, &ct_rotr).unwrap(), a.rotate_right(12));
}

#[test]
fn tfhe_uint_test_mismatched_keys_are_rejected() {
    let (ck1, _sk1) = TfheU32::keygen().unwrap();
    let (ck2, _sk2) = TfheU32::keygen().unwrap();

    let ct_a = TfheU32::encrypt(&ck1, &1).unwrap();
    let ct_b = TfheU32::encrypt(&ck2, &2).unwrap();

    assert!(matches!(TfheU32::add(&ct_a, &ct_b), Err(HeError::EvalError(_))));
    assert!(matches!(TfheU32::xor(&ct_a, &ct_b), Err(HeError::EvalError(_))));
    assert!(matches!(TfheU32::decrypt(&ck2, &ct_a), Err(HeError::DecryptError)));
}
