use transciphering::he::HomomorphicEncryption;
use transciphering::tfhe_bool::TfheBool;

#[test]
fn tfhe_bool_test_encrypt_decrypt_roundtrip() {
    let (client_key, _server_key) = TfheBool::keygen().unwrap();

    let value = true;
    let ct = TfheBool::encrypt(&client_key, &value).unwrap();
    let dec = TfheBool::decrypt(&client_key, &ct).unwrap();
    assert_eq!(dec, value);

    let value = false;
    let ct = TfheBool::encrypt(&client_key, &value).unwrap();
    let dec = TfheBool::decrypt(&client_key, &ct).unwrap();
    assert_eq!(dec, value);
}

#[test]
fn test_and_operation() {
    let (client_key, _server_key) = TfheBool::keygen().unwrap();

    let a = TfheBool::encrypt(&client_key, &true).unwrap();
    let b = TfheBool::encrypt(&client_key, &false).unwrap();

    let ct_and = TfheBool::mul(&a, &b).unwrap();
    let dec = TfheBool::decrypt(&client_key, &ct_and).unwrap();
    assert_eq!(dec, false);
}

#[test]
fn test_or_operation() {
    let (client_key, _server_key) = TfheBool::keygen().unwrap();

    let a = TfheBool::encrypt(&client_key, &false).unwrap();
    let b = TfheBool::encrypt(&client_key, &true).unwrap();

    let ct_or = TfheBool::add(&a, &b).unwrap();
    let dec = TfheBool::decrypt(&client_key, &ct_or).unwrap();
    assert_eq!(dec, true);
}

#[test]
fn tfhe_bool_test_chain_operations() {
    let (client_key, _server_key) = TfheBool::keygen().unwrap();

    let a = TfheBool::encrypt(&client_key, &true).unwrap();
    let b = TfheBool::encrypt(&client_key, &false).unwrap();
    let c = TfheBool::encrypt(&client_key, &true).unwrap();

    let ct_and = TfheBool::mul(&a, &c).unwrap();
    let ct_expr = TfheBool::add(&ct_and, &b).unwrap();

    let dec = TfheBool::decrypt(&client_key, &ct_expr).unwrap();
    assert_eq!(dec, true);
}
