use smtp_types::secret::Secret;

#[test]
fn test_that_secret_is_visible_in_debug() {
    let secret = Secret::new("xyz123");
    let got = format!("{:?}", secret);
    assert!(got.contains("xyz123"));
}

#[test]
fn test_secret_declassify() {
    let secret = Secret::from(vec![1u8, 2]);
    assert_eq!(secret.declassify(), &vec![1u8, 2]);
    assert_eq!(Secret::new(5).declassify(), &5);
}
