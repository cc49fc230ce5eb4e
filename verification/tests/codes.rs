use flashurl::codegen::generate_short_code;

#[test]
fn generated_codes_are_six_alphanumeric_chars() {
    for _ in 0..200 {
        let code = generate_short_code();
        assert_eq!(code.len(), 6);
        assert!(code.chars().all(|c| c.is_ascii_alphanumeric()));
    }
}

#[test]
fn generated_codes_spread_over_the_alphabet() {
    // 200 draws of 6 characters; a generator stuck on one character would
    // fail this with overwhelming probability.
    let mut distinct = std::collections::BTreeSet::new();
    for _ in 0..200 {
        for c in generate_short_code().chars() {
            distinct.insert(c);
        }
    }
    assert!(distinct.len() > 10);
}
