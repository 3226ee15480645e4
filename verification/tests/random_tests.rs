use random_pedersen::random::generate_random;

#[test]
fn test_generate_random() {
    match generate_random(32) {
        Ok(random_bytes) => {
            assert_eq!(random_bytes.len(), 32);
        }
        Err(_) => {
            panic!("generate_random function returned an error");
        }
    }
}

#[test]
fn test_generated_numbers_not_equal() {
    let random_bytes1 = generate_random(8).expect("Failed to generate random bytes");
    let random_bytes2 = generate_random(8).expect("Failed to generate random bytes");

    assert_ne!(random_bytes1, random_bytes2);
}
