use price_tracker::primes::is_prime;

#[test]
fn test_not_prime() {
    for prime in vec!["-1", "0", "1", "4", "35934601", "64404236", "9153233"].iter() {
        assert!(!is_prime(*prime), "{} was prime", *prime)
    }
}

#[test]
fn test_prime() {
    for prime in vec!["2", "23693849", "41973671", "71688731"].iter() {
        assert!(is_prime(*prime), "{} was not prime", *prime)
    }

    assert!(is_prime("25896203"));
    assert!(is_prime("32407513"))
}

#[test]
fn test_big_numbers() {
    let big_number = "2393406893135508689922562474977817653928744432857246008";

    assert!(!is_prime(big_number));
}

#[test]
fn test_plus_led_decimal() {
    assert!(is_prime("+7"));
    assert!(!is_prime("+8"));
}
