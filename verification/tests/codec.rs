use chela::codec::{Codec, ConfigError};

fn letters() -> Vec<char> {
    "abcdefghijklmnopqrstuvwxyzABCDEFGHIJKLMNOPQRSTUVWXYZ".chars().collect()
}

#[test]
fn encode_is_deterministic() {
    let c1 = Codec::new(letters(), vec!["create".to_string()]).unwrap();
    let c2 = Codec::new(letters(), vec!["create".to_string()]).unwrap();
    for n in [0u64, 1, 2, 41, 1000, u64::MAX] {
        let a = c1.encode(n).unwrap();
        let b = c1.encode(n).unwrap();
        let c = c2.encode(n).unwrap();
        assert_eq!(a, b);
        assert_eq!(a, c);
    }
}

#[test]
fn encode_is_injective_over_a_range() {
    let c = Codec::new(letters(), Vec::new()).unwrap();
    let mut seen: Vec<String> = (0u64..500).map(|n| c.encode(n).unwrap()).collect();
    seen.sort();
    for w in seen.windows(2) {
        assert_ne!(w[0], w[1]);
    }
}

#[test]
fn encode_matches_the_underlying_scheme() {
    let c = Codec::new(letters(), vec!["create".to_string()]).unwrap();
    let sqids = sqids::Sqids::builder()
        .alphabet(letters())
        .blocklist(["create".to_string()].into())
        .build()
        .unwrap();
    for n in [0u64, 1, 7, 99, 12345] {
        assert_eq!(c.encode(n), sqids.encode(&[n]).ok());
    }
}

#[test]
fn short_alphabet_is_rejected() {
    assert_eq!(Codec::new(vec!['a', 'b'], Vec::new()).unwrap_err(), ConfigError::AlphabetTooShort);
    assert_eq!(Codec::new(Vec::new(), Vec::new()).unwrap_err(), ConfigError::AlphabetTooShort);
}

#[test]
fn duplicate_alphabet_is_rejected() {
    assert_eq!(
        Codec::new(vec!['a', 'b', 'a'], Vec::new()).unwrap_err(),
        ConfigError::AlphabetNotUnique
    );
}

#[test]
fn multibyte_alphabet_is_rejected() {
    assert_eq!(
        Codec::new("déf".chars().collect(), Vec::new()).unwrap_err(),
        ConfigError::AlphabetMultibyte
    );
}

#[test]
fn blocklist_is_honored_over_a_range() {
    let c = Codec::new(letters(), vec!["create".to_string()]).unwrap();
    for n in 0u64..3000 {
        let id = c.encode(n).unwrap();
        assert_ne!(id, "create");
    }
}

#[test]
fn blocklist_perturbs_the_encoding() {
    // find a number whose identifier is long enough to be blockable,
    // block it, and check the same number now encodes differently
    let free = Codec::new(letters(), Vec::new()).unwrap();
    let n = (0u64..10000)
        .find(|&n| free.encode(n).unwrap().len() >= 3)
        .expect("some identifier of three characters or more");
    let id = free.encode(n).unwrap();
    let blocked = Codec::new(letters(), vec![id.clone()]).unwrap();
    match blocked.encode(n) {
        Some(other) => assert_ne!(other, id),
        None => panic!("a single blocked word must not exhaust the scheme"),
    }
}
