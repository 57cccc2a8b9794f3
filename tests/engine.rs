use hash_decrypt::{cracking_time, find_alg, hash_passwords, DetectError, HashAlg, ResultMap};

const MD5_AA: &str = "4124bc0a9335c27f086f24ba207a4912";
const SHA1_AA: &str = "e0c9035898dd52fc65c41454cec9c4d2611bfb37";

fn strings(items: &[&str]) -> Vec<String> {
    items.iter().map(|s| s.to_string()).collect()
}

#[test]
fn md5_hash() {
    let word: Vec<String> = vec!["a".to_string()];
    assert_eq!(
        "4124bc0a9335c27f086f24ba207a4912",
        hash_passwords(&HashAlg::Md5, &word, 1)[0]
    )
}

#[test]
fn sha1_hash() {
    let word: Vec<String> = vec!["a".to_string()];
    assert_eq!(
        "e0c9035898dd52fc65c41454cec9c4d2611bfb37",
        hash_passwords(&HashAlg::Sha1, &word, 1)[0]
    )
}

#[test]
fn create_hash_concatenates_password_then_salt() {
    assert_eq!(HashAlg::Md5.create_hash("a", "a"), MD5_AA);
    assert_eq!(HashAlg::Md5.create_hash("aa", ""), MD5_AA);
    assert_eq!(HashAlg::Md5.create_hash("", "aa"), MD5_AA);
    assert_eq!(HashAlg::Sha1.create_hash("a", "a"), SHA1_AA);
    assert_ne!(HashAlg::Md5.create_hash("ab", "c"), HashAlg::Md5.create_hash("c", "ab"));
}

#[test]
fn create_hash_is_deterministic() {
    for alg in HashAlg::all() {
        assert_eq!(alg.create_hash("pass", "salt"), alg.create_hash("pass", "salt"));
    }
}

#[test]
fn digest_lengths_and_lowercase_hex() {
    let expected = [32usize, 40, 56, 64, 96, 128, 128];
    let algs = HashAlg::all();
    assert_eq!(algs.len(), 7);
    for (alg, len) in algs.iter().zip(expected.iter()) {
        let d = alg.create_hash("a", "a");
        assert_eq!(d.len(), *len);
        assert!(d.chars().all(|c| c.is_ascii_digit() || ('a'..='f').contains(&c)));
    }
    assert_ne!(HashAlg::Sha512.create_hash("a", "a"), HashAlg::Whirlpool.create_hash("a", "a"));
}

#[test]
fn all_in_detection_order() {
    assert_eq!(
        HashAlg::all(),
        vec![
            HashAlg::Md5,
            HashAlg::Sha1,
            HashAlg::Sha224,
            HashAlg::Sha256,
            HashAlg::Sha384,
            HashAlg::Sha512,
            HashAlg::Whirlpool
        ]
    );
}

#[test]
fn names_and_selection() {
    assert_eq!(HashAlg::Md5.name(), "Md5");
    assert_eq!(HashAlg::Whirlpool.name(), "Whirlpool");
    assert_eq!(HashAlg::from_name("md5"), Some(HashAlg::Md5));
    assert_eq!(HashAlg::from_name("SHA256"), Some(HashAlg::Sha256));
    assert_eq!(HashAlg::from_name("WhirlPool"), Some(HashAlg::Whirlpool));
    assert_eq!(HashAlg::from_name("sha3"), None);
    assert_eq!(HashAlg::from_name(""), None);
    for alg in HashAlg::all() {
        assert_eq!(HashAlg::from_name(&alg.name()), Some(alg));
    }
}

#[test]
fn scenario_md5_single_word() {
    let words = strings(&["a"]);
    let targets = strings(&[MD5_AA]);
    let found = cracking_time(&HashAlg::Md5, &targets, &words);
    assert_eq!(found.matches().len(), 1);
    let m = found.get(&MD5_AA.to_string()).unwrap();
    assert_eq!(m.digest, MD5_AA);
    assert_eq!(m.password, "a");
    assert_eq!(m.salt, "a");
}

#[test]
fn scenario_detect_sha1_then_crack() {
    let words = strings(&["a"]);
    let targets = strings(&[SHA1_AA]);
    let alg = find_alg(&targets, &words).unwrap();
    assert_eq!(alg, HashAlg::Sha1);
    let found = cracking_time(&alg, &targets, &words);
    let m = found.get(&SHA1_AA.to_string()).unwrap();
    assert_eq!((m.password.as_str(), m.salt.as_str()), ("a", "a"));
}

#[test]
fn every_ordered_pair_is_searched() {
    let words = strings(&["a", "b"]);
    let pairs = [("a", "a"), ("a", "b"), ("b", "a"), ("b", "b")];
    let targets: Vec<String> = pairs.iter().map(|(p, s)| HashAlg::Sha256.create_hash(p, s)).collect();
    let found = cracking_time(&HashAlg::Sha256, &targets, &words);
    assert_eq!(found.matches().len(), 4);
    for ((p, s), d) in pairs.iter().zip(targets.iter()) {
        let m = found.get(d).unwrap();
        assert_eq!((m.password.as_str(), m.salt.as_str()), (*p, *s));
    }
}

#[test]
fn generated_digests_are_recovered() {
    let words = strings(&["alpha", "beta", "gamma", "delta"]);
    for alg in HashAlg::all() {
        let targets = hash_passwords(&alg, &words, 3);
        assert_eq!(targets.len(), 3);
        let found = cracking_time(&alg, &targets, &words);
        for d in &targets {
            let m = found.get(d).unwrap();
            assert_eq!(alg.create_hash(&m.password, &m.salt), *d);
            assert!(words.contains(&m.password) && words.contains(&m.salt));
        }
    }
}

#[test]
fn generator_caps_count_at_candidates() {
    let words = strings(&["x", "y"]);
    assert_eq!(hash_passwords(&HashAlg::Md5, &words, 10).len(), 2);
    assert_eq!(hash_passwords(&HashAlg::Md5, &words, 0).len(), 0);
    assert!(hash_passwords(&HashAlg::Md5, &Vec::new(), 5).is_empty());
}

#[test]
fn detection_returns_the_only_matching_algorithm() {
    let words = strings(&["red", "green", "blue"]);
    let targets = vec![HashAlg::Sha384.create_hash("green", "red")];
    assert_eq!(find_alg(&targets, &words), Ok(HashAlg::Sha384));
    let targets = vec![HashAlg::Whirlpool.create_hash("blue", "blue")];
    assert_eq!(find_alg(&targets, &words), Ok(HashAlg::Whirlpool));
}

#[test]
fn detection_fails_without_match() {
    let words = strings(&["a", "b"]);
    let targets = strings(&["00000000000000000000000000000000"]);
    assert_eq!(find_alg(&targets, &words), Err(DetectError::NoAlgorithmMatches));
    assert_eq!(find_alg(&Vec::new(), &words), Err(DetectError::NoAlgorithmMatches));
    assert_eq!(find_alg(&strings(&[MD5_AA]), &Vec::new()), Err(DetectError::NoAlgorithmMatches));
}

#[test]
fn empty_candidates_give_empty_result() {
    let targets = strings(&[MD5_AA, SHA1_AA]);
    let found = cracking_time(&HashAlg::Md5, &targets, &Vec::new());
    assert!(found.matches().is_empty());
    assert!(found.get(&MD5_AA.to_string()).is_none());
}

#[test]
fn unreachable_digest_is_absent() {
    let words = strings(&["a"]);
    let missing = HashAlg::Md5.create_hash("zz", "zz");
    let targets = vec![MD5_AA.to_string(), missing.clone()];
    let found = cracking_time(&HashAlg::Md5, &targets, &words);
    assert_eq!(found.matches().len(), 1);
    assert!(found.get(&missing).is_none());
    assert!(found.get(&MD5_AA.to_string()).is_some());
}

#[test]
fn result_map_overwrites_and_merges() {
    let mut a = ResultMap::new();
    a.insert("d1".to_string(), "p1".to_string(), "s1".to_string());
    a.insert("d2".to_string(), "p2".to_string(), "s2".to_string());
    a.insert("d1".to_string(), "p3".to_string(), "s3".to_string());
    assert_eq!(a.matches().len(), 2);
    assert_eq!(a.get(&"d1".to_string()).unwrap().password, "p3");
    let mut b = ResultMap::new();
    b.insert("d2".to_string(), "q".to_string(), "r".to_string());
    b.insert("d3".to_string(), "x".to_string(), "y".to_string());
    a.merge(&b);
    assert_eq!(a.matches().len(), 3);
    assert_eq!(a.get(&"d2".to_string()).unwrap().salt, "r");
    assert_eq!(a.get(&"d3".to_string()).unwrap().password, "x");
    assert_eq!(a.get(&"d1".to_string()).unwrap().salt, "s3");
}
