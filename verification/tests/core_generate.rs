//! Generators.
use std::collections::HashSet;

use vault::vault_core::generate::{
    accept_sample, capitalize_first, check_options, compose_passphrase, compose_password, le_number,
    sample_index,
};
use vault::vault_core::{
    generate_passphrase, generate_password, Error, GenerateOptions, PassphraseOptions,
};

const SEP: &str = "|";

fn words() -> Vec<String> {
    [
        "abacus", "abdomen", "ability", "ablaze", "abnormal", "abrasion", "acorn", "acre",
        "t-shirt", "zoom", "yonder", "wiry", "velvet", "unruly", "thimble", "sandpaper",
    ]
    .iter()
    .map(|w| (*w).to_owned())
    .collect()
}

fn pp(words: usize, sep: &str, capitalize: bool, include_number: bool) -> PassphraseOptions {
    PassphraseOptions {
        words,
        separator: sep.to_owned(),
        capitalize,
        include_number,
    }
}

#[test]
fn passphrase_default_matches_bitwarden() {
    let d = PassphraseOptions::default();
    assert_eq!(d.words, 3);
    assert_eq!(d.separator, "-");
    assert!(!d.capitalize);
    assert!(!d.include_number);
}

#[test]
fn passphrase_word_count_and_membership() {
    let list = words();
    let s = generate_passphrase(&pp(5, SEP, false, false), &list).unwrap();
    let parts: Vec<&str> = s.split(SEP).collect();
    assert_eq!(parts.len(), 5);
    for w in parts {
        assert!(list.iter().any(|x| x == w), "{w} not in the list");
    }
}

#[test]
fn passphrase_capitalize_uppercases_each_word() {
    let list = words();
    let s = generate_passphrase(&pp(5, SEP, true, false), &list).unwrap();
    for w in s.split(SEP) {
        assert!(
            w.chars().next().unwrap().is_ascii_uppercase(),
            "{w} not capitalized"
        );
        let lower = w.to_ascii_lowercase();
        assert!(list.contains(&lower));
    }
}

#[test]
fn passphrase_include_number_appends_one_digit() {
    let list = words();
    let s = generate_passphrase(&pp(5, SEP, false, true), &list).unwrap();
    let parts: Vec<&str> = s.split(SEP).collect();
    assert_eq!(parts.len(), 5);
    let numbered = parts
        .iter()
        .filter(|w| w.chars().any(|c| c.is_ascii_digit()))
        .count();
    assert_eq!(numbered, 1, "exactly one word gets a digit");
    for w in parts {
        let base = w.trim_end_matches(|c: char| c.is_ascii_digit());
        assert!(list.iter().any(|x| x == base), "{base} not in list");
    }
}

#[test]
fn passphrase_word_bounds_enforced() {
    let list = words();
    assert!(generate_passphrase(&pp(2, "-", false, false), &list).is_err());
    assert!(generate_passphrase(&pp(21, "-", false, false), &list).is_err());
    assert!(generate_passphrase(&pp(3, "-", false, false), &list).is_ok());
    assert!(generate_passphrase(&pp(20, "-", false, false), &list).is_ok());
}

#[test]
fn passphrase_distinct_across_calls() {
    let list: Vec<String> = (0..7776).map(|i| format!("word{i}x")).collect();
    let opts = pp(6, "-", false, false);
    let a = generate_passphrase(&opts, &list).unwrap();
    let b = generate_passphrase(&opts, &list).unwrap();
    assert_ne!(a.as_str(), b.as_str());
}

#[test]
fn default_length_and_classes() {
    let opts = GenerateOptions::default();
    let pw = generate_password(&opts).expect("default options must succeed");
    assert_eq!(pw.len(), 20);
    assert!(pw.is_ascii());
    assert!(pw.chars().all(|c| c.is_ascii_alphanumeric()));
}

#[test]
fn includes_at_least_one_of_each_enabled_class() {
    let opts = GenerateOptions {
        length: 8,
        lowercase: true,
        uppercase: true,
        digits: true,
        symbols: true,
    };
    for _ in 0..256 {
        let pw = generate_password(&opts).unwrap();
        assert!(pw.chars().any(|c| c.is_ascii_lowercase()));
        assert!(pw.chars().any(|c| c.is_ascii_uppercase()));
        assert!(pw.chars().any(|c| c.is_ascii_digit()));
        assert!(pw.chars().any(|c| "!@#$%^&*".contains(c)));
    }
}

#[test]
fn zero_length_is_rejected() {
    let opts = GenerateOptions {
        length: 0,
        ..GenerateOptions::default()
    };
    assert!(generate_password(&opts).is_err());
    assert_eq!(
        check_options(&opts),
        Err(Error::Generate("length must be greater than zero"))
    );
}

#[test]
fn no_classes_is_rejected() {
    let opts = GenerateOptions {
        length: 8,
        lowercase: false,
        uppercase: false,
        digits: false,
        symbols: false,
    };
    assert!(generate_password(&opts).is_err());
    assert_eq!(
        check_options(&opts),
        Err(Error::Generate("at least one character class must be enabled"))
    );
}

#[test]
fn length_shorter_than_class_count_is_rejected() {
    let opts = GenerateOptions {
        length: 2,
        lowercase: true,
        uppercase: true,
        digits: true,
        symbols: false,
    };
    assert!(generate_password(&opts).is_err());
}

#[test]
fn only_digits_yields_only_digits() {
    let opts = GenerateOptions {
        length: 16,
        lowercase: false,
        uppercase: false,
        digits: true,
        symbols: false,
    };
    let pw = generate_password(&opts).unwrap();
    assert!(pw.chars().all(|c| c.is_ascii_digit()));
}

#[test]
fn distinct_outputs_across_calls() {
    let opts = GenerateOptions {
        length: 64,
        ..GenerateOptions::default()
    };
    let a = generate_password(&opts).unwrap();
    let b = generate_password(&opts).unwrap();
    assert_ne!(a.as_str(), b.as_str());
}

#[test]
fn shuffle_breaks_class_ordering() {
    let opts = GenerateOptions {
        length: 16,
        lowercase: true,
        uppercase: true,
        digits: true,
        symbols: true,
    };
    let mut first_chars = HashSet::new();
    for _ in 0..200 {
        let pw = generate_password(&opts).unwrap();
        first_chars.insert(pw.chars().next().unwrap());
    }
    let categories: HashSet<_> = first_chars
        .iter()
        .map(|c| {
            if c.is_ascii_lowercase() {
                0
            } else if c.is_ascii_uppercase() {
                1
            } else if c.is_ascii_digit() {
                2
            } else {
                3
            }
        })
        .collect();
    assert!(
        categories.len() >= 3,
        "first-char categories seen: {categories:?}"
    );
}

#[test]
fn a_password_is_what_its_draws_make() {
    let opts = GenerateOptions {
        length: 5,
        lowercase: true,
        uppercase: true,
        digits: true,
        symbols: false,
    };
    // b, C and 3 from their classes, then a and Z from all of them.
    let picks: Vec<usize> = vec![1, 2, 3, 0, 51];
    // No exchange: each position with itself.
    assert_eq!(compose_password(&opts, &picks, &vec![4, 3, 2, 1]), "bC3aZ");
    // The last with the first, then the fourth with the second.
    assert_eq!(compose_password(&opts, &picks, &vec![0, 1, 2, 1]), "Za3Cb");
}

#[test]
fn a_passphrase_is_what_its_draws_make() {
    let list = words();
    let picks: Vec<usize> = vec![0, 9, 8];
    assert_eq!(
        compose_passphrase(&pp(3, "-", true, true), &list, &picks, (1, 7)),
        "Abacus-Zoom7-T-shirt"
    );
    assert_eq!(
        compose_passphrase(&pp(3, " ", false, false), &list, &picks, (1, 7)),
        "abacus zoom t-shirt"
    );
    assert_eq!(capitalize_first(""), "");
    assert_eq!(capitalize_first("ébène"), "ébène");
}

#[test]
fn draws_in_excess_are_rejected() {
    // 2^64 mod 10 is 6: the last six draws are in excess.
    assert_eq!(accept_sample(u64::MAX - 6, 10), Some(9));
    assert_eq!(accept_sample(u64::MAX - 5, 10), None);
    assert_eq!(accept_sample(u64::MAX, 10), None);
    // A power of two has no excess.
    assert_eq!(accept_sample(u64::MAX, 16), Some(15));
    assert_eq!(accept_sample(12345, 1), Some(0));
    for n in 1..50 {
        assert!(sample_index(n).unwrap() < n);
    }
    let seen: HashSet<usize> = (0..400).map(|_| sample_index(4).unwrap()).collect();
    assert_eq!(seen.len(), 4);
}

#[test]
fn draws_are_read_least_significant_byte_first() {
    assert_eq!(le_number(&[1, 0, 0, 0, 0, 0, 0, 0]), 1);
    assert_eq!(le_number(&[0, 1, 0, 0, 0, 0, 0, 0]), 256);
    assert_eq!(le_number(&[0, 0, 0, 0, 0, 0, 0, 1]), 1 << 56);
    assert_eq!(le_number(&[0xff; 8]), u64::MAX);
}
