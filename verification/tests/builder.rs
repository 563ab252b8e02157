use password_builder::PasswordBuilder;

const LOWERCASE: &str = "qwertyuiopasdfghjklzxcvbnm";
const SPECIALS: &str = "!\"$#%'()*+`-./:;<=>?@[\\]^{|}~&";
const DIGITS: &str = "1234567890";
const UPPERCASE: &str = "QWERTYUIOPASDFGHJKLZXCVBNM";
const UNDERLINE: &str = "_";

#[test]
fn default_build_is_twenty_lowercase_letters() {
    let password = PasswordBuilder::new().build();
    assert_eq!(password.chars().count(), 20);
    for ch in password.chars() {
        assert!(LOWERCASE.contains(ch), "unexpected character {ch:?}");
    }
}

#[test]
fn default_trait_matches_new() {
    let a = PasswordBuilder::default().alphabet();
    let b = PasswordBuilder::new().alphabet();
    assert_eq!(a, b);
    let password = PasswordBuilder::default().build();
    assert_eq!(password.chars().count(), 20);
}

#[test]
fn length_five_is_five_lowercase_letters() {
    let password = PasswordBuilder::new().set_length(5).build();
    assert_eq!(password.chars().count(), 5);
    for ch in password.chars() {
        assert!(LOWERCASE.contains(ch), "unexpected character {ch:?}");
    }
}

#[test]
fn zero_length_builds_empty_string() {
    let password = PasswordBuilder::new().set_length(0).use_numbers().build();
    assert_eq!(password, "");
}

#[test]
fn negative_length_builds_empty_string() {
    let password = PasswordBuilder::new().set_length(-7).build();
    assert_eq!(password, "");
    let password = PasswordBuilder::new().set_length(i32::MIN).build();
    assert_eq!(password, "");
}

#[test]
fn full_alphabet_build_of_length_one_thousand() {
    let password = PasswordBuilder::new()
        .set_length(1000)
        .include_special_characters()
        .use_numbers()
        .use_uppercase()
        .use_underlines()
        .build();
    assert_eq!(password.chars().count(), 1000);
    let full: String = [LOWERCASE, SPECIALS, DIGITS, UPPERCASE, UNDERLINE].concat();
    for ch in password.chars() {
        assert!(full.contains(ch), "unexpected character {ch:?}");
    }
}

#[test]
fn default_alphabet_is_exactly_the_lowercase_base() {
    let alphabet = PasswordBuilder::new().alphabet();
    let expected: Vec<char> = LOWERCASE.chars().collect();
    assert_eq!(alphabet, expected);
}

#[test]
fn each_flag_appends_its_own_category() {
    let with_specials = PasswordBuilder::new().include_special_characters().alphabet();
    let expected: Vec<char> = [LOWERCASE, SPECIALS].concat().chars().collect();
    assert_eq!(with_specials, expected);

    let with_numbers = PasswordBuilder::new().use_numbers().alphabet();
    let expected: Vec<char> = [LOWERCASE, DIGITS].concat().chars().collect();
    assert_eq!(with_numbers, expected);

    let with_uppercase = PasswordBuilder::new().use_uppercase().alphabet();
    let expected: Vec<char> = [LOWERCASE, UPPERCASE].concat().chars().collect();
    assert_eq!(with_uppercase, expected);

    let with_underlines = PasswordBuilder::new().use_underlines().alphabet();
    let expected: Vec<char> = [LOWERCASE, UNDERLINE].concat().chars().collect();
    assert_eq!(with_underlines, expected);
}

#[test]
fn enabling_a_flag_keeps_every_base_character() {
    let base = PasswordBuilder::new().alphabet();
    let grown = PasswordBuilder::new()
        .use_numbers()
        .include_special_characters()
        .alphabet();
    for ch in &base {
        assert!(grown.contains(ch), "base character {ch:?} was lost");
    }
}

#[test]
fn flag_order_does_not_change_the_alphabet() {
    let numbers_then_uppercase = PasswordBuilder::new().use_numbers().use_uppercase().alphabet();
    let uppercase_then_numbers = PasswordBuilder::new().use_uppercase().use_numbers().alphabet();
    assert_eq!(numbers_then_uppercase, uppercase_then_numbers);

    let all_one_way = PasswordBuilder::new()
        .use_underlines()
        .include_special_characters()
        .use_uppercase()
        .use_numbers()
        .alphabet();
    let all_other_way = PasswordBuilder::new()
        .use_numbers()
        .use_uppercase()
        .include_special_characters()
        .use_underlines()
        .alphabet();
    assert_eq!(all_one_way, all_other_way);
}

#[test]
fn flags_are_idempotent() {
    let once = PasswordBuilder::new().use_numbers().alphabet();
    let twice = PasswordBuilder::new().use_numbers().use_numbers().alphabet();
    assert_eq!(once, twice);

    let length_once = PasswordBuilder::new().set_length(3).build();
    let length_twice = PasswordBuilder::new().set_length(3).set_length(3).build();
    assert_eq!(length_once.chars().count(), length_twice.chars().count());
}

#[test]
fn character_frequencies_are_roughly_uniform() {
    // Draw enough characters that each of the 26 base letters is expected
    // about 2000 times, and check the per-letter counts against a generous
    // band around that expectation.
    let samples: usize = 52_000;
    let mut counts = [0usize; 26];
    let password = PasswordBuilder::new().set_length(samples as i32).build();
    for ch in password.chars() {
        let pos = LOWERCASE.chars().position(|l| l == ch).expect("character outside the base");
        counts[pos] += 1;
    }
    let expected = samples as f64 / 26.0;
    for (pos, &count) in counts.iter().enumerate() {
        let deviation = (count as f64 - expected).abs() / expected;
        assert!(
            deviation < 0.25,
            "letter {:?} occurred {count} times, expected about {expected}",
            LOWERCASE.chars().nth(pos).unwrap()
        );
    }
}
