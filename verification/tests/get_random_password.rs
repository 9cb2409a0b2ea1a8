use loker::handlers::get_random_password::{
    get_random_password, PasswordOptions, RandomPasswordError, LOWERCASE, NUMBERS, PUNCTUATION, UPPERCASE,
};

#[test]
fn test_default_options() {
    let options = PasswordOptions {
        exclude_characters: "".to_string(),
        exclude_lowercase: false,
        exclude_numbers: false,
        exclude_punctuation: false,
        exclude_uppercase: false,
        include_space: false,
        password_length: 32,
        require_each_included_type: false,
    };
    let value = get_random_password(options).unwrap();

    let mut allowed = String::new();
    allowed.push_str(LOWERCASE);
    allowed.push_str(UPPERCASE);
    allowed.push_str(NUMBERS);
    allowed.push_str(PUNCTUATION);

    // Ensures only the requested characters are included
    assert!(value.chars().all(|c| allowed.contains(c)));

    assert_eq!(value.len(), 32);
}

#[test]
fn test_length_requirement() {
    let options = PasswordOptions {
        exclude_characters: "".to_string(),
        exclude_lowercase: false,
        exclude_numbers: false,
        exclude_punctuation: false,
        exclude_uppercase: false,
        include_space: false,
        password_length: 48,
        require_each_included_type: false,
    };
    let value = get_random_password(options).unwrap();

    let mut allowed = String::new();
    allowed.push_str(LOWERCASE);
    allowed.push_str(UPPERCASE);
    allowed.push_str(NUMBERS);
    allowed.push_str(PUNCTUATION);

    // Ensures only the requested characters are included
    assert!(value.chars().all(|c| allowed.contains(c)));
    assert_eq!(value.len(), 48);
}

#[test]
fn test_require_each_included_type() {
    let options = PasswordOptions {
        exclude_characters: "".to_string(),
        exclude_lowercase: false,
        exclude_numbers: false,
        exclude_punctuation: false,
        exclude_uppercase: false,
        include_space: false,
        password_length: 48,
        require_each_included_type: false,
    };
    let value = get_random_password(options).unwrap();

    // Must included one of each of the types
    assert!(value.chars().any(|c| LOWERCASE.contains(c)));
    assert!(value.chars().any(|c| UPPERCASE.contains(c)));
    assert!(value.chars().any(|c| NUMBERS.contains(c)));
    assert!(value.chars().any(|c| PUNCTUATION.contains(c)));

    assert_eq!(value.len(), 48);
}

#[test]
fn test_require_each_included_type_exclude_lowercase() {
    let options = PasswordOptions {
        exclude_characters: "".to_string(),
        exclude_lowercase: true,
        exclude_numbers: false,
        exclude_punctuation: false,
        exclude_uppercase: false,
        include_space: false,
        password_length: 48,
        require_each_included_type: false,
    };
    let value = get_random_password(options).unwrap();

    // Must included one of each of the types
    assert!(value.chars().any(|c| UPPERCASE.contains(c)));
    assert!(value.chars().any(|c| NUMBERS.contains(c)));
    assert!(value.chars().any(|c| PUNCTUATION.contains(c)));

    assert_eq!(value.len(), 48);
}

#[test]
fn test_exclude_characters() {
    let excluded = "az1";

    let options = PasswordOptions {
        exclude_characters: excluded.to_string(),
        exclude_lowercase: false,
        exclude_numbers: false,
        exclude_punctuation: false,
        exclude_uppercase: false,
        include_space: false,
        password_length: 48,
        require_each_included_type: false,
    };
    let value = get_random_password(options).unwrap();

    // Ensures none of the excluded characters are included
    assert!(value.chars().all(|c| !excluded.contains(c)));

    assert_eq!(value.len(), 48);
}

#[test]
fn test_exclude_lowercase() {
    let options = PasswordOptions {
        exclude_characters: "".to_string(),
        exclude_lowercase: true,
        exclude_numbers: false,
        exclude_punctuation: false,
        exclude_uppercase: false,
        include_space: false,
        password_length: 48,
        require_each_included_type: false,
    };
    let value = get_random_password(options).unwrap();

    let mut allowed = String::new();
    allowed.push_str(UPPERCASE);
    allowed.push_str(NUMBERS);
    allowed.push_str(PUNCTUATION);

    // Ensures only the requested characters are included
    assert!(value.chars().all(|c| allowed.contains(c)));
    assert_eq!(value.len(), 48);
}

#[test]
fn test_exclude_uppercase() {
    let options = PasswordOptions {
        exclude_characters: "".to_string(),
        exclude_lowercase: false,
        exclude_numbers: false,
        exclude_punctuation: false,
        exclude_uppercase: true,
        include_space: false,
        password_length: 48,
        require_each_included_type: false,
    };
    let value = get_random_password(options).unwrap();

    let mut allowed = String::new();
    allowed.push_str(LOWERCASE);
    allowed.push_str(NUMBERS);
    allowed.push_str(PUNCTUATION);

    // Ensures only the requested characters are included
    assert!(value.chars().all(|c| allowed.contains(c)));
    assert_eq!(value.len(), 48);
}

#[test]
fn test_exclude_numbers() {
    let options = PasswordOptions {
        exclude_characters: "".to_string(),
        exclude_lowercase: false,
        exclude_numbers: true,
        exclude_punctuation: false,
        exclude_uppercase: false,
        include_space: false,
        password_length: 48,
        require_each_included_type: false,
    };
    let value = get_random_password(options).unwrap();

    let mut allowed = String::new();
    allowed.push_str(LOWERCASE);
    allowed.push_str(UPPERCASE);
    allowed.push_str(PUNCTUATION);

    // Ensures only the requested characters are included
    assert!(value.chars().all(|c| allowed.contains(c)));
    assert_eq!(value.len(), 48);
}

#[test]
fn test_exclude_punctuation() {
    let options = PasswordOptions {
        exclude_characters: "".to_string(),
        exclude_lowercase: false,
        exclude_numbers: false,
        exclude_punctuation: true,
        exclude_uppercase: false,
        include_space: false,
        password_length: 48,
        require_each_included_type: false,
    };
    let value = get_random_password(options).unwrap();

    let mut allowed = String::new();
    allowed.push_str(LOWERCASE);
    allowed.push_str(UPPERCASE);
    allowed.push_str(NUMBERS);

    // Ensures only the requested characters are included
    assert!(value.chars().all(|c| allowed.contains(c)));
    assert_eq!(value.len(), 48);
}

#[test]
fn test_exclude_everything_error() {
    let options = PasswordOptions {
        exclude_characters: "".to_string(),
        exclude_lowercase: true,
        exclude_numbers: true,
        exclude_punctuation: true,
        exclude_uppercase: true,
        include_space: false,
        password_length: 48,
        require_each_included_type: false,
    };
    let value = get_random_password(options).unwrap_err();
    assert!(matches!(value, RandomPasswordError::EmptyCharSet));
}

#[test]
fn test_too_short_for_everything() {
    let options = PasswordOptions {
        exclude_characters: "".to_string(),
        exclude_lowercase: false,
        exclude_numbers: false,
        exclude_punctuation: false,
        exclude_uppercase: false,
        include_space: false,
        password_length: 1,
        require_each_included_type: true,
    };
    let value = get_random_password(options).unwrap_err();
    assert!(matches!(value, RandomPasswordError::InvalidLength));
}

#[test]
fn test_required_type_set_is_excluded() {
    let options = PasswordOptions {
        exclude_characters: LOWERCASE.to_string(),
        exclude_lowercase: false,
        exclude_numbers: false,
        exclude_punctuation: false,
        exclude_uppercase: false,
        include_space: false,
        password_length: 32,
        require_each_included_type: true,
    };
    let value = get_random_password(options).unwrap_err();
    assert!(matches!(value, RandomPasswordError::EmptyTypeSet));
}
