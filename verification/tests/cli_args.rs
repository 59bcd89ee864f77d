use mlxor::cli::{output_path, parse_args, parse_size, CliError, Command};

fn args_of(parts: &[&str]) -> Vec<String> {
    parts.iter().map(|s| s.to_string()).collect()
}

#[test]
fn parse_args_generate_long_flag() {
    let args = args_of(&["mlxor", "--genxorpad", "64", "pad.bin"]);
    match parse_args(&args) {
        Ok(Command::GeneratePad { size, filename }) => {
            assert_eq!(size, 64);
            assert_eq!(filename, "pad.bin");
        }
        _ => panic!("expected the generate mode"),
    }
}

#[test]
fn parse_args_generate_short_flag() {
    let args = args_of(&["mlxor", "-g", "16", "out.pad"]);
    match parse_args(&args) {
        Ok(Command::GeneratePad { size, filename }) => {
            assert_eq!(size, 16);
            assert_eq!(filename, "out.pad");
        }
        _ => panic!("expected the generate mode"),
    }
}

#[test]
fn parse_args_transform_mode() {
    let args = args_of(&["mlxor", "secret.txt", "pad.bin"]);
    match parse_args(&args) {
        Ok(Command::Transform { input_path, pad_path }) => {
            assert_eq!(input_path, "secret.txt");
            assert_eq!(pad_path, "pad.bin");
        }
        _ => panic!("expected the transform mode"),
    }
}

#[test]
fn parse_args_invalid_size_reported() {
    let args = args_of(&["mlxor", "--genxorpad", "lots", "pad.bin"]);
    assert!(matches!(parse_args(&args), Err(CliError::InvalidSize)));
}

#[test]
fn parse_args_negative_size_reported() {
    let args = args_of(&["mlxor", "-g", "-5", "pad.bin"]);
    assert!(matches!(parse_args(&args), Err(CliError::InvalidSize)));
}

#[test]
fn parse_args_wrong_counts_rejected() {
    for parts in [
        vec!["mlxor"],
        vec!["mlxor", "one"],
        vec!["mlxor", "a", "b", "c", "d"],
    ] {
        let args: Vec<String> = parts.iter().map(|s| s.to_string()).collect();
        assert!(matches!(parse_args(&args), Err(CliError::InvalidArguments)));
    }
}

#[test]
fn parse_args_four_without_flag_rejected() {
    let args = args_of(&["mlxor", "notaflag", "64", "pad.bin"]);
    assert!(matches!(parse_args(&args), Err(CliError::InvalidArguments)));
}

#[test]
fn parse_size_plain_numbers() {
    assert_eq!(parse_size("0"), Some(0));
    assert_eq!(parse_size("123"), Some(123));
    assert_eq!(parse_size("007"), Some(7));
}

#[test]
fn parse_size_leading_plus() {
    assert_eq!(parse_size("+42"), Some(42));
}

#[test]
fn parse_size_rejects_non_numerals() {
    assert_eq!(parse_size(""), None);
    assert_eq!(parse_size("+"), None);
    assert_eq!(parse_size("abc"), None);
    assert_eq!(parse_size("12a"), None);
    assert_eq!(parse_size("-5"), None);
    assert_eq!(parse_size("1 2"), None);
    assert_eq!(parse_size("1.5"), None);
}

#[test]
fn parse_size_bounds() {
    assert_eq!(parse_size("18446744073709551615"), Some(usize::MAX));
    assert_eq!(parse_size("18446744073709551616"), None);
    assert_eq!(parse_size("99999999999999999999999"), None);
}

#[test]
fn output_path_appends_suffix() {
    assert_eq!(output_path("secret.txt"), "secret.txt_xor");
    assert_eq!(output_path(""), "_xor");
}
