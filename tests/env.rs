use oci_hooks::env::{separator_index, validate_env_strings, validate_kv_format, EnvFault};
use oci_hooks::merge::MergeError;

#[test]
fn kv_format_accepts_assignment() {
    assert_eq!(validate_kv_format("KEY=value"), Ok(()));
    assert_eq!(validate_kv_format("K="), Ok(()));
}

#[test]
fn kv_format_missing_separator() {
    assert_eq!(validate_kv_format("KEY"), Err(EnvFault::MissingSeparator));
    assert_eq!(validate_kv_format(""), Err(EnvFault::MissingSeparator));
}

#[test]
fn kv_format_empty_key() {
    assert_eq!(validate_kv_format("=value"), Err(EnvFault::EmptyKey));
}

#[test]
fn separator_found_first() {
    assert_eq!(separator_index("ab=c=d"), 2);
    assert_eq!(separator_index("äb=c"), 2);
    assert_eq!(separator_index("abc"), 3);
}

#[test]
fn env_strings_handed_back() {
    let v = vec!["A=1".to_string(), "B=2".to_string()];
    assert_eq!(validate_env_strings(v.clone()), Ok(v));
}

#[test]
fn env_strings_first_fault_reported() {
    let v = vec!["A=1".to_string(), "=2".to_string(), "C".to_string()];
    assert_eq!(validate_env_strings(v), Err(MergeError::EmptyEnvKey));
    let w = vec!["A=1".to_string(), "C".to_string(), "=2".to_string()];
    assert_eq!(validate_env_strings(w), Err(MergeError::InvalidEnvFormat("C".to_string())));
}
