use whacky::launch::{is_nul_free, marshal_argv};

fn strings(tokens: &[&str]) -> Vec<String> {
    tokens.iter().map(|t| t.to_string()).collect()
}

#[test]
fn echo_round_trip_preserves_order_and_values() {
    let name = "echo".to_string();
    let args = strings(&["hello", "world"]);
    let argv = marshal_argv(&name, &args).expect("NUL-free input must marshal");
    assert_eq!(argv, strings(&["echo", "hello", "world"]));
}

#[test]
fn no_arguments_marshal_to_the_name_alone() {
    let name = "true".to_string();
    let argv = marshal_argv(&name, &Vec::new()).expect("NUL-free input must marshal");
    assert_eq!(argv, strings(&["true"]));
}

#[test]
fn duplicates_are_not_merged() {
    let name = "x".to_string();
    let args = strings(&["a", "a", "b", "a"]);
    let argv = marshal_argv(&name, &args).expect("NUL-free input must marshal");
    assert_eq!(argv, strings(&["x", "a", "a", "b", "a"]));
}

#[test]
fn embedded_nul_in_program_name_is_refused() {
    let name = "ec\0ho".to_string();
    assert!(marshal_argv(&name, &strings(&["ok"])).is_none());
}

#[test]
fn embedded_nul_in_an_argument_is_refused() {
    let name = "echo".to_string();
    assert!(marshal_argv(&name, &strings(&["fine", "bad\0arg"])).is_none());
}

#[test]
fn nul_detection_looks_at_every_character() {
    assert!(is_nul_free(""));
    assert!(is_nul_free("plain"));
    assert!(!is_nul_free("\0"));
    assert!(!is_nul_free("end\0"));
    assert!(!is_nul_free("\0start"));
}
