use laminar::mode::{detect_mode_from_raw_args, detect_mode_with_terminal, infer_operation_from_raw_args, Mode};

#[test]
fn output_json_has_highest_priority() {
    let mode = detect_mode_with_terminal(true, true, true);
    assert_eq!(mode, Mode::Agent);
}

#[test]
fn interactive_overrides_non_terminal_stdout() {
    let mode = detect_mode_with_terminal(false, true, false);
    assert_eq!(mode, Mode::Operator);
}

#[test]
fn tty_defaults_to_operator() {
    let mode = detect_mode_with_terminal(false, false, true);
    assert_eq!(mode, Mode::Operator);
}

#[test]
fn pipe_defaults_to_agent() {
    let mode = detect_mode_with_terminal(false, false, false);
    assert_eq!(mode, Mode::Agent);
}

#[test]
fn mode_detection_is_deterministic_for_same_inputs() {
    let first = detect_mode_with_terminal(false, false, true);
    let second = detect_mode_with_terminal(false, false, true);
    let third = detect_mode_with_terminal(false, false, true);
    assert_eq!(first, second);
    assert_eq!(second, third);
}

#[test]
fn raw_arg_mode_detection_obeys_priority_rules() {
    let mode = detect_mode_from_raw_args(
        &vec![
            "laminar".to_string(),
            "--output".to_string(),
            "json".to_string(),
            "--interactive".to_string(),
        ],
        true,
    );
    assert_eq!(mode, Mode::Agent);
}

#[test]
fn raw_args_accept_equals_form_and_case() {
    let mode = detect_mode_from_raw_args(
        &vec!["laminar".to_string(), "--output=JSON".to_string()],
        true,
    );
    assert_eq!(mode, Mode::Agent);
}

#[test]
fn operation_inference_finds_subcommand() {
    assert_eq!(
        infer_operation_from_raw_args(&vec![
            "laminar".to_string(),
            "--quiet".to_string(),
            "construct".to_string(),
        ]),
        "construct"
    );
    assert_eq!(
        infer_operation_from_raw_args(&vec!["laminar".to_string()]),
        "validate"
    );
}
