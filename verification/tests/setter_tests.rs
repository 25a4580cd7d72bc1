use wallrotate::setter::{set_outcome, set_wallpaper_args, u32_decimal, RotationConfig, SetError};

fn v(s: &str) -> Vec<u8> {
    s.as_bytes().to_vec()
}

fn config(transition_type: &str, duration: u32) -> RotationConfig {
    RotationConfig {
        interval_in_secs: 3600,
        transition_type: v(transition_type),
        transition_duration_secs: duration,
    }
}

#[test]
fn decimal_digits_are_exact() {
    assert_eq!(u32_decimal(0), v("0"));
    assert_eq!(u32_decimal(7), v("7"));
    assert_eq!(u32_decimal(10), v("10"));
    assert_eq!(u32_decimal(3600), v("3600"));
    assert_eq!(u32_decimal(u32::MAX), v("4294967295"));
}

#[test]
fn set_args_are_exact() {
    let cfg = config("random", 3);
    let args = set_wallpaper_args(&cfg, &v("/home/x/a.jpg"));
    assert_eq!(
        args,
        vec![
            v("img"),
            v("--transition-type"),
            v("random"),
            v("--transition-duration"),
            v("3"),
            v("/home/x/a.jpg"),
        ]
    );
}

#[test]
fn set_args_carry_configured_transition() {
    let cfg = config("wipe", 45);
    let args = set_wallpaper_args(&cfg, &v("b.png"));
    assert_eq!(args[2], v("wipe"));
    assert_eq!(args[4], v("45"));
    assert_eq!(args[5], v("b.png"));
}

#[test]
fn launch_failure_is_reported() {
    assert!(matches!(
        set_outcome(false, false, Vec::new()),
        Err(SetError::Launch)
    ));
}

#[test]
fn nonzero_exit_is_reported_with_stderr() {
    match set_outcome(true, false, v("no display")) {
        Err(SetError::ToolFailed(msg)) => assert_eq!(msg, v("no display")),
        other => panic!("expected a tool failure, got {:?}", other),
    }
}

#[test]
fn clean_exit_succeeds() {
    assert!(set_outcome(true, true, Vec::new()).is_ok());
}
