use opengl_shader_utils::outcome::{compile_outcome, is_success, link_outcome, ShaderError};

#[test]
fn success_status_is_gl_true() {
    assert!(is_success(1));
    assert!(!is_success(0));
    assert!(!is_success(2));
}

#[test]
fn compile_success_returns_handle() {
    assert!(matches!(compile_outcome(7, 1, b""), Ok(7)));
}

#[test]
fn compile_failure_carries_log() {
    match compile_outcome(7, 0, b"0:1(1): error: syntax error\0") {
        Err(ShaderError::Compile(log)) => assert_eq!(log, "0:1(1): error: syntax error\0"),
        other => panic!("unexpected {:?}", other),
    }
}

#[test]
fn compile_failure_with_bad_log() {
    assert!(matches!(compile_outcome(7, 0, &[0xff, 0xfe]), Err(ShaderError::InvalidLog)));
}

#[test]
fn link_success_returns_program() {
    assert!(matches!(link_outcome(3, 1, b"ignored"), Ok(3)));
}

#[test]
fn link_failure_carries_log() {
    match link_outcome(3, 0, "unresolved é".as_bytes()) {
        Err(ShaderError::Link(log)) => assert_eq!(log, "unresolved é"),
        other => panic!("unexpected {:?}", other),
    }
}

#[test]
fn link_failure_with_bad_log() {
    assert!(matches!(link_outcome(3, 0, &[0xc0]), Err(ShaderError::InvalidLog)));
}
