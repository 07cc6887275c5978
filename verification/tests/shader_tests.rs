use mandelbrot::shader::{gl_status_result, PROGRAM_LINK_FAILED, SHADER_COMPILE_FAILED};

#[test]
fn compiled_object_is_accepted() {
    assert_eq!(gl_status_result(7u32, Some(true), None, SHADER_COMPILE_FAILED), Ok(7));
    assert_eq!(
        gl_status_result(7u32, Some(true), Some(String::from("warning")), SHADER_COMPILE_FAILED),
        Ok(7)
    );
}

#[test]
fn failure_reports_info_log() {
    assert_eq!(
        gl_status_result(7u32, Some(false), Some(String::from("syntax error")), SHADER_COMPILE_FAILED),
        Err(String::from("syntax error"))
    );
}

#[test]
fn failure_without_log_reports_fallback() {
    assert_eq!(
        gl_status_result(7u32, Some(false), None, SHADER_COMPILE_FAILED),
        Err(String::from("Unknown error compiling shader"))
    );
    assert_eq!(
        gl_status_result(7u32, None, None, PROGRAM_LINK_FAILED),
        Err(String::from("Unknown error creating program object"))
    );
}
