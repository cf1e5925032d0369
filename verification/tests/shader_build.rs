use engine::shader::{compile_outcome, Shader, ShaderStage};

#[test]
fn new_shader_holds_no_program() {
    assert_eq!(Shader::new(), Shader { id: 0 });
}

#[test]
fn successful_build_is_ok() {
    assert_eq!(compile_outcome(true, true, None, true), Ok(()));
    assert_eq!(compile_outcome(true, true, Some(true), true), Ok(()));
}

#[test]
fn vertex_failure_reported_first() {
    assert_eq!(
        compile_outcome(false, false, Some(false), false),
        Err(ShaderStage::Vertex)
    );
    assert_eq!(compile_outcome(false, true, None, true), Err(ShaderStage::Vertex));
}

#[test]
fn fragment_failure_reported() {
    assert_eq!(compile_outcome(true, false, None, true), Err(ShaderStage::Fragment));
    assert_eq!(
        compile_outcome(true, false, Some(false), false),
        Err(ShaderStage::Fragment)
    );
}

#[test]
fn geometry_failure_reported() {
    assert_eq!(
        compile_outcome(true, true, Some(false), true),
        Err(ShaderStage::Geometry)
    );
}

#[test]
fn link_failure_reported() {
    assert_eq!(compile_outcome(true, true, None, false), Err(ShaderStage::Program));
    assert_eq!(
        compile_outcome(true, true, Some(true), false),
        Err(ShaderStage::Program)
    );
}
