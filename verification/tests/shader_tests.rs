use render_core::shader::{
    DeviceRequest, LinkOutcome, ShaderError, ShaderProgramBuild, StageKind, StageOutcome,
};

fn ok_stage() -> StageOutcome {
    StageOutcome { success: true, log: String::new() }
}

#[test]
fn successful_build_links_and_releases_stages() {
    let (mut b, req) = ShaderProgramBuild::new();
    assert_eq!(req, DeviceRequest::CompileVertex);
    let req = b.on_vertex_compiled(ok_stage());
    assert_eq!(req, DeviceRequest::CompileFragment);
    let req = b.on_fragment_compiled(ok_stage());
    assert_eq!(req, DeviceRequest::Link);
    let req = b.on_linked(LinkOutcome { success: true, log: String::new() });
    assert_eq!(req, DeviceRequest::DeleteStages);
    let req = b.on_stages_deleted();
    assert_eq!(req, DeviceRequest::Finish);
    assert!(b.stages_released);
    assert!(b.result().is_ok());
}

#[test]
fn vertex_syntax_error_is_tagged_and_leaks_no_stage() {
    let (mut b, _) = ShaderProgramBuild::new();
    b.on_vertex_compiled(StageOutcome {
        success: false,
        log: String::from("0:1: syntax error"),
    });
    // The fragment stage is still compiled, so a stage object exists for
    // it too; the failure path must release both.
    let req = b.on_fragment_compiled(ok_stage());
    assert_eq!(req, DeviceRequest::DeleteStages);
    b.on_stages_deleted();
    assert!(b.stages_released);
    assert!(!b.vertex_alive);
    assert!(!b.fragment_alive);
    match b.result() {
        Err(ShaderError::Compile { stage, log }) => {
            assert_eq!(stage, StageKind::Vertex);
            assert_eq!(log, "0:1: syntax error");
        },
        other => panic!("expected a vertex compile error, got {other:?}"),
    }
}

#[test]
fn fragment_failure_is_tagged_with_the_fragment_stage() {
    let (mut b, _) = ShaderProgramBuild::new();
    b.on_vertex_compiled(ok_stage());
    let req = b.on_fragment_compiled(StageOutcome {
        success: false,
        log: String::from("bad fragment"),
    });
    assert_eq!(req, DeviceRequest::DeleteStages);
    b.on_stages_deleted();
    match b.result() {
        Err(ShaderError::Compile { stage, log }) => {
            assert_eq!(stage, StageKind::Fragment);
            assert_eq!(log, "bad fragment");
        },
        other => panic!("expected a fragment compile error, got {other:?}"),
    }
}

#[test]
fn link_failure_carries_the_program_log() {
    let (mut b, _) = ShaderProgramBuild::new();
    b.on_vertex_compiled(ok_stage());
    let req = b.on_fragment_compiled(ok_stage());
    assert_eq!(req, DeviceRequest::Link);
    b.on_linked(LinkOutcome { success: false, log: String::from("unresolved varying") });
    b.on_stages_deleted();
    assert!(b.stages_released);
    match b.result() {
        Err(ShaderError::Link { log }) => assert_eq!(log, "unresolved varying"),
        other => panic!("expected a link error, got {other:?}"),
    }
}
