use gl_pipeline::bundle::ResourceBundle;
use gl_pipeline::fetch::{FetchError, ResourceRequest};
use gl_pipeline::joiner::{join_completions, Completion};
use gl_pipeline::layout::{
    interleaved_layout, quad_indices, vertex_layout, AttributeSpec, QUAD_VERTEX_COUNT,
};
use gl_pipeline::pipeline::{
    Action, AttributeBinding, DrawCall, Failure, GpuPipeline, ShaderKind, Stage,
};

const VERTEX_SOURCE: &str = "#version 300 es\nvoid main(){gl_Position=vec4(0);}";
const FRAGMENT_SOURCE: &str =
    "#version 300 es\nprecision mediump float;\nout vec4 c;\nvoid main(){c=vec4(1);}";

fn bundle(vertex: Option<&str>, fragment: Option<&str>) -> ResourceBundle {
    let mut b = ResourceBundle::new();
    if let Some(v) = vertex {
        b.insert("vertex".to_string(), v.to_string());
    }
    if let Some(f) = fragment {
        b.insert("fragment".to_string(), f.to_string());
    }
    b
}

fn compiling() -> GpuPipeline {
    let mut p = GpuPipeline::new();
    p.accept_resources(Ok(bundle(Some(VERTEX_SOURCE), Some(FRAGMENT_SOURCE))));
    assert_eq!(p.stage(), Stage::CompilingShaders);
    p
}

fn linking() -> GpuPipeline {
    let mut p = compiling();
    p.record_compile(ShaderKind::Vertex, true, None);
    p.record_compile(ShaderKind::Fragment, true, None);
    assert_eq!(p.stage(), Stage::LinkingProgram);
    p
}

fn uploading() -> GpuPipeline {
    let mut p = linking();
    p.record_link(true, String::new());
    assert!(p.record_attributes(0, 1).is_some());
    assert_eq!(p.stage(), Stage::UploadingBuffers);
    p
}

#[test]
fn valid_shaders_reach_drawn_without_diagnostics() {
    let reqs = vec![
        ResourceRequest::new("vertex".to_string(), "../shader/vertex_shader.glsl".to_string()),
        ResourceRequest::new("fragment".to_string(), "../shader/fragment_shader.glsl".to_string()),
    ];
    let arrivals = vec![
        Completion { name: "fragment".to_string(), result: Ok(FRAGMENT_SOURCE.to_string()) },
        Completion { name: "vertex".to_string(), result: Ok(VERTEX_SOURCE.to_string()) },
    ];
    let joined = match join_completions(&reqs, &arrivals) {
        Some(r) => r,
        None => panic!("join pending"),
    };
    let mut p = GpuPipeline::new();
    assert_eq!(p.stage(), Stage::AwaitingResources);
    p.accept_resources(joined);
    assert_eq!(p.stage(), Stage::CompilingShaders);
    assert_eq!(p.shader_source(ShaderKind::Vertex), Some(VERTEX_SOURCE.to_string()));
    assert_eq!(p.shader_source(ShaderKind::Fragment), Some(FRAGMENT_SOURCE.to_string()));
    p.record_compile(ShaderKind::Vertex, true, None);
    assert_eq!(p.stage(), Stage::CompilingShaders);
    assert!(p.is_compiled(ShaderKind::Vertex));
    assert!(!p.is_compiled(ShaderKind::Fragment));
    p.record_compile(ShaderKind::Fragment, true, None);
    assert_eq!(p.stage(), Stage::LinkingProgram);
    p.record_link(true, String::new());
    assert_eq!(p.stage(), Stage::BindingAttributes);
    // the vertex source declares no attributes, so GL reports -1 for both names
    let bindings = p.record_attributes(-1, -1).expect("binding was due");
    assert_eq!(p.stage(), Stage::UploadingBuffers);
    assert!(bindings.is_empty());
    let draw = p.record_upload(true);
    assert_eq!(draw, Some(DrawCall { indexed: true, count: 6 }));
    assert_eq!(p.stage(), Stage::Drawn);
    assert_eq!(p.draw_count(), 1);
    assert_eq!(p.diagnostic(), String::new());
}

#[test]
fn invalid_fragment_source_fails_compile_without_draw() {
    let mut p = GpuPipeline::new();
    p.accept_resources(Ok(bundle(Some(VERTEX_SOURCE), Some("void main( {"))));
    p.record_compile(ShaderKind::Vertex, true, None);
    let log = "ERROR: 0:1: '{' : syntax error".to_string();
    p.record_compile(ShaderKind::Fragment, false, Some(log.clone()));
    assert_eq!(p.stage(), Stage::Failed(Failure::Compile(ShaderKind::Fragment)));
    assert!(p.diagnostic().contains("syntax error"));
    assert_eq!(p.diagnostic(), log);
    p.record_link(true, String::new());
    assert_eq!(p.record_attributes(0, 1), None);
    assert_eq!(p.record_upload(true), None);
    assert_eq!(p.stage(), Stage::Failed(Failure::Compile(ShaderKind::Fragment)));
    assert_eq!(p.draw_count(), 0);
}

#[test]
fn vertex_transport_failure_stops_before_shaders() {
    let reqs = vec![
        ResourceRequest::new("vertex".to_string(), "../shader/missing.glsl".to_string()),
        ResourceRequest::new("fragment".to_string(), "../shader/fragment_shader.glsl".to_string()),
    ];
    let arrivals = vec![Completion { name: "vertex".to_string(), result: Err(FetchError::Transport) }];
    let joined = match join_completions(&reqs, &arrivals) {
        Some(r) => r,
        None => panic!("join pending"),
    };
    assert!(matches!(joined, Err(FetchError::Transport)));
    let mut p = GpuPipeline::new();
    p.accept_resources(joined);
    assert_eq!(p.stage(), Stage::Failed(Failure::Fetch(FetchError::Transport)));
    assert_eq!(p.shader_source(ShaderKind::Vertex), None);
    assert_eq!(p.shader_source(ShaderKind::Fragment), None);
}

#[test]
fn bundle_without_fragment_never_compiles() {
    let mut p = GpuPipeline::new();
    p.accept_resources(Ok(bundle(Some(VERTEX_SOURCE), None)));
    assert_eq!(p.stage(), Stage::Failed(Failure::MissingResource));
    assert_eq!(p.diagnostic(), "fragment".to_string());
    p.record_compile(ShaderKind::Vertex, true, None);
    assert!(!p.is_compiled(ShaderKind::Vertex));
}

#[test]
fn bundle_without_vertex_never_compiles() {
    let mut p = GpuPipeline::new();
    p.accept_resources(Ok(bundle(None, None)));
    assert_eq!(p.stage(), Stage::Failed(Failure::MissingResource));
    assert_eq!(p.diagnostic(), "vertex".to_string());
}

#[test]
fn one_compiled_shader_does_not_start_linking() {
    let mut p = compiling();
    p.record_compile(ShaderKind::Fragment, true, None);
    p.record_compile(ShaderKind::Fragment, true, None);
    assert_eq!(p.stage(), Stage::CompilingShaders);
    p.record_link(true, String::new());
    assert_eq!(p.stage(), Stage::CompilingShaders);
}

#[test]
fn vertex_compile_failure_keeps_log() {
    let mut p = compiling();
    p.record_compile(ShaderKind::Vertex, false, Some("bad vertex".to_string()));
    assert_eq!(p.stage(), Stage::Failed(Failure::Compile(ShaderKind::Vertex)));
    assert_eq!(p.diagnostic(), "bad vertex".to_string());
    p.record_compile(ShaderKind::Fragment, true, None);
    assert_eq!(p.stage(), Stage::Failed(Failure::Compile(ShaderKind::Vertex)));
}

#[test]
fn link_failure_keeps_log() {
    let mut p = linking();
    p.record_link(false, "link error: varying mismatch".to_string());
    assert_eq!(p.stage(), Stage::Failed(Failure::Link));
    assert_eq!(p.diagnostic(), "link error: varying mismatch".to_string());
}

#[test]
fn resolved_attributes_get_interleaved_bindings() {
    let mut p = linking();
    p.record_link(true, String::new());
    let bindings = p.record_attributes(0, 1).expect("binding was due");
    assert_eq!(p.stage(), Stage::UploadingBuffers);
    assert_eq!(
        bindings,
        vec![
            AttributeBinding { location: 0, component_count: 3, stride: 28, byte_offset: 0 },
            AttributeBinding { location: 1, component_count: 4, stride: 28, byte_offset: 12 },
        ]
    );
}

#[test]
fn unresolved_position_attribute_left_unbound() {
    let mut p = linking();
    p.record_link(true, String::new());
    let bindings = p.record_attributes(-1, 1).expect("binding was due");
    assert_eq!(
        bindings,
        vec![AttributeBinding { location: 1, component_count: 4, stride: 28, byte_offset: 12 }]
    );
    assert_eq!(p.stage(), Stage::UploadingBuffers);
    assert_eq!(p.diagnostic(), String::new());
}

#[test]
fn unresolved_color_attribute_left_unbound() {
    let mut p = linking();
    p.record_link(true, String::new());
    let bindings = p.record_attributes(2, -1).expect("binding was due");
    assert_eq!(
        bindings,
        vec![AttributeBinding { location: 2, component_count: 3, stride: 28, byte_offset: 0 }]
    );
    assert_eq!(p.record_upload(true), Some(DrawCall { indexed: true, count: 6 }));
    assert_eq!(p.stage(), Stage::Drawn);
}

#[test]
fn next_action_follows_the_stages() {
    let mut p = GpuPipeline::new();
    assert_eq!(p.next_action(), Action::AwaitResources);
    p.accept_resources(Ok(bundle(Some(VERTEX_SOURCE), Some(FRAGMENT_SOURCE))));
    assert_eq!(p.next_action(), Action::Compile(ShaderKind::Vertex));
    p.record_compile(ShaderKind::Vertex, true, None);
    assert_eq!(p.next_action(), Action::Compile(ShaderKind::Fragment));
    p.record_compile(ShaderKind::Fragment, true, None);
    assert_eq!(p.next_action(), Action::Link);
    p.record_link(true, String::new());
    assert_eq!(p.next_action(), Action::ResolveAttributes);
    p.record_attributes(-1, -1);
    assert_eq!(p.next_action(), Action::Upload);
    p.record_upload(true);
    assert_eq!(p.next_action(), Action::Stop);
}

#[test]
fn next_action_stops_after_failure() {
    let mut p = compiling();
    p.record_compile(ShaderKind::Vertex, false, Some("bad".to_string()));
    assert_eq!(p.next_action(), Action::Stop);
}

#[test]
fn buffer_failure_issues_no_draw() {
    let mut p = uploading();
    assert_eq!(p.record_upload(false), None);
    assert_eq!(p.stage(), Stage::Failed(Failure::BufferAllocation));
    assert_eq!(p.draw_count(), 0);
}

#[test]
fn drawn_is_terminal_with_one_draw() {
    let mut p = uploading();
    assert_eq!(p.record_upload(true), Some(DrawCall { indexed: true, count: 6 }));
    assert_eq!(p.record_upload(true), None);
    p.accept_resources(Ok(bundle(Some("a"), Some("b"))));
    p.record_compile(ShaderKind::Vertex, false, Some("x".to_string()));
    p.record_link(false, "y".to_string());
    assert_eq!(p.record_attributes(0, 1), None);
    assert_eq!(p.stage(), Stage::Drawn);
    assert_eq!(p.draw_count(), 1);
    assert_eq!(p.diagnostic(), String::new());
}

#[test]
fn interleaved_layout_offsets_and_stride() {
    let l = interleaved_layout();
    assert_eq!(l.stride, 28);
    assert_eq!(l.entries.len(), 2);
    assert_eq!(l.entries[0].name, "vertex_position");
    assert_eq!(l.entries[0].component_count, 3);
    assert_eq!(l.entries[0].byte_offset, 0);
    assert_eq!(l.entries[1].name, "color");
    assert_eq!(l.entries[1].component_count, 4);
    assert_eq!(l.entries[1].byte_offset, 12);
}

#[test]
fn vertex_layout_general_schema() {
    let schema = vec![
        AttributeSpec { name: "uv".to_string(), component_count: 2 },
        AttributeSpec { name: "normal".to_string(), component_count: 3 },
        AttributeSpec { name: "weight".to_string(), component_count: 1 },
    ];
    let l = vertex_layout(&schema);
    assert_eq!(l.stride, 24);
    let offsets: Vec<u32> = l.entries.iter().map(|e| e.byte_offset).collect();
    assert_eq!(offsets, vec![0, 8, 20]);
    assert_eq!(l.entries[1].name, "normal");
}

#[test]
fn vertex_layout_empty_schema() {
    let l = vertex_layout(&vec![]);
    assert_eq!(l.stride, 0);
    assert!(l.entries.is_empty());
}

#[test]
fn quad_indices_two_triangles() {
    let idx = quad_indices();
    assert_eq!(idx, vec![0, 1, 2, 1, 3, 2]);
    assert!(idx.iter().all(|&i| (i as u32) < QUAD_VERTEX_COUNT));
}
