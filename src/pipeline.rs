use vstd::prelude::*;
use crate::bundle::ResourceBundle;
use crate::fetch::FetchError;
use crate::layout::{
    COLOR_COMPONENTS, FLOAT_BYTES, POSITION_COMPONENTS, interleaved_layout, quad_indices,
};

verus! {

#[derive(Clone, Copy, Debug, PartialEq, Eq, Structural)]
pub enum ShaderKind {
    Vertex,
    Fragment,
}

/// Why the pipeline stopped.
#[derive(Clone, Copy, Debug, PartialEq, Eq, Structural)]
pub enum Failure {
    /// A resource could not be fetched.
    Fetch(FetchError),
    /// The bundle lacks the vertex or the fragment source.
    MissingResource,
    /// A shader did not compile.
    Compile(ShaderKind),
    /// The program did not link, or could not be created.
    Link,
    /// A GPU buffer could not be created.
    BufferAllocation,
}

/// The stages of the pipeline, in order; `Drawn` and `Failed` are terminal.
#[derive(Clone, Copy, Debug, PartialEq, Eq, Structural)]
pub enum Stage {
    AwaitingResources,
    CompilingShaders,
    LinkingProgram,
    BindingAttributes,
    UploadingBuffers,
    Drawn,
    Failed(Failure),
}

/// How one vertex attribute is to be fed from the interleaved buffer.
#[derive(Clone, Copy, Debug, PartialEq, Eq, Structural)]
pub struct AttributeBinding {
    pub location: u32,
    pub component_count: u32,
    pub stride: u32,
    pub byte_offset: u32,
}

/// The one draw submission: triangles, from the index buffer when `indexed`.
#[derive(Clone, Copy, Debug, PartialEq, Eq, Structural)]
pub struct DrawCall {
    pub indexed: bool,
    pub count: u32,
}

/// The outside work that the pipeline waits for next.
#[derive(Clone, Copy, Debug, PartialEq, Eq, Structural)]
pub enum Action {
    /// Join the resources and hand them over.
    AwaitResources,
    /// Compile the shader of this kind and report on it.
    Compile(ShaderKind),
    /// Link the two compiled shaders into a program and report on it.
    Link,
    /// Look up the attribute locations in the linked program.
    ResolveAttributes,
    /// Create and fill the vertex and index buffers.
    Upload,
    /// Nothing: the pipeline has drawn or failed.
    Stop,
}

/// A shader's source and what its compilation reported.
pub struct ShaderUnit {
    pub kind: ShaderKind,
    pub source: String,
    pub compiled: bool,
    pub diagnostic_log: Option<String>,
}

pub struct UnitView {
    pub kind: ShaderKind,
    pub source: Seq<char>,
    pub compiled: bool,
    pub log: Option<Seq<char>>,
}

pub open spec fn opt_text(o: Option<String>) -> Option<Seq<char>> {
    match o {
        Some(t) => Some(t@),
        None => None,
    }
}

impl ShaderUnit {
    pub open spec fn view(&self) -> UnitView {
        UnitView {
            kind: self.kind,
            source: self.source@,
            compiled: self.compiled,
            log: opt_text(self.diagnostic_log),
        }
    }
}

pub open spec fn opt_unit(o: Option<ShaderUnit>) -> Option<UnitView> {
    match o {
        Some(u) => Some(u@),
        None => None,
    }
}

/// The abstract state of the pipeline: its stage, its two shader units once
/// their sources are known, the diagnostic text of a failure, and the number
/// of draw submissions issued.
pub struct PipelineView {
    pub stage: Stage,
    pub vertex: Option<UnitView>,
    pub fragment: Option<UnitView>,
    pub diagnostic: Seq<char>,
    pub draws: nat,
}

pub open spec fn vertex_key() -> Seq<char> {
    "vertex"@
}

pub open spec fn fragment_key() -> Seq<char> {
    "fragment"@
}

pub open spec fn bundle_result(
    joined: Result<ResourceBundle, FetchError>,
) -> Result<Map<Seq<char>, Seq<char>>, FetchError> {
    match joined {
        Ok(b) => Ok(b@),
        Err(e) => Err(e),
    }
}

/// Stages at which both shader units exist.
pub open spec fn holds_units(stage: Stage) -> bool {
    match stage {
        Stage::AwaitingResources => false,
        Stage::Failed(Failure::Fetch(_)) => false,
        Stage::Failed(Failure::MissingResource) => false,
        _ => true,
    }
}

/// Stages reached only once both shader units compiled.
pub open spec fn past_compile(stage: Stage) -> bool {
    match stage {
        Stage::LinkingProgram => true,
        Stage::BindingAttributes => true,
        Stage::UploadingBuffers => true,
        Stage::Drawn => true,
        Stage::Failed(Failure::Link) => true,
        Stage::Failed(Failure::BufferAllocation) => true,
        _ => false,
    }
}

/// What holds of every reachable pipeline state.
pub open spec fn pipeline_inv(v: PipelineView) -> bool {
    &&& if holds_units(v.stage) {
        &&& v.vertex is Some && v.vertex->0.kind == ShaderKind::Vertex
        &&& v.fragment is Some && v.fragment->0.kind == ShaderKind::Fragment
    } else {
        v.vertex is None && v.fragment is None
    }
    &&& past_compile(v.stage) ==> v.vertex->0.compiled && v.fragment->0.compiled
    &&& v.stage == Stage::CompilingShaders ==> !(v.vertex->0.compiled && v.fragment->0.compiled)
    &&& v.draws == if v.stage == Stage::Drawn {
        1nat
    } else {
        0nat
    }
}

pub open spec fn initial_pipeline() -> PipelineView {
    PipelineView {
        stage: Stage::AwaitingResources,
        vertex: None,
        fragment: None,
        diagnostic: Seq::empty(),
        draws: 0,
    }
}

pub open spec fn fresh_unit(kind: ShaderKind, source: Seq<char>) -> UnitView {
    UnitView { kind, source, compiled: false, log: None }
}

pub open spec fn unit_of(v: PipelineView, kind: ShaderKind) -> Option<UnitView> {
    match kind {
        ShaderKind::Vertex => v.vertex,
        ShaderKind::Fragment => v.fragment,
    }
}

pub open spec fn other_kind(kind: ShaderKind) -> ShaderKind {
    match kind {
        ShaderKind::Vertex => ShaderKind::Fragment,
        ShaderKind::Fragment => ShaderKind::Vertex,
    }
}

pub open spec fn with_unit(v: PipelineView, kind: ShaderKind, u: UnitView) -> PipelineView {
    match kind {
        ShaderKind::Vertex => PipelineView { vertex: Some(u), ..v },
        ShaderKind::Fragment => PipelineView { fragment: Some(u), ..v },
    }
}

pub open spec fn log_text(log: Option<Seq<char>>) -> Seq<char> {
    match log {
        Some(t) => t,
        None => Seq::empty(),
    }
}

/// Handing the joined resources over. A fetch failure stops the pipeline; a
/// bundle without the vertex or the fragment source stops it with the missing
/// name; otherwise both shader units are made from their sources and
/// compilation begins.
pub open spec fn accept_spec(
    v: PipelineView,
    joined: Result<Map<Seq<char>, Seq<char>>, FetchError>,
) -> PipelineView {
    if v.stage != Stage::AwaitingResources {
        v
    } else {
        match joined {
            Err(e) => PipelineView { stage: Stage::Failed(Failure::Fetch(e)), ..v },
            Ok(b) => if !b.contains_key(vertex_key()) {
                PipelineView {
                    stage: Stage::Failed(Failure::MissingResource),
                    diagnostic: vertex_key(),
                    ..v
                }
            } else if !b.contains_key(fragment_key()) {
                PipelineView {
                    stage: Stage::Failed(Failure::MissingResource),
                    diagnostic: fragment_key(),
                    ..v
                }
            } else {
                PipelineView {
                    stage: Stage::CompilingShaders,
                    vertex: Some(fresh_unit(ShaderKind::Vertex, b[vertex_key()])),
                    fragment: Some(fresh_unit(ShaderKind::Fragment, b[fragment_key()])),
                    ..v
                }
            },
        }
    }
}

/// The compiler's report on one shader. A failure stops the pipeline with the
/// compiler's log; once both have compiled, linking begins. A report on a
/// shader already compiled is ignored.
pub open spec fn compile_spec(
    v: PipelineView,
    kind: ShaderKind,
    compiled: bool,
    log: Option<Seq<char>>,
) -> PipelineView {
    if v.stage != Stage::CompilingShaders || unit_of(v, kind) is None || unit_of(
        v,
        kind,
    )->0.compiled {
        v
    } else {
        let w = with_unit(v, kind, UnitView { compiled, log, ..unit_of(v, kind)->0 });
        if !compiled {
            PipelineView {
                stage: Stage::Failed(Failure::Compile(kind)),
                diagnostic: log_text(log),
                ..w
            }
        } else if unit_of(v, other_kind(kind)) is Some && unit_of(v, other_kind(kind))->0.compiled {
            PipelineView { stage: Stage::LinkingProgram, ..w }
        } else {
            w
        }
    }
}

/// The linker's report: success moves on to binding attributes, failure
/// stops the pipeline with the linker's log.
pub open spec fn link_spec(v: PipelineView, linked: bool, log: Seq<char>) -> PipelineView {
    if v.stage != Stage::LinkingProgram {
        v
    } else if linked {
        PipelineView { stage: Stage::BindingAttributes, ..v }
    } else {
        PipelineView { stage: Stage::Failed(Failure::Link), diagnostic: log, ..v }
    }
}

/// The locations of the two attributes in the linked program. A location of
/// -1 (a name the program does not use) only leaves that attribute unbound;
/// the buffers are uploaded next.
pub open spec fn attributes_spec(v: PipelineView, position: i32, color: i32) -> PipelineView {
    if v.stage != Stage::BindingAttributes {
        v
    } else {
        PipelineView { stage: Stage::UploadingBuffers, ..v }
    }
}

/// Whether the buffers could be created: if so, the one draw is issued.
pub open spec fn upload_spec(v: PipelineView, uploaded: bool) -> PipelineView {
    if v.stage != Stage::UploadingBuffers {
        v
    } else if uploaded {
        PipelineView { stage: Stage::Drawn, draws: v.draws + 1, ..v }
    } else {
        PipelineView { stage: Stage::Failed(Failure::BufferAllocation), ..v }
    }
}

pub open spec fn quad_stride() -> u32 {
    (FLOAT_BYTES * (POSITION_COMPONENTS + COLOR_COMPONENTS)) as u32
}

/// How the position attribute, at `location`, is fed from the interleaved buffer.
pub open spec fn position_binding(location: i32) -> AttributeBinding {
    AttributeBinding {
        location: location as u32,
        component_count: POSITION_COMPONENTS,
        stride: quad_stride(),
        byte_offset: 0,
    }
}

/// How the color attribute, at `location`, is fed from the interleaved buffer.
pub open spec fn color_binding(location: i32) -> AttributeBinding {
    AttributeBinding {
        location: location as u32,
        component_count: COLOR_COMPONENTS,
        stride: quad_stride(),
        byte_offset: (FLOAT_BYTES * POSITION_COMPONENTS) as u32,
    }
}

/// The bindings of the attributes that resolved (a non-negative location),
/// position first.
pub open spec fn quad_bindings(position: i32, color: i32) -> Seq<AttributeBinding> {
    let p = if position >= 0 {
        seq![position_binding(position)]
    } else {
        Seq::empty()
    };
    let c = if color >= 0 {
        seq![color_binding(color)]
    } else {
        Seq::empty()
    };
    p + c
}

/// The draw of the quad: its six indices, as two triangles.
pub open spec fn quad_draw() -> DrawCall {
    DrawCall { indexed: true, count: 6 }
}

/// The outside work that the state `v` waits for: the vertex shader is
/// compiled before the fragment shader.
pub open spec fn next_action_spec(v: PipelineView) -> Action {
    match v.stage {
        Stage::AwaitingResources => Action::AwaitResources,
        Stage::CompilingShaders => if unit_of(v, ShaderKind::Vertex) is Some && !unit_of(
            v,
            ShaderKind::Vertex,
        )->0.compiled {
            Action::Compile(ShaderKind::Vertex)
        } else {
            Action::Compile(ShaderKind::Fragment)
        },
        Stage::LinkingProgram => Action::Link,
        Stage::BindingAttributes => Action::ResolveAttributes,
        Stage::UploadingBuffers => Action::Upload,
        _ => Action::Stop,
    }
}

/// Handing over the resources keeps the pipeline invariant.
pub proof fn lemma_accept_keeps_invariant(
    v: PipelineView,
    joined: Result<Map<Seq<char>, Seq<char>>, FetchError>,
)
    requires
        pipeline_inv(v),
    ensures
        pipeline_inv(accept_spec(v, joined)),
{
}

/// A compiler report keeps the pipeline invariant.
pub proof fn lemma_compile_keeps_invariant(
    v: PipelineView,
    kind: ShaderKind,
    compiled: bool,
    log: Option<Seq<char>>,
)
    requires
        pipeline_inv(v),
    ensures
        pipeline_inv(compile_spec(v, kind, compiled, log)),
{
}

/// A linker report keeps the pipeline invariant.
pub proof fn lemma_link_keeps_invariant(v: PipelineView, linked: bool, log: Seq<char>)
    requires
        pipeline_inv(v),
    ensures
        pipeline_inv(link_spec(v, linked, log)),
{
}

/// Attribute locations keep the pipeline invariant.
pub proof fn lemma_attributes_keeps_invariant(v: PipelineView, position: i32, color: i32)
    requires
        pipeline_inv(v),
    ensures
        pipeline_inv(attributes_spec(v, position, color)),
{
}

/// An upload report keeps the pipeline invariant.
pub proof fn lemma_upload_keeps_invariant(v: PipelineView, uploaded: bool)
    requires
        pipeline_inv(v),
    ensures
        pipeline_inv(upload_spec(v, uploaded)),
{
}

/// Compilation begins only from a bundle that holds both the vertex and the
/// fragment source: handing over the resources is the one transition into
/// it, and only with such a bundle.
pub proof fn lemma_compiling_needs_both_sources(
    v: PipelineView,
    joined: Result<Map<Seq<char>, Seq<char>>, FetchError>,
    kind: ShaderKind,
    compiled: bool,
    compile_log: Option<Seq<char>>,
    linked: bool,
    link_log: Seq<char>,
    position: i32,
    color: i32,
    uploaded: bool,
)
    ensures
        accept_spec(v, joined).stage == Stage::CompilingShaders && v.stage
            != Stage::CompilingShaders ==> {
            &&& joined is Ok
            &&& joined->Ok_0.contains_key(vertex_key())
            &&& joined->Ok_0.contains_key(fragment_key())
        },
        compile_spec(v, kind, compiled, compile_log).stage == Stage::CompilingShaders ==> v.stage
            == Stage::CompilingShaders,
        link_spec(v, linked, link_log).stage == Stage::CompilingShaders ==> v.stage
            == Stage::CompilingShaders,
        attributes_spec(v, position, color).stage == Stage::CompilingShaders ==> v.stage
            == Stage::CompilingShaders,
        upload_spec(v, uploaded).stage == Stage::CompilingShaders ==> v.stage
            == Stage::CompilingShaders,
{
}

/// Linking, and every stage after it, is reached only with both shader units
/// compiled.
pub proof fn lemma_linking_needs_both_compiled(
    v: PipelineView,
    joined: Result<Map<Seq<char>, Seq<char>>, FetchError>,
    kind: ShaderKind,
    compiled: bool,
    compile_log: Option<Seq<char>>,
    linked: bool,
    link_log: Seq<char>,
    position: i32,
    color: i32,
    uploaded: bool,
)
    requires
        pipeline_inv(v),
    ensures
        ({
            let w = compile_spec(v, kind, compiled, compile_log);
            w.stage == Stage::LinkingProgram ==> w.vertex->0.compiled && w.fragment->0.compiled
        }),
        ({
            let w = accept_spec(v, joined);
            w.stage == Stage::LinkingProgram ==> w.vertex->0.compiled && w.fragment->0.compiled
        }),
        ({
            let w = link_spec(v, linked, link_log);
            w.stage == Stage::LinkingProgram ==> w.vertex->0.compiled && w.fragment->0.compiled
        }),
        ({
            let w = attributes_spec(v, position, color);
            w.stage == Stage::LinkingProgram ==> w.vertex->0.compiled && w.fragment->0.compiled
        }),
        ({
            let w = upload_spec(v, uploaded);
            w.stage == Stage::LinkingProgram ==> w.vertex->0.compiled && w.fragment->0.compiled
        }),
{
    lemma_accept_keeps_invariant(v, joined);
    lemma_compile_keeps_invariant(v, kind, compiled, compile_log);
    lemma_link_keeps_invariant(v, linked, link_log);
    lemma_attributes_keeps_invariant(v, position, color);
    lemma_upload_keeps_invariant(v, uploaded);
}

/// From uploading, a successful upload issues exactly one draw; the drawn
/// pipeline is terminal, so no transition issues another.
pub proof fn lemma_exactly_one_draw(
    v: PipelineView,
    joined: Result<Map<Seq<char>, Seq<char>>, FetchError>,
    kind: ShaderKind,
    compiled: bool,
    compile_log: Option<Seq<char>>,
    linked: bool,
    link_log: Seq<char>,
    position: i32,
    color: i32,
    uploaded: bool,
)
    requires
        pipeline_inv(v),
        v.stage == Stage::UploadingBuffers,
    ensures
        ({
            let w = upload_spec(v, true);
            &&& w.stage == Stage::Drawn
            &&& w.draws == 1
            &&& accept_spec(w, joined) == w
            &&& compile_spec(w, kind, compiled, compile_log) == w
            &&& link_spec(w, linked, link_log) == w
            &&& attributes_spec(w, position, color) == w
            &&& upload_spec(w, uploaded) == w
        }),
{
}

/// With both sources in the bundle, a run in which both shaders compile, the
/// program links and the buffers are created ends drawn, with one draw and no
/// diagnostic, whatever locations the attributes get (-1 included).
pub proof fn lemma_successful_run_draws(
    b: Map<Seq<char>, Seq<char>>,
    position: i32,
    color: i32,
    link_log: Seq<char>,
)
    requires
        b.contains_key(vertex_key()),
        b.contains_key(fragment_key()),
    ensures
        ({
            let s1 = accept_spec(initial_pipeline(), Ok(b));
            let s2 = compile_spec(s1, ShaderKind::Vertex, true, None);
            let s3 = compile_spec(s2, ShaderKind::Fragment, true, None);
            let s4 = link_spec(s3, true, link_log);
            let s5 = attributes_spec(s4, position, color);
            let s6 = upload_spec(s5, true);
            &&& s6.stage == Stage::Drawn
            &&& s6.draws == 1
            &&& s6.diagnostic == Seq::<char>::empty()
        }),
{
}

/// A pipeline that drives two shaders to a single draw call, keeping the
/// state of each stage.
pub struct GpuPipeline {
    stage: Stage,
    vertex: Option<ShaderUnit>,
    fragment: Option<ShaderUnit>,
    diagnostic: String,
    draws: u32,
}

impl GpuPipeline {
    pub closed spec fn view(&self) -> PipelineView {
        PipelineView {
            stage: self.stage,
            vertex: opt_unit(self.vertex),
            fragment: opt_unit(self.fragment),
            diagnostic: self.diagnostic@,
            draws: self.draws as nat,
        }
    }

    pub open spec fn wf(&self) -> bool {
        pipeline_inv(self@)
    }

    pub fn new() -> (r: GpuPipeline)
        ensures
            r.wf(),
            r@ == initial_pipeline(),
    {
        GpuPipeline {
            stage: Stage::AwaitingResources,
            vertex: None,
            fragment: None,
            diagnostic: String::new(),
            draws: 0,
        }
    }

    pub fn stage(&self) -> (r: Stage)
        ensures
            r == self@.stage,
    {
        self.stage
    }

    /// The outside work to do next (see `next_action_spec`).
    pub fn next_action(&self) -> (r: Action)
        ensures
            r == next_action_spec(self@),
    {
        match self.stage {
            Stage::AwaitingResources => Action::AwaitResources,
            Stage::CompilingShaders => {
                let vertex_pending = match &self.vertex {
                    Some(u) => !u.compiled,
                    None => false,
                };
                if vertex_pending {
                    Action::Compile(ShaderKind::Vertex)
                } else {
                    Action::Compile(ShaderKind::Fragment)
                }
            },
            Stage::LinkingProgram => Action::Link,
            Stage::BindingAttributes => Action::ResolveAttributes,
            Stage::UploadingBuffers => Action::Upload,
            _ => Action::Stop,
        }
    }

    /// The diagnostic text of the failure (empty while none occurred).
    pub fn diagnostic(&self) -> (r: String)
        ensures
            r@ == self@.diagnostic,
    {
        self.diagnostic.clone()
    }

    /// The number of draw submissions issued.
    pub fn draw_count(&self) -> (r: u32)
        ensures
            r == self@.draws,
    {
        self.draws
    }

    /// The source of the shader of `kind`, once the resources were accepted.
    pub fn shader_source(&self, kind: ShaderKind) -> (r: Option<String>)
        ensures
            r is Some <==> unit_of(self@, kind) is Some,
            r matches Some(t) ==> t@ == unit_of(self@, kind)->0.source,
    {
        let unit = match kind {
            ShaderKind::Vertex => &self.vertex,
            ShaderKind::Fragment => &self.fragment,
        };
        match unit {
            Some(u) => Some(u.source.clone()),
            None => None,
        }
    }

    /// Whether the shader of `kind` has compiled.
    pub fn is_compiled(&self, kind: ShaderKind) -> (r: bool)
        ensures
            r == (unit_of(self@, kind) is Some && unit_of(self@, kind)->0.compiled),
    {
        let unit = match kind {
            ShaderKind::Vertex => &self.vertex,
            ShaderKind::Fragment => &self.fragment,
        };
        match unit {
            Some(u) => u.compiled,
            None => false,
        }
    }

    /// Hands over the outcome of joining the resources (see `accept_spec`).
    pub fn accept_resources(&mut self, joined: Result<ResourceBundle, FetchError>)
        requires
            old(self).wf(),
            joined matches Ok(b) ==> b.wf(),
        ensures
            final(self).wf(),
            final(self)@ == accept_spec(old(self)@, bundle_result(joined)),
    {
        proof {
            lemma_accept_keeps_invariant(self@, bundle_result(joined));
        }
        if self.stage != Stage::AwaitingResources {
            return ;
        }
        match joined {
            Err(e) => {
                self.stage = Stage::Failed(Failure::Fetch(e));
            },
            Ok(bundle) => {
                let vertex_name = String::from_str("vertex");
                let fragment_name = String::from_str("fragment");
                match (bundle.get(&vertex_name), bundle.get(&fragment_name)) {
                    (None, _) => {
                        self.stage = Stage::Failed(Failure::MissingResource);
                        self.diagnostic = vertex_name;
                    },
                    (_, None) => {
                        self.stage = Stage::Failed(Failure::MissingResource);
                        self.diagnostic = fragment_name;
                    },
                    (Some(vertex_source), Some(fragment_source)) => {
                        self.vertex = Some(
                            ShaderUnit {
                                kind: ShaderKind::Vertex,
                                source: vertex_source,
                                compiled: false,
                                diagnostic_log: None,
                            },
                        );
                        self.fragment = Some(
                            ShaderUnit {
                                kind: ShaderKind::Fragment,
                                source: fragment_source,
                                compiled: false,
                                diagnostic_log: None,
                            },
                        );
                        self.stage = Stage::CompilingShaders;
                    },
                }
            },
        }
        assert(self@ =~= accept_spec(old(self)@, bundle_result(joined)));
    }

    /// Hands over the compiler's report on the shader of `kind`: whether it
    /// compiled, and its log (see `compile_spec`).
    pub fn record_compile(&mut self, kind: ShaderKind, compiled: bool, log: Option<String>)
        requires
            old(self).wf(),
        ensures
            final(self).wf(),
            final(self)@ == compile_spec(old(self)@, kind, compiled, opt_text(log)),
    {
        proof {
            lemma_compile_keeps_invariant(self@, kind, compiled, opt_text(log));
        }
        if self.stage != Stage::CompilingShaders {
            return ;
        }
        let other_compiled = match kind {
            ShaderKind::Vertex => match &self.fragment {
                Some(u) => u.compiled,
                None => false,
            },
            ShaderKind::Fragment => match &self.vertex {
                Some(u) => u.compiled,
                None => false,
            },
        };
        let mut slot: Option<ShaderUnit> = None;
        match kind {
            ShaderKind::Vertex => std::mem::swap(&mut slot, &mut self.vertex),
            ShaderKind::Fragment => std::mem::swap(&mut slot, &mut self.fragment),
        }
        let mut unit = match slot {
            Some(u) => u,
            None => {
                return ;
            },
        };
        if unit.compiled {
            match kind {
                ShaderKind::Vertex => self.vertex = Some(unit),
                ShaderKind::Fragment => self.fragment = Some(unit),
            }
            assert(self@ =~= old(self)@);
            return ;
        }
        let failure_log = match &log {
            Some(t) => t.clone(),
            None => String::new(),
        };
        unit.compiled = compiled;
        unit.diagnostic_log = log;
        match kind {
            ShaderKind::Vertex => self.vertex = Some(unit),
            ShaderKind::Fragment => self.fragment = Some(unit),
        }
        if !compiled {
            self.stage = Stage::Failed(Failure::Compile(kind));
            self.diagnostic = failure_log;
        } else if other_compiled {
            self.stage = Stage::LinkingProgram;
        }
        assert(self@ =~= compile_spec(old(self)@, kind, compiled, opt_text(log)));
    }

    /// Hands over the linker's report: whether the program linked, and its
    /// log (see `link_spec`).
    pub fn record_link(&mut self, linked: bool, log: String)
        requires
            old(self).wf(),
        ensures
            final(self).wf(),
            final(self)@ == link_spec(old(self)@, linked, log@),
    {
        proof {
            lemma_link_keeps_invariant(self@, linked, log@);
        }
        if self.stage != Stage::LinkingProgram {
            return ;
        }
        if linked {
            self.stage = Stage::BindingAttributes;
        } else {
            self.stage = Stage::Failed(Failure::Link);
            self.diagnostic = log;
        }
        assert(self@ =~= link_spec(old(self)@, linked, log@));
    }

    /// Hands over the locations that the linked program gives the position
    /// and the color attribute (-1 for a name the program does not use).
    /// When binding is due, returns how each resolved attribute is fed from
    /// the interleaved buffer; an unresolved one is left unbound and does not
    /// stop the pipeline (see `attributes_spec`).
    pub fn record_attributes(&mut self, position: i32, color: i32) -> (r: Option<
        Vec<AttributeBinding>,
    >)
        requires
            old(self).wf(),
        ensures
            final(self).wf(),
            final(self)@ == attributes_spec(old(self)@, position, color),
            r is Some <==> old(self)@.stage == Stage::BindingAttributes,
            r matches Some(bindings) ==> bindings@ == quad_bindings(position, color),
    {
        proof {
            lemma_attributes_keeps_invariant(self@, position, color);
        }
        if self.stage != Stage::BindingAttributes {
            return None;
        }
        self.stage = Stage::UploadingBuffers;
        assert(self@ =~= attributes_spec(old(self)@, position, color));
        let layout = interleaved_layout();
        let mut bindings: Vec<AttributeBinding> = Vec::new();
        if position >= 0 {
            bindings.push(
                AttributeBinding {
                    location: position as u32,
                    component_count: layout.entries[0].component_count,
                    stride: layout.stride,
                    byte_offset: layout.entries[0].byte_offset,
                },
            );
        }
        if color >= 0 {
            bindings.push(
                AttributeBinding {
                    location: color as u32,
                    component_count: layout.entries[1].component_count,
                    stride: layout.stride,
                    byte_offset: layout.entries[1].byte_offset,
                },
            );
        }
        assert(bindings@ =~= quad_bindings(position, color));
        Some(bindings)
    }

    /// Hands over whether the vertex and index buffers could be created and
    /// filled. When they were, returns the one draw call: the quad's indices,
    /// as triangles (see `upload_spec`).
    pub fn record_upload(&mut self, uploaded: bool) -> (r: Option<DrawCall>)
        requires
            old(self).wf(),
        ensures
            final(self).wf(),
            final(self)@ == upload_spec(old(self)@, uploaded),
            r is Some <==> (old(self)@.stage == Stage::UploadingBuffers && uploaded),
            r matches Some(d) ==> d == quad_draw(),
    {
        proof {
            lemma_upload_keeps_invariant(self@, uploaded);
        }
        if self.stage != Stage::UploadingBuffers {
            return None;
        }
        if !uploaded {
            self.stage = Stage::Failed(Failure::BufferAllocation);
            assert(self@ =~= upload_spec(old(self)@, uploaded));
            return None;
        }
        self.stage = Stage::Drawn;
        self.draws = 1;
        assert(self@ =~= upload_spec(old(self)@, uploaded));
        let indices = quad_indices();
        Some(DrawCall { indexed: true, count: indices.len() as u32 })
    }
}

} // verus!
