use vstd::prelude::*;

verus! {

/// The two stages a shader program links.
#[derive(Clone, Copy, Debug, PartialEq, Eq, Structural)]
pub enum StageKind {
    Vertex,
    Fragment,
}

/// What the device reports after compiling one stage: whether compilation
/// succeeded, and the stage's diagnostic log.
#[derive(Debug)]
pub struct StageOutcome {
    pub success: bool,
    pub log: String,
}

/// What the device reports after linking the program.
#[derive(Debug)]
pub struct LinkOutcome {
    pub success: bool,
    pub log: String,
}

/// Why a shader program failed to build.  Either error is final for the
/// instance under construction.
#[derive(Debug)]
pub enum ShaderError {
    /// A stage failed to compile: the stage kind and the device's log.
    Compile { stage: StageKind, log: String },
    /// The program failed to link: the device's log.
    Link { log: String },
}

/// The next piece of device work the build asks its driver for.
#[derive(Clone, Copy, Debug, PartialEq, Eq, Structural)]
pub enum DeviceRequest {
    /// Create a vertex stage object and compile the vertex source into it.
    CompileVertex,
    /// Create a fragment stage object and compile the fragment source.
    CompileFragment,
    /// Attach both stages to a fresh program object and link it.
    Link,
    /// Delete both stage objects, whatever came of compiling and linking.
    DeleteStages,
    /// Nothing further: the outcome is decided.
    Finish,
}

/// Where a build stands.
#[derive(Clone, Copy, Debug, PartialEq, Eq, Structural)]
pub enum BuildPhase {
    VertexPending,
    FragmentPending,
    LinkPending,
    CleanupPending,
    Complete,
}

/// The build protocol of one shader program.
///
/// The driver that owns the graphics device runs each requested action and
/// reports what the device said; the build sequences the protocol, decides
/// the outcome, and guarantees that both stage objects are deleted on every
/// path — success, compile failure and link failure alike — before the
/// build completes.
pub struct ShaderProgramBuild {
    pub phase: BuildPhase,
    pub vertex: Option<StageOutcome>,
    pub fragment: Option<StageOutcome>,
    pub link: Option<LinkOutcome>,
    /// A vertex stage object exists on the device and is not yet deleted.
    pub vertex_alive: bool,
    /// A fragment stage object exists on the device and is not yet deleted.
    pub fragment_alive: bool,
    /// Both stage objects have been deleted.
    pub stages_released: bool,
}

impl ShaderProgramBuild {
    /// The protocol invariant: what is known and what is alive in each
    /// phase.  Linking is reached only when both stages compiled, and the
    /// build is complete only once both stage objects are deleted.
    pub open spec fn wf(&self) -> bool {
        match self.phase {
            BuildPhase::VertexPending => {
                &&& self.vertex is None
                &&& self.fragment is None
                &&& self.link is None
                &&& !self.vertex_alive
                &&& !self.fragment_alive
                &&& !self.stages_released
            },
            BuildPhase::FragmentPending => {
                &&& self.vertex is Some
                &&& self.fragment is None
                &&& self.link is None
                &&& self.vertex_alive
                &&& !self.fragment_alive
                &&& !self.stages_released
            },
            BuildPhase::LinkPending => {
                &&& self.vertex is Some
                &&& self.fragment is Some
                &&& self.vertex->Some_0.success
                &&& self.fragment->Some_0.success
                &&& self.link is None
                &&& self.vertex_alive
                &&& self.fragment_alive
                &&& !self.stages_released
            },
            BuildPhase::CleanupPending => {
                &&& self.vertex is Some
                &&& self.fragment is Some
                &&& (self.link is Some <==> self.vertex->Some_0.success
                    && self.fragment->Some_0.success)
                &&& self.vertex_alive
                &&& self.fragment_alive
                &&& !self.stages_released
            },
            BuildPhase::Complete => {
                &&& self.vertex is Some
                &&& self.fragment is Some
                &&& (self.link is Some <==> self.vertex->Some_0.success
                    && self.fragment->Some_0.success)
                &&& !self.vertex_alive
                &&& !self.fragment_alive
                &&& self.stages_released
            },
        }
    }

    /// Starts a build; the first device action is to compile the vertex
    /// stage.
    pub fn new() -> (r: (ShaderProgramBuild, DeviceRequest))
        ensures
            r.0.wf(),
            r.0.phase == BuildPhase::VertexPending,
            r.1 == DeviceRequest::CompileVertex,
    {
        (
            ShaderProgramBuild {
                phase: BuildPhase::VertexPending,
                vertex: None,
                fragment: None,
                link: None,
                vertex_alive: false,
                fragment_alive: false,
                stages_released: false,
            },
            DeviceRequest::CompileVertex,
        )
    }

    /// Records what came of compiling the vertex stage.  The fragment
    /// stage is compiled next in every case: its outcome is reported even
    /// when the vertex stage already failed.
    pub fn on_vertex_compiled(&mut self, outcome: StageOutcome) -> (req: DeviceRequest)
        requires
            old(self).wf(),
            old(self).phase == BuildPhase::VertexPending,
        ensures
            final(self).wf(),
            final(self).phase == BuildPhase::FragmentPending,
            final(self).vertex == Some(outcome),
            final(self).vertex_alive,
            req == DeviceRequest::CompileFragment,
    {
        self.vertex = Some(outcome);
        self.vertex_alive = true;
        self.phase = BuildPhase::FragmentPending;
        DeviceRequest::CompileFragment
    }

    /// Records what came of compiling the fragment stage.  When both
    /// stages compiled, the program is linked next; otherwise both stage
    /// objects are deleted right away.
    pub fn on_fragment_compiled(&mut self, outcome: StageOutcome) -> (req: DeviceRequest)
        requires
            old(self).wf(),
            old(self).phase == BuildPhase::FragmentPending,
        ensures
            final(self).wf(),
            final(self).vertex == old(self).vertex,
            final(self).fragment == Some(outcome),
            final(self).fragment_alive,
            old(self).vertex->Some_0.success && outcome.success ==> final(self).phase
                == BuildPhase::LinkPending && req == DeviceRequest::Link,
            !(old(self).vertex->Some_0.success && outcome.success) ==> final(self).phase
                == BuildPhase::CleanupPending && req == DeviceRequest::DeleteStages,
    {
        let vertex_ok = match &self.vertex {
            Some(o) => o.success,
            None => false,
        };
        let fragment_ok = outcome.success;
        self.fragment = Some(outcome);
        self.fragment_alive = true;
        if vertex_ok && fragment_ok {
            self.phase = BuildPhase::LinkPending;
            DeviceRequest::Link
        } else {
            self.phase = BuildPhase::CleanupPending;
            DeviceRequest::DeleteStages
        }
    }

    /// Records what came of linking.  Both stage objects are deleted next,
    /// whether the link succeeded or not.
    pub fn on_linked(&mut self, outcome: LinkOutcome) -> (req: DeviceRequest)
        requires
            old(self).wf(),
            old(self).phase == BuildPhase::LinkPending,
        ensures
            final(self).wf(),
            final(self).phase == BuildPhase::CleanupPending,
            final(self).vertex == old(self).vertex,
            final(self).fragment == old(self).fragment,
            final(self).link == Some(outcome),
            req == DeviceRequest::DeleteStages,
    {
        self.link = Some(outcome);
        self.phase = BuildPhase::CleanupPending;
        DeviceRequest::DeleteStages
    }

    /// Records that both stage objects have been deleted; the build is
    /// complete.
    pub fn on_stages_deleted(&mut self) -> (req: DeviceRequest)
        requires
            old(self).wf(),
            old(self).phase == BuildPhase::CleanupPending,
        ensures
            final(self).wf(),
            final(self).phase == BuildPhase::Complete,
            final(self).vertex == old(self).vertex,
            final(self).fragment == old(self).fragment,
            final(self).link == old(self).link,
            final(self).stages_released,
            !final(self).vertex_alive,
            !final(self).fragment_alive,
            req == DeviceRequest::Finish,
    {
        self.vertex_alive = false;
        self.fragment_alive = false;
        self.stages_released = true;
        self.phase = BuildPhase::Complete;
        DeviceRequest::Finish
    }

    /// The outcome of a completed build: success exactly when both stages
    /// compiled and the program linked; otherwise the first failure, its
    /// diagnostic log tagged with the stage it came from, or with the
    /// program for a link failure.
    pub fn result(self) -> (r: Result<(), ShaderError>)
        requires
            self.wf(),
            self.phase == BuildPhase::Complete,
        ensures
            r is Ok <==> self.vertex->Some_0.success && self.fragment->Some_0.success
                && self.link->Some_0.success,
            !self.vertex->Some_0.success ==> r == Result::<(), ShaderError>::Err(
                ShaderError::Compile {
                    stage: StageKind::Vertex,
                    log: self.vertex->Some_0.log,
                },
            ),
            self.vertex->Some_0.success && !self.fragment->Some_0.success ==> r == Result::<
                (),
                ShaderError,
            >::Err(
                ShaderError::Compile {
                    stage: StageKind::Fragment,
                    log: self.fragment->Some_0.log,
                },
            ),
            self.vertex->Some_0.success && self.fragment->Some_0.success
                && !self.link->Some_0.success ==> r == Result::<(), ShaderError>::Err(
                ShaderError::Link { log: self.link->Some_0.log },
            ),
    {
        let vertex = match self.vertex {
            Some(o) => o,
            None => vstd::pervasive::unreached(),
        };
        if !vertex.success {
            return Err(ShaderError::Compile { stage: StageKind::Vertex, log: vertex.log });
        }
        let fragment = match self.fragment {
            Some(o) => o,
            None => vstd::pervasive::unreached(),
        };
        if !fragment.success {
            return Err(ShaderError::Compile { stage: StageKind::Fragment, log: fragment.log });
        }
        match self.link {
            Some(o) => {
                if o.success {
                    Ok(())
                } else {
                    Err(ShaderError::Link { log: o.log })
                }
            },
            None => vstd::pervasive::unreached(),
        }
    }
}

/// However a build ran, by the time it completes both stage objects have
/// been deleted: the failure paths release them exactly like the success
/// path, so no stage object leaks.
pub proof fn lemma_no_stage_leak(b: ShaderProgramBuild)
    requires
        b.wf(),
        b.phase == BuildPhase::Complete,
    ensures
        b.stages_released,
        !b.vertex_alive,
        !b.fragment_alive,
{
}

} // verus!
