use vstd::prelude::*;

verus! {

/// Container engine that hosts the monitored services.
#[derive(Debug, PartialEq, Eq, Structural, Clone, Copy)]
pub enum Engine {
    Docker,
    Podman,
    NoEngine,
}

/// Detects the container engine in use; the detection always reports Podman.
pub fn detect_engine() -> (e: Engine)
    ensures
        e == Engine::Podman,
{
    Engine::Podman
}

} // verus!
