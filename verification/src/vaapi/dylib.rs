//! The libraries of the VA-API driver.
use vstd::prelude::*;
use crate::dylib::{
    untried, DriverRegistry, InitState, LoadState, RegistryView, Step,
};
use crate::vaapi::error::VaError;

verus! {

/// The place of the VA-API library in the registry.
pub const LIB_VA: usize = 0;

/// The place of the VA-API DRM library in the registry.
pub const LIB_VA_DRM: usize = 1;

/// The places of the two libraries in a registry in which both are bound.
#[derive(Clone, Copy, Debug, PartialEq, Eq, Structural)]
pub struct Libs {
    pub libva: usize,
    pub libva_drm: usize,
}

/// What the registry of the VA-API backend holds before anything was
/// tried: the VA-API library and its DRM companion, each under its
/// versioned name with the plain name to fall back to, and no
/// initialization.
pub open spec fn fresh_registry() -> RegistryView {
    RegistryView {
        libraries: untried(
            seq![("libva.so.2", Some("libva.so")), ("libva-drm.so.2", Some("libva-drm.so"))],
        ),
        init: InitState::NotNeeded,
        init_after: 0,
    }
}

/// A registry for the VA-API backend, of which nothing was tried yet.
pub fn registry() -> (r: DriverRegistry)
    ensures
        r@ == fresh_registry(),
        r@.wf(),
{
    let names: Vec<(&'static str, Option<&'static str>)> = vec![
        ("libva.so.2", Some("libva.so")),
        ("libva-drm.so.2", Some("libva-drm.so")),
    ];
    assert(names@ =~= seq![
        ("libva.so.2", Some("libva.so")),
        ("libva-drm.so.2", Some("libva-drm.so")),
    ]);
    DriverRegistry::new(names, None)
}

/// Whether both libraries are bound.
pub fn is_va_loaded(registry: &DriverRegistry) -> (r: bool)
    ensures
        r == (registry@.libraries.len() > LIB_VA_DRM && registry@.libraries[LIB_VA as int].state
            == LoadState::Loaded && registry@.libraries[LIB_VA_DRM as int].state
            == LoadState::Loaded),
{
    registry.is_loaded(LIB_VA) && registry.is_loaded(LIB_VA_DRM)
}

/// What a step of the registry means to the VA-API backend: the libraries
/// where everything is ready, the step itself where something is still to
/// be done, and otherwise the failure.
pub open spec fn availability(step: Step) -> Result<Result<Libs, Step>, VaError> {
    match step {
        Step::Ready => Ok(Ok(Libs { libva: LIB_VA, libva_drm: LIB_VA_DRM })),
        Step::NotLoaded { library, name } => Err(VaError::NotLoaded(name)),
        Step::InitFailed { status } => Err(VaError::OperationFailed(status as i32)),
        _ => Ok(Err(step)),
    }
}

/// Tells whether the VA-API driver can be used. The answer is the
/// libraries, or the step that must be taken and recorded before the
/// question can be answered, or the reason why the driver cannot be used.
/// A reason, once given, is given to every later question.
pub fn ensure_available(registry: &DriverRegistry) -> (r: Result<Result<Libs, Step>, VaError>)
    ensures
        r == availability(registry@.step()),
{
    let step = registry.next_step();
    match step {
        Step::Ready => Ok(Ok(Libs { libva: LIB_VA, libva_drm: LIB_VA_DRM })),
        Step::NotLoaded { library: _, name } => Err(VaError::NotLoaded(name)),
        Step::InitFailed { status } => Err(
            VaError::OperationFailed(
                #[verifier::truncate]
                (status as i32),
            ),
        ),
        _ => Ok(Err(step)),
    }
}

/// What comes of looking up a function that the backend cannot do without:
/// a library that lacks it is a broken installation, which is a failure of
/// its own kind and not the same as a library that is not installed.
pub fn require_symbol(name: &'static str, found: bool) -> (r: Result<(), VaError>)
    ensures
        r == if found {
            Ok::<(), VaError>(())
        } else {
            Err::<(), VaError>(VaError::SymbolNotFound(name))
        },
{
    if found {
        Ok(())
    } else {
        Err(VaError::SymbolNotFound(name))
    }
}

} // verus!
