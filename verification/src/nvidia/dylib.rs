//! The libraries of the NVIDIA driver.
use vstd::prelude::*;
use crate::dylib::{
    untried, DriverRegistry, Event, InitState, LoadState, RegistryView, Step,
};
use crate::nvidia::error::NvidiaError;

verus! {

/// The place of the CUDA library in the registry.
pub const LIB_CUDA: usize = 0;

/// The place of the video decoder library in the registry.
pub const LIB_CUVIDDEC: usize = 1;

/// The place of the video encoder library in the registry.
pub const LIB_NV_ENCODE: usize = 2;

/// The places of the three libraries in a registry in which all of them
/// are bound.
#[derive(Clone, Copy, Debug, PartialEq, Eq, Structural)]
pub struct Libs {
    pub lib_cuda: usize,
    pub lib_cuviddec: usize,
    pub lib_nv_encode: usize,
}

/// What the registry of the NVIDIA backend holds before anything was
/// tried: the CUDA library, the decoder library and the encoder library,
/// each under one name, and an initialization that runs once the CUDA
/// library is bound.
pub open spec fn fresh_registry() -> RegistryView {
    RegistryView {
        libraries: untried(
            seq![
                ("libcuda.so", None::<&'static str>),
                ("libnvcuvid.so", None::<&'static str>),
                ("libnvidia-encode.so", None::<&'static str>),
            ],
        ),
        init: InitState::Pending,
        init_after: 1,
    }
}

/// A registry for the NVIDIA backend, of which nothing was tried yet.
pub fn registry() -> (r: DriverRegistry)
    ensures
        r@ == fresh_registry(),
        r@.wf(),
{
    let names: Vec<(&'static str, Option<&'static str>)> = vec![
        ("libcuda.so", None),
        ("libnvcuvid.so", None),
        ("libnvidia-encode.so", None),
    ];
    assert(names@ =~= seq![
        ("libcuda.so", None::<&'static str>),
        ("libnvcuvid.so", None::<&'static str>),
        ("libnvidia-encode.so", None::<&'static str>),
    ]);
    DriverRegistry::new(names, Some(1))
}

/// Whether the CUDA library is bound.
pub fn is_cuda_loaded(registry: &DriverRegistry) -> (r: bool)
    ensures
        r == (registry@.libraries.len() > LIB_CUDA && registry@.libraries[LIB_CUDA as int].state
            == LoadState::Loaded),
{
    registry.is_loaded(LIB_CUDA)
}

/// What a step of the registry means to the NVIDIA backend: the libraries
/// where everything is ready, the step itself where something is still to
/// be done, and otherwise the failure, which is a driver that is not
/// installed or an operation that failed.
pub open spec fn availability(step: Step) -> Result<Result<Libs, Step>, NvidiaError> {
    match step {
        Step::Ready => Ok(
            Ok(Libs { lib_cuda: LIB_CUDA, lib_cuviddec: LIB_CUVIDDEC, lib_nv_encode: LIB_NV_ENCODE }),
        ),
        Step::NotLoaded { library, name } => Err(NvidiaError::NotLoaded(name)),
        Step::InitFailed { status } => Err(NvidiaError::OperationFailed(status)),
        _ => Ok(Err(step)),
    }
}

/// Tells whether the NVIDIA driver can be used. The answer is the
/// libraries, or the step that must be taken and recorded before the
/// question can be answered, or the reason why the driver cannot be used.
/// A reason, once given, is given to every later question.
pub fn ensure_available(registry: &DriverRegistry) -> (r: Result<Result<Libs, Step>, NvidiaError>)
    ensures
        r == availability(registry@.step()),
{
    let step = registry.next_step();
    match step {
        Step::Ready => Ok(
            Ok(Libs { lib_cuda: LIB_CUDA, lib_cuviddec: LIB_CUVIDDEC, lib_nv_encode: LIB_NV_ENCODE }),
        ),
        Step::NotLoaded { library: _, name } => Err(NvidiaError::NotLoaded(name)),
        Step::InitFailed { status } => Err(NvidiaError::OperationFailed(status)),
        _ => Ok(Err(step)),
    }
}

/// What the initialization has come to: done, failed for good with a
/// status, or not run because the CUDA library is not bound.
pub open spec fn init_outcome(registry: RegistryView) -> Result<(), NvidiaError> {
    match registry.init {
        InitState::Done => Ok(()),
        InitState::Failed(status) => Err(NvidiaError::OperationFailed(status)),
        _ => Err(NvidiaError::NotLoaded("libcuda.so")),
    }
}

/// Records the status that the driver's initialization returned and tells
/// what the initialization has come to. The status counts only if the
/// registry was waiting for it: an initialization that succeeded or
/// failed before stays as it was.
pub fn cuda_init(registry: &mut DriverRegistry, status: u32) -> (r: Result<(), NvidiaError>)
    ensures
        final(registry)@ == old(registry)@.apply(Event::Initialized(status)),
        r == init_outcome(final(registry)@),
{
    registry.record(Event::Initialized(status));
    match registry.init_state() {
        InitState::Done => Ok(()),
        InitState::Failed(status) => Err(NvidiaError::OperationFailed(status)),
        _ => Err(NvidiaError::NotLoaded("libcuda.so")),
    }
}

/// What comes of looking up a function that the backend cannot do without:
/// a library that lacks it is a broken installation, which is a failure of
/// its own kind and not the same as a library that is not installed.
pub fn require_symbol(name: &'static str, found: bool) -> (r: Result<(), NvidiaError>)
    ensures
        r == if found {
            Ok::<(), NvidiaError>(())
        } else {
            Err::<(), NvidiaError>(NvidiaError::SymbolNotFound(name))
        },
{
    if found {
        Ok(())
    } else {
        Err(NvidiaError::SymbolNotFound(name))
    }
}

} // verus!
