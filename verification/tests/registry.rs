use enc_dec_hwscan::dylib::{DriverRegistry, Event, InitState, Step};
use enc_dec_hwscan::nvidia::error::NvidiaError;
use enc_dec_hwscan::vaapi::error::VaError;

/// A loader that knows which libraries are installed and counts how often
/// it is asked.
struct Loader {
    installed: Vec<&'static str>,
    calls: usize,
    inits: usize,
    init_status: u32,
}

impl Loader {
    fn new(installed: &[&'static str], init_status: u32) -> Loader {
        Loader { installed: installed.to_vec(), calls: 0, inits: 0, init_status }
    }

    /// One availability check: works the registry to its end and tells
    /// what it came to.
    fn check(&mut self, registry: &mut DriverRegistry) -> Step {
        loop {
            match registry.next_step() {
                Step::Load { library: _, name } => {
                    self.calls += 1;
                    registry.record(Event::Loaded(self.installed.contains(&name)));
                }
                Step::Init => {
                    self.inits += 1;
                    registry.record(Event::Initialized(self.init_status));
                }
                settled => return settled,
            }
        }
    }
}

#[test]
fn a_missing_library_is_asked_for_once() {
    let mut loader = Loader::new(&[], 0);
    let mut registry = enc_dec_hwscan::nvidia::dylib::registry();
    let first = loader.check(&mut registry);
    assert_eq!(first, Step::NotLoaded { library: 0, name: "libcuda.so" });
    assert_eq!(loader.calls, 1);
    let second = loader.check(&mut registry);
    assert_eq!(second, first);
    assert_eq!(loader.calls, 1);
    assert_eq!(loader.inits, 0);
    assert_eq!(
        enc_dec_hwscan::nvidia::dylib::ensure_available(&registry),
        Err(NvidiaError::NotLoaded("libcuda.so"))
    );
    assert_eq!(
        enc_dec_hwscan::nvidia::dylib::ensure_available(&registry),
        Err(NvidiaError::NotLoaded("libcuda.so"))
    );
    assert_eq!(loader.calls, 1);
}

#[test]
fn a_missing_library_with_a_fallback_is_asked_for_once_per_name() {
    let mut loader = Loader::new(&[], 0);
    let mut registry = enc_dec_hwscan::vaapi::dylib::registry();
    let first = loader.check(&mut registry);
    assert_eq!(first, Step::NotLoaded { library: 0, name: "libva.so.2" });
    assert_eq!(loader.calls, 2);
    let second = loader.check(&mut registry);
    assert_eq!(second, first);
    assert_eq!(loader.calls, 2);
    assert_eq!(
        enc_dec_hwscan::vaapi::dylib::ensure_available(&registry),
        Err(VaError::NotLoaded("libva.so.2"))
    );
    assert_eq!(
        enc_dec_hwscan::vaapi::dylib::ensure_available(&registry),
        Err(VaError::NotLoaded("libva.so.2"))
    );
    assert_eq!(loader.calls, 2);
}

#[test]
fn a_settled_registry_drops_late_outcomes() {
    let mut loader = Loader::new(&[], 0);
    let mut registry = enc_dec_hwscan::nvidia::dylib::registry();
    let settled = loader.check(&mut registry);
    for event in [Event::Loaded(true), Event::Initialized(0), Event::Loaded(false), Event::Initialized(1)] {
        registry.record(event);
        assert_eq!(registry.next_step(), settled);
    }
    assert!(!registry.is_loaded(0));
    assert_eq!(registry.init_state(), InitState::Pending);

    let mut ready = enc_dec_hwscan::vaapi::dylib::registry();
    let mut all = Loader::new(&["libva.so.2", "libva-drm.so"], 0);
    assert_eq!(all.check(&mut ready), Step::Ready);
    assert_eq!(all.calls, 3);
    ready.record(Event::Loaded(false));
    ready.record(Event::Initialized(9));
    assert_eq!(all.check(&mut ready), Step::Ready);
    assert_eq!(all.calls, 3);
    assert!(ready.is_loaded(0));
    assert!(ready.is_loaded(1));
    assert!(!ready.is_loaded(2));
    assert_eq!(ready.init_state(), InitState::NotNeeded);
}

#[test]
fn outcomes_that_do_not_answer_the_step_are_dropped() {
    let mut registry = enc_dec_hwscan::nvidia::dylib::registry();
    registry.record(Event::Initialized(0));
    assert_eq!(registry.next_step(), Step::Load { library: 0, name: "libcuda.so" });
    assert_eq!(registry.init_state(), InitState::Pending);
    registry.record(Event::Loaded(true));
    assert_eq!(registry.next_step(), Step::Init);
    registry.record(Event::Loaded(true));
    assert_eq!(registry.next_step(), Step::Init);
    assert!(!registry.is_loaded(1));
    registry.record(Event::Initialized(0));
    assert_eq!(registry.init_state(), InitState::Done);
    assert_eq!(registry.next_step(), Step::Load { library: 1, name: "libnvcuvid.so" });
}

#[test]
fn a_registry_of_ones_own() {
    let names = vec![("liba.so.1", Some("liba.so")), ("libb.so", None)];
    let mut late = DriverRegistry::new(names.clone(), Some(7));
    let mut loader = Loader::new(&["liba.so", "libb.so"], 3);
    assert_eq!(loader.check(&mut late), Step::InitFailed { status: 3 });
    assert_eq!((loader.calls, loader.inits), (3, 1));
    assert_eq!(loader.check(&mut late), Step::InitFailed { status: 3 });
    assert_eq!((loader.calls, loader.inits), (3, 1));
    assert_eq!(late.init_state(), InitState::Failed(3));

    let mut early = DriverRegistry::new(names, Some(0));
    assert_eq!(early.next_step(), Step::Init);
    let mut loader = Loader::new(&["liba.so.1"], 0);
    assert_eq!(loader.check(&mut early), Step::NotLoaded { library: 1, name: "libb.so" });
    assert_eq!((loader.calls, loader.inits), (2, 1));

    let mut empty = DriverRegistry::new(vec![], None);
    assert_eq!(empty.next_step(), Step::Ready);
    let mut loader = Loader::new(&[], 0);
    assert_eq!(loader.check(&mut empty), Step::Ready);
    assert_eq!((loader.calls, loader.inits), (0, 0));
}

#[test]
fn a_missing_function_is_a_broken_installation() {
    assert_eq!(enc_dec_hwscan::nvidia::dylib::require_symbol("cuDeviceGet", true), Ok(()));
    assert_eq!(
        enc_dec_hwscan::nvidia::dylib::require_symbol("cuDeviceGet", false),
        Err(NvidiaError::SymbolNotFound("cuDeviceGet"))
    );
    assert_eq!(enc_dec_hwscan::vaapi::dylib::require_symbol("vaInitialize", true), Ok(()));
    assert_eq!(
        enc_dec_hwscan::vaapi::dylib::require_symbol("vaInitialize", false),
        Err(VaError::SymbolNotFound("vaInitialize"))
    );
}
