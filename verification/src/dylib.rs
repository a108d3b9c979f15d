//! The driver registry: which shared libraries a backend needs, in which
//! order they are bound, and what is remembered of each attempt.
//!
//! The registry never loads anything itself. It says what to do next, the
//! caller does it and records the outcome. Every outcome is kept: a library
//! is asked for once under each of its names and never again, and a
//! one-time initialization is attempted once.
use vstd::prelude::*;

verus! {

/// What is known about one library.
#[derive(Clone, Copy, Debug, PartialEq, Eq, Structural)]
pub enum LoadState {
    /// Nothing was tried yet.
    Untried,
    /// The primary name was not found; the fallback name is still to be
    /// tried.
    PrimaryFailed,
    /// The library is bound.
    Loaded,
    /// No name of the library was found.
    Missing,
}

/// What is known about a backend's one-time initialization.
#[derive(Clone, Copy, Debug, PartialEq, Eq, Structural)]
pub enum InitState {
    /// The backend has no initialization.
    NotNeeded,
    /// The initialization was not attempted yet.
    Pending,
    /// The initialization succeeded.
    Done,
    /// The initialization failed with the given status.
    Failed(u32),
}

/// One library of a backend: the name under which it is looked for first,
/// the name to fall back to where there is one, and what is known of it.
#[derive(Clone, Copy, Debug, PartialEq, Eq)]
pub struct Library {
    pub primary: &'static str,
    pub fallback: Option<&'static str>,
    pub state: LoadState,
}

/// What the registry asks for or reports.
#[derive(Clone, Copy, Debug, PartialEq, Eq)]
pub enum Step {
    /// Load the library at the given place under the given name, and record
    /// whether that worked.
    Load { library: usize, name: &'static str },
    /// Run the one-time initialization, and record its status.
    Init,
    /// Every library is bound and the backend is initialized.
    Ready,
    /// The library at the given place is not installed; holds the name it
    /// was looked for first.
    NotLoaded { library: usize, name: &'static str },
    /// The initialization failed with the given status.
    InitFailed { status: u32 },
}

/// The outcome of a step, as the caller records it.
#[derive(Clone, Copy, Debug, PartialEq, Eq, Structural)]
pub enum Event {
    /// Whether the library that was asked for could be loaded.
    Loaded(bool),
    /// The status that the initialization returned; 0 is success.
    Initialized(u32),
}

/// What a [`DriverRegistry`] holds, as mathematical values.
pub struct RegistryView {
    pub libraries: Seq<Library>,
    pub init: InitState,
    pub init_after: nat,
}

/// How many libraries at the front are bound.
pub open spec fn bound_count(libraries: Seq<Library>) -> nat
    decreases libraries.len(),
{
    if libraries.len() == 0 || libraries[0].state != LoadState::Loaded {
        0
    } else {
        1 + bound_count(libraries.skip(1))
    }
}

impl RegistryView {
    /// Whether the registry is one that can come about: only a library
    /// with a fallback name waits for it, and the initialization was only
    /// attempted once the libraries it needs were bound.
    pub open spec fn wf(self) -> bool {
        &&& self.init_after <= self.libraries.len()
        &&& self.libraries.len() <= usize::MAX
        &&& forall|i: int|
            0 <= i < self.libraries.len() && (#[trigger] self.libraries[i]).state
                == LoadState::PrimaryFailed ==> self.libraries[i].fallback is Some
        &&& (self.init is Done || self.init is Failed) ==> bound_count(self.libraries)
            >= self.init_after
    }

    /// What is to be done next, or what came of it all. Libraries are bound
    /// in their order; the initialization runs as soon as the libraries it
    /// needs are bound; a failed initialization and a missing library are
    /// final.
    pub open spec fn step(self) -> Step {
        let i = bound_count(self.libraries) as int;
        if let InitState::Failed(status) = self.init {
            Step::InitFailed { status }
        } else if self.init is Pending && i >= self.init_after {
            Step::Init
        } else if i >= self.libraries.len() {
            Step::Ready
        } else {
            let library = self.libraries[i];
            match library.state {
                LoadState::Untried => Step::Load { library: i as usize, name: library.primary },
                LoadState::PrimaryFailed => Step::Load {
                    library: i as usize,
                    name: library.fallback.unwrap(),
                },
                _ => Step::NotLoaded { library: i as usize, name: library.primary },
            }
        }
    }

    /// Whether nothing is left to do.
    pub open spec fn settled(self) -> bool {
        !(self.step() is Load) && !(self.step() is Init)
    }

    /// The registry after an outcome was recorded. An outcome that does not
    /// answer the pending step changes nothing.
    pub open spec fn apply(self, event: Event) -> RegistryView {
        let i = bound_count(self.libraries) as int;
        match (self.step(), event) {
            (Step::Load { .. }, Event::Loaded(found)) => {
                let library = self.libraries[i];
                let state = if found {
                    LoadState::Loaded
                } else if library.state == LoadState::Untried && library.fallback is Some {
                    LoadState::PrimaryFailed
                } else {
                    LoadState::Missing
                };
                RegistryView {
                    libraries: self.libraries.update(i, Library { state, ..library }),
                    ..self
                }
            },
            (Step::Init, Event::Initialized(status)) => RegistryView {
                init: if status == 0 {
                    InitState::Done
                } else {
                    InitState::Failed(status)
                },
                ..self
            },
            _ => self,
        }
    }

    /// The registry after the given outcomes were recorded one after the
    /// other.
    pub open spec fn apply_all(self, events: Seq<Event>) -> RegistryView
        decreases events.len(),
    {
        if events.len() == 0 {
            self
        } else {
            self.apply(events[0]).apply_all(events.skip(1))
        }
    }

    /// How many steps can at most still be asked for.
    pub open spec fn work_left(self) -> nat {
        names_left(self.libraries) + if self.init is Pending {
            1nat
        } else {
            0nat
        }
    }
}

/// How many names are still untried, over all libraries.
pub open spec fn names_left(libraries: Seq<Library>) -> nat
    decreases libraries.len(),
{
    if libraries.len() == 0 {
        0
    } else {
        names_left(libraries.drop_last()) + match libraries.last().state {
            LoadState::Untried => if libraries.last().fallback is Some {
                2nat
            } else {
                1nat
            },
            LoadState::PrimaryFailed => 1nat,
            _ => 0nat,
        }
    }
}

/// The libraries of one backend and what is known of them.
#[derive(Debug, PartialEq, Eq)]
pub struct DriverRegistry {
    libraries: Vec<Library>,
    init: InitState,
    init_after: usize,
}

impl View for DriverRegistry {
    type V = RegistryView;

    closed spec fn view(&self) -> RegistryView {
        RegistryView {
            libraries: self.libraries@,
            init: self.init,
            init_after: self.init_after as nat,
        }
    }
}

/// The libraries with the given names, none of them tried yet.
pub open spec fn untried(names: Seq<(&'static str, Option<&'static str>)>) -> Seq<Library> {
    Seq::new(
        names.len(),
        |i: int| Library { primary: names[i].0, fallback: names[i].1, state: LoadState::Untried },
    )
}

proof fn lemma_bound_count(libraries: Seq<Library>)
    ensures
        bound_count(libraries) <= libraries.len(),
        forall|i: int| 0 <= i < bound_count(libraries) ==> (#[trigger] libraries[i]).state
            == LoadState::Loaded,
        bound_count(libraries) < libraries.len() ==> libraries[bound_count(libraries) as int].state
            != LoadState::Loaded,
    decreases libraries.len(),
{
    if libraries.len() != 0 && libraries[0].state == LoadState::Loaded {
        let rest = libraries.skip(1);
        lemma_bound_count(rest);
        assert forall|i: int| 0 <= i < bound_count(libraries) implies (#[trigger] libraries[i]).state
            == LoadState::Loaded by {
            if i > 0 {
                assert(rest[i - 1] == libraries[i]);
            }
        }
        if bound_count(libraries) < libraries.len() {
            assert(rest[bound_count(rest) as int] == libraries[bound_count(libraries) as int]);
        }
    }
}

proof fn lemma_bound_count_is(libraries: Seq<Library>, k: int)
    requires
        0 <= k <= libraries.len(),
        forall|i: int| 0 <= i < k ==> (#[trigger] libraries[i]).state == LoadState::Loaded,
        k < libraries.len() ==> libraries[k].state != LoadState::Loaded,
    ensures
        bound_count(libraries) == k,
    decreases libraries.len(),
{
    if k > 0 {
        let rest = libraries.skip(1);
        assert(libraries[0].state == LoadState::Loaded);
        assert forall|i: int| 0 <= i < k - 1 implies (#[trigger] rest[i]).state
            == LoadState::Loaded by {
            assert(rest[i] == libraries[i + 1]);
        }
        lemma_bound_count_is(rest, k - 1);
    }
}

impl DriverRegistry {
    #[verifier::type_invariant]
    spec fn well_formed(self) -> bool {
        self@.wf()
    }

    /// A registry for the libraries with the given names, of which nothing
    /// was tried yet. `init_after` says how many libraries must be bound
    /// before the backend's one-time initialization can run, all of them
    /// if the number is larger than that; `None` is for a backend without
    /// an initialization.
    pub fn new(names: Vec<(&'static str, Option<&'static str>)>, init_after: Option<usize>) -> (r:
        Self)
        ensures
            r@.wf(),
            r@.libraries == untried(names@),
            r@.init == if init_after is Some {
                InitState::Pending
            } else {
                InitState::NotNeeded
            },
            r@.init_after == match init_after {
                Some(n) => if n <= names@.len() {
                    n as nat
                } else {
                    names@.len()
                },
                None => 0nat,
            },
    {
        let mut libraries: Vec<Library> = Vec::new();
        let mut i: usize = 0;
        while i < names.len()
            invariant
                i <= names@.len(),
                libraries@.len() == i,
                forall|k: int|
                    0 <= k < i ==> #[trigger] libraries@[k] == (Library {
                        primary: names@[k].0,
                        fallback: names@[k].1,
                        state: LoadState::Untried,
                    }),
            decreases names@.len() - i,
        {
            libraries.push(
                Library { primary: names[i].0, fallback: names[i].1, state: LoadState::Untried },
            );
            i = i + 1;
        }
        assert(libraries@ =~= untried(names@));
        match init_after {
            Some(n) => {
                let init_after = if n <= libraries.len() {
                    n
                } else {
                    libraries.len()
                };
                DriverRegistry { libraries, init: InitState::Pending, init_after }
            },
            None => DriverRegistry { libraries, init: InitState::NotNeeded, init_after: 0 },
        }
    }

    /// How many libraries at the front are bound.
    fn bound(&self) -> (r: usize)
        ensures
            r == bound_count(self@.libraries),
            r <= self@.libraries.len(),
    {
        let mut k: usize = 0;
        while k < self.libraries.len() && self.libraries[k].state == LoadState::Loaded
            invariant
                k <= self.libraries@.len(),
                forall|i: int| 0 <= i < k ==> (#[trigger] self.libraries@[i]).state
                    == LoadState::Loaded,
            decreases self.libraries@.len() - k,
        {
            k = k + 1;
        }
        proof {
            lemma_bound_count_is(self.libraries@, k as int);
        }
        k
    }

    /// What is to be done next, or what came of it all. Asking changes
    /// nothing and can be repeated at will.
    pub fn next_step(&self) -> (r: Step)
        ensures
            r == self@.step(),
            self@.wf(),
    {
        proof {
            use_type_invariant(self);
        }
        let i = self.bound();
        match self.init {
            InitState::Failed(status) => {
                return Step::InitFailed { status };
            },
            InitState::Pending => {
                if i >= self.init_after {
                    return Step::Init;
                }
            },
            _ => {},
        }
        if i >= self.libraries.len() {
            Step::Ready
        } else {
            let library = &self.libraries[i];
            match library.state {
                LoadState::Untried => Step::Load { library: i, name: library.primary },
                LoadState::PrimaryFailed => match library.fallback {
                    Some(name) => Step::Load { library: i, name },
                    None => Step::NotLoaded { library: i, name: library.primary },
                },
                _ => Step::NotLoaded { library: i, name: library.primary },
            }
        }
    }

    /// Records the outcome of the step that [`next_step`](Self::next_step)
    /// asked for. An outcome that does not answer the pending step is
    /// dropped: what was settled stays settled.
    pub fn record(&mut self, event: Event)
        ensures
            final(self)@ == old(self)@.apply(event),
            old(self)@.wf(),
            final(self)@.wf(),
    {
        proof {
            use_type_invariant(&*self);
        }
        let step = self.next_step();
        let ghost before = self@;
        proof {
            lemma_bound_count(before.libraries);
        }
        match (step, event) {
            (Step::Load { library, name: _ }, Event::Loaded(found)) => {
                let current = self.libraries[library];
                let state = if found {
                    LoadState::Loaded
                } else if current.state == LoadState::Untried && current.fallback.is_some() {
                    LoadState::PrimaryFailed
                } else {
                    LoadState::Missing
                };
                proof {
                    let after = RegistryView {
                        libraries: before.libraries.update(
                            library as int,
                            Library { state, ..current },
                        ),
                        ..before
                    };
                    lemma_init_stays_covered(before, after, library as int);
                    assert(after.wf());
                }
                self.libraries = with_state(&self.libraries, library, state);
            },
            (Step::Init, Event::Initialized(status)) => {
                if status == 0 {
                    self.init = InitState::Done;
                } else {
                    self.init = InitState::Failed(status);
                }
            },
            _ => {},
        }
    }

    /// Whether the library at the given place is bound.
    pub fn is_loaded(&self, library: usize) -> (r: bool)
        ensures
            r == (library < self@.libraries.len() && self@.libraries[library as int].state
                == LoadState::Loaded),
    {
        library < self.libraries.len() && self.libraries[library].state == LoadState::Loaded
    }

    /// What is known about the one-time initialization.
    pub fn init_state(&self) -> (r: InitState)
        ensures
            r == self@.init,
    {
        self.init
    }
}

/// The same libraries, with the state of the one at the given place
/// replaced.
fn with_state(libraries: &Vec<Library>, at: usize, state: LoadState) -> (r: Vec<Library>)
    requires
        at < libraries@.len(),
    ensures
        r@ == libraries@.update(at as int, Library { state, ..libraries@[at as int] }),
{
    let mut r: Vec<Library> = Vec::new();
    let mut i: usize = 0;
    while i < libraries.len()
        invariant
            i <= libraries@.len(),
            at < libraries@.len(),
            r@.len() == i,
            forall|k: int|
                0 <= k < i ==> #[trigger] r@[k] == if k == at {
                    Library { state, ..libraries@[k] }
                } else {
                    libraries@[k]
                },
        decreases libraries@.len() - i,
    {
        let current = libraries[i];
        if i == at {
            r.push(Library { state, ..current });
        } else {
            r.push(current);
        }
        i = i + 1;
    }
    assert(r@ =~= libraries@.update(at as int, Library { state, ..libraries@[at as int] }));
    r
}

/// Changing the library at the first place that is not bound keeps every
/// library before that place bound.
proof fn lemma_init_stays_covered(before: RegistryView, after: RegistryView, at: int)
    requires
        before.wf(),
        at == bound_count(before.libraries),
        at < before.libraries.len(),
        after.libraries.len() == before.libraries.len(),
        forall|i: int| 0 <= i < before.libraries.len() && i != at ==> after.libraries[i]
            == before.libraries[i],
        after.init == before.init,
        after.init_after == before.init_after,
    ensures
        bound_count(after.libraries) >= at,
{
    lemma_bound_count(before.libraries);
    lemma_bound_count(after.libraries);
    if bound_count(after.libraries) < at {
        let k = bound_count(after.libraries) as int;
        assert(after.libraries[k] == before.libraries[k]);
        assert(before.libraries[k].state == LoadState::Loaded);
    }
}

/// Recording an outcome keeps a registry one that can come about.
pub proof fn lemma_apply_keeps_wf(registry: RegistryView, event: Event)
    requires
        registry.wf(),
    ensures
        registry.apply(event).wf(),
{
    lemma_bound_count(registry.libraries);
    let after = registry.apply(event);
    if after != registry {
        if registry.step() is Load {
            lemma_init_stays_covered(registry, after, bound_count(registry.libraries) as int);
        }
    }
}

/// What is settled stays settled. Once a registry has come to an end, be
/// it that a library is missing, that the initialization failed or that
/// everything is ready, no outcome that is recorded changes it: every
/// later question gets the same answer, and that answer never asks for a
/// library to be loaded or for the initialization to be run again.
pub proof fn lemma_settled_is_final(registry: RegistryView, events: Seq<Event>)
    requires
        registry.wf(),
        registry.settled(),
    ensures
        registry.apply_all(events) == registry,
        registry.apply_all(events).step() == registry.step(),
    decreases events.len(),
{
    if events.len() > 0 {
        assert(registry.apply(events[0]) == registry);
        lemma_settled_is_final(registry, events.skip(1));
    }
}

proof fn lemma_names_left_update(libraries: Seq<Library>, at: int, library: Library)
    requires
        0 <= at < libraries.len(),
    ensures
        names_left(libraries.update(at, library)) + names_left(seq![libraries[at]]) == names_left(
            libraries,
        ) + names_left(seq![library]),
    decreases libraries.len(),
{
    reveal_with_fuel(names_left, 2);
    let updated = libraries.update(at, library);
    assert(seq![library].drop_last() =~= Seq::<Library>::empty());
    assert(seq![libraries[at]].drop_last() =~= Seq::<Library>::empty());
    if at == libraries.len() - 1 {
        assert(updated.drop_last() =~= libraries.drop_last());
    } else {
        assert(updated.drop_last() =~= libraries.drop_last().update(at, library));
        lemma_names_left_update(libraries.drop_last(), at, library);
    }
}

/// Every answer brings the end nearer. While a registry asks for something,
/// recording the outcome of what it asked for leaves less to be asked for
/// than before, so the asking ends; and no name is asked for twice, as each
/// attempt uses one up.
pub proof fn lemma_answers_make_progress(registry: RegistryView, event: Event)
    requires
        registry.wf(),
        (registry.step() is Load && event is Loaded) || (registry.step() is Init
            && event is Initialized),
    ensures
        registry.apply(event).work_left() < registry.work_left(),
{
    lemma_bound_count(registry.libraries);
    if registry.step() is Load {
        let i = bound_count(registry.libraries) as int;
        let after = registry.apply(event);
        lemma_names_left_update(registry.libraries, i, after.libraries[i]);
        reveal_with_fuel(names_left, 2);
        assert(seq![after.libraries[i]].drop_last() =~= Seq::<Library>::empty());
        assert(seq![registry.libraries[i]].drop_last() =~= Seq::<Library>::empty());
    }
}

} // verus!
