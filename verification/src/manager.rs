//! The registry of modules: switches them on and off and tells the bus what became of
//! it.
//!
//! An event is sent after a request has settled, whether it succeeded or not, and says
//! what the module is doing then; what was asked for is not in it.

use crate::bus::{published, AppEvent, EventBus};
use crate::modules::{ModuleError, ToolModule};
use crate::text::{lemma_precedes_total, lemma_precedes_transitive, precedes, text_precedes};
use vstd::prelude::*;

verus! {

// ---------------------------------------------------------------------------
// One module
// ---------------------------------------------------------------------------

/// What is shown of a module.
#[derive(Debug, Clone, Copy, PartialEq, Eq)]
pub struct ModuleMeta {
    pub id: &'static str,
    pub display_name: &'static str,
    pub description: &'static str,
    pub running: bool,
}

/// Whether `meta` is what is shown of `module`.
pub open spec fn describes<M: ToolModule>(meta: ModuleMeta, module: M) -> bool {
    &&& meta.id@ == module.id_text()
    &&& meta.display_name@ == module.name_text()
    &&& meta.description@ == module.description_text()
    &&& meta.running == module.running()
}

/// What is shown of a module.
pub fn meta_of<M: ToolModule>(module: &M) -> (r: ModuleMeta)
    ensures
        describes(r, *module),
{
    ModuleMeta {
        id: module.id(),
        display_name: module.display_name(),
        description: module.description(),
        running: module.is_running(),
    }
}

/// Whether `event` says that the module with this id is running or not.
pub open spec fn is_status(event: AppEvent, id: Seq<char>, running: bool) -> bool {
    event matches AppEvent::ModuleStatusChanged { id: i, is_running } && i@ == id && is_running
        == running
}

/// What a request comes to: the error of the module, or whether anything changed.
pub fn settle_toggle(changed: bool, outcome: Result<(), ModuleError>) -> (r: Result<
    bool,
    ModuleError,
>)
    ensures
        r == (match outcome {
            Ok(_) => Ok(changed),
            Err(error) => Err(error),
        }),
{
    match outcome {
        Ok(_) => Ok(changed),
        Err(error) => Err(error),
    }
}

/// What the module returned, where a request that changed something came to `r`.
pub open spec fn outcome_of(r: Result<bool, ModuleError>) -> Result<(), ModuleError> {
    match r {
        Ok(_) => Ok(()),
        Err(error) => Err(error),
    }
}

/// Whether switching `before` to `enable` can come to `r` and leave the module as
/// `after`: one that is so already is left alone, another is started or stopped.
pub open spec fn can_toggle<M: ToolModule>(
    before: M,
    after: M,
    enable: bool,
    r: Result<bool, ModuleError>,
) -> bool {
    if before.running() == enable {
        r == Ok::<bool, ModuleError>(false) && after == before
    } else {
        &&& r is Ok ==> r == Ok::<bool, ModuleError>(true)
        &&& enable ==> M::can_start(before, after, outcome_of(r))
        &&& !enable ==> M::can_stop(before, after, outcome_of(r))
    }
}

/// Switches a module on or off, if it is not so already, and returns what came of it
/// with the event that tells what the module is doing now.
pub fn toggle_module<M: ToolModule>(module: &mut M, enable: bool) -> (r: (
    Result<bool, ModuleError>,
    AppEvent,
))
    ensures
        can_toggle(*old(module), *final(module), enable, r.0),
        is_status(r.1, old(module).id_text(), final(module).running()),
        final(module).id_text() == old(module).id_text(),
        final(module).name_text() == old(module).name_text(),
        final(module).description_text() == old(module).description_text(),
{
    let changed = module.is_running() != enable;
    let outcome = if changed {
        if enable {
            module.start()
        } else {
            module.stop()
        }
    } else {
        Ok(())
    };
    let event = AppEvent::ModuleStatusChanged {
        id: module.id().to_owned(),
        is_running: module.is_running(),
    };
    let ghost returned = outcome;
    let result = settle_toggle(changed, outcome);
    proof {
        match returned {
            Ok(nothing) => {
                assert(nothing == ());
            },
            Err(_) => {},
        }
    }
    (result, event)
}

// ---------------------------------------------------------------------------
// The registry
// ---------------------------------------------------------------------------

/// The module with this id among `modules`.
pub open spec fn module_with<M: ToolModule>(modules: Seq<M>, id: Seq<char>) -> Option<M>
    decreases modules.len(),
{
    if modules.len() == 0 {
        None
    } else if modules[0].id_text() == id {
        Some(modules[0])
    } else {
        module_with(modules.drop_first(), id)
    }
}

/// Whether `modules` are in the order of their ids, none of which occurs twice.
pub open spec fn in_order<M: ToolModule>(modules: Seq<M>) -> bool {
    forall|i: int, j: int|
        0 <= i < j < modules.len() ==> precedes(
            (#[trigger] modules[i]).id_text(),
            (#[trigger] modules[j]).id_text(),
        )
}

proof fn lemma_module_at<M: ToolModule>(modules: Seq<M>, i: int)
    requires
        in_order(modules),
        0 <= i < modules.len(),
    ensures
        module_with(modules, modules[i].id_text()) == Some(modules[i]),
    decreases modules.len(),
{
    if i > 0 {
        let rest = modules.drop_first();
        lemma_precedes_total(modules[0].id_text(), modules[i].id_text());
        assert(precedes(modules[0].id_text(), modules[i].id_text()));
        assert forall|a: int, b: int| 0 <= a < b < rest.len() implies precedes(
            (#[trigger] rest[a]).id_text(),
            (#[trigger] rest[b]).id_text(),
        ) by {
            assert(precedes(modules[a + 1].id_text(), modules[b + 1].id_text()));
        }
        lemma_module_at(rest, i - 1);
    }
}

proof fn lemma_no_module<M: ToolModule>(modules: Seq<M>, id: Seq<char>)
    requires
        forall|i: int| 0 <= i < modules.len() ==> (#[trigger] modules[i]).id_text() != id,
    ensures
        module_with(modules, id) is None,
    decreases modules.len(),
{
    if modules.len() > 0 {
        assert(modules[0].id_text() != id);
        let rest = modules.drop_first();
        assert forall|i: int| 0 <= i < rest.len() implies (#[trigger] rest[i]).id_text() != id by {
            assert(modules[i + 1].id_text() != id);
        }
        lemma_no_module(rest, id);
    }
}

/// A module that is found is one of the modules.
proof fn lemma_found_module<M: ToolModule>(modules: Seq<M>, id: Seq<char>)
    ensures
        module_with(modules, id) matches Some(m) ==> exists|i: int|
            0 <= i < modules.len() && #[trigger] modules[i] == m && m.id_text() == id,
    decreases modules.len(),
{
    if modules.len() > 0 && modules[0].id_text() != id {
        lemma_found_module(modules.drop_first(), id);
        if let Some(m) = module_with(modules.drop_first(), id) {
            let i = choose|i: int|
                0 <= i < modules.drop_first().len() && #[trigger] modules.drop_first()[i] == m
                    && m.id_text() == id;
            assert(modules[i + 1] == m);
        }
    } else if modules.len() > 0 {
        assert(modules[0] == modules[0]);
    }
}

/// The registered modules.
pub struct ModuleManager<M: ToolModule> {
    modules: Vec<M>,
    bus: EventBus,
}

impl<M: ToolModule> ModuleManager<M> {
    /// The modules are in order, and no id occurs twice.
    #[verifier::type_invariant]
    spec fn ordered(&self) -> bool {
        in_order(self.modules@)
    }

    /// The modules, in the order of their ids.
    pub closed spec fn registered(&self) -> Seq<M> {
        self.modules@
    }

    /// The bus over which it is announced what becomes of the modules.
    pub closed spec fn announces_on(&self) -> EventBus {
        self.bus
    }

    /// No modules yet, and a bus for what becomes of them.
    pub fn new(bus: EventBus) -> (r: Self)
        ensures
            r.registered() == Seq::<M>::empty(),
            r.announces_on() == bus,
    {
        ModuleManager { modules: Vec::new(), bus }
    }

    /// How many modules come before this id.
    fn place_of(&self, id: &str) -> (r: usize)
        ensures
            r <= self.modules@.len(),
            forall|i: int| 0 <= i < r ==> precedes((#[trigger] self.modules@[i]).id_text(), id@),
            r < self.modules@.len() ==> !precedes(self.modules@[r as int].id_text(), id@),
    {
        let mut i: usize = 0;
        while i < self.modules.len() && text_precedes(self.modules[i].id(), id)
            invariant
                i <= self.modules@.len(),
                forall|k: int|
                    0 <= k < i ==> precedes((#[trigger] self.modules@[k]).id_text(), id@),
            decreases self.modules@.len() - i,
        {
            i = i + 1;
        }
        i
    }

    /// The place of the module with this id.
    fn find(&self, id: &str) -> (r: Option<usize>)
        ensures
            match r {
                Some(i) => i < self.modules@.len() && self.modules@[i as int].id_text() == id@
                    && module_with(self.modules@, id@) == Some(self.modules@[i as int]),
                None => module_with(self.modules@, id@) is None && forall|i: int|
                    0 <= i < self.modules@.len() ==> (#[trigger] self.modules@[i]).id_text() != id@,
            },
    {
        proof {
            use_type_invariant(self);
        }
        let mut i: usize = 0;
        while i < self.modules.len()
            invariant
                i <= self.modules@.len(),
                in_order(self.modules@),
                forall|k: int| 0 <= k < i ==> (#[trigger] self.modules@[k]).id_text() != id@,
            decreases self.modules@.len() - i,
        {
            if crate::text::same_text(self.modules[i].id(), id) {
                proof {
                    lemma_module_at(self.modules@, i as int);
                }
                return Some(i);
            }
            i = i + 1;
        }
        proof {
            lemma_no_module(self.modules@, id@);
        }
        None
    }

    /// Registers a module; one with the same id is replaced.
    pub fn register(&mut self, module: M)
        ensures
            forall|id: Seq<char>| #[trigger]
                module_with(final(self).registered(), id) == (if id == module.id_text() {
                    Some(module)
                } else {
                    module_with(old(self).registered(), id)
                }),
            in_order(final(self).registered()),
            final(self).announces_on() == old(self).announces_on(),
            final(self).registered().len() == old(self).registered().len() + (if module_with(
                old(self).registered(),
                module.id_text(),
            ) is Some {
                0nat
            } else {
                1nat
            }),
    {
        proof {
            use_type_invariant(&*self);
        }
        let id = module.id();
        let found = self.find(id);
        let place: usize = self.place_of(id);
        let mut modules: Vec<M> = Vec::new();
        std::mem::swap(&mut modules, &mut self.modules);
        let ghost before = modules@;
        match found {
            Some(i) => {
                modules.set(i, module);
                proof {
                    lemma_after_replace(before, i as int, module);
                }
            },
            None => {
                modules.insert(place, module);
                proof {
                    lemma_after_insert(before, place as int, module);
                }
            },
        }
        self.modules = modules;
    }

    /// The module with this id.
    pub fn get_module(&self, id: &str) -> (r: Option<&M>)
        ensures
            match module_with(self.registered(), id@) {
                Some(module) => r == Some(&module),
                None => r is None,
            },
    {
        match self.find(id) {
            Some(i) => Some(&self.modules[i]),
            None => None,
        }
    }

    /// Switches the module with this id on or off and returns what came of it, with the
    /// event to be sent. For an unknown id there is an error and no event.
    pub fn settle(&mut self, id: &str, enable: bool) -> (r: (
        Result<bool, ModuleError>,
        Option<AppEvent>,
    ))
        ensures
            match module_with(old(self).registered(), id@) {
                None => {
                    &&& r.0 is Err
                    &&& r.0->Err_0@ == "未注册的模块: "@ + id@
                    &&& r.1 is None
                    &&& final(self).registered() == old(self).registered()
                },
                Some(module) => {
                    &&& module_with(final(self).registered(), id@) is Some
                    &&& r.1 is Some
                    &&& is_status(
                        r.1->0,
                        id@,
                        module_with(final(self).registered(), id@)->0.running(),
                    )
                    &&& can_toggle(
                        module,
                        module_with(final(self).registered(), id@)->0,
                        enable,
                        r.0,
                    )
                    &&& module.running() == enable ==> final(self).registered() == old(
                        self,
                    ).registered()
                },
            },
            forall|other: Seq<char>|
                other != id@ ==> #[trigger] module_with(final(self).registered(), other)
                    == module_with(old(self).registered(), other),
            final(self).registered().len() == old(self).registered().len(),
            final(self).announces_on() == old(self).announces_on(),
    {
        proof {
            use_type_invariant(&*self);
        }
        let i: usize = match self.find(id) {
            Some(i) => i,
            None => {
                let mut text = "未注册的模块: ".to_owned();
                text.append(id);
                return (Err(text), None);
            },
        };
        let mut modules: Vec<M> = Vec::new();
        std::mem::swap(&mut modules, &mut self.modules);
        let ghost before = modules@;
        let (result, event) = toggle_module(&mut modules[i], enable);
        proof {
            let after = modules@;
            assert(after =~= before.update(i as int, after[i as int]));
            lemma_after_replace(before, i as int, after[i as int]);
            if before[i as int].running() == enable {
                assert(after =~= before);
            }
        }
        self.modules = modules;
        (result, Some(event))
    }

    /// Switches the module with this id on or off and sends what it is doing then over
    /// the bus, whether the request succeeded or not. For an unknown id nothing is sent.
    pub fn toggle(&mut self, id: &str, enable: bool) -> (r: Result<bool, ModuleError>)
        ensures
            match module_with(old(self).registered(), id@) {
                None => r is Err && r->Err_0@ == "未注册的模块: "@ + id@
                    && final(self).registered() == old(self).registered(),
                Some(module) => {
                    &&& module_with(final(self).registered(), id@) is Some
                    &&& can_toggle(
                        module,
                        module_with(final(self).registered(), id@)->0,
                        enable,
                        r,
                    )
                    &&& module.running() == enable ==> final(self).registered() == old(
                        self,
                    ).registered()
                },
            },
            module_with(old(self).registered(), id@) is Some ==> exists|event: AppEvent|
                is_status(
                    event,
                    id@,
                    module_with(final(self).registered(), id@)->0.running(),
                ) && #[trigger] published(final(self).announces_on(), event),
            forall|other: Seq<char>|
                other != id@ ==> #[trigger] module_with(final(self).registered(), other)
                    == module_with(old(self).registered(), other),
            final(self).registered().len() == old(self).registered().len(),
            final(self).announces_on() == old(self).announces_on(),
    {
        let (result, event) = self.settle(id, enable);
        if let Some(event) = event {
            let ghost sent = event;
            self.bus.publish(event);
            assert(published(self.bus, sent));
        }
        result
    }

    /// What is shown of the modules, in the order of their ids.
    pub fn get_metadata_list(&self) -> (r: Vec<ModuleMeta>)
        ensures
            r@.len() == self.registered().len(),
            forall|i: int| 0 <= i < r@.len() ==> describes(#[trigger] r@[i], self.registered()[i]),
            forall|i: int, j: int|
                0 <= i < j < r@.len() ==> precedes((#[trigger] r@[i]).id@, (#[trigger] r@[j]).id@),
    {
        proof {
            use_type_invariant(self);
        }
        let mut r: Vec<ModuleMeta> = Vec::new();
        let mut i: usize = 0;
        while i < self.modules.len()
            invariant
                i <= self.modules@.len(),
                r@.len() == i,
                forall|k: int| 0 <= k < i ==> describes(#[trigger] r@[k], self.modules@[k]),
            decreases self.modules@.len() - i,
        {
            r.push(meta_of(&self.modules[i]));
            i = i + 1;
        }
        r
    }
}

/// A request for what a module is doing already changes nothing and says so, however
/// often it is repeated.
pub proof fn law_repeated_request_changes_nothing<M: ToolModule>(
    module: M,
    after: M,
    enable: bool,
    r: Result<bool, ModuleError>,
)
    requires
        module.running() == enable,
        can_toggle(module, after, enable, r),
    ensures
        r == Ok::<bool, ModuleError>(false),
        after == module,
{
}

/// Replacing a module by one with the same id changes what is found for that id alone.
proof fn lemma_after_replace<M: ToolModule>(modules: Seq<M>, i: int, module: M)
    requires
        in_order(modules),
        0 <= i < modules.len(),
        modules[i].id_text() == module.id_text(),
    ensures
        in_order(modules.update(i, module)),
        forall|id: Seq<char>| #[trigger]
            module_with(modules.update(i, module), id) == (if id == module.id_text() {
                Some(module)
            } else {
                module_with(modules, id)
            }),
{
    let after = modules.update(i, module);
    assert(in_order(after)) by {
        assert forall|a: int, b: int| 0 <= a < b < after.len() implies precedes(
            (#[trigger] after[a]).id_text(),
            (#[trigger] after[b]).id_text(),
        ) by {
            assert(precedes(modules[a].id_text(), modules[b].id_text()));
        }
    }
    assert forall|id: Seq<char>| #[trigger]
        module_with(after, id) == (if id == module.id_text() {
            Some(module)
        } else {
            module_with(modules, id)
        }) by {
        if id == module.id_text() {
            lemma_module_at(after, i);
        } else {
            lemma_found_module(modules, id);
            match module_with(modules, id) {
                Some(m) => {
                    let k = choose|k: int|
                        0 <= k < modules.len() && #[trigger] modules[k] == m && m.id_text() == id;
                    assert(after[k] == m);
                    lemma_module_at(after, k);
                },
                None => {
                    assert forall|k: int| 0 <= k < after.len() implies (
                    #[trigger] after[k]).id_text() != id by {
                        if k != i && after[k].id_text() == id {
                            lemma_module_at(modules, k);
                        }
                    }
                    lemma_no_module(after, id);
                },
            }
        }
    }
}

/// Inserting a module with a new id at its place changes what is found for that id
/// alone.
proof fn lemma_after_insert<M: ToolModule>(modules: Seq<M>, place: int, module: M)
    requires
        in_order(modules),
        0 <= place <= modules.len(),
        forall|i: int| 0 <= i < modules.len() ==> (#[trigger] modules[i]).id_text()
            != module.id_text(),
        forall|i: int|
            0 <= i < place ==> precedes((#[trigger] modules[i]).id_text(), module.id_text()),
        place < modules.len() ==> !precedes(modules[place].id_text(), module.id_text()),
    ensures
        in_order(modules.insert(place, module)),
        forall|id: Seq<char>| #[trigger]
            module_with(modules.insert(place, module), id) == (if id == module.id_text() {
                Some(module)
            } else {
                module_with(modules, id)
            }),
{
    let after = modules.insert(place, module);
    assert forall|k: int| place <= k < modules.len() implies precedes(
        module.id_text(),
        (#[trigger] modules[k]).id_text(),
    ) by {
        lemma_precedes_total(module.id_text(), modules[place].id_text());
        assert(modules[place].id_text() != module.id_text());
        if place < k {
            assert(precedes(modules[place].id_text(), modules[k].id_text()));
            lemma_precedes_transitive(
                module.id_text(),
                modules[place].id_text(),
                modules[k].id_text(),
            );
        }
    }
    assert(in_order(after)) by {
        assert forall|a: int, b: int| 0 <= a < b < after.len() implies precedes(
            (#[trigger] after[a]).id_text(),
            (#[trigger] after[b]).id_text(),
        ) by {
            let x = if a < place {
                a
            } else {
                a - 1
            };
            let y = if b < place {
                b
            } else {
                b - 1
            };
            if a == place {
                assert(after[b] == modules[y]);
            } else if b == place {
                assert(after[a] == modules[x]);
            } else {
                assert(after[a] == modules[x]);
                assert(after[b] == modules[y]);
                assert(precedes(modules[x].id_text(), modules[y].id_text()));
            }
        }
    }
    assert forall|id: Seq<char>| #[trigger]
        module_with(after, id) == (if id == module.id_text() {
            Some(module)
        } else {
            module_with(modules, id)
        }) by {
        if id == module.id_text() {
            assert(after[place] == module);
            lemma_module_at(after, place);
        } else {
            lemma_found_module(modules, id);
            match module_with(modules, id) {
                Some(m) => {
                    let k = choose|k: int|
                        0 <= k < modules.len() && #[trigger] modules[k] == m && m.id_text() == id;
                    let n = if k < place {
                        k
                    } else {
                        k + 1
                    };
                    assert(after[n] == m);
                    lemma_module_at(after, n);
                },
                None => {
                    assert forall|k: int| 0 <= k < after.len() implies (
                    #[trigger] after[k]).id_text() != id by {
                        if k != place && after[k].id_text() == id {
                            let n = if k < place {
                                k
                            } else {
                                k - 1
                            };
                            assert(after[k] == modules[n]);
                            lemma_module_at(modules, n);
                        }
                    }
                    lemma_no_module(after, id);
                },
            }
        }
    }
}

/// A module is found by its id: the first that has it, and none where none has.
pub proof fn law_module_is_found_by_its_id<M: ToolModule>(modules: Seq<M>, id: Seq<char>, i: int)
    ensures
        0 <= i < modules.len() && modules[i].id_text() == id && (forall|k: int|
            0 <= k < i ==> (#[trigger] modules[k]).id_text() != id) ==> module_with(modules, id)
            == Some(modules[i]),
        (forall|k: int| 0 <= k < modules.len() ==> (#[trigger] modules[k]).id_text() != id)
            ==> module_with(modules, id) is None,
    decreases modules.len(),
{
    if modules.len() > 0 {
        let rest = modules.drop_first();
        assert forall|k: int| 0 <= k < rest.len() implies #[trigger] rest[k] == modules[k + 1] by {}
        law_module_is_found_by_its_id(rest, id, i - 1);
        if i == 0 {
            assert(modules[0].id_text() == id || module_with(modules, id) == module_with(rest, id));
        } else if 0 < i < modules.len() {
            if forall|k: int| 0 <= k < i ==> (#[trigger] modules[k]).id_text() != id {
                assert(modules[0].id_text() != id);
                assert forall|k: int| 0 <= k < i - 1 implies (#[trigger] rest[k]).id_text()
                    != id by {
                    assert(modules[k + 1].id_text() != id);
                }
            }
        }
        if forall|k: int| 0 <= k < modules.len() ==> (#[trigger] modules[k]).id_text() != id {
            assert(modules[0].id_text() != id);
            assert forall|k: int| 0 <= k < rest.len() implies (#[trigger] rest[k]).id_text()
                != id by {
                assert(modules[k + 1].id_text() != id);
            }
        }
    } else {
        lemma_no_module(modules, id);
    }
}

/// A request says whether it changed anything: it did where the module was not yet what was
/// asked for and let itself be switched. A module is started to be switched on and stopped
/// to be switched off, never the other way round, and its refusal is handed on.
pub proof fn law_request_says_what_it_changed<M: ToolModule>(
    before: M,
    after: M,
    enable: bool,
    r: Result<bool, ModuleError>,
)
    requires
        can_toggle(before, after, enable, r),
    ensures
        r matches Ok(changed) ==> changed == (before.running() != enable),
        before.running() == enable ==> r is Ok && after == before,
        enable && !before.running() && r is Ok ==> M::can_start(before, after, Ok(())),
        enable && !before.running() && r is Err ==> M::can_start(before, after, Err(r->Err_0)),
        !enable && before.running() && r is Ok ==> M::can_stop(before, after, Ok(())),
        !enable && before.running() && r is Err ==> M::can_stop(before, after, Err(r->Err_0)),
{
}

/// What is shown of a module is what it says of itself, and the event after a request
/// names it and says whether it is running then.
pub proof fn law_modules_are_shown_as_they_are<M: ToolModule>(
    meta: ModuleMeta,
    module: M,
    event: AppEvent,
    id: Seq<char>,
    running: bool,
)
    ensures
        describes(meta, module) ==> meta.id@ == module.id_text() && meta.display_name@
            == module.name_text() && meta.description@ == module.description_text()
            && meta.running == module.running(),
        is_status(event, id, running) ==> (event matches AppEvent::ModuleStatusChanged {
            id: named,
            is_running,
        } && named@ == id && is_running == running),
{
}

} // verus!
