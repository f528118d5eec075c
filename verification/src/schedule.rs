//! Stage labels and the built-in stage order.
use vstd::prelude::*;

verus! {

/// A label identifying a stage in a schedule.
pub trait StageLabel: 'static + Send + Sync + Clone + Eq + std::hash::Hash + std::fmt::Debug {

}

impl<T> StageLabel for T where T: 'static + Send + Sync + Clone + Eq + std::hash::Hash + std::fmt::Debug {

}

/// Built-in stage labels, in execution order.
#[derive(Debug, Clone, Copy, PartialEq, Eq, Hash, Structural)]
pub enum CoreStage {
    /// Runs before all other stages.
    First,
    /// Runs before `Update`.
    PreUpdate,
    /// Main update stage.
    Update,
    /// Runs after `Update`.
    PostUpdate,
    /// Runs after all other stages.
    Last,
}

/// The built-in stages in execution order.
pub open spec fn core_stage_order() -> Seq<CoreStage> {
    seq![
        CoreStage::First,
        CoreStage::PreUpdate,
        CoreStage::Update,
        CoreStage::PostUpdate,
        CoreStage::Last,
    ]
}

impl CoreStage {
    /// Returns all stages in execution order.
    pub fn all() -> (stages: &'static [CoreStage])
        ensures
            stages@ == core_stage_order(),
    {
        let stages: &'static [CoreStage] = &[
            CoreStage::First,
            CoreStage::PreUpdate,
            CoreStage::Update,
            CoreStage::PostUpdate,
            CoreStage::Last,
        ];
        stages
    }
}

/// Every stage appears exactly once in the execution order.
pub proof fn lemma_core_stage_order_complete(s: CoreStage)
    ensures
        core_stage_order().contains(s),
        forall|i: int, j: int|
            0 <= i < j < 5 ==> core_stage_order()[i] != core_stage_order()[j],
{
    match s {
        CoreStage::First => assert(core_stage_order()[0] == s),
        CoreStage::PreUpdate => assert(core_stage_order()[1] == s),
        CoreStage::Update => assert(core_stage_order()[2] == s),
        CoreStage::PostUpdate => assert(core_stage_order()[3] == s),
        CoreStage::Last => assert(core_stage_order()[4] == s),
    }
}

/// The run-once flag of a startup schedule: the first run goes ahead, later
/// ones are skipped until the flag is reset.
pub struct RunOnce {
    has_run: bool,
}

impl RunOnce {
    /// Whether the schedule has run.
    pub closed spec fn done(&self) -> bool {
        self.has_run
    }

    /// A schedule that has not run.
    pub fn new() -> (r: RunOnce)
        ensures
            !r.done(),
    {
        RunOnce { has_run: false }
    }

    /// Starts a run: gives whether this is the first since creation or the
    /// last reset, after which the schedule counts as run.
    pub fn begin_run(&mut self) -> (first: bool)
        ensures
            first == !old(self).done(),
            final(self).done(),
    {
        let first = !self.has_run;
        self.has_run = true;
        first
    }

    /// Whether the schedule has run.
    pub fn has_run(&self) -> (b: bool)
        ensures
            b == self.done(),
    {
        self.has_run
    }

    /// Lets the schedule run again.
    pub fn reset(&mut self)
        ensures
            !final(self).done(),
    {
        self.has_run = false;
    }
}

impl Default for RunOnce {
    fn default() -> (r: RunOnce)
        ensures
            !r.done(),
    {
        RunOnce::new()
    }
}

} // verus!
