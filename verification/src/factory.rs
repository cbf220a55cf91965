//! The factory pipeline: two pending input slots, a FIFO queue of
//! produced kinds, and a serial production countdown.

use vstd::prelude::*;
use crate::events::{OnFactoryQueueItem, OnIncorrectFactoryRecipe};
use crate::kinds::BoxType;
use crate::recipes::{Recipes, lookup_seq, RecipeInputs};
use crate::timer::CountDownTimer;

verus! {

/// How long one production cycle runs, in milliseconds.
pub const PRODUCTION_DURATION_MS: u64 = 5000;

/// Generates a new factory production countdown.
pub fn new_timer() -> (t: CountDownTimer)
    ensures
        t.wf(),
        t.duration_ms == PRODUCTION_DURATION_MS,
        t.elapsed_ms == 0,
{
    CountDownTimer::new(PRODUCTION_DURATION_MS)
}

/// The abstract state of a factory.
pub struct FactoryModel {
    pub input0: Option<BoxType>,
    pub input1: Option<BoxType>,
    pub queue: Seq<BoxType>,
    pub is_producing: bool,
}

impl FactoryModel {
    /// Are both pending input slots filled?
    pub open spec fn both_inputs_filled(self) -> bool {
        self.input0 is Some && self.input1 is Some
    }
}

/// The pending inputs after a drop fills the first empty slot.
pub open spec fn drop_fill(f: FactoryModel, bt: BoxType) -> FactoryModel {
    if f.input0 is None {
        FactoryModel { input0: Some(bt), ..f }
    } else {
        FactoryModel { input1: Some(bt), ..f }
    }
}

/// What one drop does to a factory: fill the first empty slot; when both
/// slots become filled, evaluate the recipe, queue the output on a match,
/// and clear both slots either way.
pub open spec fn add_item_spec(f: FactoryModel, recipes: Seq<(RecipeInputs, BoxType)>, bt: BoxType) -> FactoryModel {
    let filled = drop_fill(f, bt);
    if filled.both_inputs_filled() {
        let queued = match lookup_seq(recipes, filled.input0.unwrap(), filled.input1.unwrap()) {
            Some(out) => filled.queue.push(out),
            None => filled.queue,
        };
        FactoryModel { input0: None, input1: None, queue: queued, ..f }
    } else {
        filled
    }
}

/// The outcome a drop reports: pending while a slot stays empty, else the
/// queued output on a recipe match, else the rejected pair.
pub open spec fn add_item_outcome_spec(f: FactoryModel, recipes: Seq<(RecipeInputs, BoxType)>, bt: BoxType) -> FactoryDropOutcome {
    let filled = drop_fill(f, bt);
    if filled.both_inputs_filled() {
        match lookup_seq(recipes, filled.input0.unwrap(), filled.input1.unwrap()) {
            Some(out) => FactoryDropOutcome::Queued(out),
            None => FactoryDropOutcome::Rejected(filled.input0.unwrap(), filled.input1.unwrap()),
        }
    } else {
        FactoryDropOutcome::Pending
    }
}

/// A sequence of drops, applied in order.
pub open spec fn add_items_spec(f: FactoryModel, recipes: Seq<(RecipeInputs, BoxType)>, drops: Seq<BoxType>) -> FactoryModel
    decreases drops.len(),
{
    if drops.len() == 0 {
        f
    } else {
        add_items_spec(add_item_spec(f, recipes, drops[0]), recipes, drops.drop_first())
    }
}

/// Factory conservation: across any sequence of drops, the pending inputs
/// are never observed both filled — a completed pair is consumed at once,
/// whether or not a recipe matched.
pub proof fn lemma_factory_conservation(f: FactoryModel, recipes: Seq<(RecipeInputs, BoxType)>, drops: Seq<BoxType>)
    requires
        drops.len() > 0 || !f.both_inputs_filled(),
    ensures
        !add_items_spec(f, recipes, drops).both_inputs_filled(),
    decreases drops.len(),
{
    if drops.len() > 0 {
        lemma_factory_conservation(add_item_spec(f, recipes, drops[0]), recipes, drops.drop_first());
    }
}

/// What a run of completed production cycles emits: each cycle takes the
/// head of the queue, so the emissions accumulate front to back.
pub open spec fn completed_outputs(queue: Seq<BoxType>, n: int) -> Seq<BoxType>
    decreases n,
{
    if n <= 0 || queue.len() == 0 {
        Seq::<BoxType>::empty()
    } else {
        seq![queue[0]] + completed_outputs(queue.drop_first(), n - 1)
    }
}

/// Factory FIFO: after any number of completed production cycles the
/// emitted crates are exactly the first items of the queue, in the order
/// they were queued.
pub proof fn lemma_factory_fifo(queue: Seq<BoxType>, n: int)
    requires
        0 <= n <= queue.len(),
    ensures
        completed_outputs(queue, n) =~= queue.take(n),
    decreases n,
{
    if n > 0 {
        lemma_factory_fifo(queue.drop_first(), n - 1);
        assert(queue.drop_first().take(n - 1) =~= queue.take(n).drop_first());
    }
}

/// The outcome of dropping one crate into the factory input.
#[derive(Clone, Copy, Debug, PartialEq, Eq, Structural)]
pub enum FactoryDropOutcome {
    /// Only one slot is filled so far; the factory keeps collecting.
    Pending,
    /// Both slots were filled and a recipe matched: the output kind was
    /// queued for production and the inputs were cleared.
    Queued(BoxType),
    /// Both slots were filled with no matching recipe: the pair is
    /// discarded and the inputs are cleared.
    Rejected(BoxType, BoxType),
}

/// A factory instance: up to two pending inputs, a FIFO output queue, and
/// a flag for the item currently in production.
#[derive(Debug)]
pub struct Factory {
    pub inputs: [Option<BoxType>; 2],
    pub output_queue: Vec<BoxType>,
    pub is_producing: bool,
}

impl View for Factory {
    type V = FactoryModel;

    open spec fn view(&self) -> FactoryModel {
        FactoryModel {
            input0: self.inputs[0],
            input1: self.inputs[1],
            queue: self.output_queue@,
            is_producing: self.is_producing,
        }
    }
}

impl Factory {
    /// Production runs only while the queue holds the item being built.
    pub open spec fn wf(self) -> bool {
        self.is_producing ==> self@.queue.len() >= 1
    }

    /// Fills the first empty input slot with the dropped kind.
    pub fn drop(&mut self, box_type: BoxType)
        ensures
            old(self)@.input0 is None ==> final(self)@ == (FactoryModel {
                input0: Some(box_type),
                ..old(self)@
            }),
            old(self)@.input0 is Some ==> final(self)@ == (FactoryModel {
                input1: Some(box_type),
                ..old(self)@
            }),
    {
        if self.inputs[0].is_none() {
            let b = self.inputs[1];
            self.inputs = [Some(box_type), b];
        } else {
            let a = self.inputs[0];
            self.inputs = [a, Some(box_type)];
        }
    }

    /// Clears both pending input slots.
    pub fn reset(&mut self)
        ensures
            final(self)@ == (FactoryModel { input0: None, input1: None, ..old(self)@ }),
    {
        self.inputs = [None, None];
    }

    /// Are both pending input slots filled?
    pub fn has_completed_recipe(&self) -> (r: bool)
        ensures
            r == self@.both_inputs_filled(),
    {
        self.inputs[0].is_some() && self.inputs[1].is_some()
    }
}

impl Default for Factory {
    /// An idle factory: both inputs empty, nothing queued or producing.
    fn default() -> (f: Factory)
        ensures
            f@ == (FactoryModel {
                input0: None,
                input1: None,
                queue: Seq::<BoxType>::empty(),
                is_producing: false,
            }),
            f.wf(),
    {
        let f = Factory { inputs: [None, None], output_queue: Vec::new(), is_producing: false };
        proof {
            assert(f@.queue =~= Seq::<BoxType>::empty());
        }
        f
    }
}

/// Routes one dropped crate into the factory: fills a slot and, when the
/// pair completes, evaluates the recipe, queues the output on a match and
/// discards the pair otherwise. The inputs are never left both filled.
pub fn add_item_to_factory(factory: &mut Factory, recipes: &Recipes, box_type: BoxType) -> (outcome: FactoryDropOutcome)
    requires
        old(factory).wf(),
    ensures
        final(factory).wf(),
        final(factory)@ == add_item_spec(old(factory)@, recipes.0@, box_type),
        outcome == add_item_outcome_spec(old(factory)@, recipes.0@, box_type),
        !final(factory)@.both_inputs_filled(),
        final(factory)@.is_producing == old(factory)@.is_producing,
        (outcome matches FactoryDropOutcome::Queued(out)
            ==> final(factory)@.queue == old(factory)@.queue.push(out)),
        (outcome is Pending || outcome is Rejected) ==> final(factory)@.queue == old(factory)@.queue,
{
    factory.drop(box_type);

    if !factory.has_completed_recipe() {
        return FactoryDropOutcome::Pending;
    }

    let a = factory.inputs[0].unwrap();
    let b = factory.inputs[1].unwrap();
    let outcome = match recipes.get_output(&factory.inputs) {
        Some(bt) => {
            factory.output_queue.push(bt);
            FactoryDropOutcome::Queued(bt)
        },
        None => FactoryDropOutcome::Rejected(a, b),
    };

    factory.reset();
    outcome
}

/// Fans a drop outcome out into the events the presentation layer plays:
/// a queue addition on a recipe match, a rejection cue on a wasted pair.
pub fn factory_outcome_events(outcome: FactoryDropOutcome) -> (r: (
    Option<OnFactoryQueueItem>,
    Option<OnIncorrectFactoryRecipe>,
))
    ensures
        outcome matches FactoryDropOutcome::Queued(bt) ==> r == (
            Some(OnFactoryQueueItem { box_type: bt }),
            None::<OnIncorrectFactoryRecipe>,
        ),
        outcome matches FactoryDropOutcome::Rejected(a, b) ==> r == (
            None::<OnFactoryQueueItem>,
            Some(OnIncorrectFactoryRecipe(a, b)),
        ),
        outcome is Pending ==> r == (
            None::<OnFactoryQueueItem>,
            None::<OnIncorrectFactoryRecipe>,
        ),
{
    match outcome {
        FactoryDropOutcome::Pending => (None, None),
        FactoryDropOutcome::Queued(bt) => (Some(OnFactoryQueueItem { box_type: bt }), None),
        FactoryDropOutcome::Rejected(a, b) => (None, Some(OnIncorrectFactoryRecipe(a, b))),
    }
}

/// Starts the next production cycle when the queue is non-empty and no
/// item is already in production; returns the kind that started building.
pub fn start_factory_production(factory: &mut Factory) -> (started: Option<BoxType>)
    requires
        old(factory).wf(),
    ensures
        final(factory).wf(),
        started is Some <==> (old(factory)@.queue.len() > 0 && !old(factory)@.is_producing),
        started matches Some(bt) ==> bt == old(factory)@.queue[0],
        started is Some ==> final(factory)@ == (FactoryModel { is_producing: true, ..old(factory)@ }),
        started is None ==> final(factory)@ == old(factory)@,
{
    if factory.output_queue.len() == 0 || factory.is_producing {
        return None;
    }
    let bt = factory.output_queue[0];
    factory.is_producing = true;
    Some(bt)
}

/// Finishes the current production cycle: the head of the FIFO queue is
/// emitted as a new crate and the rest of the queue keeps its order.
pub fn finish_factory_production(factory: &mut Factory) -> (built: BoxType)
    requires
        old(factory).wf(),
        old(factory)@.is_producing,
    ensures
        final(factory).wf(),
        built == old(factory)@.queue[0],
        final(factory)@.queue == old(factory)@.queue.drop_first(),
        !final(factory)@.is_producing,
        final(factory)@.input0 == old(factory)@.input0,
        final(factory)@.input1 == old(factory)@.input1,
{
    let built = factory.output_queue.remove(0);
    factory.is_producing = false;
    proof {
        assert(factory@.queue =~= old(factory)@.queue.drop_first());
    }
    built
}

} // verus!
