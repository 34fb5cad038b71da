//! Branch prediction with two-bit saturating counters: a per-branch history
//! table, a global pattern table indexed by the last four outcomes, and a
//! branch target buffer.
use vstd::prelude::*;
use std::collections::HashMap;

verus! {

/// Branch prediction states of a two-bit saturating counter.
#[derive(Debug, Clone, Copy, PartialEq, Eq, Structural)]
pub enum PredictionState {
    StronglyNotTaken,
    WeaklyNotTaken,
    WeaklyTaken,
    StronglyTaken,
}

impl PredictionState {
    /// The counter value, 0 (strongly not taken) to 3 (strongly taken).
    pub open spec fn counter(self) -> int {
        match self {
            PredictionState::StronglyNotTaken => 0,
            PredictionState::WeaklyNotTaken => 1,
            PredictionState::WeaklyTaken => 2,
            PredictionState::StronglyTaken => 3,
        }
    }

    /// The state whose counter is `c`.
    pub open spec fn from_counter(c: int) -> PredictionState {
        if c <= 0 {
            PredictionState::StronglyNotTaken
        } else if c == 1 {
            PredictionState::WeaklyNotTaken
        } else if c == 2 {
            PredictionState::WeaklyTaken
        } else {
            PredictionState::StronglyTaken
        }
    }

    /// The prediction: taken in the two upper states.
    pub open spec fn predicts_taken(self) -> bool {
        self.counter() >= 2
    }

    /// The counter moves one step toward the outcome and saturates.
    pub open spec fn after(self, taken: bool) -> PredictionState {
        if taken {
            Self::from_counter(if self.counter() < 3 { self.counter() + 1 } else { 3 })
        } else {
            Self::from_counter(if self.counter() > 0 { self.counter() - 1 } else { 0 })
        }
    }

    pub fn is_taken(&self) -> (r: bool)
        ensures
            r == self.predicts_taken(),
    {
        match self {
            PredictionState::WeaklyTaken | PredictionState::StronglyTaken => true,
            _ => false,
        }
    }

    pub fn update(&self, taken: bool) -> (r: Self)
        ensures
            r == self.after(taken),
    {
        match (self, taken) {
            (PredictionState::StronglyNotTaken, false) => PredictionState::StronglyNotTaken,
            (PredictionState::StronglyNotTaken, true) => PredictionState::WeaklyNotTaken,
            (PredictionState::WeaklyNotTaken, false) => PredictionState::StronglyNotTaken,
            (PredictionState::WeaklyNotTaken, true) => PredictionState::WeaklyTaken,
            (PredictionState::WeaklyTaken, false) => PredictionState::WeaklyNotTaken,
            (PredictionState::WeaklyTaken, true) => PredictionState::StronglyTaken,
            (PredictionState::StronglyTaken, false) => PredictionState::WeaklyTaken,
            (PredictionState::StronglyTaken, true) => PredictionState::StronglyTaken,
        }
    }
}

/// After two identical outcomes a counter predicts that outcome, whatever
/// state it started in.
pub proof fn law_two_outcomes_decide_prediction(s: PredictionState, taken: bool)
    ensures
        s.after(taken).after(taken).predicts_taken() == taken,
{
}

/// A single outcome against a strong prediction does not change the
/// prediction (hysteresis).
pub proof fn law_strong_state_hysteresis(s: PredictionState, taken: bool)
    requires
        s == PredictionState::StronglyTaken || s == PredictionState::StronglyNotTaken,
    ensures
        s.after(taken).predicts_taken() == s.predicts_taken(),
{
}

/// The counter stays within its four states and an outcome that agrees
/// with a strong state leaves it unchanged.
pub proof fn law_counter_saturates(s: PredictionState, taken: bool)
    ensures
        0 <= s.after(taken).counter() <= 3,
        s == PredictionState::StronglyTaken && taken ==> s.after(taken) == s,
        s == PredictionState::StronglyNotTaken && !taken ==> s.after(taken) == s,
{
}

/// Branch predictor with local and global two-bit counters and a branch
/// target buffer.
pub struct BranchPredictor {
    branch_history_table: HashMap<u32, PredictionState>,
    global_history: u8,
    global_predictor: [PredictionState; 16],
    branch_target_buffer: HashMap<u32, u32>,
    predictions: usize,
    correct_predictions: usize,
}

impl BranchPredictor {
    /// Per-branch counters.
    pub closed spec fn local(&self) -> Map<u32, PredictionState> {
        self.branch_history_table@
    }

    /// The last four outcomes, most recent in bit 0.
    pub closed spec fn history(&self) -> u8 {
        self.global_history
    }

    /// Global pattern counters, indexed by the history.
    pub closed spec fn patterns(&self) -> Seq<PredictionState> {
        self.global_predictor@
    }

    /// Branch targets recorded for taken branches.
    pub closed spec fn targets(&self) -> Map<u32, u32> {
        self.branch_target_buffer@
    }

    pub closed spec fn prediction_count(&self) -> usize {
        self.predictions
    }

    pub closed spec fn correct_count(&self) -> usize {
        self.correct_predictions
    }

    /// The history fits in four bits and there are sixteen pattern counters.
    pub closed spec fn wf(&self) -> bool {
        self.global_history < 16
    }

    /// The prediction for the branch at `pc`: its own counter if it has one,
    /// else the global counter selected by the history.
    pub open spec fn prediction_for(&self, pc: u32) -> bool {
        if self.local().contains_key(pc) {
            self.local()[pc].predicts_taken()
        } else {
            self.patterns()[(self.history() & 0xF) as int].predicts_taken()
        }
    }

    pub fn new() -> (r: Self)
        ensures
            r.wf(),
            r.local() == Map::<u32, PredictionState>::empty(),
            r.history() == 0,
            r.patterns() == Seq::new(16, |i: int| PredictionState::WeaklyNotTaken),
            r.targets() == Map::<u32, u32>::empty(),
            r.prediction_count() == 0,
            r.correct_count() == 0,
    {
        let r = Self {
            branch_history_table: HashMap::new(),
            global_history: 0,
            global_predictor: [PredictionState::WeaklyNotTaken; 16],
            branch_target_buffer: HashMap::new(),
            predictions: 0,
            correct_predictions: 0,
        };
        assert(r.patterns() =~= Seq::new(16, |i: int| PredictionState::WeaklyNotTaken));
        r
    }

    /// Predicts whether the branch at `pc` is taken, counting the
    /// prediction.
    pub fn predict(&mut self, pc: u32) -> (r: bool)
        requires
            old(self).wf(),
            old(self).prediction_count() < usize::MAX,
        ensures
            final(self).wf(),
            r == old(self).prediction_for(pc),
            final(self).prediction_count() == old(self).prediction_count() + 1,
            final(self).correct_count() == old(self).correct_count(),
            final(self).local() == old(self).local(),
            final(self).history() == old(self).history(),
            final(self).patterns() == old(self).patterns(),
            final(self).targets() == old(self).targets(),
    {
        broadcast use vstd::std_specs::hash::group_hash_axioms;
        self.predictions = self.predictions + 1;
        match self.branch_history_table.get(&pc) {
            Some(state) => {
                return state.is_taken();
            },
            None => {},
        }
        let gh = self.global_history;
        let index = (gh & 0xF) as usize;
        assert(gh & 0xF < 16) by (bit_vector);
        self.global_predictor[index].is_taken()
    }

    /// Records the outcome of the branch at `pc`: trains its counter and the
    /// global counter, shifts the outcome into the history, remembers the
    /// target of a taken branch and counts a correct local prediction.
    pub fn update(&mut self, pc: u32, taken: bool, actual_target: u32)
        requires
            old(self).wf(),
            old(self).correct_count() < usize::MAX,
        ensures
            final(self).wf(),
            ({
                let before = if old(self).local().contains_key(pc) {
                    old(self).local()[pc]
                } else {
                    PredictionState::WeaklyNotTaken
                };
                &&& final(self).local() == old(self).local().insert(pc, before.after(taken))
                &&& final(self).correct_count() == old(self).correct_count() + if before.predicts_taken()
                    == taken {
                    1int
                } else {
                    0int
                }
            }),
            final(self).history() == (((old(self).history() << 1u8) | (if taken {
                1u8
            } else {
                0u8
            })) & 0xF),
            final(self).patterns() == old(self).patterns().update(
                final(self).history() as int,
                old(self).patterns()[final(self).history() as int].after(taken),
            ),
            final(self).targets() == if taken {
                old(self).targets().insert(pc, actual_target)
            } else {
                old(self).targets()
            },
            final(self).prediction_count() == old(self).prediction_count(),
    {
        broadcast use vstd::std_specs::hash::group_hash_axioms;
        if taken {
            self.branch_target_buffer.insert(pc, actual_target);
        }
        let local_state = match self.branch_history_table.get(&pc) {
            Some(s) => *s,
            None => PredictionState::WeaklyNotTaken,
        };
        if local_state.is_taken() == taken {
            self.correct_predictions = self.correct_predictions + 1;
        }
        let new_state = local_state.update(taken);
        self.branch_history_table.insert(pc, new_state);
        let bit: u8 = if taken { 1 } else { 0 };
        let gh = self.global_history;
        let h = ((gh << 1u8) | bit) & 0xF;
        assert(h < 16) by (bit_vector)
            requires
                h == ((gh << 1u8) | bit) & 0xF,
        ;
        self.global_history = h;
        let index = h as usize;
        let updated = self.global_predictor[index].update(taken);
        self.global_predictor[index] = updated;
    }

    /// The recorded target of the branch at `pc`.
    pub fn get_target(&self, pc: u32) -> (r: Option<u32>)
        ensures
            r == if self.targets().contains_key(pc) {
                Some(self.targets()[pc])
            } else {
                None
            },
    {
        broadcast use vstd::std_specs::hash::group_hash_axioms;
        match self.branch_target_buffer.get(&pc) {
            Some(t) => Some(*t),
            None => None,
        }
    }

    /// The number of predictions made.
    pub fn get_predictions(&self) -> (r: usize)
        ensures
            r == self.prediction_count(),
    {
        self.predictions
    }

    /// The number of outcomes the branch's own counter predicted.
    pub fn get_correct_predictions(&self) -> (r: usize)
        ensures
            r == self.correct_count(),
    {
        self.correct_predictions
    }
}

} // verus!
