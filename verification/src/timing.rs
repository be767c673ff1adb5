use vstd::prelude::*;

verus! {

/// Instructions to run per second.
pub const OP_PER_SECOND: u64 = 700;

/// The number of host loop turns from one instruction to the next.
pub const OP_TRIGGER_VAL: u64 = 10000 / OP_PER_SECOND;

/// The number of host loop turns from one timer tick to the next.
pub const TIMER_TRIGGER_VAL: u64 = 10000 / 60;

/// What is due in one turn of the host loop.
#[derive(Copy, Clone, Debug, PartialEq, Eq, Structural)]
pub struct Due {
    /// An instruction cycle is to be run.
    pub instruction: bool,
    /// The timers are to be ticked.
    pub timers: bool,
}

/// The two countdowns that pace instructions and timer ticks against the
/// turns of the host loop.
#[derive(Copy, Clone, Debug, PartialEq, Eq, Structural)]
pub struct Pacer {
    /// Turns left before the next instruction.
    pub op_trigger: u64,
    /// Turns left before the next timer tick.
    pub timer_trigger: u64,
}

/// A countdown after one turn: restarted from `period` if it had run out,
/// then one less.
pub open spec fn turned(trigger: u64, period: u64) -> int {
    if trigger == 0 {
        period - 1
    } else {
        trigger - 1
    }
}

impl Pacer {
    /// Both countdowns at the start of their period.
    pub fn new() -> (pacer: Pacer)
        ensures
            pacer.op_trigger == OP_TRIGGER_VAL,
            pacer.timer_trigger == TIMER_TRIGGER_VAL,
    {
        Pacer { op_trigger: OP_TRIGGER_VAL, timer_trigger: TIMER_TRIGGER_VAL }
    }

    /// Takes one turn of the host loop: says what is due in it, restarts
    /// the countdowns that have run out, and counts both down by one.
    pub fn turn(&mut self) -> (due: Due)
        ensures
            due.instruction == (old(self).op_trigger == 0),
            due.timers == (old(self).timer_trigger == 0),
            final(self).op_trigger == turned(old(self).op_trigger, OP_TRIGGER_VAL),
            final(self).timer_trigger == turned(old(self).timer_trigger, TIMER_TRIGGER_VAL),
    {
        let due = Due { instruction: self.op_trigger == 0, timers: self.timer_trigger == 0 };
        if due.instruction {
            self.op_trigger = OP_TRIGGER_VAL;
        }
        if due.timers {
            self.timer_trigger = TIMER_TRIGGER_VAL;
        }
        self.timer_trigger -= 1;
        self.op_trigger -= 1;
        due
    }
}

} // verus!
