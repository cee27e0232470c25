//! The countdown as a state machine.
//!
//! A countdown is either counting or expired. [`Countdown::step`] says what
//! the program does next and what the countdown is after that; the program
//! does it and asks again. While more than one step of time is left, the next
//! thing is a tick: sleep one step, then draw what is left. The last stretch,
//! one step at most, is slept without another frame, and the alert follows.
//! From then on the countdown is expired, no time is left, and there are only
//! reminders, if any were asked for.

use crate::bar::{fill_cells, lemma_fill_cells_ends, lemma_fill_cells_monotonic};
use vstd::prelude::*;

verus! {

/// The time between two frames, in milliseconds.
pub const TIME_STEP: u64 = 1_000;

/// The two states of a countdown.
#[derive(Clone, Copy, Debug, PartialEq, Eq, Structural)]
pub enum Phase {
    Counting,
    Expired,
}

/// What the program does next. All times are milliseconds.
#[derive(Clone, Copy, Debug, PartialEq, Eq)]
pub enum Action {
    /// Sleep one step, then draw the frame for the time that is left then.
    Tick,
    /// Sleep `wait`, then show the first notification, and print it on the
    /// console under its title.
    Alert { wait: u64 },
    /// Sleep `wait`, then show the notification again, and print nothing.
    Remind { wait: u64 },
    /// Nothing is left to do.
    Stop,
}

/// A countdown in progress. All times are milliseconds.
#[derive(Clone, Copy, Debug, PartialEq, Eq)]
pub struct Countdown {
    /// The time that was asked for.
    pub total: u64,
    /// The time that is left of it.
    pub remaining: u64,
    /// The time between reminders, if any are wanted.
    pub reminder: Option<u64>,
    /// Whether the time is over.
    pub phase: Phase,
}

impl Countdown {
    /// No more is left than was asked for, and nothing once the time is over.
    pub open spec fn well_formed(self) -> bool {
        &&& self.remaining <= self.total
        &&& self.phase == Phase::Expired ==> self.remaining == 0
    }

    /// The countdown at its start.
    pub open spec fn started(duration: u64, reminder: Option<u64>) -> Countdown {
        Countdown { total: duration, remaining: duration, reminder, phase: Phase::Counting }
    }

    /// What the program does next.
    pub open spec fn next_action(self) -> Action {
        match self.phase {
            Phase::Counting => if self.remaining > TIME_STEP {
                Action::Tick
            } else {
                Action::Alert { wait: self.remaining }
            },
            Phase::Expired => match self.reminder {
                Some(wait) => Action::Remind { wait },
                None => Action::Stop,
            },
        }
    }

    /// The countdown after the program has done that.
    pub open spec fn next_state(self) -> Countdown {
        match self.phase {
            Phase::Counting => if self.remaining > TIME_STEP {
                Countdown { remaining: (self.remaining - TIME_STEP) as u64, ..self }
            } else {
                Countdown { remaining: 0, phase: Phase::Expired, ..self }
            },
            Phase::Expired => Countdown { remaining: 0, ..self },
        }
    }

    /// The time that `action` takes.
    pub open spec fn time_of(action: Action) -> nat {
        match action {
            Action::Tick => TIME_STEP as nat,
            Action::Alert { wait } => wait as nat,
            Action::Remind { wait } => wait as nat,
            Action::Stop => 0,
        }
    }

    /// The countdown after `n` steps.
    pub open spec fn after(self, n: nat) -> Countdown
        decreases n,
    {
        if n == 0 {
            self
        } else {
            self.after((n - 1) as nat).next_state()
        }
    }

    /// The time that the first `n` steps take.
    pub open spec fn time_spent(self, n: nat) -> nat
        decreases n,
    {
        if n == 0 {
            0
        } else {
            self.time_spent((n - 1) as nat) + Self::time_of(
                self.after((n - 1) as nat).next_action(),
            )
        }
    }

    /// The ticks before the alert: the whole steps in the time that is left,
    /// but for the last stretch.
    pub open spec fn ticks(self) -> nat {
        if self.remaining > TIME_STEP {
            ((self.remaining - 1) / (TIME_STEP as int)) as nat
        } else {
            0
        }
    }

    /// The countdown of `duration` at its start, with reminders every
    /// `reminder` after it, if any are wanted.
    pub fn new(duration: u64, reminder: Option<u64>) -> (r: Countdown)
        ensures
            r == Self::started(duration, reminder),
            r.well_formed(),
    {
        Countdown { total: duration, remaining: duration, reminder, phase: Phase::Counting }
    }

    /// What the program does next, and the countdown after that.
    pub fn step(self) -> (r: (Countdown, Action))
        ensures
            r.0 == self.next_state(),
            r.1 == self.next_action(),
    {
        match self.phase {
            Phase::Counting => {
                if self.remaining > TIME_STEP {
                    (
                        Countdown {
                            total: self.total,
                            remaining: self.remaining - TIME_STEP,
                            reminder: self.reminder,
                            phase: Phase::Counting,
                        },
                        Action::Tick,
                    )
                } else {
                    (
                        Countdown {
                            total: self.total,
                            remaining: 0,
                            reminder: self.reminder,
                            phase: Phase::Expired,
                        },
                        Action::Alert { wait: self.remaining },
                    )
                }
            },
            Phase::Expired => {
                let action: Action = match self.reminder {
                    Some(wait) => Action::Remind { wait },
                    None => Action::Stop,
                };
                (
                    Countdown {
                        total: self.total,
                        remaining: 0,
                        reminder: self.reminder,
                        phase: Phase::Expired,
                    },
                    action,
                )
            },
        }
    }
}

/// A step keeps what was asked for and leaves a well-formed countdown
/// well-formed; the time that is left never grows, and neither does the bar,
/// whatever its width.
pub proof fn lemma_step_never_grows(c: Countdown, width: nat)
    requires
        c.well_formed(),
    ensures
        c.next_state().well_formed(),
        c.next_state().total == c.total,
        c.next_state().reminder == c.reminder,
        c.next_state().remaining <= c.remaining,
        fill_cells(c.next_state().remaining as nat, c.total as nat, width) <= fill_cells(
            c.remaining as nat,
            c.total as nat,
            width,
        ),
{
    lemma_fill_cells_monotonic(
        c.remaining as nat,
        c.next_state().remaining as nat,
        c.total as nat,
        width,
    );
}

/// Over any number of steps the time that is left never grows, and neither
/// does the bar: a later frame is filled no further than an earlier one.
pub proof fn lemma_later_is_never_more(c: Countdown, earlier: nat, later: nat, width: nat)
    requires
        c.well_formed(),
        earlier <= later,
    ensures
        c.after(later).well_formed(),
        c.after(later).total == c.total,
        c.after(later).reminder == c.reminder,
        c.after(later).remaining <= c.after(earlier).remaining,
        fill_cells(c.after(later).remaining as nat, c.total as nat, width) <= fill_cells(
            c.after(earlier).remaining as nat,
            c.total as nat,
            width,
        ),
    decreases later,
{
    if later == 0 {
    } else {
        let before = (later - 1) as nat;
        lemma_later_is_never_more(c, 0, before, width);
        lemma_step_never_grows(c.after(before), width);
        if earlier < later {
            lemma_later_is_never_more(c, earlier, before, width);
        }
    }
}

/// While it counts, the countdown loses one step of time with every tick.
pub proof fn lemma_ticks_count_down(c: Countdown, n: nat)
    requires
        c.phase == Phase::Counting,
        n <= c.ticks(),
    ensures
        c.after(n) == (Countdown { remaining: (c.remaining - n * TIME_STEP) as u64, ..c }),
        c.remaining - n * TIME_STEP >= 0,
        n < c.ticks() ==> c.after(n).next_action() == Action::Tick,
        n == c.ticks() ==> c.after(n).next_action() == (Action::Alert {
            wait: (c.remaining - n * TIME_STEP) as u64,
        }),
        c.time_spent(n) == n * TIME_STEP,
    decreases n,
{
    if n > 0 {
        lemma_ticks_count_down(c, (n - 1) as nat);
    }
}

/// Every countdown expires: after its ticks and the last stretch the time
/// that was left has been slept, to the millisecond, no time is left, and the
/// bar is empty.
pub proof fn lemma_countdown_expires(c: Countdown, width: nat)
    requires
        c.phase == Phase::Counting,
    ensures
        c.after(c.ticks() + 1).phase == Phase::Expired,
        c.after(c.ticks() + 1).remaining == 0,
        c.time_spent(c.ticks() + 1) == c.remaining,
        fill_cells(c.after(c.ticks() + 1).remaining as nat, c.total as nat, width) == 0,
{
    lemma_ticks_count_down(c, c.ticks());
    lemma_fill_cells_ends(0, c.total as nat, width);
    assert(c.after(c.ticks() + 1) == c.after(c.ticks()).next_state());
    assert(c.time_spent(c.ticks() + 1) == c.time_spent(c.ticks()) + Countdown::time_of(
        c.after(c.ticks()).next_action(),
    ));
}

/// Once expired, a countdown stays expired with no time left, and all that
/// follows is the reminder at its interval, or nothing.
pub proof fn lemma_expired_stays(c: Countdown, n: nat)
    requires
        c.phase == Phase::Expired,
    ensures
        c.after(n).phase == Phase::Expired,
        c.after(n).reminder == c.reminder,
        n > 0 ==> c.after(n).remaining == 0,
        c.reminder matches Some(wait) ==> c.after(n).next_action() == (Action::Remind { wait }),
        c.reminder is None ==> c.after(n).next_action() == Action::Stop,
    decreases n,
{
    if n > 0 {
        lemma_expired_stays(c, (n - 1) as nat);
    }
}

} // verus!
