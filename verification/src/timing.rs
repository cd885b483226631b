//! When to fire, how to wait for it, and how to wait for a receipt.

use vstd::prelude::*;

use crate::chain::{ChainError, TransactionReceipt};
use crate::hexdata::{fixed_bytes, B256};

verus! {

/// When the stage opens, in milliseconds since the epoch; the greatest number of 64 bits where it
/// opens later than that.
pub open spec fn stage_millis(start_time: u64) -> i64 {
    if start_time * 1000 <= i64::MAX {
        (start_time * 1000) as i64
    } else {
        i64::MAX
    }
}

/// Brings the opening of the stage to milliseconds.
pub fn stage_start_millis(start_time: u64) -> (millis: i64)
    ensures
        millis == stage_millis(start_time),
        millis >= 0,
{
    if start_time <= 9_223_372_036_854_775 {
        (start_time * 1000) as i64
    } else {
        i64::MAX
    }
}

/// How much earlier to fire; at most the greatest number of 64 bits.
pub open spec fn lead_millis(early_fire_ms: u64) -> i64 {
    if early_fire_ms <= i64::MAX {
        early_fire_ms as i64
    } else {
        i64::MAX
    }
}

/// When to fire, in milliseconds since the epoch.
pub open spec fn fire_millis(start_time: u64, early_fire_ms: u64) -> int {
    stage_millis(start_time) - lead_millis(early_fire_ms)
}

/// Settles when to fire: when the stage opens, or so much earlier.
pub fn fire_time(start_time: u64, early_fire_ms: u64) -> (millis: i64)
    ensures
        millis == fire_millis(start_time, early_fire_ms),
        start_time * 1000 <= i64::MAX && early_fire_ms <= i64::MAX ==> millis + early_fire_ms
            == start_time * 1000,
{
    let lead: i64 = if early_fire_ms <= i64::MAX as u64 {
        early_fire_ms as i64
    } else {
        i64::MAX
    };
    stage_start_millis(start_time) - lead
}

/// How to go on once everything is signed.
#[derive(Clone, Copy, Debug, PartialEq, Eq, Structural)]
pub enum Launch {
    /// Wait for the stage.
    AwaitStage,
    /// Wait for the early moment, although told to fire now.
    AwaitEarlyWindow,
    /// Dispatch at once.
    Immediately,
}

/// Whether there is anything to wait for.
pub open spec fn launch_at(fire_now: bool, early_fire_ms: u64, fire_time: i64, now: i64) -> Launch {
    if fire_time <= now {
        Launch::Immediately
    } else if !fire_now {
        Launch::AwaitStage
    } else if early_fire_ms > 0 {
        Launch::AwaitEarlyWindow
    } else {
        Launch::Immediately
    }
}

/// Settles whether there is anything to wait for.
pub fn choose_launch(fire_now: bool, early_fire_ms: u64, fire_time: i64, now: i64) -> (launch: Launch)
    ensures
        launch == launch_at(fire_now, early_fire_ms, fire_time, now),
{
    if !fire_now && fire_time > now {
        Launch::AwaitStage
    } else if early_fire_ms > 0 && fire_time > now {
        Launch::AwaitEarlyWindow
    } else {
        Launch::Immediately
    }
}

/// Without being told to fire now, nothing is dispatched at once before its time.
pub proof fn law_nothing_fires_early(early_fire_ms: u64, fire_time: i64, now: i64)
    ensures
        launch_at(false, early_fire_ms, fire_time, now) == Launch::Immediately <==> fire_time <= now,
{
}

/// How far behind `start` the moment `now` lies; nothing where it lies before.
pub open spec fn past(now: i64, start: i64) -> int {
    if now > start {
        now - start
    } else {
        0
    }
}

/// How long after the opening of the stage it is; nothing before it.
pub fn since_stage(now: i64, stage_start: i64) -> (millis: i64)
    requires
        now >= 0,
        stage_start >= 0,
    ensures
        millis == past(now, stage_start),
{
    if now > stage_start {
        now - stage_start
    } else {
        0
    }
}

/// How far the wait is.
#[derive(Clone, Copy, Debug, PartialEq, Eq, Structural)]
pub enum WaitPhase {
    /// Nothing has been said yet.
    Begin,
    /// The moment is far away: count down.
    Countdown,
    /// The moment is near: no more sleep.
    Spin,
}

/// What to do before the next look at the clock.
#[derive(Clone, Copy, Debug, PartialEq, Eq, Structural)]
pub enum WaitAction {
    /// Announce the countdown, with that many seconds left.
    Announce {
        /// The seconds.
        seconds: u64,
    },
    /// Tell that many seconds are left, and sleep for a second.
    Tick {
        /// The seconds.
        seconds: u64,
    },
    /// Sleep that many milliseconds.
    Sleep {
        /// The milliseconds.
        millis: u64,
    },
    /// Look again at once.
    Spin,
    /// Fire. Where there never was anything to wait for, without a word.
    Fire {
        /// Was anything announced?
        announced: bool,
    },
}

/// How one look at the clock changes the wait.
pub open spec fn next_wait(phase: WaitPhase, fire_time: i64, now: i64) -> (WaitPhase, WaitAction) {
    let remaining = fire_time - now;
    if phase == WaitPhase::Begin {
        if remaining <= 0 {
            (WaitPhase::Spin, WaitAction::Fire { announced: false })
        } else {
            (WaitPhase::Countdown, WaitAction::Announce { seconds: (remaining / 1000) as u64 })
        }
    } else if phase == WaitPhase::Countdown && remaining > 10_000 {
        (WaitPhase::Countdown, WaitAction::Tick { seconds: (remaining / 1000) as u64 })
    } else if phase == WaitPhase::Countdown && remaining > 100 {
        (WaitPhase::Spin, WaitAction::Sleep { millis: (remaining - 100) as u64 })
    } else if remaining > 0 {
        (WaitPhase::Spin, WaitAction::Spin)
    } else {
        (WaitPhase::Spin, WaitAction::Fire { announced: true })
    }
}

/// Takes one look at the clock: a countdown while the moment is far away, one last sleep up to a
/// tenth of a second before it, and then no sleep at all.
pub fn wait_until_fire(phase: WaitPhase, fire_time: i64, now: i64) -> (step: (WaitPhase, WaitAction))
    requires
        now >= 0,
    ensures
        step == next_wait(phase, fire_time, now),
{
    let remaining: i64 = if fire_time > now {
        fire_time - now
    } else {
        0
    };
    match phase {
        WaitPhase::Begin => {
            if remaining <= 0 {
                (WaitPhase::Spin, WaitAction::Fire { announced: false })
            } else {
                let seconds: u64 = (remaining / 1000) as u64;
                (WaitPhase::Countdown, WaitAction::Announce { seconds })
            }
        },
        WaitPhase::Countdown => {
            if remaining > 10_000 {
                let seconds: u64 = (remaining / 1000) as u64;
                (WaitPhase::Countdown, WaitAction::Tick { seconds })
            } else if remaining > 100 {
                let millis: u64 = (remaining - 100) as u64;
                (WaitPhase::Spin, WaitAction::Sleep { millis })
            } else if remaining > 0 {
                (WaitPhase::Spin, WaitAction::Spin)
            } else {
                (WaitPhase::Spin, WaitAction::Fire { announced: true })
            }
        },
        WaitPhase::Spin => {
            if remaining > 0 {
                (WaitPhase::Spin, WaitAction::Spin)
            } else {
                (WaitPhase::Spin, WaitAction::Fire { announced: true })
            }
        },
    }
}

/// The wait never ends before its moment and never goes on once it is there: a look at the clock
/// fires exactly where the moment has come.
pub proof fn law_fires_exactly_when_due(phase: WaitPhase, fire_time: i64, now: i64)
    ensures
        next_wait(phase, fire_time, now).1 is Fire <==> now >= fire_time,
{
}

/// No sleep reaches the moment: a tenth of a second is always left to look at the clock.
pub proof fn law_sleep_stops_short(phase: WaitPhase, fire_time: i64, now: i64)
    requires
        now >= 0,
    ensures
        next_wait(phase, fire_time, now).1 matches WaitAction::Sleep { millis } ==> now + millis
            == fire_time - 100,
        next_wait(phase, fire_time, now).1 is Tick ==> now + 1000 < fire_time - 100,
{
}

/// Once the last sleep is over, nothing but looking at the clock is left.
pub proof fn law_spin_never_sleeps(fire_time: i64, now: i64)
    ensures
        next_wait(WaitPhase::Spin, fire_time, now).0 == WaitPhase::Spin,
        next_wait(WaitPhase::Spin, fire_time, now).1 is Spin || next_wait(
            WaitPhase::Spin,
            fire_time,
            now,
        ).1 is Fire,
{
}

/// How long to wait for a receipt, in milliseconds.
pub const RECEIPT_TIMEOUT_MS: u64 = 60_000;

/// The first pause between two questions for a receipt, in milliseconds.
pub const FIRST_DELAY_MS: u64 = 250;

/// The longest pause, in milliseconds.
pub const LONGEST_DELAY_MS: u64 = 2_000;

/// What to do after one question for a receipt.
#[derive(Debug)]
pub enum ReceiptStep {
    /// There it is.
    Found(TransactionReceipt),
    /// It did not come in time.
    TimedOut,
    /// The read failed.
    Failed(ChainError),
    /// Pause, then ask again.
    Retry {
        /// The pause.
        pause_ms: u64,
        /// The pause after the next question.
        next_delay_ms: u64,
    },
}

/// Twice the pause, up to the longest one.
pub open spec fn longer_delay(delay_ms: u64) -> u64 {
    if delay_ms * 2 < LONGEST_DELAY_MS {
        (delay_ms * 2) as u64
    } else {
        LONGEST_DELAY_MS
    }
}

/// The hash to ask for; nothing is asked where the text is no hash.
pub fn receipt_hash(tx_hash: &str) -> (hash: Option<B256>)
    ensures
        hash matches Some(h) ==> fixed_bytes(tx_hash@, 32) == Some(h@),
        hash is None <==> fixed_bytes(tx_hash@, 32) is None,
{
    B256::parse(tx_hash)
}

/// What follows one answer to the question for a receipt.
pub open spec fn receipt_step(
    answer: Result<Option<TransactionReceipt>, ChainError>,
    elapsed_ms: u64,
    delay_ms: u64,
) -> ReceiptStep {
    match answer {
        Ok(Some(receipt)) => ReceiptStep::Found(receipt),
        Err(ChainError::Failed(text)) => ReceiptStep::Failed(ChainError::Failed(text)),
        _ => if elapsed_ms >= RECEIPT_TIMEOUT_MS {
            ReceiptStep::TimedOut
        } else {
            ReceiptStep::Retry { pause_ms: delay_ms, next_delay_ms: longer_delay(delay_ms) }
        },
    }
}

/// Goes on from one answer to the question for a receipt, `elapsed_ms` after the first question. A
/// rate limit counts as no receipt yet.
pub fn wait_for_receipt(
    answer: Result<Option<TransactionReceipt>, ChainError>,
    elapsed_ms: u64,
    delay_ms: u64,
) -> (step: ReceiptStep)
    ensures
        step == receipt_step(answer, elapsed_ms, delay_ms),
{
    match answer {
        Ok(Some(receipt)) => ReceiptStep::Found(receipt),
        Err(ChainError::Failed(text)) => ReceiptStep::Failed(ChainError::Failed(text)),
        _ => {
            if elapsed_ms >= RECEIPT_TIMEOUT_MS {
                ReceiptStep::TimedOut
            } else {
                let next_delay_ms: u64 = if delay_ms < 1_000 {
                    delay_ms * 2
                } else {
                    LONGEST_DELAY_MS
                };
                ReceiptStep::Retry { pause_ms: delay_ms, next_delay_ms }
            }
        },
    }
}

/// The pause after that many questions.
pub open spec fn delay_after(questions: nat) -> u64
    decreases questions,
{
    if questions == 0 {
        FIRST_DELAY_MS
    } else {
        longer_delay(delay_after((questions - 1) as nat))
    }
}

/// The pauses are a quarter, a half and one second, and two seconds from then on.
pub proof fn law_receipt_delays(questions: nat)
    ensures
        delay_after(questions) == (if questions == 0 {
            250u64
        } else if questions == 1 {
            500u64
        } else if questions == 2 {
            1_000u64
        } else {
            2_000u64
        }),
    decreases questions,
{
    if questions > 0 {
        law_receipt_delays((questions - 1) as nat);
    }
}

/// The moment follows from the stage and the lead: so many milliseconds later, the stage opens.
pub proof fn law_fire_time_plus_lead_is_the_stage(start_time: u64, early_fire_ms: u64)
    requires
        start_time * 1000 <= i64::MAX,
        early_fire_ms <= i64::MAX,
    ensures
        fire_millis(start_time, early_fire_ms) + early_fire_ms == start_time * 1000,
{
}

/// Beyond 64 bits with sign, the stage and the lead count as the greatest number.
pub proof fn law_fire_time_of_extremes(start_time: u64, early_fire_ms: u64)
    ensures
        start_time * 1000 > i64::MAX ==> stage_millis(start_time) == i64::MAX,
        start_time * 1000 <= i64::MAX ==> stage_millis(start_time) == start_time * 1000,
        early_fire_ms > i64::MAX ==> fire_millis(start_time, early_fire_ms) + i64::MAX
            == stage_millis(start_time),
        early_fire_ms <= i64::MAX ==> fire_millis(start_time, early_fire_ms) + early_fire_ms
            == stage_millis(start_time),
{
}

/// A greater lead fires earlier by exactly the difference, and a later stage later by exactly the
/// difference.
pub proof fn law_fire_time_moves_with_both(start_time: u64, early_fire_ms: u64, later: u64, more: u64)
    requires
        (start_time + later) * 1000 <= i64::MAX,
        early_fire_ms + more <= i64::MAX,
    ensures
        fire_millis((start_time + later) as u64, early_fire_ms) == fire_millis(
            start_time,
            early_fire_ms,
        ) + later * 1000,
        fire_millis(start_time, (early_fire_ms + more) as u64) == fire_millis(
            start_time,
            early_fire_ms,
        ) - more,
{
}

/// How to launch: at once where the moment has come, or on the order to fire now without a lead;
/// otherwise there is something to wait for, and the order to fire now only changes its name.
pub proof fn law_launch(fire_now: bool, early_fire_ms: u64, fire_time: i64, now: i64)
    ensures
        launch_at(fire_now, early_fire_ms, fire_time, now) is Immediately <==> now >= fire_time || (
        fire_now && early_fire_ms == 0),
        launch_at(fire_now, early_fire_ms, fire_time, now) is AwaitStage <==> now < fire_time
            && !fire_now,
        launch_at(fire_now, early_fire_ms, fire_time, now) is AwaitEarlyWindow <==> now < fire_time
            && fire_now && early_fire_ms > 0,
{
}

/// What a look at the clock asks for while the moment has not come: an announcement first; then one
/// second at a time while more than ten are left; then one sleep; and then only looking.
pub proof fn law_wait_actions(phase: WaitPhase, fire_time: i64, now: i64)
    requires
        now >= 0,
        now < fire_time,
    ensures
        ({
            let (next, action) = next_wait(phase, fire_time, now);
            let left = fire_time - now;
            &&& phase is Begin ==> next is Countdown && (action matches WaitAction::Announce {
                seconds,
            } && seconds == left / 1000)
            &&& phase is Countdown && left > 10_000 ==> next is Countdown && (
            action matches WaitAction::Tick { seconds } && seconds == left / 1000)
            &&& phase is Countdown && 100 < left <= 10_000 ==> next is Spin && (
            action matches WaitAction::Sleep { millis } && millis == left - 100)
            &&& phase is Countdown && left <= 100 ==> next is Spin && action is Spin
            &&& phase is Spin ==> next is Spin && action is Spin
        }),
{
}

/// A wait that was announced says so when it fires, and one that was never needed does not.
pub proof fn law_firing_is_announced(phase: WaitPhase, fire_time: i64, now: i64)
    requires
        now >= fire_time,
    ensures
        next_wait(phase, fire_time, now).1 matches WaitAction::Fire { announced } && (announced
            <==> !(phase is Begin)),
{
}

/// A receipt ends the wait whenever it comes, and so does a failed read; no receipt yet, or a rate
/// limit, ends it after a minute and not before. Each pause is twice the one before, up to two
/// seconds.
pub proof fn law_receipt_steps(
    receipt: TransactionReceipt,
    text: String,
    elapsed_ms: u64,
    delay_ms: u64,
)
    ensures
        receipt_step(Ok(Some(receipt)), elapsed_ms, delay_ms) == ReceiptStep::Found(receipt),
        receipt_step(Err(ChainError::Failed(text)), elapsed_ms, delay_ms) == ReceiptStep::Failed(
            ChainError::Failed(text),
        ),
        receipt_step(Err(ChainError::RateLimited(text)), elapsed_ms, delay_ms) == receipt_step(
            Ok(None),
            elapsed_ms,
            delay_ms,
        ),
        receipt_step(Ok(None), elapsed_ms, delay_ms) is TimedOut <==> elapsed_ms >= 60_000,
        elapsed_ms < 60_000 ==> (receipt_step(Ok(None), elapsed_ms, delay_ms) matches
            ReceiptStep::Retry { pause_ms, next_delay_ms } && pause_ms == delay_ms && (
        delay_ms <= 1_000 ==> next_delay_ms == 2 * delay_ms) && (delay_ms > 1_000 ==> next_delay_ms
            == 2_000)),
        delay_after(0) == 250,
{
}

/// The time since the opening is never negative, and from the opening on it leads from there to now.
pub proof fn law_time_since_the_stage(now: i64, start: i64)
    ensures
        past(now, start) >= 0,
        now >= start ==> start + past(now, start) == now,
        now <= start ==> past(now, start) == 0,
{
}

} // verus!
