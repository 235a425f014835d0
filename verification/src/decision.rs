//! Whether a failed run is healed: the rules that keep the loop from running away.
//!
//! A heal re-run is never healed, a source is healed a bounded number of times, two
//! heals of a source keep a distance that grows with their number, and once the bound
//! is reached the source is given up for good. The rules are stated here on one
//! failure and, as laws, on any sequence of failures.

use vstd::prelude::*;

use crate::contracts::HEAL_PREFIX;
use crate::text::has_prefix;

verus! {

/// The bounds that a decision goes by.
#[derive(Debug, Clone, Copy, PartialEq, Eq)]
pub struct HealConfig {
    pub max_attempts: u32,
    pub cooldown_secs: i64,
}

/// What is on record about the heals of one source.
#[derive(Debug, Clone, Copy, PartialEq, Eq)]
pub struct HealAttempt {
    pub count: u32,
    /// Unix milliseconds of the last heal.
    pub last_at: i64,
    pub given_up: bool,
}

/// The record of a source that was never healed.
pub open spec fn no_attempt() -> HealAttempt {
    HealAttempt { count: 0, last_at: 0, given_up: false }
}

impl Default for HealAttempt {
    fn default() -> (attempt: HealAttempt)
        ensures
            attempt == no_attempt(),
    {
        HealAttempt { count: 0, last_at: 0, given_up: false }
    }
}

/// What to do about a failed run.
#[derive(Debug, Clone, PartialEq, Eq)]
pub enum HealDecision {
    /// Nothing; the reason is for the log.
    Skip(&'static str),
    /// Diagnose it, and propose or apply a fix.
    Heal,
    /// The bound is reached: escalate once, and stop.
    GiveUp,
}

/// The `i64` nearest to `n`.
pub open spec fn saturated(n: int) -> int {
    if n > i64::MAX {
        i64::MAX as int
    } else if n < i64::MIN {
        i64::MIN as int
    } else {
        n
    }
}

fn saturate(n: i128) -> (s: i64)
    ensures
        s == saturated(n as int),
{
    if n > i64::MAX as i128 {
        i64::MAX
    } else if n < i64::MIN as i128 {
        i64::MIN
    } else {
        n as i64
    }
}

/// How long, in milliseconds, a source rests after its heal number `count`. The
/// window grows with the count, so that rapid failures back off.
pub open spec fn cooldown_ms(cfg: HealConfig, count: u32) -> int {
    let factor = if count >= 1 {
        count as int
    } else {
        1
    };
    saturated(saturated(cfg.cooldown_secs * 1000) * factor)
}

/// The decision about a failure of the run `id` at `now_ms`, where `attempt` is what is
/// on record about it.
pub open spec fn decision(
    id: Seq<char>,
    attempt: Option<HealAttempt>,
    cfg: HealConfig,
    now_ms: i64,
) -> HealDecision {
    if HEAL_PREFIX@.is_prefix_of(id) {
        HealDecision::Skip("heal-run (never heal a heal)")
    } else {
        match attempt {
            None => HealDecision::Heal,
            Some(a) => if a.given_up {
                HealDecision::Skip("already given up")
            } else if a.count >= cfg.max_attempts {
                HealDecision::GiveUp
            } else if saturated(now_ms - a.last_at) < cooldown_ms(cfg, a.count) {
                HealDecision::Skip("within cooldown window")
            } else {
                HealDecision::Heal
            },
        }
    }
}

/// The record behind an optional reference.
pub open spec fn attempt_value(attempt: Option<&HealAttempt>) -> Option<HealAttempt> {
    match attempt {
        Some(a) => Some(*a),
        None => None,
    }
}

/// Decides whether to heal a failed run.
pub fn decide_heal(
    conversation_id: &str,
    attempt: Option<&HealAttempt>,
    cfg: &HealConfig,
    now_ms: i64,
) -> (answer: HealDecision)
    ensures
        answer == decision(conversation_id@, attempt_value(attempt), *cfg, now_ms),
{
    if has_prefix(conversation_id, HEAL_PREFIX) {
        return HealDecision::Skip("heal-run (never heal a heal)");
    }
    match attempt {
        None => HealDecision::Heal,
        Some(a) => {
            if a.given_up {
                HealDecision::Skip("already given up")
            } else if a.count >= cfg.max_attempts {
                HealDecision::GiveUp
            } else {
                let factor: u32 = if a.count >= 1 {
                    a.count
                } else {
                    1
                };
                let base: i64 = saturate(cfg.cooldown_secs as i128 * 1000);
                assert(i64::MIN * (u32::MAX as int) <= base * factor <= i64::MAX * (u32::MAX as int))
                    by (nonlinear_arith)
                    requires
                        i64::MIN <= base <= i64::MAX,
                        1 <= factor <= u32::MAX,
                ;
                let window: i64 = saturate(base as i128 * factor as i128);
                if saturate(now_ms as i128 - a.last_at as i128) < window {
                    HealDecision::Skip("within cooldown window")
                } else {
                    HealDecision::Heal
                }
            }
        },
    }
}

// ---------------------------------------------------------------------------
// The record of all sources
// ---------------------------------------------------------------------------

/// What a book says about a source.
pub open spec fn attempt_on(book: Map<Seq<char>, HealAttempt>, id: Seq<char>) -> Option<
    HealAttempt,
> {
    if book.contains_key(id) {
        Some(book[id])
    } else {
        None
    }
}

/// What a book says about a source, a source without a record counting as new.
pub open spec fn attempt_or_none(book: Map<Seq<char>, HealAttempt>, id: Seq<char>) -> HealAttempt {
    if book.contains_key(id) {
        book[id]
    } else {
        no_attempt()
    }
}

/// The book after a decision about the source `id`: a heal counts and is dated before
/// anything else is done about it, a give-up is final, and a skip leaves no trace.
pub open spec fn recorded(
    book: Map<Seq<char>, HealAttempt>,
    id: Seq<char>,
    answer: HealDecision,
    now_ms: i64,
) -> Map<Seq<char>, HealAttempt> {
    let before = attempt_or_none(book, id);
    match answer {
        HealDecision::Heal => book.insert(
            id,
            HealAttempt { count: (before.count + 1) as u32, last_at: now_ms, ..before },
        ),
        HealDecision::GiveUp => book.insert(id, HealAttempt { given_up: true, ..before }),
        HealDecision::Skip(_) => book,
    }
}

/// A failed run as the rules see it.
pub struct Failure {
    pub id: Seq<char>,
    pub cfg: HealConfig,
    pub now_ms: i64,
}

/// The decision about a failure, given the book.
pub open spec fn decision_on(book: Map<Seq<char>, HealAttempt>, f: Failure) -> HealDecision {
    decision(f.id, attempt_on(book, f.id), f.cfg, f.now_ms)
}

/// The book after a failure.
pub open spec fn book_after(book: Map<Seq<char>, HealAttempt>, f: Failure) -> Map<
    Seq<char>,
    HealAttempt,
> {
    recorded(book, f.id, decision_on(book, f), f.now_ms)
}

/// The book after a sequence of failures.
pub open spec fn book_after_all(
    book: Map<Seq<char>, HealAttempt>,
    failures: Seq<Failure>,
) -> Map<Seq<char>, HealAttempt>
    decreases failures.len(),
{
    if failures.len() == 0 {
        book
    } else {
        book_after_all(book_after(book, failures.first()), failures.drop_first())
    }
}

/// How often a sequence of failures has the source `id` healed.
pub open spec fn heals(
    book: Map<Seq<char>, HealAttempt>,
    failures: Seq<Failure>,
    id: Seq<char>,
) -> nat
    decreases failures.len(),
{
    if failures.len() == 0 {
        0
    } else {
        let f = failures.first();
        let here: nat = if f.id == id && decision_on(book, f) == HealDecision::Heal {
            1
        } else {
            0
        };
        here + heals(book_after(book, f), failures.drop_first(), id)
    }
}

/// How often a sequence of failures has the source `id` given up.
pub open spec fn give_ups(
    book: Map<Seq<char>, HealAttempt>,
    failures: Seq<Failure>,
    id: Seq<char>,
) -> nat
    decreases failures.len(),
{
    if failures.len() == 0 {
        0
    } else {
        let f = failures.first();
        let here: nat = if f.id == id && decision_on(book, f) == HealDecision::GiveUp {
            1
        } else {
            0
        };
        here + give_ups(book_after(book, f), failures.drop_first(), id)
    }
}

// ---------------------------------------------------------------------------
// Laws
// ---------------------------------------------------------------------------

/// A heal re-run is never healed and never escalated, whatever is on record.
pub proof fn law_never_heals_a_heal(
    id: Seq<char>,
    attempt: Option<HealAttempt>,
    cfg: HealConfig,
    now_ms: i64,
)
    requires
        HEAL_PREFIX@.is_prefix_of(id),
    ensures
        decision(id, attempt, cfg, now_ms) is Skip,
{
}

/// The first failure of a source that is no heal re-run is healed.
pub proof fn law_first_failure_heals(id: Seq<char>, cfg: HealConfig, now_ms: i64)
    requires
        !HEAL_PREFIX@.is_prefix_of(id),
    ensures
        decision(id, None, cfg, now_ms) == HealDecision::Heal,
{
}

/// A failure of one source leaves the record of every other source as it was.
pub proof fn law_sources_are_independent(
    book: Map<Seq<char>, HealAttempt>,
    f: Failure,
    other: Seq<char>,
)
    requires
        other != f.id,
    ensures
        attempt_on(book_after(book, f), other) == attempt_on(book, other),
{
}

/// A failure that is skipped leaves the book as it was.
pub proof fn law_skip_leaves_no_trace(book: Map<Seq<char>, HealAttempt>, f: Failure)
    requires
        decision_on(book, f) is Skip,
    ensures
        book_after(book, f) == book,
{
}

/// A heal is on record, with its time, as soon as it is decided; and the count on
/// record never passes the bound that it was decided under, but for a first heal.
pub proof fn law_heal_is_on_record(book: Map<Seq<char>, HealAttempt>, f: Failure)
    requires
        decision_on(book, f) == HealDecision::Heal,
    ensures
        attempt_on(book_after(book, f), f.id) matches Some(a) && {
            &&& a.count == attempt_or_none(book, f.id).count + 1
            &&& a.last_at == f.now_ms
            &&& book.contains_key(f.id) ==> a.count <= f.cfg.max_attempts
            &&& !book.contains_key(f.id) ==> a.count == 1
        },
{
}

/// While the bound in force is at most `cap`, a source without a record is healed at
/// most `cap` times in any sequence of failures; one with a record, as many times as
/// are left of it.
pub proof fn law_heals_are_capped(
    book: Map<Seq<char>, HealAttempt>,
    failures: Seq<Failure>,
    id: Seq<char>,
    cap: u32,
)
    requires
        cap >= 1,
        forall|i: int| 0 <= i < failures.len() ==> (#[trigger] failures[i]).cfg.max_attempts <= cap,
    ensures
        attempt_or_none(book, id).count <= cap ==> heals(book, failures, id) <= cap
            - attempt_or_none(book, id).count,
        attempt_or_none(book, id).count > cap ==> heals(book, failures, id) == 0,
    decreases failures.len(),
{
    if failures.len() > 0 {
        let f = failures.first();
        let rest = failures.drop_first();
        assert(f == failures[0]);
        assert forall|i: int| 0 <= i < rest.len() implies (#[trigger] rest[i]).cfg.max_attempts
            <= cap by {
            assert(rest[i] == failures[i + 1]);
        }
        law_heals_are_capped(book_after(book, f), rest, id, cap);
    }
}

/// Once a source is given up it is neither healed nor escalated again, whatever the
/// bounds become.
pub proof fn law_given_up_is_final(
    book: Map<Seq<char>, HealAttempt>,
    failures: Seq<Failure>,
    id: Seq<char>,
)
    requires
        attempt_or_none(book, id).given_up,
    ensures
        heals(book, failures, id) == 0,
        give_ups(book, failures, id) == 0,
        attempt_on(book_after_all(book, failures), id) == attempt_on(book, id),
    decreases failures.len(),
{
    if failures.len() > 0 {
        law_given_up_is_final(book_after(book, failures.first()), failures.drop_first(), id);
    }
}

/// A source is escalated at most once in any sequence of failures, whatever the bounds
/// become.
pub proof fn law_escalates_once(
    book: Map<Seq<char>, HealAttempt>,
    failures: Seq<Failure>,
    id: Seq<char>,
)
    ensures
        give_ups(book, failures, id) <= 1,
    decreases failures.len(),
{
    if failures.len() > 0 {
        let f = failures.first();
        let next = book_after(book, f);
        if f.id == id && decision_on(book, f) == HealDecision::GiveUp {
            law_given_up_is_final(next, failures.drop_first(), id);
        } else {
            law_escalates_once(next, failures.drop_first(), id);
        }
    }
}

/// A source that has used up its attempts is escalated at its next failure, unless it
/// was given up before.
pub proof fn law_exhausted_source_is_escalated(book: Map<Seq<char>, HealAttempt>, f: Failure)
    requires
        !HEAL_PREFIX@.is_prefix_of(f.id),
        book.contains_key(f.id),
        !book[f.id].given_up,
        book[f.id].count >= f.cfg.max_attempts,
    ensures
        decision_on(book, f) == HealDecision::GiveUp,
        attempt_or_none(book_after(book, f), f.id).given_up,
{
}

/// Two heals of one source with no heal of it in between are at least the cooldown of
/// the first apart, whatever else failed meanwhile.
pub proof fn law_heals_keep_their_distance(
    book: Map<Seq<char>, HealAttempt>,
    first: Failure,
    between: Seq<Failure>,
    second: Failure,
)
    requires
        first.id == second.id,
        decision_on(book, first) == HealDecision::Heal,
        heals(book_after(book, first), between, first.id) == 0,
        decision_on(book_after_all(book_after(book, first), between), second)
            == HealDecision::Heal,
    ensures
        saturated(second.now_ms - first.now_ms) >= cooldown_ms(
            second.cfg,
            (attempt_or_none(book, first.id).count + 1) as u32,
        ),
{
    lemma_record_without_heal(book_after(book, first), between, first.id);
}

/// Failures that do not have a source healed leave its count and its date as they were.
proof fn lemma_record_without_heal(
    book: Map<Seq<char>, HealAttempt>,
    failures: Seq<Failure>,
    id: Seq<char>,
)
    requires
        book.contains_key(id),
        heals(book, failures, id) == 0,
    ensures
        book_after_all(book, failures).contains_key(id),
        book_after_all(book, failures)[id].count == book[id].count,
        book_after_all(book, failures)[id].last_at == book[id].last_at,
    decreases failures.len(),
{
    if failures.len() > 0 {
        lemma_record_without_heal(book_after(book, failures.first()), failures.drop_first(), id);
    }
}

/// The window that a source rests for never shrinks as its heals add up.
pub proof fn law_cooldown_grows(cfg: HealConfig, fewer: u32, more: u32)
    requires
        cfg.cooldown_secs >= 0,
        fewer <= more,
    ensures
        0 <= cooldown_ms(cfg, fewer) <= cooldown_ms(cfg, more),
{
    let base = saturated(cfg.cooldown_secs * 1000);
    let a = if fewer >= 1 {
        fewer as int
    } else {
        1
    };
    let b = if more >= 1 {
        more as int
    } else {
        1
    };
    assert(0 <= base * a <= base * b) by (nonlinear_arith)
        requires
            0 <= base,
            1 <= a <= b,
    ;
}

/// With no cooldown, a source under its bound is healed at any time that is not before
/// its last heal.
pub proof fn law_no_cooldown_no_wait(
    id: Seq<char>,
    attempt: HealAttempt,
    cfg: HealConfig,
    now_ms: i64,
)
    requires
        !HEAL_PREFIX@.is_prefix_of(id),
        !attempt.given_up,
        attempt.count < cfg.max_attempts,
        cfg.cooldown_secs == 0,
        now_ms >= attempt.last_at,
    ensures
        decision(id, Some(attempt), cfg, now_ms) == HealDecision::Heal,
{
    let factor = if attempt.count >= 1 {
        attempt.count as int
    } else {
        1
    };
    assert(0 * factor == 0);
}

/// `n` as far as it fits an `i64`, from above and from below.
pub open spec fn clipped(n: int) -> int {
    if n > 0x7fff_ffff_ffff_ffff {
        0x7fff_ffff_ffff_ffff
    } else if n < -0x8000_0000_0000_0000 {
        -0x8000_0000_0000_0000
    } else {
        n
    }
}

/// The cooldown is in seconds and grows with the heals on record: a source that is on
/// record, not given up and under its cap is healed again just when at least
/// `cooldown_secs` times its heals have passed since the last one, in milliseconds, and
/// else waits. Times that do not fit an `i64` are clipped.
pub proof fn law_cooldown_is_in_seconds(
    id: Seq<char>,
    attempt: HealAttempt,
    cfg: HealConfig,
    now_ms: i64,
)
    requires
        !"healrun_"@.is_prefix_of(id),
        !attempt.given_up,
        attempt.count < cfg.max_attempts,
    ensures
        ({
            let heals = if attempt.count == 0 {
                1int
            } else {
                attempt.count as int
            };
            let window = 1000 * (cfg.cooldown_secs * heals);
            let passed = now_ms - attempt.last_at;
            &&& clipped(passed) >= clipped(window) ==> decision(id, Some(attempt), cfg, now_ms)
                == HealDecision::Heal
            &&& clipped(passed) < clipped(window) ==> decision(id, Some(attempt), cfg, now_ms)
                == HealDecision::Skip("within cooldown window")
        }),
{
    let heals = if attempt.count == 0 {
        1int
    } else {
        attempt.count as int
    };
    let secs = cfg.cooldown_secs as int;
    let base = clipped(secs * 1000);
    assert(1000 * (secs * heals) == (secs * 1000) * heals) by (nonlinear_arith);
    if secs * 1000 > 0x7fff_ffff_ffff_ffff {
        assert((secs * 1000) * heals >= secs * 1000) by (nonlinear_arith)
            requires
                heals >= 1,
                secs * 1000 > 0,
        ;
        assert(0x7fff_ffff_ffff_ffff * heals >= 0x7fff_ffff_ffff_ffff) by (nonlinear_arith)
            requires
                heals >= 1,
        ;
    } else if secs * 1000 < -0x8000_0000_0000_0000 {
        assert((secs * 1000) * heals <= secs * 1000) by (nonlinear_arith)
            requires
                heals >= 1,
                secs * 1000 < 0,
        ;
        assert(-0x8000_0000_0000_0000 * heals <= -0x8000_0000_0000_0000) by (nonlinear_arith)
            requires
                heals >= 1,
        ;
    }
    assert(cooldown_ms(cfg, attempt.count) == clipped(base * heals));
}

/// Two heals of one source with no heal of it in between are at least the cooldown in
/// force, in seconds, times the heals up to the first, apart, for every cooldown that is
/// not negative and as far as that fits an `i64`.
pub proof fn law_heals_are_seconds_apart(
    book: Map<Seq<char>, HealAttempt>,
    first: Failure,
    between: Seq<Failure>,
    second: Failure,
)
    requires
        first.id == second.id,
        decision_on(book, first) == HealDecision::Heal,
        heals(book_after(book, first), between, first.id) == 0,
        decision_on(book_after_all(book_after(book, first), between), second)
            == HealDecision::Heal,
        0 <= second.cfg.cooldown_secs,
        1000 * (second.cfg.cooldown_secs * (attempt_or_none(book, first.id).count + 1))
            <= 0x7fff_ffff_ffff_ffff,
    ensures
        second.now_ms - first.now_ms >= 1000 * (second.cfg.cooldown_secs * (attempt_or_none(
            book,
            first.id,
        ).count + 1)),
{
    let middle = book_after(book, first);
    let late = book_after_all(middle, between);
    lemma_record_without_heal(middle, between, first.id);
    law_cooldown_is_in_seconds(second.id, late[second.id], second.cfg, second.now_ms);
    let n = attempt_or_none(book, first.id).count + 1;
    assert(0 <= 1000 * (second.cfg.cooldown_secs * n)) by (nonlinear_arith)
        requires
            second.cfg.cooldown_secs >= 0,
            n >= 0,
    ;
}

/// Which runs are healed at once, which are never, and which are given up: a heal re-run is
/// left alone, a source that is not on record is healed, one that is given up is left
/// alone, and one that has used up its attempts, and no other, is given up, however long ago
/// its last heal was.
pub proof fn law_decision_by_record(
    id: Seq<char>,
    attempt: HealAttempt,
    cfg: HealConfig,
    now_ms: i64,
)
    ensures
        forall|rest: Seq<char>, known: Option<HealAttempt>| #[trigger]
            decision("healrun_"@ + rest, known, cfg, now_ms) == HealDecision::Skip(
                "heal-run (never heal a heal)",
            ),
        !"healrun_"@.is_prefix_of(id) ==> {
            &&& decision(id, None, cfg, now_ms) == HealDecision::Heal
            &&& attempt.given_up ==> decision(id, Some(attempt), cfg, now_ms) == HealDecision::Skip(
                "already given up",
            )
            &&& decision(id, Some(attempt), cfg, now_ms) == HealDecision::GiveUp <==> !attempt.given_up
                && attempt.count >= cfg.max_attempts
        },
{
    assert forall|rest: Seq<char>, known: Option<HealAttempt>| #[trigger]
        decision("healrun_"@ + rest, known, cfg, now_ms) == HealDecision::Skip(
            "heal-run (never heal a heal)",
        ) by {
        assert("healrun_"@.is_prefix_of("healrun_"@ + rest));
    }
}

/// What each decision leaves on record: a heal counts one more and sets the date alone, a
/// give-up sets its mark alone, and neither touches another source.
pub proof fn law_record_of_each_decision(book: Map<Seq<char>, HealAttempt>, f: Failure)
    ensures
        ({
            let before = attempt_or_none(book, f.id);
            let after = book_after(book, f);
            &&& decision_on(book, f) == HealDecision::Heal ==> after.contains_key(f.id)
                && after[f.id].count == before.count + 1 && after[f.id].last_at == f.now_ms
                && !after[f.id].given_up
            &&& decision_on(book, f) == HealDecision::GiveUp ==> after.contains_key(f.id)
                && after[f.id].count == before.count && after[f.id].last_at == before.last_at
                && after[f.id].given_up
            &&& decision_on(book, f) is Skip ==> after == book
            &&& forall|other: Seq<char>|
                other != f.id ==> (#[trigger] after.contains_key(other) <==> book.contains_key(other))
            &&& forall|other: Seq<char>|
                other != f.id && book.contains_key(other) ==> #[trigger] after[other] == book[other]
            &&& !book.contains_key(f.id) ==> before.count == 0 && before.last_at == 0
                && !before.given_up
        }),
{
}

/// A decision is made on the record that is handed in.
pub proof fn law_record_is_taken_as_it_is(attempt: &HealAttempt)
    ensures
        attempt_value(Some(attempt)) == Some(*attempt),
        attempt_value(None) is None,
{
}

} // verus!
