//! Evaluations that are under way at once.
//!
//! While one evaluation waits for its host another may go on. Every step is taken with
//! the engine to itself, so what two of them come to together is what they would have
//! come to one after the other.

use vstd::prelude::*;

use crate::config::{lemma_pref_names, resolved_bounds, resolved_enabled};
use crate::contracts::{HealVerdictView, HEAL_PREFIX};
use crate::decision::{attempt_on, cooldown_ms, HealAttempt, HealDecision};
use crate::diagnosis::FailureReportView;
use crate::engine::{
    answers_left, driven, evaluated, first_step, host_answer, host_decision,
    law_evaluation_comes_to_the_verdict, next_step, HealRequestView, HealStepView, HostAnswers,
};

verus! {

/// An evaluation with the host that answers it.
pub struct Task {
    pub step: HealStepView,
    pub host: HostAnswers,
}

/// Where two evaluations stand, what is on record, and how often the side model was
/// called.
pub struct Pair {
    pub a: Task,
    pub b: Task,
    pub book: Map<Seq<char>, HealAttempt>,
    pub calls: nat,
}

/// What two evaluations come to, what is on record then, and how often the side model was
/// called.
pub struct Together {
    pub a: HealVerdictView,
    pub b: HealVerdictView,
    pub book: Map<Seq<char>, HealAttempt>,
    pub calls: nat,
}

/// How often the side model is called to answer a request.
pub open spec fn calls_in(request: HealRequestView) -> nat {
    if request is CallSideModel {
        1
    } else {
        0
    }
}

/// A task after the answer to its request, what is on record then, and how often the side
/// model was called for it. A task that is done stays as it is.
pub open spec fn advanced(task: Task, book: Map<Seq<char>, HealAttempt>) -> (
    Task,
    Map<Seq<char>, HealAttempt>,
    nat,
) {
    match task.step {
        HealStepView::Finished(_) => (task, book, 0),
        HealStepView::Continue { run, request } => {
            let (step, after) = next_step(
                run,
                book,
                host_answer(task.host, request),
                task.host.now_ms,
            );
            (Task { step, host: task.host }, after, calls_in(request))
        },
    }
}

/// Where two evaluations stand after a number of turns, each of which is one's (`true`) or
/// the other's.
pub open spec fn interleaved(pair: Pair, turns: Seq<bool>) -> Pair
    decreases turns.len(),
{
    if turns.len() == 0 {
        pair
    } else if turns[0] {
        let (a, book, calls) = advanced(pair.a, pair.book);
        interleaved(Pair { a, book, calls: pair.calls + calls, ..pair }, turns.drop_first())
    } else {
        let (b, book, calls) = advanced(pair.b, pair.book);
        interleaved(Pair { b, book, calls: pair.calls + calls, ..pair }, turns.drop_first())
    }
}

/// How often the side model is called until a task is done.
pub open spec fn calls_of(task: Task, book: Map<Seq<char>, HealAttempt>) -> nat
    decreases
            match task.step {
                HealStepView::Continue { run, .. } => answers_left(run.stage) + 1,
                HealStepView::Finished(_) => 0,
            },
{
    match task.step {
        HealStepView::Finished(_) => 0,
        HealStepView::Continue { run, request } => {
            let (step, after) = next_step(
                run,
                book,
                host_answer(task.host, request),
                task.host.now_ms,
            );
            calls_in(request) + calls_of(Task { step, host: task.host }, after)
        },
    }
}

/// What two evaluations come to where the first is done before the second goes on.
pub open spec fn a_then_b(pair: Pair) -> Together {
    let (va, between) = driven(pair.a.step, pair.book, pair.a.host);
    let (vb, book) = driven(pair.b.step, between, pair.b.host);
    Together {
        a: va,
        b: vb,
        book,
        calls: pair.calls + calls_of(pair.a, pair.book) + calls_of(pair.b, between),
    }
}

/// What two evaluations come to where the second is done before the first goes on.
pub open spec fn b_then_a(pair: Pair) -> Together {
    let (vb, between) = driven(pair.b.step, pair.book, pair.b.host);
    let (va, book) = driven(pair.a.step, between, pair.a.host);
    Together {
        a: va,
        b: vb,
        book,
        calls: pair.calls + calls_of(pair.b, pair.book) + calls_of(pair.a, between),
    }
}

/// Whether both evaluations are done.
pub open spec fn both_done(pair: Pair) -> bool {
    pair.a.step is Finished && pair.b.step is Finished
}

/// What two evaluations that are done have come to.
pub open spec fn come_to(pair: Pair) -> Together {
    Together {
        a: pair.a.step->Finished_0,
        b: pair.b.step->Finished_0,
        book: pair.book,
        calls: pair.calls,
    }
}

/// Whether an evaluation stands before its decision.
pub open spec fn decides_next(step: HealStepView) -> bool {
    step matches HealStepView::Continue { run, .. } && run.stage is CooldownSecs
}

/// Whether an evaluation has its decision behind it.
pub open spec fn is_decided(step: HealStepView) -> bool {
    match step {
        HealStepView::Finished(_) => true,
        HealStepView::Continue { run, .. } => !(run.stage is Enabled || run.stage is MaxAttempts
            || run.stage is CooldownSecs),
    }
}

/// Where an evaluation does not decide it neither reads nor changes the record.
proof fn lemma_other_steps_leave_the_record(
    task: Task,
    one: Map<Seq<char>, HealAttempt>,
    other: Map<Seq<char>, HealAttempt>,
)
    requires
        !decides_next(task.step),
    ensures
        advanced(task, one).0 == advanced(task, other).0,
        advanced(task, one).1 == one,
        advanced(task, one).2 == advanced(task, other).2,
{
}

/// An evaluation with its decision behind it comes to the same whatever is on record, and
/// leaves it alone.
proof fn lemma_decided_is_settled(
    task: Task,
    one: Map<Seq<char>, HealAttempt>,
    other: Map<Seq<char>, HealAttempt>,
)
    requires
        is_decided(task.step),
    ensures
        driven(task.step, one, task.host).0 == driven(task.step, other, task.host).0,
        driven(task.step, one, task.host).1 == one,
        calls_of(task, one) == calls_of(task, other),
    decreases
            match task.step {
                HealStepView::Continue { run, .. } => answers_left(run.stage) + 1,
                HealStepView::Finished(_) => 0,
            },
{
    if task.step is Continue {
        let next = advanced(task, one).0;
        lemma_other_steps_leave_the_record(task, one, other);
        lemma_other_steps_leave_the_record(task, other, one);
        lemma_decided_is_settled(next, one, other);
    }
}

/// A step on the way does not change where the way leads.
proof fn lemma_driven_through(task: Task, book: Map<Seq<char>, HealAttempt>)
    ensures
        ({
            let (next, after, calls) = advanced(task, book);
            &&& driven(next.step, after, next.host) == driven(task.step, book, task.host)
            &&& calls + calls_of(next, after) == calls_of(task, book)
        }),
{
}

/// A step of the first evaluation leaves the pair on its way to one of the two orders.
proof fn lemma_turn_of_a(pair: Pair)
    ensures
        ({
            let (a, book, calls) = advanced(pair.a, pair.book);
            let next = Pair { a, book, calls: pair.calls + calls, ..pair };
            &&& a_then_b(next) == a_then_b(pair)
            &&& b_then_a(next) == b_then_a(pair) || b_then_a(next) == a_then_b(pair)
        }),
{
    let (a, book, calls) = advanced(pair.a, pair.book);
    lemma_driven_through(pair.a, pair.book);
    let between = driven(pair.b.step, book, pair.b.host).1;
    if decides_next(pair.a.step) {
        assert(is_decided(a.step));
        lemma_decided_is_settled(a, book, between);
        lemma_decided_is_settled(a, between, book);
    } else {
        lemma_other_steps_leave_the_record(pair.a, pair.book, between);
        lemma_other_steps_leave_the_record(pair.a, between, pair.book);
        lemma_driven_through(pair.a, between);
    }
}

/// The pair with the two evaluations swapped.
pub open spec fn swapped(pair: Pair) -> Pair {
    Pair { a: pair.b, b: pair.a, ..pair }
}

proof fn lemma_turn_of_b(pair: Pair)
    ensures
        ({
            let (b, book, calls) = advanced(pair.b, pair.book);
            let next = Pair { b, book, calls: pair.calls + calls, ..pair };
            &&& b_then_a(next) == b_then_a(pair)
            &&& a_then_b(next) == a_then_b(pair) || a_then_b(next) == b_then_a(pair)
        }),
{
    let (b, book, calls) = advanced(pair.b, pair.book);
    let next = Pair { b, book, calls: pair.calls + calls, ..pair };
    lemma_turn_of_a(swapped(pair));
    assert(swapped(next) == (Pair {
        a: b,
        book,
        calls: pair.calls + calls,
        ..swapped(pair)
    }));
    lemma_swapped(pair);
    lemma_swapped(next);
}

proof fn lemma_swapped(pair: Pair)
    ensures
        a_then_b(swapped(pair)) == (Together {
            a: b_then_a(pair).b,
            b: b_then_a(pair).a,
            ..b_then_a(pair)
        }),
        b_then_a(swapped(pair)) == (Together {
            a: a_then_b(pair).b,
            b: a_then_b(pair).a,
            ..a_then_b(pair)
        }),
{
}

/// Two evaluations that are under way at once come to what they would have come to one
/// after the other, in one order or in the other, however their steps fall.
pub proof fn law_overlap_is_one_after_the_other(pair: Pair, turns: Seq<bool>)
    requires
        both_done(interleaved(pair, turns)),
    ensures
        come_to(interleaved(pair, turns)) == a_then_b(pair) || come_to(interleaved(pair, turns))
            == b_then_a(pair),
    decreases turns.len(),
{
    if turns.len() > 0 {
        let rest = turns.drop_first();
        if turns[0] {
            let (a, book, calls) = advanced(pair.a, pair.book);
            let next = Pair { a, book, calls: pair.calls + calls, ..pair };
            lemma_turn_of_a(pair);
            law_overlap_is_one_after_the_other(next, rest);
        } else {
            let (b, book, calls) = advanced(pair.b, pair.book);
            let next = Pair { b, book, calls: pair.calls + calls, ..pair };
            lemma_turn_of_b(pair);
            law_overlap_is_one_after_the_other(next, rest);
        }
    }
}

/// Two evaluations as they begin.
pub open spec fn beginning(
    book: Map<Seq<char>, HealAttempt>,
    report_a: FailureReportView,
    host_a: HostAnswers,
    report_b: FailureReportView,
    host_b: HostAnswers,
) -> Pair {
    Pair {
        a: Task { step: first_step(report_a), host: host_a },
        b: Task { step: first_step(report_b), host: host_b },
        book,
        calls: 0,
    }
}

/// The verdict on a failure inside the cooldown.
pub open spec fn cooling_down() -> HealVerdictView {
    HealVerdictView::Skip { reason: "within cooldown window"@ }
}

/// Whether a host has healing on, with room for a second heal and with a cooldown that a
/// failure at `other_ms` is inside of, be it before or after.
pub open spec fn holds_off(host: HostAnswers, other_ms: i64) -> bool {
    let cfg = resolved_bounds(host.prefs.max_attempts, host.prefs.cooldown_secs);
    &&& resolved_enabled(host.prefs.enabled)
    &&& cfg.max_attempts >= 2
    &&& host.now_ms - other_ms < cooldown_ms(cfg, 1)
}

/// An evaluation calls the side model once where it heals, and else not at all.
proof fn lemma_calls(book: Map<Seq<char>, HealAttempt>, report: FailureReportView, host: HostAnswers)
    ensures
        calls_of(Task { step: first_step(report), host }, book) == if resolved_enabled(
            host.prefs.enabled,
        ) && host_decision(book, report, host) == HealDecision::Heal {
            1nat
        } else {
            0
        },
{
    lemma_pref_names();
    reveal_with_fuel(calls_of, 11);
}

proof fn lemma_second_is_held_off(
    book: Map<Seq<char>, HealAttempt>,
    report_a: FailureReportView,
    host_a: HostAnswers,
    report_b: FailureReportView,
    host_b: HostAnswers,
)
    requires
        report_a.source_id == report_b.source_id,
        !HEAL_PREFIX@.is_prefix_of(report_a.source_id),
        !book.contains_key(report_a.source_id),
        resolved_enabled(host_a.prefs.enabled),
        holds_off(host_b, host_a.now_ms),
    ensures
        ({
            let pair = beginning(book, report_a, host_a, report_b, host_b);
            &&& a_then_b(pair).a == evaluated(book, report_a, host_a).0
            &&& a_then_b(pair).a != cooling_down()
            &&& a_then_b(pair).b == cooling_down()
            &&& a_then_b(pair).calls == 1
            &&& attempt_on(a_then_b(pair).book, report_a.source_id) matches Some(at) && at.count
                == 1
        }),
{
    law_evaluation_comes_to_the_verdict(book, report_a, host_a);
    lemma_calls(book, report_a, host_a);
    let between = evaluated(book, report_a, host_a).1;
    law_evaluation_comes_to_the_verdict(between, report_b, host_b);
    lemma_calls(between, report_b, host_b);
    reveal_strlit("within cooldown window");
    reveal_strlit("no diagnosis (model unreachable or empty)");
    assert("within cooldown window"@.len() == 22);
    assert("no diagnosis (model unreachable or empty)"@.len() == 41);
}

/// Two failures of one new source that are evaluated at once, inside one cooldown, heal it
/// once: one evaluation goes through with its heal, the other is skipped, the side model is
/// called once and one heal is on record, however the steps of the two fall.
pub proof fn law_failures_at_once_heal_once(
    book: Map<Seq<char>, HealAttempt>,
    report_a: FailureReportView,
    host_a: HostAnswers,
    report_b: FailureReportView,
    host_b: HostAnswers,
    turns: Seq<bool>,
)
    requires
        report_a.source_id == report_b.source_id,
        !HEAL_PREFIX@.is_prefix_of(report_a.source_id),
        !book.contains_key(report_a.source_id),
        holds_off(host_a, host_b.now_ms),
        holds_off(host_b, host_a.now_ms),
        both_done(interleaved(beginning(book, report_a, host_a, report_b, host_b), turns)),
    ensures
        ({
            let end = come_to(
                interleaved(beginning(book, report_a, host_a, report_b, host_b), turns),
            );
            &&& (end.a == cooling_down() && end.b == evaluated(book, report_b, host_b).0) || (end.b
                == cooling_down() && end.a == evaluated(book, report_a, host_a).0)
            &&& !(end.a == cooling_down() && end.b == cooling_down())
            &&& end.calls == 1
            &&& attempt_on(end.book, report_a.source_id) matches Some(at) && at.count == 1
        }),
{
    let pair = beginning(book, report_a, host_a, report_b, host_b);
    law_overlap_is_one_after_the_other(pair, turns);
    lemma_second_is_held_off(book, report_a, host_a, report_b, host_b);
    lemma_second_is_held_off(book, report_b, host_b, report_a, host_a);
    assert(swapped(pair) == beginning(book, report_b, host_b, report_a, host_a));
    lemma_swapped(pair);
}

} // verus!
