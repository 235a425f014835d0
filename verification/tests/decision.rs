use ryu_healing::decision::{HealAttempt, HealConfig, HealDecision};
use ryu_healing::{decide_heal, HealEngine, HEAL_PREFIX};

fn cfg() -> HealConfig {
    HealConfig {
        max_attempts: 2,
        cooldown_secs: 60,
    }
}

#[test]
fn never_heals_a_heal_run() {
    assert_eq!(
        decide_heal("healrun_abc", None, &cfg(), 0),
        HealDecision::Skip("heal-run (never heal a heal)")
    );
}

#[test]
fn first_failure_heals() {
    assert_eq!(
        decide_heal("conv1", None, &cfg(), 1_000),
        HealDecision::Heal
    );
}

#[test]
fn cap_exhaustion_gives_up() {
    let a = HealAttempt {
        count: 2,
        last_at: 0,
        given_up: false,
    };
    assert_eq!(
        decide_heal("conv1", Some(&a), &cfg(), 10_000_000),
        HealDecision::GiveUp
    );
}

#[test]
fn given_up_is_skipped() {
    let a = HealAttempt {
        count: 5,
        last_at: 0,
        given_up: true,
    };
    assert_eq!(
        decide_heal("conv1", Some(&a), &cfg(), 10_000_000),
        HealDecision::Skip("already given up")
    );
}

#[test]
fn within_cooldown_is_skipped() {
    let a = HealAttempt {
        count: 1,
        last_at: 1_000,
        given_up: false,
    };
    // 1_000 + 60s*1000*1 = 61_000; a failure at 30_000 is inside the window.
    assert_eq!(
        decide_heal("conv1", Some(&a), &cfg(), 30_000),
        HealDecision::Skip("within cooldown window")
    );
}

#[test]
fn after_cooldown_heals_again() {
    let a = HealAttempt {
        count: 1,
        last_at: 1_000,
        given_up: false,
    };
    assert_eq!(
        decide_heal("conv1", Some(&a), &cfg(), 200_000),
        HealDecision::Heal
    );
}

#[test]
fn cooldown_scales_with_attempt_count() {
    // count=2 => the window doubles (60s * 2 = 120s from last_at).
    let a = HealAttempt {
        count: 2,
        last_at: 1_000,
        given_up: false,
    };
    let two_attempt_cfg = HealConfig {
        max_attempts: 5,
        cooldown_secs: 60,
    };
    // 1_000 + 120_000 = 121_000; a failure at 100_000 is still inside.
    assert_eq!(
        decide_heal("c", Some(&a), &two_attempt_cfg, 100_000),
        HealDecision::Skip("within cooldown window")
    );
    // ...but at 200_000 it is past the (scaled) window.
    assert_eq!(
        decide_heal("c", Some(&a), &two_attempt_cfg, 200_000),
        HealDecision::Heal
    );
}

#[test]
fn zero_cooldown_always_heals_when_under_cap() {
    let a = HealAttempt {
        count: 1,
        last_at: 5_000,
        given_up: false,
    };
    let no_cd = HealConfig {
        max_attempts: 3,
        cooldown_secs: 0,
    };
    // Same instant as last_at: a window of length 0 holds nothing.
    assert_eq!(
        decide_heal("c", Some(&a), &no_cd, 5_000),
        HealDecision::Heal
    );
}

#[test]
fn clock_skew_backwards_stays_in_cooldown() {
    // now < last_at (the clock moved back) is inside the window.
    let a = HealAttempt {
        count: 1,
        last_at: 10_000,
        given_up: false,
    };
    assert_eq!(
        decide_heal("c", Some(&a), &cfg(), 1_000),
        HealDecision::Skip("within cooldown window")
    );
}

#[test]
fn cooldown_ends_at_its_last_millisecond() {
    let a = HealAttempt {
        count: 1,
        last_at: 1_000,
        given_up: false,
    };
    assert_eq!(
        decide_heal("c", Some(&a), &cfg(), 60_999),
        HealDecision::Skip("within cooldown window")
    );
    assert_eq!(
        decide_heal("c", Some(&a), &cfg(), 61_000),
        HealDecision::Heal
    );
}

#[test]
fn a_record_without_heals_waits_one_window() {
    let a = HealAttempt {
        count: 0,
        last_at: 0,
        given_up: false,
    };
    assert_eq!(
        decide_heal("c", Some(&a), &cfg(), 59_999),
        HealDecision::Skip("within cooldown window")
    );
    assert_eq!(
        decide_heal("c", Some(&a), &cfg(), 60_000),
        HealDecision::Heal
    );
}

#[test]
fn huge_numbers_saturate() {
    let a = HealAttempt {
        count: u32::MAX - 1,
        last_at: i64::MIN,
        given_up: false,
    };
    let wide = HealConfig {
        max_attempts: u32::MAX,
        cooldown_secs: i64::MAX,
    };
    // Both the window and the distance are i64::MAX, so the window is just over.
    assert_eq!(
        decide_heal("c", Some(&a), &wide, i64::MAX),
        HealDecision::Heal
    );
    assert_eq!(
        decide_heal("c", Some(&a), &wide, -2),
        HealDecision::Skip("within cooldown window")
    );
    let negative = HealConfig {
        max_attempts: u32::MAX,
        cooldown_secs: i64::MIN,
    };
    let late = HealAttempt {
        count: 3,
        last_at: i64::MAX,
        given_up: false,
    };
    assert_eq!(
        decide_heal("c", Some(&late), &negative, i64::MIN),
        HealDecision::Heal
    );
}

#[test]
fn cap_of_zero_still_heals_once() {
    let none = HealConfig {
        max_attempts: 0,
        cooldown_secs: 0,
    };
    let mut engine = HealEngine::new(None);
    assert_eq!(engine.record_failure("s", &none, 1), HealDecision::Heal);
    assert_eq!(engine.record_failure("s", &none, 2), HealDecision::GiveUp);
    assert_eq!(
        engine.record_failure("s", &none, 3),
        HealDecision::Skip("already given up")
    );
}

#[test]
fn the_prefix_alone_marks_a_heal_run() {
    assert_eq!(
        decide_heal(HEAL_PREFIX, None, &cfg(), 0),
        HealDecision::Skip("heal-run (never heal a heal)")
    );
    assert_eq!(decide_heal("healrun", None, &cfg(), 0), HealDecision::Heal);
    assert_eq!(
        decide_heal("Healrun_abc", None, &cfg(), 0),
        HealDecision::Heal
    );
    assert_eq!(
        decide_heal("x_healrun_", None, &cfg(), 0),
        HealDecision::Heal
    );
    assert_eq!(decide_heal("", None, &cfg(), 0), HealDecision::Heal);
}

/// Over a long run of failures a source is healed at most as often as the cap says, is
/// escalated once and skipped ever after, and the heals keep their growing distance.
#[test]
fn heals_are_bounded_over_any_run_of_failures() {
    let three = HealConfig {
        max_attempts: 3,
        cooldown_secs: 10,
    };
    let mut engine = HealEngine::new(None);
    let mut heals: Vec<i64> = Vec::new();
    let mut give_ups: usize = 0;
    for k in 0..200 {
        let now: i64 = 1_000 * k;
        match engine.record_failure("src", &three, now) {
            HealDecision::Heal => heals.push(now),
            HealDecision::GiveUp => give_ups += 1,
            HealDecision::Skip(_) => {}
        }
    }
    assert_eq!(heals, vec![0, 10_000, 30_000]);
    assert_eq!(give_ups, 1);
    let snapshot = engine.attempt_snapshot();
    assert_eq!(snapshot.len(), 1);
    assert_eq!(snapshot[0].0, "src");
    assert_eq!(
        snapshot[0].1,
        HealAttempt {
            count: 3,
            last_at: 30_000,
            given_up: true,
        }
    );
}

#[test]
fn sources_do_not_share_their_record() {
    let mut engine = HealEngine::new(None);
    assert_eq!(engine.record_failure("a", &cfg(), 5), HealDecision::Heal);
    assert_eq!(engine.record_failure("b", &cfg(), 6), HealDecision::Heal);
    assert_eq!(
        engine.record_failure("a", &cfg(), 7),
        HealDecision::Skip("within cooldown window")
    );
    let snapshot = engine.attempt_snapshot();
    assert_eq!(snapshot.len(), 2);
    for (name, attempt) in snapshot {
        let last_at: i64 = if name == "a" { 5 } else { 6 };
        assert_eq!(
            attempt,
            HealAttempt {
                count: 1,
                last_at,
                given_up: false,
            }
        );
    }
}

#[test]
fn a_skipped_failure_leaves_no_trace() {
    let mut engine = HealEngine::new(None);
    assert_eq!(
        engine.record_failure("healrun_1", &cfg(), 5),
        HealDecision::Skip("heal-run (never heal a heal)")
    );
    assert!(engine.attempt_snapshot().is_empty());
}
