use opus_daemon::job::{Action, FinalState, OutcomeReport};
use opus_daemon::timers::{TimerKind, Timers};

fn arm(t: &mut Timers, kind: TimerKind, path: &str, due: u64) {
    t.arm(kind, path.to_string(), due);
}

fn drain(t: &mut Timers, now: u64) -> Vec<(TimerKind, String, u64)> {
    let mut out = Vec::new();
    while let Some(timer) = t.pop_due(now) {
        out.push((timer.kind, timer.path, timer.due));
    }
    out
}

#[test]
fn no_timer_no_deadline() {
    let mut t = Timers::new();
    assert_eq!(t.len(), 0);
    assert_eq!(t.next_due(), None);
    assert!(t.pop_due(u64::MAX).is_none());
    t.cancel("a");
    assert_eq!(t.len(), 0);
}

#[test]
fn arming_again_replaces_the_timer() {
    let mut t = Timers::new();
    arm(&mut t, TimerKind::Settle, "a", 500);
    arm(&mut t, TimerKind::Settle, "a", 600);
    arm(&mut t, TimerKind::Settle, "a", 700);
    assert_eq!(t.len(), 1);
    assert_eq!(t.next_due(), Some(700));
    assert!(t.pop_due(699).is_none());
    assert_eq!(drain(&mut t, 700), vec![(TimerKind::Settle, "a".to_string(), 700)]);
    assert_eq!(t.len(), 0);
}

#[test]
fn rearming_may_move_the_deadline_back() {
    let mut t = Timers::new();
    arm(&mut t, TimerKind::Retry, "a", 900);
    arm(&mut t, TimerKind::Retry, "a", 100);
    assert_eq!(t.next_due(), Some(100));
    assert_eq!(t.len(), 1);
}

#[test]
fn kinds_and_paths_have_timers_of_their_own() {
    let mut t = Timers::new();
    arm(&mut t, TimerKind::Settle, "a", 500);
    arm(&mut t, TimerKind::Retry, "a", 400);
    arm(&mut t, TimerKind::Evict, "a", 300);
    arm(&mut t, TimerKind::Settle, "b", 450);
    assert_eq!(t.len(), 4);
    assert_eq!(t.next_due(), Some(300));
    assert_eq!(
        drain(&mut t, 450),
        vec![
            (TimerKind::Evict, "a".to_string(), 300),
            (TimerKind::Retry, "a".to_string(), 400),
            (TimerKind::Settle, "b".to_string(), 450),
        ]
    );
    assert_eq!(t.next_due(), Some(500));
    assert_eq!(t.len(), 1);
}

#[test]
fn equal_deadlines_come_out_in_arming_order() {
    let mut t = Timers::new();
    arm(&mut t, TimerKind::Settle, "c", 500);
    arm(&mut t, TimerKind::Settle, "a", 500);
    arm(&mut t, TimerKind::Settle, "b", 500);
    // arming again puts a timer behind the others
    arm(&mut t, TimerKind::Settle, "c", 500);
    let order: Vec<String> = drain(&mut t, 500).into_iter().map(|(_, p, _)| p).collect();
    assert_eq!(order, vec!["a", "b", "c"]);
}

#[test]
fn cancel_drops_every_timer_of_the_path() {
    let mut t = Timers::new();
    arm(&mut t, TimerKind::Settle, "a", 500);
    arm(&mut t, TimerKind::Settle, "b", 600);
    arm(&mut t, TimerKind::Retry, "a", 700);
    arm(&mut t, TimerKind::Evict, "a", 800);
    t.cancel("a");
    assert_eq!(t.len(), 1);
    assert_eq!(drain(&mut t, 10_000), vec![(TimerKind::Settle, "b".to_string(), 600)]);
}

#[test]
fn apply_does_the_timer_part_of_an_action() {
    let mut t = Timers::new();
    t.apply(&Action::ArmSettleTimer { path: "a".to_string(), due: 500 }, 9000);
    t.apply(&Action::ArmRetryTimer { path: "b".to_string(), due: 700 }, 9000);
    assert_eq!(t.len(), 2);
    assert_eq!(t.next_due(), Some(500));
    let report = OutcomeReport { path: "a".to_string(), final_state: FinalState::Success, duration: 3, attempts: 1 };
    t.apply(&Action::Report(report), 9000);
    assert_eq!(t.len(), 3);
    t.apply(&Action::CancelTimers { path: "a".to_string() }, 1);
    assert_eq!(drain(&mut t, 700), vec![(TimerKind::Retry, "b".to_string(), 700)]);
    assert_eq!(t.len(), 0);
    let report = OutcomeReport { path: "c".to_string(), final_state: FinalState::Failed, duration: 3, attempts: 4 };
    t.apply(&Action::Report(report), 9000);
    assert_eq!(drain(&mut t, 9000), vec![(TimerKind::Evict, "c".to_string(), 9000)]);
}
