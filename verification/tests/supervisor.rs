use motu_mk5::supervisor::{
    router_action, startup_step, RouterAction, RouterStatus, StartupStep,
    STARTUP_DISCOVERY_ATTEMPTS,
};

#[test]
fn startup_waits_double_up_to_sixteen_seconds() {
    let mut delay = 1u64;
    let mut waits = Vec::new();
    for attempt in 1..=STARTUP_DISCOVERY_ATTEMPTS {
        match startup_step(attempt, delay, false, true) {
            StartupStep::Wait { wait_secs, retry, next_delay } => {
                waits.push(wait_secs);
                assert_eq!(retry, attempt < 10);
                delay = next_delay;
            }
            other => panic!("unexpected step {other:?}"),
        }
    }
    assert_eq!(waits, vec![1, 2, 4, 8, 16, 16, 16, 16, 16, 16]);
}

#[test]
fn startup_stops_when_found_or_shut_down() {
    assert_eq!(startup_step(3, 4, true, true), StartupStep::Found);
    assert_eq!(startup_step(3, 4, true, false), StartupStep::Found);
    assert_eq!(startup_step(3, 4, false, false), StartupStep::Stop);
    assert_eq!(
        startup_step(10, 16, false, true),
        StartupStep::Wait { wait_secs: 16, retry: false, next_delay: 16 }
    );
}

#[test]
fn router_turns() {
    assert_eq!(router_action(RouterStatus::Running, true), RouterAction::Keep);
    assert_eq!(router_action(RouterStatus::Died, false), RouterAction::Restart);
    assert_eq!(router_action(RouterStatus::Absent, false), RouterAction::Keep);
    assert_eq!(router_action(RouterStatus::Absent, true), RouterAction::Discover);
}
