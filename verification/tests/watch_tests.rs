use proc_watch::mapping::MappingEntry;
use proc_watch::watch::{WatchAction, WatchEvent, WatchLoop, WatchState};

fn rows(paths: &[&str]) -> Vec<MappingEntry> {
    paths.iter().map(|p| MappingEntry::backed(p.to_string(), true)).collect()
}

fn snapshot(paths: &[&str]) -> WatchEvent {
    WatchEvent::Snapshot(Some(rows(paths)))
}

#[test]
fn a_new_loop_probes_first() {
    let w = WatchLoop::new(250);
    assert_eq!(w.state(), WatchState::Probing);
    assert_eq!(w.action(), WatchAction::Probe);
    assert_eq!(w.interval_ms(), 250);
    assert!(!w.is_terminated());
    assert!(w.inventory().is_empty());
}

#[test]
fn dead_on_first_probe_ends_with_an_empty_inventory_and_no_snapshot() {
    let mut w = WatchLoop::new(100);
    let action = w.step(WatchEvent::Liveness(false));
    assert_eq!(action, WatchAction::Stop);
    assert_eq!(w.state(), WatchState::Terminated);
    assert!(w.is_terminated());
    assert!(w.into_inventory().is_empty());
}

#[test]
fn interval_zero_gives_exactly_one_cycle() {
    let mut w = WatchLoop::new(0);
    assert_eq!(w.step(WatchEvent::Liveness(true)), WatchAction::Snapshot);
    assert_eq!(w.state(), WatchState::Merging);
    assert_eq!(w.step(snapshot(&["/lib/libc.so", "/bin/cat"])), WatchAction::Stop);
    assert_eq!(w.state(), WatchState::Terminated);
    assert_eq!(w.step(WatchEvent::Woken), WatchAction::Stop);
    assert_eq!(w.step(WatchEvent::Liveness(true)), WatchAction::Stop);
    assert_eq!(w.step(snapshot(&["/lib/libm.so"])), WatchAction::Stop);
    assert_eq!(w.into_inventory().to_vec(), vec!["/lib/libc.so".to_string()]);
}

#[test]
fn nonzero_interval_sleeps_exactly_the_interval_and_probes_again() {
    let mut w = WatchLoop::new(750);
    assert_eq!(w.step(WatchEvent::Liveness(true)), WatchAction::Snapshot);
    assert_eq!(w.step(snapshot(&["/lib/libc.so"])), WatchAction::Sleep(750));
    assert_eq!(w.state(), WatchState::Sleeping);
    assert_eq!(w.step(WatchEvent::Woken), WatchAction::Probe);
    assert_eq!(w.state(), WatchState::Probing);
}

#[test]
fn inventory_is_the_union_of_every_poll() {
    let mut w = WatchLoop::new(10);
    w.step(WatchEvent::Liveness(true));
    w.step(snapshot(&["/lib/libc.so", "/lib/libm.so"]));
    w.step(WatchEvent::Woken);
    w.step(WatchEvent::Liveness(true));
    w.step(snapshot(&["/lib/libm.so", "/lib/libz.so"]));
    w.step(WatchEvent::Woken);
    w.step(WatchEvent::Liveness(true));
    w.step(snapshot(&[]));
    w.step(WatchEvent::Woken);
    let action = w.step(WatchEvent::Liveness(false));
    assert_eq!(action, WatchAction::Stop);
    assert_eq!(
        w.into_inventory().to_vec(),
        vec!["/lib/libc.so".to_string(), "/lib/libm.so".to_string(), "/lib/libz.so".to_string()]
    );
}

#[test]
fn a_library_once_seen_stays_after_it_is_unmapped() {
    let mut w = WatchLoop::new(10);
    w.step(WatchEvent::Liveness(true));
    w.step(snapshot(&["/lib/libc.so"]));
    w.step(WatchEvent::Woken);
    w.step(WatchEvent::Liveness(true));
    w.step(snapshot(&[]));
    assert!(w.inventory().contains(&"/lib/libc.so".to_string()));
}

#[test]
fn an_unreadable_map_ends_the_watch_with_what_was_gathered() {
    let mut w = WatchLoop::new(10);
    w.step(WatchEvent::Liveness(true));
    w.step(snapshot(&["/lib/libc.so"]));
    w.step(WatchEvent::Woken);
    w.step(WatchEvent::Liveness(true));
    assert_eq!(w.step(WatchEvent::Snapshot(None)), WatchAction::Stop);
    assert!(w.is_terminated());
    assert_eq!(w.into_inventory().to_vec(), vec!["/lib/libc.so".to_string()]);
}

#[test]
fn an_unreadable_map_on_the_first_poll_gives_an_empty_inventory() {
    let mut w = WatchLoop::new(0);
    w.step(WatchEvent::Liveness(true));
    assert_eq!(w.step(WatchEvent::Snapshot(None)), WatchAction::Stop);
    assert!(w.into_inventory().is_empty());
}

#[test]
fn events_that_are_not_awaited_change_nothing() {
    let mut w = WatchLoop::new(10);
    assert_eq!(w.step(snapshot(&["/lib/libc.so"])), WatchAction::Probe);
    assert_eq!(w.step(WatchEvent::Woken), WatchAction::Probe);
    assert_eq!(w.step(WatchEvent::Snapshot(None)), WatchAction::Probe);
    assert!(w.inventory().is_empty());
    w.step(WatchEvent::Liveness(true));
    assert_eq!(w.step(WatchEvent::Liveness(false)), WatchAction::Snapshot);
    assert_eq!(w.step(WatchEvent::Woken), WatchAction::Snapshot);
    w.step(snapshot(&["/lib/libc.so"]));
    assert_eq!(w.step(WatchEvent::Liveness(false)), WatchAction::Sleep(10));
    assert_eq!(w.step(snapshot(&["/lib/libm.so"])), WatchAction::Sleep(10));
    assert_eq!(w.inventory().to_vec(), vec!["/lib/libc.so".to_string()]);
}

#[test]
fn terminated_is_absorbing() {
    let mut w = WatchLoop::new(10);
    w.step(WatchEvent::Liveness(false));
    for _ in 0..3 {
        assert_eq!(w.step(WatchEvent::Liveness(true)), WatchAction::Stop);
        assert_eq!(w.step(snapshot(&["/lib/libc.so"])), WatchAction::Stop);
        assert_eq!(w.step(WatchEvent::Woken), WatchAction::Stop);
    }
    assert_eq!(w.state(), WatchState::Terminated);
    assert!(w.inventory().is_empty());
}

#[test]
fn the_largest_interval_is_passed_on_unchanged() {
    let mut w = WatchLoop::new(u64::MAX);
    w.step(WatchEvent::Liveness(true));
    assert_eq!(w.step(snapshot(&[])), WatchAction::Sleep(u64::MAX));
}

#[test]
fn a_driver_that_follows_the_actions_ends_when_the_target_dies() {
    let polls: Vec<Vec<&str>> = vec![vec!["/a.so"], vec!["/a.so", "/b.so"], vec!["/c.so", "/notes.txt"]];
    let mut w = WatchLoop::new(5);
    let mut next_poll = 0;
    let mut probes = 0;
    let mut snapshots = 0;
    let mut slept = 0u64;
    loop {
        let event = match w.action() {
            WatchAction::Probe => {
                probes += 1;
                WatchEvent::Liveness(next_poll < polls.len())
            }
            WatchAction::Snapshot => {
                snapshots += 1;
                let e = snapshot(&polls[next_poll]);
                next_poll += 1;
                e
            }
            WatchAction::Sleep(ms) => {
                slept += ms;
                WatchEvent::Woken
            }
            WatchAction::Stop => break,
        };
        w.step(event);
    }
    assert_eq!(probes, 4);
    assert_eq!(snapshots, 3);
    assert_eq!(slept, 15);
    assert_eq!(
        w.into_inventory().to_vec(),
        vec!["/a.so".to_string(), "/b.so".to_string(), "/c.so".to_string()]
    );
}
