use edge_actors::link::DynSender;
use edge_actors::timer::Notice;
use edge_actors::timer::Timeout;
use edge_actors::timer::TimerError;
use edge_actors::timer::TimerService;

const ME: DynSender = DynSender { target: 1 };
const OTHER: DynSender = DynSender { target: 2 };

fn notice<K>(registrant: DynSender, key: K) -> Notice<K> {
    Notice { registrant, timeout: Timeout { key } }
}

#[test]
fn the_earlier_deadline_fires_first() {
    let mut timer: TimerService<&str> = TimerService::new();
    assert_eq!(timer.set_timeout(ME, "K1", 3), Ok(()));
    assert_eq!(timer.set_timeout(ME, "K2", 1), Ok(()));
    assert_eq!(timer.next_deadline(), Some(1));
    assert_eq!(timer.advance(1), vec![notice(ME, "K2")]);
    assert_eq!(timer.next_deadline(), Some(3));
    assert_eq!(timer.advance(2), vec![]);
    assert_eq!(timer.advance(3), vec![notice(ME, "K1")]);
    assert_eq!(timer.next_deadline(), None);
}

#[test]
fn timeouts_due_together_come_by_deadline() {
    let mut timer: TimerService<&str> = TimerService::new();
    timer.set_timeout(ME, "K1", 3).unwrap();
    timer.set_timeout(ME, "K2", 1).unwrap();
    timer.set_timeout(ME, "K3", 2).unwrap();
    assert_eq!(timer.advance(10), vec![notice(ME, "K2"), notice(ME, "K3"), notice(ME, "K1")]);
    assert_eq!(timer.now(), 10);
    assert_eq!(timer.pending_count(), 0);
}

#[test]
fn a_timeout_goes_to_the_one_who_registered() {
    let mut timer: TimerService<&str> = TimerService::new();
    timer.set_timeout(ME, "mine", 2).unwrap();
    timer.set_timeout(OTHER, "theirs", 1).unwrap();
    timer.set_timeout(OTHER, "mine", 2).unwrap();
    assert_eq!(
        timer.advance(2),
        vec![notice(OTHER, "theirs"), notice(ME, "mine"), notice(OTHER, "mine")]
    );
}

#[test]
fn a_timeout_fires_once_and_not_before_its_deadline() {
    let mut timer: TimerService<u32> = TimerService::new();
    timer.set_timeout(ME, 7, 5).unwrap();
    assert_eq!(timer.advance(4), vec![]);
    assert_eq!(timer.pending_count(), 1);
    assert_eq!(timer.advance(5), vec![notice(ME, 7)]);
    assert_eq!(timer.advance(5), vec![]);
    assert_eq!(timer.advance(100), vec![]);
}

#[test]
fn equal_deadlines_fire_in_the_order_of_registration() {
    let mut timer: TimerService<&str> = TimerService::new();
    timer.set_timeout(ME, "first", 2).unwrap();
    timer.set_timeout(ME, "second", 2).unwrap();
    timer.set_timeout(ME, "third", 2).unwrap();
    assert_eq!(
        timer.advance(2),
        vec![notice(ME, "first"), notice(ME, "second"), notice(ME, "third")]
    );
}

#[test]
fn a_key_registered_twice_is_reported_twice() {
    let mut timer: TimerService<&str> = TimerService::new();
    timer.set_timeout(ME, "K", 1).unwrap();
    timer.set_timeout(ME, "K", 4).unwrap();
    assert_eq!(timer.advance(1), vec![notice(ME, "K")]);
    assert_eq!(timer.advance(4), vec![notice(ME, "K")]);
}

#[test]
fn deadlines_count_from_the_time_of_registration() {
    let mut timer: TimerService<&str> = TimerService::new();
    assert_eq!(timer.advance(10), vec![]);
    timer.set_timeout(ME, "late", 5).unwrap();
    assert_eq!(timer.next_deadline(), Some(15));
    assert_eq!(timer.advance(14), vec![]);
    assert_eq!(timer.advance(15), vec![notice(ME, "late")]);
}

#[test]
fn time_does_not_run_backwards() {
    let mut timer: TimerService<&str> = TimerService::new();
    assert_eq!(timer.advance(10), vec![]);
    assert_eq!(timer.advance(3), vec![]);
    assert_eq!(timer.now(), 10);
    timer.set_timeout(ME, "now", 0).unwrap();
    assert_eq!(timer.advance(0), vec![notice(ME, "now")]);
}

#[test]
fn a_deadline_that_no_time_can_reach_is_refused() {
    let mut timer: TimerService<&str> = TimerService::new();
    assert_eq!(timer.set_timeout(ME, "last", u64::MAX), Ok(()));
    assert_eq!(timer.advance(1), vec![]);
    assert_eq!(timer.set_timeout(ME, "beyond", u64::MAX), Err(TimerError::DeadlineOutOfRange));
    assert_eq!(timer.set_timeout(ME, "at the end", u64::MAX - 1), Ok(()));
    assert_eq!(timer.pending_count(), 2);
    assert_eq!(timer.advance(u64::MAX), vec![notice(ME, "last"), notice(ME, "at the end")]);
}
