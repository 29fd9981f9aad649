use paneru::reactor::{KeventResult, KqueueChange, ReactorStep, Registrations};
use paneru::{Interest, RecvRight};

#[test]
fn interest_is_armed_only_by_a_successful_registration() {
    let port = RecvRight::from_raw(12);
    let mut interest = Interest::new(&port);
    assert_eq!(interest.port(), 12);
    assert!(!interest.needs_disarm());
    assert_eq!(interest.record_arm(Err::<(), &str>("kevent failed")), Err("kevent failed"));
    assert!(!interest.needs_disarm());
    assert_eq!(interest.record_arm(Ok::<(), &str>(())), Ok(()));
    assert!(interest.needs_disarm());
    assert_eq!(interest.record_arm(Err::<(), &str>("again")), Err("again"));
    assert!(interest.needs_disarm());
}

#[test]
fn fired_port_wakes_its_latest_waker_once() {
    let mut regs: Registrations<&str> = Registrations::new();
    regs.insert(5, "first");
    regs.insert(5, "second");
    regs.insert(6, "other");
    match regs.on_kevent(KeventResult::Ready(vec![5, 5, 7])) {
        ReactorStep::Wake(woken) => assert_eq!(woken, vec!["second"]),
        _ => panic!("expected wakers"),
    }
    assert_eq!(regs.remove(5), None);
    assert_eq!(regs.remove(6), Some("other"));
}

#[test]
fn identifier_is_narrowed_to_the_port_name() {
    let mut regs: Registrations<u8> = Registrations::new();
    regs.insert(3, 1);
    match regs.on_kevent(KeventResult::Ready(vec![3])) {
        ReactorStep::Wake(woken) => assert_eq!(woken, vec![1]),
        _ => panic!("expected wakers"),
    }
}

#[test]
fn interruption_changes_nothing_and_failure_wakes_everyone() {
    let mut regs: Registrations<u32> = Registrations::new();
    regs.insert(1, 10);
    regs.insert(2, 20);
    assert!(matches!(regs.on_kevent(KeventResult::Interrupted), ReactorStep::Continue));
    match regs.on_kevent(KeventResult::Failed) {
        ReactorStep::Stop(mut woken) => {
            woken.sort();
            assert_eq!(woken, vec![10, 20]);
        },
        _ => panic!("expected everyone woken"),
    }
    assert_eq!(regs.remove(1), None);
    assert!(regs.drain().is_empty());
}

fn woken(step: ReactorStep<&'static str>) -> Vec<&'static str> {
    match step {
        ReactorStep::Wake(w) => w,
        _ => panic!("expected wakers"),
    }
}

#[test]
fn waker_is_stored_before_arming_and_dropped_on_failure() {
    let mut regs: Registrations<&'static str> = Registrations::new();
    assert_eq!(regs.begin_arm(7, "a"), KqueueChange::AddOneShot(7));
    assert_eq!(regs.finish_arm(7, Ok::<(), &str>(())), Ok(()));
    assert_eq!(regs.begin_arm(8, "b"), KqueueChange::AddOneShot(8));
    assert_eq!(regs.finish_arm(8, Err::<(), &str>("no")), Err("no"));
    assert_eq!(woken(regs.on_kevent(KeventResult::Ready(vec![7, 8]))), vec!["a"]);
}

#[test]
fn disarm_drops_the_waker_then_deletes() {
    let mut regs: Registrations<&'static str> = Registrations::new();
    regs.begin_arm(3, "c");
    assert_eq!(regs.begin_disarm(3), KqueueChange::Delete(3));
    assert_eq!(woken(regs.on_kevent(KeventResult::Ready(vec![3]))), Vec::<&str>::new());
}
