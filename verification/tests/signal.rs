use kernel_core::signal::{SignalTable, MAX_SIGNALS};

#[test]
fn new_table_has_no_handlers() {
    let mut t: SignalTable<u32> = SignalTable::new();
    for sig in 0..MAX_SIGNALS {
        assert_eq!(t.raise(sig), None);
    }
    assert!(t.take_pending().iter().all(|h| h.is_none()));
}

#[test]
fn raise_returns_the_registered_handler() {
    let mut t: SignalTable<u32> = SignalTable::new();
    t.register(1, 10);
    t.register(31, 20);
    assert_eq!(t.raise(1), Some(10));
    assert_eq!(t.raise(31), Some(20));
    assert_eq!(t.raise(2), None);
    t.register(1, 11);
    assert_eq!(t.raise(1), Some(11));
}

#[test]
fn out_of_range_signals_are_ignored() {
    let mut t: SignalTable<u32> = SignalTable::new();
    t.register(32, 5);
    t.register(1000, 5);
    assert_eq!(t.raise(32), None);
    t.schedule(32);
    t.schedule(usize::MAX);
    assert!(t.take_pending().iter().all(|h| h.is_none()));
}

#[test]
fn scheduled_signal_is_delivered_once() {
    let mut t: SignalTable<u32> = SignalTable::new();
    t.register(1, 7);
    t.register(2, 8);
    t.schedule(1);
    let run = t.take_pending();
    assert_eq!(run[1], Some(7));
    assert_eq!(run[2], None);
    assert_eq!(run.iter().filter(|h| h.is_some()).count(), 1);
    let again = t.take_pending();
    assert!(again.iter().all(|h| h.is_none()));
    // the handler stays registered
    assert_eq!(t.raise(1), Some(7));
}

#[test]
fn scheduling_twice_delivers_once() {
    let mut t: SignalTable<u32> = SignalTable::new();
    t.register(4, 44);
    t.schedule(4);
    t.schedule(4);
    let run = t.take_pending();
    assert_eq!(run[4], Some(44));
    assert!(t.take_pending().iter().all(|h| h.is_none()));
}

#[test]
fn pending_signal_without_handler_delivers_nothing() {
    let mut t: SignalTable<u32> = SignalTable::new();
    t.schedule(3);
    let run = t.take_pending();
    assert_eq!(run[3], None);
    // registering afterwards does not revive the consumed signal
    t.register(3, 1);
    assert!(t.take_pending().iter().all(|h| h.is_none()));
}

#[test]
fn handler_registered_before_delivery_is_used() {
    let mut t: SignalTable<u32> = SignalTable::new();
    t.schedule(5);
    t.register(5, 55);
    assert_eq!(t.take_pending()[5], Some(55));
}

fn answer() -> u32 {
    42
}

#[test]
fn function_pointer_handlers_can_be_run() {
    let mut t: SignalTable<fn() -> u32> = SignalTable::new();
    t.register(1, answer);
    t.schedule(1);
    let ran: Vec<u32> = t.take_pending().iter().flatten().map(|h| h()).collect();
    assert_eq!(ran, vec![42]);
}
