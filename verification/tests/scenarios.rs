use std::sync::{Arc, Mutex};
use throughput::counter::Counter;
use throughput::handlers::{hit, push};
use throughput::resetter::{Action, Resetter, TimerEvent};

#[test]
fn five_hits_then_push_then_reset() {
    let mut counter = Counter::new();
    let mut resetter = Resetter::new();
    assert_eq!(counter.read(), 0);

    for _ in 0..5 {
        let reply = hit(&mut counter);
        assert_eq!(reply.status, 200);
        assert_eq!(reply.body, "");
    }
    assert_eq!(counter.read(), 5);

    let event = push(&counter);
    assert_eq!(event.name, "throughput");
    assert_eq!(event.data, "5");

    let action = resetter.step(&mut counter, TimerEvent::Tick { now: 1_600_000_060 });
    let line = match action {
        Action::Emit(report) => {
            assert_eq!(report.throughput, 5);
            report.log_line()
        }
        Action::Stop => panic!("the resetter stopped on a tick"),
    };
    assert_eq!(line, "1600000060: 5");
    assert_eq!(counter.read(), 0);
}

#[test]
fn hundred_hits_from_distinct_callers_are_all_counted() {
    let shared = Arc::new(Mutex::new(Counter::new()));
    let callers: Vec<Arc<Mutex<Counter>>> = (0..100).map(|_| Arc::clone(&shared)).collect();
    for caller in callers.iter().rev() {
        let mut counter = caller.lock().unwrap();
        assert_eq!(hit(&mut counter).status, 200);
    }
    assert_eq!(shared.lock().unwrap().read(), 100);
}

#[test]
fn hits_around_a_reset_land_on_one_side() {
    let shared = Arc::new(Mutex::new(Counter::new()));
    let callers: Vec<Arc<Mutex<Counter>>> = (0..64).map(|_| Arc::clone(&shared)).collect();
    let mut resetter = Resetter::new();
    let mut drained = 0;
    for (turn, caller) in callers.iter().enumerate() {
        if turn == 23 {
            let mut counter = shared.lock().unwrap();
            drained = match resetter.step(&mut counter, TimerEvent::Tick { now: 60 }) {
                Action::Emit(report) => report.throughput,
                Action::Stop => panic!("the resetter stopped on a tick"),
            };
        }
        hit(&mut caller.lock().unwrap());
    }
    let remaining = shared.lock().unwrap().read();
    assert_eq!(drained, 23);
    assert_eq!(remaining, 41);
    assert_eq!(drained + remaining, 64);
}
