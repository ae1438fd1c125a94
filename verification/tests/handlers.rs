use throughput::counter::Counter;
use throughput::handlers::{
    hit, push, HitReply, PushEvent, EVENT_NAME, HIT_ROUTE, PUSH_ROUTE, STATUS_OK,
};

#[test]
fn post_test() {
    let mut counter = Counter::new();
    let reply = hit(&mut counter);
    assert_eq!(reply.status, 200);
    assert_eq!(reply.body, "".to_owned());
}

#[test]
fn hit_counts_exactly_once() {
    let mut counter = Counter::new();
    hit(&mut counter);
    assert_eq!(counter.read(), 1);
    hit(&mut counter);
    assert_eq!(counter.read(), 2);
}

#[test]
fn hit_reply_is_the_same_every_time() {
    let mut counter = Counter::new();
    let expected = HitReply { status: STATUS_OK, body: String::new() };
    for _ in 0..3 {
        assert_eq!(hit(&mut counter), expected);
    }
    assert_eq!(counter.read(), 3);
}

#[test]
fn status_ok_is_200() {
    assert_eq!(STATUS_OK, 200);
}

#[test]
fn event_name_is_throughput() {
    assert_eq!(EVENT_NAME, "throughput");
}

#[test]
fn push_on_fresh_counter_reports_zero() {
    let counter = Counter::new();
    let event = push(&counter);
    assert_eq!(event.name, "throughput");
    assert_eq!(event.data, "0");
}

#[test]
fn push_reports_the_value_in_decimal() {
    for k in [1usize, 5, 10, 123, 1000] {
        let mut counter = Counter::new();
        for _ in 0..k {
            hit(&mut counter);
        }
        let event = push(&counter);
        assert_eq!(event, PushEvent { name: "throughput", data: format!("{}", k) });
    }
}

#[test]
fn push_leaves_the_counter_alone() {
    let mut counter = Counter::new();
    hit(&mut counter);
    hit(&mut counter);
    let first = push(&counter);
    let second = push(&counter);
    assert_eq!(first.data, "2");
    assert_eq!(second.data, "2");
    assert_eq!(counter.read(), 2);
}

#[test]
fn routes_are_root_and_sse() {
    assert_eq!(HIT_ROUTE, "/");
    assert_eq!(PUSH_ROUTE, "/sse");
}

#[test]
fn push_reports_the_largest_value() {
    let counter = Counter::holding(usize::MAX);
    assert_eq!(push(&counter).data, format!("{}", usize::MAX));
}
