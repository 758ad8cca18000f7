use relmation::time::checked_millisecond;
use relmation::to_millisecond;
use relmation::Animation;
use relmation::Loop;
use std::time::Duration;

enum Msg {
    M(i32),
}

#[test]
fn it_works() {
    Animation::new(|p| Msg::M(p)).from(10).to(20);
}

#[test]
fn defaults() {
    let animation = Animation::new(|p: i32| Msg::M(p));
    assert_eq!(animation.start_delay(), Duration::from_secs(0));
    assert_eq!(animation.frame(), Duration::from_millis(16));
    assert!(animation.is_runnable());
    let mut state = animation.state();
    assert_eq!(state.current(), 0);
    assert_eq!(state.remaining_loops(), 1);
    assert!(!state.is_done());
    state.update_at(Duration::from_secs(0));
    assert_eq!(state.update_at(Duration::from_millis(999)), 0);
    assert_eq!(state.update_at(Duration::from_millis(1000)), 1);
    assert!(state.is_done());
}

#[test]
fn the_callback_maps_values_to_messages() {
    let animation = Animation::new(|p: i32| Msg::M(p + 1)).from(10).to(20);
    match animation.notify(14) {
        Msg::M(n) => assert_eq!(n, 15),
    }
    match (animation.callback())(20) {
        Msg::M(n) => assert_eq!(n, 21),
    }
}

#[test]
fn setters_change_one_part_each() {
    let animation = Animation::new(|p: i32| p)
        .delay(Duration::from_millis(250))
        .duration(Duration::from_secs(4))
        .from(100)
        .to(500)
        .recur(2usize);
    assert_eq!(animation.start_delay(), Duration::from_millis(250));
    assert_eq!(animation.frame(), Duration::from_millis(16));
    let mut state = animation.state();
    assert_eq!(state.current(), 100);
    assert_eq!(state.remaining_loops(), 2);
    state.update_at(Duration::from_secs(0));
    assert_eq!(state.update_at(Duration::from_secs(1)), 200);
}

#[test]
fn the_order_of_the_setters_is_immaterial() {
    let one = Animation::new(|p: i32| p)
        .from(10)
        .to(20)
        .delay(Duration::from_millis(5))
        .duration(Duration::from_secs(10))
        .recur(2usize);
    let other = Animation::new(|p: i32| p)
        .recur(2usize)
        .duration(Duration::from_secs(10))
        .delay(Duration::from_millis(5))
        .to(20)
        .from(10);
    assert_eq!(one.start_delay(), other.start_delay());
    assert_eq!(one.frame(), other.frame());
    let mut a = one.state();
    let mut b = other.state();
    for k in 0..30u64 {
        let now = Duration::from_millis(700 * k);
        assert_eq!(a.on_tick_at(now), b.on_tick_at(now));
        assert_eq!(a.is_done(), b.is_done());
        assert_eq!(a.remaining_loops(), b.remaining_loops());
    }
    assert!(a.is_done());
}

#[test]
fn a_clone_says_the_same() {
    let animation = Animation::new(|p: i32| p * 2).from(1).to(9).duration(Duration::from_secs(8));
    let copy = animation.clone();
    assert_eq!(copy.notify(4), 8);
    let mut a = animation.state();
    let mut b = copy.state();
    a.update_at(Duration::from_secs(0));
    b.update_at(Duration::from_secs(0));
    assert_eq!(a.update_at(Duration::from_secs(3)), 4);
    assert_eq!(b.update_at(Duration::from_secs(3)), 4);
}

#[test]
fn what_cannot_run() {
    let base = || Animation::new(|p: i32| p).from(10).to(20).duration(Duration::from_secs(1));
    assert!(base().is_runnable());
    assert!(!base().to(10).is_runnable());
    assert!(!base().to(9).is_runnable());
    assert!(!base().duration(Duration::from_secs(0)).is_runnable());
    assert!(!base().duration(Duration::new(0, 999_999)).is_runnable());
    assert!(base().duration(Duration::new(0, 1_000_000)).is_runnable());
    assert!(!base().duration(Duration::MAX).is_runnable());
    assert!(!base().recur(0usize).is_runnable());
    assert!(base().recur(1usize).is_runnable());
    assert!(base().recur(true).is_runnable());
    assert!(base().recur(false).is_runnable());
    assert!(!base().from(i32::MIN).to(i32::MAX).is_runnable());
    assert!(base().from(-1).to(i32::MAX - 1).is_runnable());
    assert!(!base().from(-1).to(i32::MAX).is_runnable());
}

#[test]
fn loop_from_a_flag_or_a_count() {
    assert_eq!(Loop::from(true), Loop::Infinite);
    assert_eq!(Loop::from(false), Loop::N(1));
    assert_eq!(Loop::from(7usize), Loop::N(7));
    assert_eq!(Loop::from(0usize), Loop::N(0));
    let converted: Loop = true.into();
    assert_eq!(converted, Loop::Infinite);
}

#[test]
fn loop_is_infinite() {
    assert!(Loop::Infinite.is_infinite());
    assert!(!Loop::N(1).is_infinite());
    assert!(!Loop::N(0).is_infinite());
    assert!(Loop::Infinite.is_wf());
    assert!(Loop::N(1).is_wf());
    assert!(!Loop::N(0).is_wf());
}

#[test]
fn milliseconds_of_a_span() {
    assert_eq!(to_millisecond(Duration::from_secs(0)), 0);
    assert_eq!(to_millisecond(Duration::from_secs(10)), 10_000);
    assert_eq!(to_millisecond(Duration::new(1, 500_000_000)), 1_500);
    assert_eq!(to_millisecond(Duration::new(2, 999_999)), 2_000);
    assert_eq!(to_millisecond(Duration::new(2, 999_999_999)), 2_999);
    assert_eq!(to_millisecond(Duration::from_millis(16)), 16);
    assert_eq!(to_millisecond(Duration::new(18_446_744_073_709_551, 615_999_999)), u64::MAX);
}

#[test]
fn milliseconds_that_do_not_fit() {
    assert_eq!(checked_millisecond(Duration::new(3, 141_592_653)), Some(3_141));
    assert_eq!(checked_millisecond(Duration::new(18_446_744_073_709_551, 615_999_999)), Some(u64::MAX));
    assert_eq!(checked_millisecond(Duration::new(18_446_744_073_709_551, 616_000_000)), None);
    assert_eq!(checked_millisecond(Duration::MAX), None);
}
