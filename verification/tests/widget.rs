use relmation::Animation;
use std::time::Duration;

struct Model {
    counter: i32,
}

enum Msg {
    Start,
    Show(i32),
    Quit,
}

fn update(event: Msg, model: &mut Model) {
    match event {
        Msg::Show(n) => model.counter = n,
        Msg::Start => (),
        Msg::Quit => (),
    }
}

#[test]
fn animation() {
    let mut model = Model { counter: 0 };
    update(Msg::Start, &mut model);
    let animation = Animation::new(|p| Msg::Show(p))
        .from(10)
        .to(20)
        .duration(Duration::from_secs(10));
    let mut state = animation.state();
    if let Some(msg) = animation.next_message(&mut state) {
        update(msg, &mut model);
    }
    assert_eq!(model.counter.to_string(), 10.to_string());
    update(Msg::Quit, &mut model);
    assert_eq!(model.counter, 10);
}

#[test]
fn messages_until_the_animation_is_done() {
    let mut model = Model { counter: 0 };
    let animation = Animation::new(|p| Msg::Show(p))
        .from(10)
        .to(20)
        .duration(Duration::from_secs(10));
    let mut state = animation.state();
    let mut sent = 0;
    for k in 0..15u64 {
        match animation.next_message_at(&mut state, Duration::from_secs(k)) {
            Some(msg) => {
                update(msg, &mut model);
                sent += 1;
                assert_eq!(model.counter, 10 + k as i32);
            }
            None => assert_eq!(model.counter, 20),
        }
    }
    assert_eq!(sent, 11);
}

#[test]
fn a_run_that_is_done_sends_nothing() {
    let animation = Animation::new(|p: i32| p + 100)
        .from(0)
        .to(3)
        .duration(Duration::from_millis(3));
    let mut state = animation.state();
    assert_eq!(animation.next_message_at(&mut state, Duration::from_millis(0)), Some(100));
    assert_eq!(animation.next_message_at(&mut state, Duration::from_millis(2)), Some(102));
    assert_eq!(animation.next_message_at(&mut state, Duration::from_millis(3)), Some(103));
    assert!(state.is_done());
    assert_eq!(animation.next_message_at(&mut state, Duration::from_millis(4)), None);
    assert_eq!(animation.next_message(&mut state), None);
    assert_eq!(state.current(), 3);
}
