use istat::context::{
    paginate, BarEvent, DelayWait, EventRouter, I3Button, I3ClickEvent, SleepWait,
};

fn click(button: I3Button, instance: Option<&str>) -> BarEvent {
    BarEvent::Click(I3ClickEvent { button, instance: instance.map(String::from) })
}

#[test]
fn paginate_cycles_forward_and_backward() {
    let forward = click(I3Button::Left, None);
    let backward = click(I3Button::Right, None);

    let mut idx: usize = 0;
    paginate(&forward, 3, &mut idx);
    assert_eq!(idx, 1);
    paginate(&forward, 3, &mut idx);
    assert_eq!(idx, 2);
    paginate(&forward, 3, &mut idx);
    assert_eq!(idx, 0);

    let mut idx: usize = 0;
    paginate(&backward, 3, &mut idx);
    assert_eq!(idx, 2);

    // scroll directions page too; a middle click changes nothing
    let mut idx: usize = 0;
    paginate(&click(I3Button::ScrollDown, None), 3, &mut idx);
    assert_eq!(idx, 1);
    paginate(&click(I3Button::ScrollUp, None), 3, &mut idx);
    assert_eq!(idx, 0);
    paginate(&click(I3Button::Middle, None), 3, &mut idx);
    assert_eq!(idx, 0);
}

#[test]
fn router_delivers_to_addressed_slot_only() {
    let mut router = EventRouter::new(3);
    assert!(router.route(click(I3Button::Left, Some("2"))));
    assert!(router.next_event(0).is_none());
    assert!(router.next_event(1).is_none());
    let got = router.next_event(2);
    assert!(matches!(got, Some(BarEvent::Click(_))));
    assert!(router.next_event(2).is_none());
}

#[test]
fn router_drops_unroutable_events() {
    let mut router = EventRouter::new(3);
    assert!(!router.route(click(I3Button::Left, Some("9"))));
    assert!(!router.route(click(I3Button::Left, Some("x"))));
    assert!(!router.route(click(I3Button::Left, Some(""))));
    assert!(!router.route(click(I3Button::Left, None)));
    assert!(router.next_event(0).is_none());
    assert!(router.next_event(1).is_none());
    assert!(router.next_event(2).is_none());
}

#[test]
fn router_keeps_per_slot_order() {
    let mut router = EventRouter::new(2);
    assert!(router.route(click(I3Button::Left, Some("1"))));
    assert!(router.route(click(I3Button::Right, Some("1"))));
    let first = router.next_event(1).unwrap();
    let second = router.next_event(1).unwrap();
    assert!(matches!(first, BarEvent::Click(I3ClickEvent { button: I3Button::Left, .. })));
    assert!(matches!(second, BarEvent::Click(I3ClickEvent { button: I3Button::Right, .. })));
}

#[test]
fn delay_without_events_acts_as_plain_timer() {
    let mut delay = DelayWait::begin(100);
    let mut sleep = SleepWait::begin(100);
    for ms in [40u64, 30, 20] {
        delay.tick(ms);
        sleep.tick(ms);
        assert_eq!(delay.elapsed_ms, sleep.elapsed_ms);
        assert_eq!(delay.is_complete(), sleep.is_complete());
    }
    assert!(!delay.is_complete());
    delay.tick(10);
    sleep.tick(10);
    assert!(delay.is_complete() && sleep.is_complete());
    assert!(delay.handled.is_empty());
}

#[test]
fn delay_handles_events_without_resetting_timer() {
    let mut delay = DelayWait::begin(100);
    delay.tick(60);
    delay.deliver(click(I3Button::Left, Some("0")));
    assert_eq!(delay.elapsed_ms, 60);
    assert!(!delay.is_complete());
    delay.tick(40);
    assert!(delay.is_complete());
    assert_eq!(delay.handled.len(), 1);
}
