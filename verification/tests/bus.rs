use tltoolbox::bus::{delivered, AppEvent, EventBus, TrayAction, DEFAULT_CHANNEL_CAPACITY};
use tokio::sync::broadcast::error::{RecvError, TryRecvError};

fn status_event(running: bool) -> AppEvent {
    AppEvent::ModuleStatusChanged {
        id: "popup_blocker".into(),
        is_running: running,
    }
}

fn run<F: std::future::Future>(task: F) -> F::Output {
    tokio::runtime::Builder::new_current_thread()
        .build()
        .unwrap()
        .block_on(task)
}

#[test]
fn default_capacity_is_sane() {
    assert!(DEFAULT_CHANNEL_CAPACITY >= 16);
}

#[test]
fn publish_reaches_single_subscriber() {
    let bus = EventBus::new(8);
    let mut rx = bus.subscribe();
    assert_eq!(bus.publish(status_event(true)), 1, "应送达 1 个订阅者");
    match run(rx.recv()) {
        Ok(AppEvent::ModuleStatusChanged { is_running, .. }) => assert!(is_running),
        other => panic!("收到意外事件: {other:?}"),
    }
}

#[test]
fn publish_fans_out_to_all_subscribers() {
    let bus = EventBus::new(8);
    let mut rx1 = bus.subscribe();
    let mut rx2 = bus.subscribe();
    assert_eq!(bus.publish(status_event(false)), 2, "应送达全部 2 个订阅者");
    assert_eq!(run(rx1.recv()).unwrap(), status_event(false));
    assert_eq!(run(rx2.recv()).unwrap(), status_event(false));
}

#[test]
fn cloned_bus_shares_the_same_channel() {
    let bus = EventBus::new(8);
    let bus_clone = bus.clone();
    let mut rx = bus.subscribe();
    bus_clone.publish(status_event(true));
    assert_eq!(run(rx.recv()).unwrap(), status_event(true));
}

#[test]
fn publish_without_subscribers_drops_event_quietly() {
    let bus = EventBus::new(8);
    assert_eq!(bus.publish(status_event(true)), 0);
}

#[test]
fn lagging_subscriber_receives_lagged_notice() {
    let bus = EventBus::new(2);
    let mut rx = bus.subscribe();
    bus.publish(status_event(true));
    bus.publish(status_event(false));
    bus.publish(status_event(true));
    match run(rx.recv()) {
        Err(RecvError::Lagged(skipped)) => assert_eq!(skipped, 1),
        other => panic!("慢订阅者应收到 Lagged 提示，实际: {other:?}"),
    }
    assert_eq!(run(rx.recv()).unwrap(), status_event(false));
    assert_eq!(run(rx.recv()).unwrap(), status_event(true));
}

#[test]
fn default_bus_holds_its_capacity_without_loss() {
    let bus = EventBus::default();
    let mut rx = bus.subscribe();
    for _ in 0..DEFAULT_CHANNEL_CAPACITY {
        bus.publish(AppEvent::TrayAction(TrayAction::ShowWindow));
    }
    for _ in 0..DEFAULT_CHANNEL_CAPACITY {
        assert_eq!(
            rx.try_recv(),
            Ok(AppEvent::TrayAction(TrayAction::ShowWindow))
        );
    }
    assert_eq!(rx.try_recv(), Err(TryRecvError::Empty));
}

#[test]
fn delivered_counts_subscribers_or_nobody() {
    assert_eq!(delivered(&Ok(3)), 3);
    assert_eq!(delivered(&Err(status_event(true))), 0);
}

#[test]
fn events_are_cloned_as_they_are() {
    let events = vec![
        status_event(true),
        AppEvent::AppLogAppended {
            level: "WARN".into(),
            message: "x".into(),
        },
        AppEvent::TrayAction(TrayAction::ToggleAllModules(false)),
        AppEvent::ToastRequested("t".into()),
    ];
    for event in &events {
        assert_eq!(event.clone(), *event);
    }
}

#[test]
fn capacity_is_rounded_up_to_a_power_of_two() {
    let bus = EventBus::new(3);
    let mut rx = bus.subscribe();
    for _ in 0..4 {
        assert_eq!(bus.publish(status_event(true)), 1);
    }
    for _ in 0..4 {
        assert_eq!(rx.try_recv(), Ok(status_event(true)));
    }
    for _ in 0..5 {
        bus.publish(status_event(false));
    }
    assert_eq!(rx.try_recv(), Err(TryRecvError::Lagged(1)));
}
