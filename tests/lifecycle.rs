use tinymist::lifecycle::{
    CallRoute, Flow, Lifecycle, LifecycleLayer, NotificationKind, Rejection, RequestKind,
    StagedLifecycleLayer, StateEnum,
};

fn rejected<S>(r: &CallRoute<S>) -> Option<Rejection> {
    match r {
        CallRoute::Rejected(j) => Some(*j),
        _ => None,
    }
}

#[test]
fn requests_before_handshake_are_refused() {
    let mut g: Lifecycle<u32, u32> = Lifecycle::new(7);
    let r = g.call(RequestKind::Other, |a| a + 1);
    assert_eq!(rejected(&r), Some(Rejection::NotInitialized));
    let r = g.call(RequestKind::Initialize, |a| a + 1);
    assert!(matches!(r, CallRoute::Initialized));
    assert_eq!(g.phase(), StateEnum::Initializing);
    assert_eq!(*g.service().unwrap(), 8);
    let r = g.call(RequestKind::Other, |a| a);
    assert_eq!(rejected(&r), Some(Rejection::NotInitialized));
    let r = g.call(RequestKind::Initialize, |a| a);
    assert_eq!(rejected(&r), Some(Rejection::AlreadyInitialized));
}

#[test]
fn requests_after_ready_are_forwarded() {
    let mut g: Lifecycle<u32, u32> = LifecycleLayer::default().layer(1);
    g.call(RequestKind::Initialize, |a| a);
    let n = g.notify(NotificationKind::Initialized);
    assert!(n.forward);
    assert_eq!(n.flow, Flow::Continue);
    assert_eq!(g.phase(), StateEnum::Ready);
    assert!(matches!(g.call(RequestKind::Other, |a| a), CallRoute::Forward));
    assert!(g.emits());
}

#[test]
fn shutdown_then_everything_is_refused() {
    let mut g: Lifecycle<u32, u32> = StagedLifecycleLayer::default().layer(1);
    g.call(RequestKind::Initialize, |a| a * 10);
    g.notify(NotificationKind::Initialized);
    match g.call(RequestKind::Shutdown, |a| a) {
        CallRoute::ForwardLast(s) => assert_eq!(s, 10),
        _ => panic!("expected the service back"),
    }
    assert_eq!(g.phase(), StateEnum::ShuttingDown);
    assert_eq!(rejected(&g.call(RequestKind::Other, |a| a)), Some(Rejection::ShuttingDown));
    assert_eq!(rejected(&g.call(RequestKind::Shutdown, |a| a)), Some(Rejection::ShuttingDown));
    assert_eq!(rejected(&g.call(RequestKind::Initialize, |a| a)), Some(Rejection::AlreadyInitialized));
    let n = g.notify(NotificationKind::Other);
    assert!(!n.forward);
}

#[test]
fn exit_ends_the_loop_in_every_phase() {
    let mut g: Lifecycle<u32, u32> = Lifecycle::new_staged(1);
    let n = g.notify(NotificationKind::Exit);
    assert_eq!(n.flow, Flow::Exit);
    assert!(!n.forward);
    g.call(RequestKind::Initialize, |a| a);
    let n = g.notify(NotificationKind::Exit);
    assert_eq!(n.flow, Flow::Exit);
    assert!(n.forward);
}

#[test]
fn initialized_out_of_phase_fails() {
    let mut g: Lifecycle<u32, u32> = Lifecycle::new(1);
    let n = g.notify(NotificationKind::Initialized);
    assert_eq!(n.flow, Flow::Fail(StateEnum::Uninitialized));
    assert_eq!(g.phase(), StateEnum::Uninitialized);
    let n = g.notify(NotificationKind::Other);
    assert!(!n.forward);
    assert_eq!(n.flow, Flow::Continue);
}

#[test]
fn notifications_before_ready_are_dropped() {
    let mut g: Lifecycle<u32, u32> = Lifecycle::new(1);
    g.call(RequestKind::Initialize, |a| a);
    assert_eq!(g.phase(), StateEnum::Initializing);
    let n = g.notify(NotificationKind::Other);
    assert!(!n.forward);
    assert_eq!(n.flow, Flow::Continue);
    g.notify(NotificationKind::Initialized);
    let n = g.notify(NotificationKind::Other);
    assert!(n.forward);
}
