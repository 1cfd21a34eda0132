//! The protocol lifecycle middleware.
//!
//! It guards the phases of a language-server connection: uninitialized,
//! initializing, ready and shutting down. Requests out of phase are
//! rejected, notifications out of phase are dropped, and `exit` always ends
//! the serving loop.
use vstd::prelude::*;

verus! {

/// The phase of the connection.
#[derive(Clone, Copy, Debug, PartialEq, Eq, Structural)]
pub enum StateEnum {
    Uninitialized,
    Initializing,
    Ready,
    ShuttingDown,
}

/// The middleware's state: before initialization it holds what builds the
/// service, afterwards the service itself.
#[derive(Debug)]
pub enum State<Args, S> {
    Uninitialized(Option<Box<Args>>),
    Initializing(S),
    Ready(S),
    ShuttingDown,
}

/// The kind of an incoming request, as far as the middleware is concerned.
#[derive(Clone, Copy, Debug, PartialEq, Eq, Structural)]
pub enum RequestKind {
    Initialize,
    Shutdown,
    Other,
}

/// The kind of an incoming notification, as far as the middleware is concerned.
#[derive(Clone, Copy, Debug, PartialEq, Eq, Structural)]
pub enum NotificationKind {
    Initialized,
    Exit,
    Other,
}

/// Why a request was turned away.
#[derive(Clone, Copy, Debug, PartialEq, Eq, Structural)]
pub enum Rejection {
    /// The handshake has not completed.
    NotInitialized,
    /// An initialization request after the first one.
    AlreadyInitialized,
    /// The connection is shutting down.
    ShuttingDown,
}

/// What the middleware does with a request.
#[derive(Clone, Copy, Debug, PartialEq, Eq, Structural)]
pub enum Decision {
    /// Build the service from the held arguments and hand it the request.
    Initialize,
    /// Hand the request to the service.
    Forward,
    /// Hand the request to the service, which then leaves the middleware.
    ForwardLast,
    /// Answer with an error.
    Reject(Rejection),
}

/// What a request turned into.
pub enum CallRoute<S> {
    /// The service was built and has taken the request.
    Initialized,
    /// The request goes to the service, reached through `service`.
    Forward,
    /// The shutdown request goes to this service, which the middleware no longer
    /// holds.
    ForwardLast(S),
    /// The request is answered with an error.
    Rejected(Rejection),
}

/// How the serving loop goes on after a notification.
#[derive(Clone, Copy, Debug, PartialEq, Eq, Structural)]
pub enum Flow {
    Continue,
    /// The loop ends normally.
    Exit,
    /// The loop ends with a protocol error, naming the phase it came in.
    Fail(StateEnum),
}

/// What the middleware does with a notification: whether the service is handed
/// it, and how the loop goes on afterwards.
#[derive(Clone, Copy, Debug, PartialEq, Eq, Structural)]
pub struct NotifyRoute {
    pub forward: bool,
    pub flow: Flow,
}

pub open spec fn phase_of<Args, S>(s: State<Args, S>) -> StateEnum {
    match s {
        State::Uninitialized(_) => StateEnum::Uninitialized,
        State::Initializing(_) => StateEnum::Initializing,
        State::Ready(_) => StateEnum::Ready,
        State::ShuttingDown => StateEnum::ShuttingDown,
    }
}

/// Whether the phase has a service to hand messages to.
pub open spec fn has_service(p: StateEnum) -> bool {
    p == StateEnum::Initializing || p == StateEnum::Ready
}

/// The middleware's decision on a request of kind `kind` in phase `p`;
/// `has_args` tells whether the arguments that build the service are
/// still held.
pub open spec fn request_decision(p: StateEnum, has_args: bool, kind: RequestKind) -> Decision {
    match (p, kind) {
        (StateEnum::Uninitialized, RequestKind::Initialize) => if has_args {
            Decision::Initialize
        } else {
            Decision::Reject(Rejection::AlreadyInitialized)
        },
        (_, RequestKind::Initialize) => Decision::Reject(Rejection::AlreadyInitialized),
        (StateEnum::Uninitialized, _) => Decision::Reject(Rejection::NotInitialized),
        (StateEnum::Initializing, _) => Decision::Reject(Rejection::NotInitialized),
        (StateEnum::Ready, RequestKind::Shutdown) => Decision::ForwardLast,
        (StateEnum::Ready, _) => Decision::Forward,
        (StateEnum::ShuttingDown, _) => Decision::Reject(Rejection::ShuttingDown),
    }
}

/// The phase after a request with decision `d` in phase `p`.
pub open spec fn phase_after_request(p: StateEnum, d: Decision) -> StateEnum {
    match d {
        Decision::Initialize => StateEnum::Initializing,
        Decision::ForwardLast => StateEnum::ShuttingDown,
        _ => p,
    }
}

/// The middleware's handling of a notification of kind `kind` in phase `p`.
pub open spec fn notify_route(p: StateEnum, kind: NotificationKind) -> NotifyRoute {
    match kind {
        NotificationKind::Exit => NotifyRoute { forward: has_service(p), flow: Flow::Exit },
        NotificationKind::Initialized => if p == StateEnum::Initializing {
            NotifyRoute { forward: true, flow: Flow::Continue }
        } else {
            NotifyRoute { forward: false, flow: Flow::Fail(p) }
        },
        NotificationKind::Other => NotifyRoute {
            forward: p == StateEnum::Ready,
            flow: Flow::Continue,
        },
    }
}

/// The phase after a notification of kind `kind` in phase `p`.
pub open spec fn phase_after_notify(p: StateEnum, kind: NotificationKind) -> StateEnum {
    if kind == NotificationKind::Initialized && p == StateEnum::Initializing {
        StateEnum::Ready
    } else {
        p
    }
}

pub open spec fn route_decision<S>(r: CallRoute<S>) -> Decision {
    match r {
        CallRoute::Initialized => Decision::Initialize,
        CallRoute::Forward => Decision::Forward,
        CallRoute::ForwardLast(_) => Decision::ForwardLast,
        CallRoute::Rejected(j) => Decision::Reject(j),
    }
}

impl<Args, S> State<Args, S> {
    /// The phase of this state.
    pub fn enum_(&self) -> (r: StateEnum)
        ensures
            r == phase_of(*self),
    {
        match self {
            State::Uninitialized(..) => StateEnum::Uninitialized,
            State::Initializing(..) => StateEnum::Initializing,
            State::Ready(..) => StateEnum::Ready,
            State::ShuttingDown => StateEnum::ShuttingDown,
        }
    }

    /// The service, in the phases that have one.
    pub fn service(&mut self) -> (r: Option<&mut S>)
        ensures
            r is Some <==> has_service(phase_of(*old(self))),
            phase_of(*final(self)) == phase_of(*old(self)),
            r is None ==> *final(self) == *old(self),
            *old(self) matches State::Initializing(s) ==> (r matches Some(x) && *x == s
                && *final(self) == State::<Args, S>::Initializing(*final(x))),
            *old(self) matches State::Ready(s) ==> (r matches Some(x) && *x == s && *final(self)
                == State::<Args, S>::Ready(*final(x))),
    {
        match self {
            State::Initializing(s) => Some(s),
            State::Ready(s) => Some(s),
            _ => None,
        }
    }

    /// The handshake's acknowledgement: initializing becomes ready. In any
    /// other phase nothing changes and the phase comes back as the error.
    pub fn ack_initialized(&mut self) -> (r: Result<(), StateEnum>)
        ensures
            *old(self) matches State::Initializing(s) ==> r is Ok && *final(self) == State::<
                Args,
                S,
            >::Ready(s),
            phase_of(*old(self)) != StateEnum::Initializing ==> r == Err::<(), StateEnum>(
                phase_of(*old(self)),
            ) && *final(self) == *old(self),
    {
        let mut s = State::ShuttingDown;
        std::mem::swap(self, &mut s);
        match s {
            State::Initializing(s) => {
                *self = State::Ready(s);
                Ok(())
            },
            _ => {
                std::mem::swap(self, &mut s);
                Err(self.enum_())
            },
        }
    }
}

/// The middleware that handles the connection's lifecycle.
#[derive(Debug)]
pub struct Lifecycle<Args, S> {
    state: State<Args, S>,
}

impl<Args, S> View for Lifecycle<Args, S> {
    type V = StateEnum;

    closed spec fn view(&self) -> StateEnum {
        phase_of(self.state)
    }
}

impl<Args, S> Lifecycle<Args, S> {
    /// The held state: the arguments that build the service, or the
    /// service itself.
    pub closed spec fn state(&self) -> State<Args, S> {
        self.state
    }

    /// The phase is the one of the held state.
    pub proof fn lemma_view_is_phase(&self)
        ensures
            self@ == phase_of(self.state()),
    {
    }

    /// Whether the arguments that build the service are still held.
    pub open spec fn holds_args(&self) -> bool {
        self.state() matches State::Uninitialized(a) && a is Some
    }

    /// The service that is held, in the phases that have one.
    pub open spec fn held_service(&self) -> Option<S> {
        match self.state() {
            State::Initializing(s) => Some(s),
            State::Ready(s) => Some(s),
            _ => None,
        }
    }

    /// The middleware in the uninitialized phase, holding the service that will
    /// take the initialization request.
    pub fn new(just: Args) -> (r: Self)
        ensures
            r@ == StateEnum::Uninitialized,
            r.holds_args(),
            r.state() matches State::Uninitialized(Some(b)) && *b == just,
    {
        Lifecycle { state: State::Uninitialized(Some(Box::new(just))) }
    }

    /// The middleware in the uninitialized phase, holding what builds the service
    /// from the initialization request.
    pub fn new_staged(args: Args) -> (r: Self)
        ensures
            r@ == StateEnum::Uninitialized,
            r.holds_args(),
            r.state() matches State::Uninitialized(Some(b)) && *b == args,
    {
        Lifecycle { state: State::Uninitialized(Some(Box::new(args))) }
    }

    /// The current phase.
    pub fn phase(&self) -> (r: StateEnum)
        ensures
            r == self@,
    {
        self.state.enum_()
    }

    /// The service, in the phases that have one.
    pub fn service(&mut self) -> (r: Option<&mut S>)
        ensures
            r is Some <==> has_service(old(self)@),
            final(self)@ == old(self)@,
            r is None ==> final(self).state() == old(self).state(),
            old(self).state() matches State::Initializing(s) ==> (r matches Some(x) && *x == s
                && final(self).state() == State::<Args, S>::Initializing(*final(x))),
            old(self).state() matches State::Ready(s) ==> (r matches Some(x) && *x == s
                && final(self).state() == State::<Args, S>::Ready(*final(x))),
    {
        self.state.service()
    }

    /// Takes a request of kind `kind`. An initialization request in the
    /// uninitialized phase builds the service with `init`, which takes the
    /// request. See `request_decision` for the rest.
    pub fn call<I>(&mut self, kind: RequestKind, init: I) -> (r: CallRoute<S>)
        where
            I: FnOnce(Args) -> S,
        requires
            forall|a: Args| init.requires((a,)),
        ensures
            route_decision(r) == request_decision(old(self)@, old(self).holds_args(), kind),
            final(self)@ == phase_after_request(old(self)@, route_decision(r)),
            final(self).holds_args() == (old(self).holds_args() && route_decision(r)
                != Decision::Initialize),
            route_decision(r) == Decision::Initialize ==> (old(self).state() matches State::Uninitialized(
                Some(b),
            ) && final(self).state() matches State::Initializing(s) && init.ensures((*b,), s)),
            route_decision(r) == Decision::Forward ==> final(self).state() == old(self).state(),
            r matches CallRoute::ForwardLast(s) ==> old(self).state() == State::<Args, S>::Ready(s)
                && final(self).state() == State::<Args, S>::ShuttingDown,
            r is Rejected ==> final(self).state() == old(self).state(),
    {
        let mut st = State::ShuttingDown;
        std::mem::swap(&mut self.state, &mut st);
        match (st, kind) {
            (State::Uninitialized(Some(args)), RequestKind::Initialize) => {
                let s = init(*args);
                self.state = State::Initializing(s);
                CallRoute::Initialized
            },
            (State::Uninitialized(None), RequestKind::Initialize) => {
                self.state = State::Uninitialized(None);
                CallRoute::Rejected(Rejection::AlreadyInitialized)
            },
            (State::Uninitialized(args), _) => {
                self.state = State::Uninitialized(args);
                CallRoute::Rejected(Rejection::NotInitialized)
            },
            (State::Initializing(s), RequestKind::Initialize) => {
                self.state = State::Initializing(s);
                CallRoute::Rejected(Rejection::AlreadyInitialized)
            },
            (State::Initializing(s), _) => {
                self.state = State::Initializing(s);
                CallRoute::Rejected(Rejection::NotInitialized)
            },
            (State::Ready(s), RequestKind::Initialize) => {
                self.state = State::Ready(s);
                CallRoute::Rejected(Rejection::AlreadyInitialized)
            },
            (State::Ready(s), RequestKind::Shutdown) => CallRoute::ForwardLast(s),
            (State::Ready(s), RequestKind::Other) => {
                self.state = State::Ready(s);
                CallRoute::Forward
            },
            (State::ShuttingDown, RequestKind::Initialize) => CallRoute::Rejected(
                Rejection::AlreadyInitialized,
            ),
            (State::ShuttingDown, _) => CallRoute::Rejected(Rejection::ShuttingDown),
        }
    }

    /// Takes a notification of kind `kind`: see `notify_route`. The
    /// acknowledgement of the handshake moves initializing to ready.
    pub fn notify(&mut self, kind: NotificationKind) -> (r: NotifyRoute)
        ensures
            r == notify_route(old(self)@, kind),
            final(self)@ == phase_after_notify(old(self)@, kind),
            final(self).holds_args() == old(self).holds_args(),
            final(self).held_service() == old(self).held_service(),
            kind == NotificationKind::Initialized ==> (old(self).state() matches State::Initializing(
                s,
            ) ==> final(self).state() == State::<Args, S>::Ready(s)),
            !(kind == NotificationKind::Initialized && old(self)@ == StateEnum::Initializing)
                ==> final(self).state() == old(self).state(),
    {
        match kind {
            NotificationKind::Exit => {
                let p = self.state.enum_();
                let forward = p == StateEnum::Initializing || p == StateEnum::Ready;
                NotifyRoute { forward, flow: Flow::Exit }
            },
            NotificationKind::Initialized => match self.state.ack_initialized() {
                Ok(()) => NotifyRoute { forward: true, flow: Flow::Continue },
                Err(p) => NotifyRoute { forward: false, flow: Flow::Fail(p) },
            },
            NotificationKind::Other => {
                let forward = self.state.enum_() == StateEnum::Ready;
                NotifyRoute { forward, flow: Flow::Continue }
            },
        }
    }

    /// Whether other events reach the service: only in the phases that
    /// have one.
    pub fn emits(&self) -> (r: bool)
        ensures
            r == has_service(self@),
    {
        match self.state {
            State::Initializing(_) | State::Ready(_) => true,
            _ => false,
        }
    }
}

/// The lifecycle middleware: a request other than initialization is refused as
/// not initialized before the handshake completes and reaches the service
/// once ready; every request after shutdown is refused; `exit` ends the
/// loop in every phase; other notifications reach the service only once
/// ready, and are dropped before and after.
pub proof fn lemma_lifecycle_phases(p: StateEnum, has_args: bool)
    ensures
        (p == StateEnum::Uninitialized || p == StateEnum::Initializing) ==> request_decision(
            p,
            has_args,
            RequestKind::Other,
        ) == Decision::Reject(Rejection::NotInitialized),
        request_decision(StateEnum::Ready, has_args, RequestKind::Other) == Decision::Forward,
        forall|k: RequestKind|
            #[trigger] request_decision(StateEnum::ShuttingDown, has_args, k) is Reject,
        notify_route(p, NotificationKind::Exit).flow == Flow::Exit,
        notify_route(p, NotificationKind::Other).forward <==> p == StateEnum::Ready,
{
}

/// Builds a `Lifecycle` around a service.
#[derive(Clone, Copy, Debug)]
#[non_exhaustive]
pub struct LifecycleLayer {}

impl Default for LifecycleLayer {
    fn default() -> (r: Self)
        ensures
            r == (LifecycleLayer {}),
    {
        LifecycleLayer {}
    }
}

impl LifecycleLayer {
    /// The middleware around `inner`, uninitialized.
    pub fn layer<S>(&self, inner: S) -> (r: Lifecycle<S, S>)
        ensures
            r@ == StateEnum::Uninitialized,
            r.holds_args(),
    {
        Lifecycle::new(inner)
    }
}

/// Builds a `Lifecycle` whose service is made from the initialization
/// request.
#[derive(Debug)]
pub struct StagedLifecycleLayer<Args> {
    _private: std::marker::PhantomData<Args>,
}

impl<Args> Default for StagedLifecycleLayer<Args> {
    fn default() -> (r: Self) {
        StagedLifecycleLayer { _private: std::marker::PhantomData }
    }
}

impl<Args> StagedLifecycleLayer<Args> {
    /// The middleware holding `inner`, uninitialized.
    pub fn layer<S>(&self, inner: Args) -> (r: Lifecycle<Args, S>)
        ensures
            r@ == StateEnum::Uninitialized,
            r.holds_args(),
    {
        Lifecycle::new_staged(inner)
    }
}

} // verus!
