//! Small helpers shared by the server modules.
use vstd::prelude::*;

verus! {

/// A value that is either still waiting for initialization or ready.
pub enum TwoStage<Uninit, Inited> {
    Uninit(Uninit),
    Inited(Inited),
}

impl<Uninit, Inited> TwoStage<Uninit, Inited> {
    pub open spec fn is_inited(&self) -> bool {
        self is Inited
    }

    /// The initialized value; only available once initialization is done.
    pub fn inited(&self) -> (r: &Inited)
        requires
            self.is_inited(),
        ensures
            *r == self->Inited_0,
    {
        match self {
            TwoStage::Inited(this) => this,
            TwoStage::Uninit(_) => vstd::pervasive::unreached(),
        }
    }
}

/// Runs `f`, whose body may use `?` on options.
pub fn try_<T, F: FnOnce() -> Option<T>>(f: F) -> (r: Option<T>)
    requires
        f.requires(()),
    ensures
        f.ensures((), r),
{
    f()
}

/// Runs `f`, falling back to `default` when it gives nothing.
pub fn try_or<T, F: FnOnce() -> Option<T>>(f: F, default: T) -> (r: T)
    requires
        f.requires(()),
    ensures
        exists|o: Option<T>|
            f.ensures((), o) && r == match o {
                Some(v) => v,
                None => default,
            },
{
    let o = f();
    match o {
        Some(v) => v,
        None => default,
    }
}

/// Runs `f`, falling back to the type's default value when it gives
/// nothing.
pub fn try_or_default<T: Default, F: FnOnce() -> Option<T>>(f: F) -> (r: T)
    requires
        f.requires(()),
    ensures
        exists|o: Option<T>|
            #![trigger f.ensures((), o)]
            f.ensures((), o) && (o matches Some(v) ==> r == v) && (o is None ==> T::default.ensures(
                (),
                r,
            )),
{
    let o = f();
    match o {
        Some(v) => v,
        None => T::default(),
    }
}

} // verus!
