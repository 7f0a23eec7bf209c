//! The hardware of the case: which components run, and in what order they
//! are updated and shut down.
use vstd::prelude::*;
use crate::utils;

pub mod fan;
pub mod oled;
pub mod rgb;
pub mod system_monitor;
pub mod temperature;

verus! {

/// A refusal from a hardware component's settings.
#[derive(Debug, Clone, Copy, PartialEq, Eq)]
pub enum HardwareError {
    /// The color is not six bytes long once its `#`s are removed.
    InvalidHexColor,
    /// A color channel is not a hexadecimal number.
    InvalidDigit,
}

/// A hardware component.
#[derive(Debug, Clone, Copy, PartialEq, Eq)]
pub enum Component {
    Rgb,
    Oled,
    Fan,
}

/// The components that run: the LEDs, the display, the fan and the
/// temperature monitor, each present once it started.
pub struct HardwareManager<R, O, F, T> {
    pub rgb: Option<R>,
    pub oled: Option<O>,
    pub fan: Option<F>,
    pub temperature: Option<T>,
}

/// Whether a variant with these peripherals has the LEDs and the display.
pub fn wanted_components(peripherals: &[String]) -> (r: (bool, bool))
    ensures
        r.0 == exists|i: int| 0 <= i < peripherals@.len() && #[trigger] peripherals@[i]@ == "ws2812"@,
        r.1 == exists|i: int| 0 <= i < peripherals@.len() && #[trigger] peripherals@[i]@ == "oled"@,
{
    (utils::is_included(peripherals, "ws2812"), utils::is_included(peripherals, "oled"))
}

impl<R, O, F, T> HardwareManager<R, O, F, T> {
    /// The components to update with a new status, in order: the LEDs, the
    /// display, then the fan, which needs a temperature to follow.
    pub fn update(&self) -> (r: Vec<Component>)
        ensures
            r@ == (if self.rgb is Some { seq![Component::Rgb] } else { Seq::empty() })
                + (if self.oled is Some { seq![Component::Oled] } else { Seq::empty() })
                + (if self.fan is Some && self.temperature is Some { seq![Component::Fan] } else { Seq::empty() }),
    {
        let mut v: Vec<Component> = Vec::new();
        if self.rgb.is_some() {
            v.push(Component::Rgb);
        }
        if self.oled.is_some() {
            v.push(Component::Oled);
        }
        if self.fan.is_some() && self.temperature.is_some() {
            v.push(Component::Fan);
        }
        assert(v@ =~= (if self.rgb is Some { seq![Component::Rgb] } else { Seq::empty() })
                + (if self.oled is Some { seq![Component::Oled] } else { Seq::empty() })
                + (if self.fan is Some && self.temperature is Some { seq![Component::Fan] } else { Seq::empty() }));
        v
    }

    /// The present components in shutdown order: the LEDs, the display, the fan.
    pub open spec fn shutdown_order(&self) -> Seq<Component> {
        (if self.rgb is Some { seq![Component::Rgb] } else { Seq::empty() })
            + (if self.oled is Some { seq![Component::Oled] } else { Seq::empty() })
            + (if self.fan is Some { seq![Component::Fan] } else { Seq::empty() })
    }

    /// The components to shut down, in order: the LEDs, the display, the fan.
    pub fn shutdown(&self) -> (r: Vec<Component>)
        ensures
            r@ == self.shutdown_order(),
    {
        let mut v: Vec<Component> = Vec::new();
        if self.rgb.is_some() {
            v.push(Component::Rgb);
        }
        if self.oled.is_some() {
            v.push(Component::Oled);
        }
        if self.fan.is_some() {
            v.push(Component::Fan);
        }
        assert(v@ =~= (if self.rgb is Some { seq![Component::Rgb] } else { Seq::empty() })
                + (if self.oled is Some { seq![Component::Oled] } else { Seq::empty() })
                + (if self.fan is Some { seq![Component::Fan] } else { Seq::empty() }));
        v
    }

    /// Starts a shutdown: every present component is to be shut down, in
    /// shutdown order, and nothing has been tried yet.
    pub fn begin_shutdown(&self) -> (r: ShutdownRun)
        ensures
            r.plan() == self.shutdown_order(),
            r.outcomes() == Seq::<bool>::empty(),
    {
        let plan = self.shutdown();
        ShutdownRun { plan, done: 0, first_failed: None, outcomes: Ghost(Seq::empty()) }
    }
}

/// The index of the first failed attempt among the outcomes (`true` for a
/// failure), if any failed.
pub open spec fn first_failure(outcomes: Seq<bool>) -> Option<nat>
    decreases outcomes.len(),
{
    if outcomes.len() == 0 {
        None
    } else {
        match first_failure(outcomes.drop_last()) {
            Some(i) => Some(i),
            None => if outcomes.last() {
                Some((outcomes.len() - 1) as nat)
            } else {
                None
            },
        }
    }
}

/// What a shutdown does next.
#[derive(Debug, Clone, Copy, PartialEq, Eq)]
pub enum ShutdownAction {
    /// Shut this component down and record whether that failed.
    ShutDown(Component),
    /// Every component was tried; `failed` when one of them failed, whose
    /// error is then the one reported.
    Finish { failed: bool },
}

/// A shutdown in progress: the components to shut down, and the outcome of
/// each one tried so far. A failure does not stop the shutdown.
pub struct ShutdownRun {
    plan: Vec<Component>,
    done: usize,
    first_failed: Option<usize>,
    outcomes: Ghost<Seq<bool>>,
}

impl ShutdownRun {
    #[verifier::type_invariant]
    spec fn inv(&self) -> bool {
        &&& self.done == self.outcomes@.len()
        &&& self.done <= self.plan@.len()
        &&& match self.first_failed {
            Some(i) => first_failure(self.outcomes@) == Some(i as nat),
            None => first_failure(self.outcomes@) is None,
        }
    }

    /// The components to shut down, in order.
    pub closed spec fn plan(&self) -> Seq<Component> {
        self.plan@
    }

    /// Whether each attempt so far failed, in order.
    pub closed spec fn outcomes(&self) -> Seq<bool> {
        self.outcomes@
    }

    /// The next step: the next component of the plan while some are left,
    /// whatever failed before; then the end, reporting whether any failed.
    pub fn next(&self) -> (r: ShutdownAction)
        ensures
            self.outcomes().len() <= self.plan().len(),
            self.outcomes().len() < self.plan().len() ==> r == ShutdownAction::ShutDown(self.plan()[self.outcomes().len() as int]),
            self.outcomes().len() == self.plan().len() ==> r == (ShutdownAction::Finish { failed: first_failure(self.outcomes()) is Some }),
    {
        proof {
            use_type_invariant(self);
        }
        if self.done < self.plan.len() {
            ShutdownAction::ShutDown(self.plan[self.done])
        } else {
            ShutdownAction::Finish { failed: self.first_failed.is_some() }
        }
    }

    /// Records the outcome of the attempt that `next` asked for. The result
    /// says whether this failure is the first, whose error is reported.
    pub fn record(&mut self, failed: bool) -> (keep: bool)
        requires
            old(self).outcomes().len() < old(self).plan().len(),
        ensures
            final(self).plan() == old(self).plan(),
            final(self).outcomes() == old(self).outcomes().push(failed),
            keep == (failed && first_failure(old(self).outcomes()) is None),
    {
        proof {
            use_type_invariant(&*self);
        }
        let ghost before = self.outcomes@;
        let keep = failed && self.first_failed.is_none();
        let first = if keep { Some(self.done) } else { self.first_failed };
        let ghost after = before.push(failed);
        proof {
            assert(after.drop_last() =~= before);
        }
        *self = ShutdownRun { plan: self.plan.clone(), done: self.done + 1, first_failed: first, outcomes: Ghost(after) };
        keep
    }
}

/// The first failure is the earliest failed attempt: `Some(i)` exactly when
/// attempt `i` failed and none before it did, `None` exactly when none
/// failed.
pub proof fn law_first_failure(outcomes: Seq<bool>)
    ensures
        match first_failure(outcomes) {
            Some(i) => i < outcomes.len() && outcomes[i as int]
                && forall|j: int| 0 <= j < i ==> !#[trigger] outcomes[j],
            None => forall|j: int| 0 <= j < outcomes.len() ==> !#[trigger] outcomes[j],
        },
    decreases outcomes.len(),
{
    if outcomes.len() > 0 {
        let p = outcomes.drop_last();
        law_first_failure(p);
        assert forall|j: int| 0 <= j < p.len() implies #[trigger] outcomes[j] == p[j] by {}
    }
}

} // verus!
