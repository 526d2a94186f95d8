//! The slot model: eight compass-direction slots, each optionally bound to an
//! application, with their derived running/broken status, plus the dynamic
//! overflow subslots and the configuration that binds slots.

use crate::apps::{app_eq, AppInfo};
use crate::direction::Direction;
use crate::geometry::SlotGeometry;
use crate::text::{lower_of, lowercase};
use vstd::prelude::*;

verus! {

/// One launcher slot: optionally bound to an application.
#[derive(Clone, Debug)]
pub struct Slot {
    pub app: Option<AppInfo>,
}

/// Whether two slots carry the same binding.
pub open spec fn slot_eq(a: Slot, b: Slot) -> bool {
    match (a.app, b.app) {
        (Option::Some(x), Option::Some(y)) => app_eq(x, y),
        (Option::None, Option::None) => true,
        _ => false,
    }
}

/// Whether any active window class equals the slot's bound class, ignoring
/// case; false for an unbound slot.
pub open spec fn spec_is_running(slot: Slot, active: Seq<String>) -> bool {
    slot.app is Some && exists|j: int|
        0 <= j < active.len() && lower_of(active[j]@) == lower_of(slot.app->0.class@)
}

/// Whether the slot is bound but its launch command is empty.
pub open spec fn spec_is_broken(slot: Slot) -> bool {
    slot.app is Some && slot.app->0.command@.len() == 0
}

impl Slot {
    pub fn new(app: Option<AppInfo>) -> (s: Self)
        ensures
            s.app == app,
    {
        Slot { app }
    }

    /// An unbound slot.
    pub fn empty() -> (s: Self)
        ensures
            s.app is None,
    {
        Slot { app: None }
    }

    /// The slot a configuration entry binds.
    pub fn from_config(cfg: &SlotConfig) -> (s: Self)
        ensures
            cfg.app is Some <==> s.app is Some,
            cfg.app is Some ==> app_eq(s.app->0, cfg.app->0),
    {
        match &cfg.app {
            Some(a) => Slot { app: Some(a.duplicate()) },
            None => Slot { app: None },
        }
    }

    /// A field-for-field copy.
    pub fn duplicate(&self) -> (s: Self)
        ensures
            slot_eq(s, *self),
    {
        match &self.app {
            Some(a) => Slot { app: Some(a.duplicate()) },
            None => Slot { app: None },
        }
    }

    /// Whether any active window class matches this slot's application,
    /// ignoring case.
    pub fn is_running(&self, active_classes: &Vec<String>) -> (r: bool)
        ensures
            r == spec_is_running(*self, active_classes@),
    {
        match &self.app {
            None => false,
            Some(app) => {
                let class_l = lowercase(app.class.as_str());
                let n = active_classes.len();
                let mut j: usize = 0;
                while j < n
                    invariant
                        n == active_classes@.len(),
                        j <= n,
                        class_l@ == lower_of(self.app->0.class@),
                        self.app is Some,
                        forall|t: int|
                            0 <= t < j ==> lower_of(active_classes@[t]@) != lower_of(
                                self.app->0.class@),
                    decreases n - j,
                {
                    let c_l = lowercase(active_classes[j].as_str());
                    if c_l == class_l {
                        return true;
                    }
                    j = j + 1;
                }
                false
            },
        }
    }

    /// Whether the slot is bound but has no launch command.
    pub fn is_broken(&self) -> (r: bool)
        ensures
            r == spec_is_broken(*self),
    {
        match &self.app {
            Some(app) => app.command.as_str().is_empty(),
            None => false,
        }
    }
}

/// The visual state of a slot, by priority: a broken binding first, then the
/// hover highlight, then the running mark, then the idle look.
#[derive(Clone, Copy, Debug, PartialEq, Eq, Structural)]
pub enum SlotState {
    Broken,
    Hovered,
    Running,
    Idle,
}

impl SlotState {
    /// Derives the visual state of a slot from its binding, the hover flag
    /// and the active window classes.
    pub fn resolve(slot: &Slot, hovered: bool, active_classes: &Vec<String>) -> (r: SlotState)
        ensures
            r == (if spec_is_broken(*slot) {
                SlotState::Broken
            } else if hovered {
                SlotState::Hovered
            } else if spec_is_running(*slot, active_classes@) {
                SlotState::Running
            } else {
                SlotState::Idle
            }),
    {
        if slot.is_broken() {
            SlotState::Broken
        } else if hovered {
            SlotState::Hovered
        } else if slot.is_running(active_classes) {
            SlotState::Running
        } else {
            SlotState::Idle
        }
    }
}

/// A dynamically placed entry for a running window not bound to any slot:
/// its window class, its hotkey, and its ring geometry.
#[derive(Clone, Debug)]
pub struct SubSlot {
    pub class: String,
    pub key: char,
    pub geometry: SlotGeometry,
}

/// One configuration entry: the direction it binds (entries without one are
/// ignored by the layout engine) and the resolved application, if any.
#[derive(Clone, Debug)]
pub struct SlotConfig {
    pub direction: Option<Direction>,
    pub app: Option<AppInfo>,
}

/// The launcher configuration: an ordered list of slot bindings; on a
/// duplicate direction the last entry wins.
#[derive(Clone, Debug)]
pub struct Config {
    pub slots: Vec<SlotConfig>,
}

/// The binding that the configuration leaves on slot index `i`: the app of
/// the last entry directed at `i`, or nothing when no entry is.
pub open spec fn last_binding(cfgs: Seq<SlotConfig>, i: int) -> Option<Option<AppInfo>>
    decreases cfgs.len(),
{
    if cfgs.len() == 0 {
        None
    } else if cfgs.last().direction is Some && cfgs.last().direction->0.spec_index() == i {
        Some(cfgs.last().app)
    } else {
        last_binding(cfgs.drop_last(), i)
    }
}

/// Whether a slot carries the binding `b` prescribes: unbound for no app,
/// bound to an equal app otherwise.
pub open spec fn slot_has_binding(s: Slot, b: Option<AppInfo>) -> bool {
    match (s.app, b) {
        (Option::None, Option::None) => true,
        (Option::Some(x), Option::Some(y)) => app_eq(x, y),
        _ => false,
    }
}

/// The pool of subslot hotkeys, in award order.
pub open spec fn spec_sub_key(i: int) -> char {
    if i == 0 {
        'a'
    } else if i == 1 {
        's'
    } else if i == 2 {
        'd'
    } else if i == 3 {
        'f'
    } else if i == 4 {
        'q'
    } else if i == 5 {
        'w'
    } else if i == 6 {
        'e'
    } else if i == 7 {
        'r'
    } else if i == 8 {
        'z'
    } else if i == 9 {
        'x'
    } else if i == 10 {
        'c'
    } else {
        'v'
    }
}

/// The hotkey paired with the `i`-th subslot.
pub fn sub_key(i: usize) -> (c: char)
    requires
        i < crate::SUB_KEY_COUNT,
    ensures
        c == spec_sub_key(i as int),
{
    if i == 0 {
        'a'
    } else if i == 1 {
        's'
    } else if i == 2 {
        'd'
    } else if i == 3 {
        'f'
    } else if i == 4 {
        'q'
    } else if i == 5 {
        'w'
    } else if i == 6 {
        'e'
    } else if i == 7 {
        'r'
    } else if i == 8 {
        'z'
    } else if i == 9 {
        'x'
    } else if i == 10 {
        'c'
    } else {
        'v'
    }
}

} // verus!
