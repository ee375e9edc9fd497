//! The oven: light it, put a fish in, wait for it to bake, take it out.
use vstd::prelude::*;
use crate::inventory::{ItemKind, Items};

verus! {

/// A one-shot countdown in milliseconds: finished once `elapsed` reaches
/// `duration`.
#[derive(Clone, Copy, Debug, PartialEq, Eq, Structural)]
pub struct Timer {
    pub elapsed: u64,
    pub duration: u64,
}

impl Timer {
    /// A timer that has not started to run.
    pub fn new(duration: u64) -> (r: Timer)
        ensures
            r == (Timer { elapsed: 0, duration }),
    {
        Timer { elapsed: 0, duration }
    }

    pub open spec fn finished_spec(&self) -> bool {
        self.elapsed >= self.duration
    }

    /// Whether the countdown has run out.
    pub fn finished(&self) -> (r: bool)
        ensures
            r == self.finished_spec(),
    {
        self.elapsed >= self.duration
    }

    /// Lets `delta` milliseconds pass; the elapsed time stops at the
    /// duration.
    pub fn tick(&mut self, delta: u64)
        ensures
            final(self).duration == old(self).duration,
            final(self).elapsed == if old(self).elapsed >= old(self).duration {
                old(self).elapsed as int
            } else if old(self).elapsed + delta >= old(self).duration {
                old(self).duration as int
            } else {
                old(self).elapsed + delta
            },
    {
        if self.elapsed < self.duration {
            if delta >= self.duration - self.elapsed {
                self.elapsed = self.duration;
            } else {
                self.elapsed = self.elapsed + delta;
            }
        }
    }

    /// Starts the countdown again from zero.
    pub fn reset(&mut self)
        ensures
            *final(self) == (Timer { elapsed: 0, duration: old(self).duration }),
    {
        self.elapsed = 0;
    }
}

/// The oven's state: whether it burns, what is in it and what that turns
/// into once the baking timer has run out.
#[derive(Clone, Copy, Debug)]
pub struct OvenState {
    pub baking_timer: Timer,
    pub item: Option<ItemKind>,
    pub baked_item: Option<ItemKind>,
    pub on_fire: bool,
}

/// The animation name for an oven that burns or not, whose item is baked or
/// not, and that holds an item or not.
pub open spec fn animation_of(fire: bool, baked: bool, item: bool) -> &'static str {
    if !fire && !item {
        "off"
    } else if !fire && !baked {
        "off_fish"
    } else if !fire {
        "off_bakedfish"
    } else if !item {
        "on"
    } else if !baked {
        "on_fish"
    } else {
        "on_bakedfish"
    }
}

impl OvenState {
    /// A cold, empty oven whose baking takes `duration` milliseconds.
    pub fn new(duration: u64) -> (r: OvenState)
        ensures
            r.baking_timer == (Timer { elapsed: 0, duration }),
            r.item.is_none(),
            r.baked_item.is_none(),
            !r.on_fire,
    {
        OvenState { baking_timer: Timer::new(duration), item: None, baked_item: None, on_fire: false }
    }

    /// The animation that shows the oven's state.
    pub fn animation(&self) -> (r: &'static str)
        ensures
            r == animation_of(self.on_fire, self.baking_timer.finished_spec(), self.item.is_some()),
    {
        let fire = self.on_fire;
        let baked = self.baking_timer.finished();
        let item = self.item.is_some();
        if !fire && !item {
            "off"
        } else if !fire && !baked {
            "off_fish"
        } else if !fire {
            "off_bakedfish"
        } else if !item {
            "on"
        } else if !baked {
            "on_fish"
        } else {
            "on_bakedfish"
        }
    }

    /// One use of the oven. A cold empty oven is lit. A lit empty oven
    /// gets a fish and starts baking. Using an oven that holds an item
    /// empties it and puts the fire out: the raw item comes out while it is
    /// still baking, the baked one once baking is done. A cold oven hands
    /// out its item the same way and stays cold.
    pub fn interact(&mut self, items: &Items) -> (r: Option<ItemKind>)
        ensures
            ({
                let o = *old(self);
                let n = *final(self);
                let baked = o.baking_timer.finished_spec();
                if o.item.is_none() && !o.on_fire {
                    &&& r.is_none()
                    &&& n == OvenState { on_fire: true, ..o }
                } else if o.item.is_none() {
                    &&& r.is_none()
                    &&& n == OvenState {
                        baking_timer: Timer { elapsed: 0, ..o.baking_timer },
                        item: Some(items.fish),
                        baked_item: Some(items.baked_fish),
                        on_fire: true,
                    }
                } else if !baked {
                    &&& r == o.item
                    &&& n == OvenState { item: None, baked_item: if o.on_fire { None } else { o.baked_item }, on_fire: false, ..o }
                } else {
                    &&& r == o.baked_item
                    &&& n == OvenState { item: None, baked_item: None, on_fire: false, ..o }
                }
            }),
    {
        let fire = self.on_fire;
        let baked = self.baking_timer.finished();
        let item = self.item.is_some();
        if !item {
            if !fire {
                self.on_fire = true;
            } else {
                self.baking_timer.reset();
                self.item = Some(items.fish);
                self.baked_item = Some(items.baked_fish);
            }
            None
        } else if !baked {
            if fire {
                self.on_fire = false;
                self.baked_item = None;
            }
            self.item.take()
        } else {
            self.on_fire = false;
            self.item = None;
            self.baked_item.take()
        }
    }
}

} // verus!
