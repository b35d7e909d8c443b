//! The decisions behind a notification's background block: which border
//! colour it is painted with, and whether a change of update mode asks for a
//! redraw.

use vstd::prelude::*;

verus! {

/// Every update-mode flag set.
pub const ALL_UPDATE_BITS: u8 = 7;

/// Notification priority.
#[derive(Clone, Copy, Debug, PartialEq, Eq, Structural)]
pub enum Urgency {
    Low,
    Normal,
    Critical,
}

/// The set of things about a notification window that are actively updating
/// (its timeout countdown, hover tracking, content animation), as bits.
#[derive(Clone, Copy, Debug, PartialEq, Eq, Structural)]
pub struct UpdateModes {
    bits: u8,
}

impl UpdateModes {
    pub closed spec fn spec_bits(&self) -> u8 {
        self.bits
    }

    /// The timeout countdown is running.
    pub const TIMEOUT: u8 = 1;

    /// Pointer hover is being tracked.
    pub const HOVER: u8 = 2;

    /// Content is animating.
    pub const CONTENT: u8 = 4;

    /// Nothing is updating.
    pub fn empty() -> (r: Self)
        ensures
            r.spec_bits() == 0,
    {
        UpdateModes { bits: 0 }
    }

    /// Everything is updating.
    pub fn all() -> (r: Self)
        ensures
            r.spec_bits() == ALL_UPDATE_BITS,
    {
        UpdateModes { bits: ALL_UPDATE_BITS }
    }

    /// The modes named by `bits`; bits that name no mode are dropped.
    pub fn from_bits_truncate(bits: u8) -> (r: Self)
        ensures
            r.spec_bits() == bits & ALL_UPDATE_BITS,
    {
        UpdateModes { bits: bits & ALL_UPDATE_BITS }
    }

    pub fn bits(&self) -> (r: u8)
        ensures
            r == self.spec_bits(),
    {
        self.bits
    }

    /// Whether every mode is active; anything less counts as paused.
    pub fn is_all(&self) -> (r: bool)
        ensures
            r == (self.spec_bits() == ALL_UPDATE_BITS),
    {
        self.bits == ALL_UPDATE_BITS
    }
}

/// The border colours of a block: a default, and optional overrides for low
/// and critical urgency and for a paused window.
pub struct BorderColors<C> {
    pub default: C,
    pub low: Option<C>,
    pub critical: Option<C>,
    pub paused: Option<C>,
}

/// An override when present, else the default.
pub open spec fn override_or<C>(o: Option<C>, default: C) -> C {
    match o {
        Some(c) => c,
        None => default,
    }
}

/// The border colour for a window in `mode` showing a notification of
/// `urgency`: a paused window takes the paused colour whatever the urgency;
/// otherwise low and critical urgency take their own colour and normal
/// urgency the default. Every missing override falls back to the default.
pub open spec fn border_color_for<C>(colors: BorderColors<C>, mode: UpdateModes, urgency: Urgency) -> C {
    if mode.spec_bits() != ALL_UPDATE_BITS {
        override_or(colors.paused, colors.default)
    } else {
        match urgency {
            Urgency::Low => override_or(colors.low, colors.default),
            Urgency::Normal => colors.default,
            Urgency::Critical => override_or(colors.critical, colors.default),
        }
    }
}

fn override_or_default<'a, C>(o: &'a Option<C>, default: &'a C) -> (r: &'a C)
    ensures
        *r == override_or(*o, *default),
{
    match o {
        Some(c) => c,
        None => default,
    }
}

/// Picks the border colour of a block.
pub fn select_border_color<'a, C>(colors: &'a BorderColors<C>, mode: UpdateModes, urgency: Urgency) -> (r: &'a C)
    ensures
        *r == border_color_for(*colors, mode, urgency),
{
    if !mode.is_all() {
        override_or_default(&colors.paused, &colors.default)
    } else {
        match urgency {
            Urgency::Low => override_or_default(&colors.low, &colors.default),
            Urgency::Normal => &colors.default,
            Urgency::Critical => override_or_default(&colors.critical, &colors.default),
        }
    }
}

/// The update mode a block last saw, kept to tell when a redraw is due.
pub struct UpdateModeTracker {
    current_update_mode: UpdateModes,
}

impl UpdateModeTracker {
    pub closed spec fn current(&self) -> UpdateModes {
        self.current_update_mode
    }

    /// A tracker whose baseline is `mode`.
    pub fn new(mode: UpdateModes) -> (r: Self)
        ensures
            r.current() == mode,
    {
        UpdateModeTracker { current_update_mode: mode }
    }

    /// Records `mode` as the baseline, as the layout pass does before any
    /// drawing.
    pub fn init(&mut self, mode: UpdateModes)
        ensures
            final(self).current() == mode,
    {
        self.current_update_mode = mode;
    }

    /// Whether a redraw is needed because the update mode changed since the
    /// last call; the new mode becomes the baseline.
    pub fn update(&mut self, mode: UpdateModes) -> (r: bool)
        ensures
            r == (mode != old(self).current()),
            final(self).current() == mode,
            (final(self).current(), r) == update_outcome(old(self).current(), mode),
    {
        if mode != self.current_update_mode {
            self.current_update_mode = mode;
            return true;
        }
        false
    }

    pub fn current_update_mode(&self) -> (r: UpdateModes)
        ensures
            r == self.current(),
    {
        self.current_update_mode
    }
}

/// The outcome of a change check: the new baseline and whether to redraw.
pub open spec fn update_outcome(baseline: UpdateModes, mode: UpdateModes) -> (UpdateModes, bool) {
    (mode, mode != baseline)
}

/// A change of update mode is reported once: the first check after it says
/// to redraw, and a second check with the same mode does not.
pub proof fn lemma_update_reports_change_once(baseline: UpdateModes, mode: UpdateModes)
    ensures
        update_outcome(baseline, mode).1 == (mode != baseline),
        update_outcome(update_outcome(baseline, mode).0, mode).1 == false,
{
}

/// The paused colour (or the default) wins over every urgency whenever not
/// all modes are active.
pub proof fn lemma_pause_overrides_urgency<C>(colors: BorderColors<C>, mode: UpdateModes, u1: Urgency, u2: Urgency)
    requires
        mode.spec_bits() != ALL_UPDATE_BITS,
    ensures
        border_color_for(colors, mode, u1) == border_color_for(colors, mode, u2),
        border_color_for(colors, mode, u1) == override_or(colors.paused, colors.default),
{
}

} // verus!
