//! The input state: which movement keys are held, where the cursor is relative
//! to the centre of the viewport, and how large the viewport is.

use vstd::prelude::*;
use crate::fixed::{abs, trunc_div, UNIT};

verus! {

/// The half-width of the dead zone, in millionths: a cursor offset nearer to
/// zero than this counts as no offset at all.
pub const DEAD_ZONE: i64 = 200_000;

/// The keys that mean something here. Every other key is `Other`.
#[derive(Clone, Copy, Debug, PartialEq, Eq, Structural)]
pub enum Key {
    A,
    D,
    W,
    S,
    Escape,
    Other,
}

/// One record of the platform's event stream.
#[derive(Clone, Copy, Debug, PartialEq, Eq, Structural)]
pub enum Event {
    /// A key went down (`pressed`) or came up.
    KeyboardInput { key: Key, pressed: bool },
    /// The cursor moved to this pixel, counted from the viewport's corner.
    CursorMoved { x: i32, y: i32 },
    /// The viewport now has this size, in pixels.
    Resized { width: u32, height: u32 },
    /// The user asked to close the window.
    CloseRequested,
    /// Anything else.
    Other,
}

/// The state that the events add up to. `up` is the key for moving forward,
/// `down` the key for moving back. `mouse_dx` and `mouse_dy` count millionths
/// and keep their value until the cursor moves again.
#[derive(Clone, Copy, Debug, PartialEq, Eq, Structural)]
pub struct Controls {
    pub left: bool,
    pub right: bool,
    pub up: bool,
    pub down: bool,
    pub width: u32,
    pub height: u32,
    pub mouse_dx: i64,
    pub mouse_dy: i64,
}

/// An offset with the dead zone applied: zero inside it, unchanged outside.
pub open spec fn spec_dead_zone(offset: int) -> int {
    if abs(offset) < DEAD_ZONE {
        0
    } else {
        offset
    }
}

/// Where `at` lies along a viewport side of `size` pixels, in millionths: minus
/// one at the near edge, zero at the centre, one at the far edge; that is
/// `at / (size / 2) - 1`, rounded toward zero. A side of no pixels has no
/// centre, and the offset along it is zero.
pub open spec fn spec_offset(at: int, size: int) -> int {
    if size > 0 {
        trunc_div((2 * at - size) * UNIT, size)
    } else {
        0
    }
}

impl Event {
    /// Whether the event ends the session: a request to close the window, or
    /// the escape key, going down or coming up.
    pub open spec fn spec_is_exit(self) -> bool {
        match self {
            Event::CloseRequested => true,
            Event::KeyboardInput { key, pressed } => key == Key::Escape,
            _ => false,
        }
    }

    pub fn is_exit(&self) -> (b: bool)
        ensures
            b == self.spec_is_exit(),
    {
        match self {
            Event::CloseRequested => true,
            Event::KeyboardInput { key, pressed } => match key {
                Key::Escape => true,
                _ => false,
            },
            _ => false,
        }
    }
}

impl Controls {
    /// The state after `event`.
    pub open spec fn spec_update(self, event: Event) -> Controls {
        match event {
            Event::KeyboardInput { key, pressed } => match key {
                Key::A => Controls { left: pressed, ..self },
                Key::D => Controls { right: pressed, ..self },
                Key::W => Controls { up: pressed, ..self },
                Key::S => Controls { down: pressed, ..self },
                _ => self,
            },
            Event::CursorMoved { x, y } => Controls {
                mouse_dx: spec_dead_zone(spec_offset(x as int, self.width as int)) as i64,
                mouse_dy: spec_dead_zone(spec_offset(y as int, self.height as int)) as i64,
                ..self
            },
            Event::Resized { width, height } => Controls { width, height, ..self },
            _ => self,
        }
    }

    /// No key held, the cursor at rest, and a viewport of the given size.
    pub open spec fn new_spec(width: u32, height: u32) -> Controls {
        Controls {
            left: false,
            right: false,
            up: false,
            down: false,
            width,
            height,
            mouse_dx: 0,
            mouse_dy: 0,
        }
    }

    /// No key held, the cursor at rest, and a viewport of the given size.
    pub fn new(width: u32, height: u32) -> (c: Controls)
        ensures
            c == Controls::new_spec(width, height),
    {
        Controls {
            left: false,
            right: false,
            up: false,
            down: false,
            width,
            height,
            mouse_dx: 0,
            mouse_dy: 0,
        }
    }

    /// Takes one event in. A movement key sets or clears its flag; a cursor
    /// move sets both offsets anew from the cursor's place in the viewport, with
    /// the dead zone applied to each; a resize sets the viewport's size and
    /// leaves the offsets as they are; anything else changes nothing.
    pub fn update(&mut self, event: &Event)
        ensures
            *final(self) == old(self).spec_update(*event),
    {
        match event {
            Event::KeyboardInput { key, pressed } => match key {
                Key::A => self.left = *pressed,
                Key::D => self.right = *pressed,
                Key::W => self.up = *pressed,
                Key::S => self.down = *pressed,
                _ => {},
            },
            Event::CursorMoved { x, y } => {
                self.mouse_dx = dead_zone(offset(*x, self.width));
                self.mouse_dy = dead_zone(offset(*y, self.height));
            },
            Event::Resized { width, height } => {
                self.width = *width;
                self.height = *height;
            },
            _ => {},
        }
    }
}

/// Applies the dead zone: an offset nearer to zero than `DEAD_ZONE` becomes
/// zero, every other offset comes back unchanged.
pub fn dead_zone(offset: i64) -> (r: i64)
    ensures
        r == spec_dead_zone(offset as int),
        abs(offset as int) < DEAD_ZONE ==> r == 0,
        abs(offset as int) >= DEAD_ZONE ==> r == offset,
{
    if -DEAD_ZONE < offset && offset < DEAD_ZONE {
        0
    } else {
        offset
    }
}

/// The cursor's offset from the centre along one side of the viewport, in
/// millionths.
pub fn offset(at: i32, size: u32) -> (r: i64)
    ensures
        r == spec_offset(at as int, size as int),
{
    if size == 0 {
        return 0;
    }
    let from_centre: i64 = 2 * (at as i64) - (size as i64);
    assert(-9_000_000_000 * 1_000_000 <= from_centre * UNIT <= 9_000_000_000 * 1_000_000)
        by (nonlinear_arith)
        requires
            -9_000_000_000 <= from_centre <= 9_000_000_000,
            UNIT == 1_000_000,
    ;
    (from_centre * UNIT) / (size as i64)
}

/// The dead zone cuts exactly where the cursor is nearer to the centre than a
/// fifth of the half side: rounding the offset to millionths moves no cursor
/// position across the edge of the zone.
pub proof fn lemma_dead_zone_is_exact(at: int, size: int)
    requires
        size > 0,
    ensures
        spec_dead_zone(spec_offset(at, size)) == 0 <==> 5 * abs(2 * at - size) < size,
{
    let v = 2 * at - size;
    if v >= 0 {
        lemma_quotient_below(v * UNIT, size, DEAD_ZONE as int);
    } else {
        lemma_quotient_below((-v) * UNIT, size, DEAD_ZONE as int);
    }
}

/// A quotient of natural numbers is below `k` exactly when the dividend is
/// below `k` times the divisor.
proof fn lemma_quotient_below(n: int, d: int, k: int)
    by (nonlinear_arith)
    requires
        n >= 0,
        d > 0,
        k >= 0,
    ensures
        n / d >= 0,
        n / d < k <==> n < k * d,
{
    vstd::arithmetic::div_mod::lemma_fundamental_div_mod(n, d);
    vstd::arithmetic::div_mod::lemma_mod_bound(n, d);
}

} // verus!
