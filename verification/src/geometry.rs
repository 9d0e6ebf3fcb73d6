use vstd::prelude::*;

verus! {

/// An opaque, copyable identifier for a top-level window.  The display
/// server hands these out; the manager never invents one.
#[derive(Clone, Copy, PartialEq, Eq, Structural, Debug, Hash)]
pub struct WindowId(pub u32);

/// The usable rectangle of a screen, in pixels: the full screen minus the
/// edges reserved by docks.
#[derive(Clone, Copy, PartialEq, Eq, Structural, Debug)]
pub struct Viewport {
    pub x: u32,
    pub y: u32,
    pub width: u32,
    pub height: u32,
}

impl Viewport {
    /// Coordinates and sizes fit in the display protocol's 16-bit fields.
    pub open spec fn wf(self) -> bool {
        &&& self.x <= 0xFFFF
        &&& self.y <= 0xFFFF
        &&& self.width <= 0xFFFF
        &&& self.height <= 0xFFFF
    }
}

impl Default for Viewport {
    fn default() -> (v: Viewport)
        ensures
            v == (Viewport { x: 0, y: 0, width: 0, height: 0 }),
    {
        Viewport { x: 0, y: 0, width: 0, height: 0 }
    }
}

/// The rectangle assigned to one window by a layout.
#[derive(Clone, Copy, PartialEq, Eq, Structural, Debug)]
pub struct WindowGeometry {
    pub x: u32,
    pub y: u32,
    pub width: u32,
    pub height: u32,
}

impl WindowGeometry {
    /// The geometry that fills the whole viewport.
    pub open spec fn spec_of_viewport(vp: Viewport) -> WindowGeometry {
        WindowGeometry { x: vp.x, y: vp.y, width: vp.width, height: vp.height }
    }

    /// The default geometry of a window: it fills its viewport.
    pub fn of_viewport(vp: &Viewport) -> (g: WindowGeometry)
        ensures
            g == WindowGeometry::spec_of_viewport(*vp),
    {
        WindowGeometry { x: vp.x, y: vp.y, width: vp.width, height: vp.height }
    }
}

///`a - b`, floored at zero: the guarded subtraction every geometry formula
/// uses so that oversized gaps or struts yield empty space, never wraparound.
pub open spec fn spec_sat_sub(a: int, b: int) -> int {
    if a >= b {
        a - b
    } else {
        0
    }
}

pub fn sat_sub(a: u32, b: u32) -> (r: u32)
    ensures
        r == spec_sat_sub(a as int, b as int),
{
    if a >= b {
        a - b
    } else {
        0
    }
}

/// A possibly negative width or offset, floored at zero.
pub open spec fn spec_clamp0(a: int) -> int {
    if a >= 0 {
        a
    } else {
        0
    }
}

/// A coordinate clamped to the range a 32-bit pixel coordinate can hold.
pub open spec fn spec_clamp_u32(a: int) -> int {
    if a > 0xFFFF_FFFF {
        0xFFFF_FFFF
    } else if a < 0 {
        0
    } else {
        a
    }
}

/// A tuning parameter (a gap or a padding) capped at the largest value a
/// 16-bit screen dimension can meet, so geometry arithmetic stays in range.
pub open spec fn spec_cap16(g: int) -> int {
    if g > 0xFFFF {
        0xFFFF
    } else {
        g
    }
}

pub fn cap16(g: u32) -> (r: u32)
    ensures
        r == spec_cap16(g as int),
{
    if g > 0xFFFF {
        0xFFFF
    } else {
        g
    }
}

/// `base + i * step` as a pixel coordinate, clamped at the coordinate
/// ceiling; used for the `i`-th window of an evenly divided run.
pub fn mul_add_clamped(base: u32, i: usize, step: u32) -> (r: u32)
    ensures
        r == spec_clamp_u32(base + i * step),
{
    let iw: u128 = i as u128;
    let sw: u128 = step as u128;
    proof {
        assert(iw * sw <= 0xFFFF_FFFF_FFFF_FFFFu128 * 0xFFFF_FFFFu128) by (nonlinear_arith)
            requires
                iw <= 0xFFFF_FFFF_FFFF_FFFFu128,
                sw <= 0xFFFF_FFFFu128,
        ;
    }
    let wide: u128 = (base as u128) + iw * sw;
    if wide > 0xFFFF_FFFFu128 {
        0xFFFF_FFFFu32
    } else {
        wide as u32
    }
}

} // verus!
