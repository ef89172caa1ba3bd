use vstd::prelude::*;
use crate::rational::{Frac, Rational};
use crate::screen::{letterbox_offset, offset_of, ScreenScale, VirtualScreen};

verus! {

/// A pointer position on the virtual screen.
#[derive(Clone, Copy, Debug, PartialEq, Eq, Structural)]
pub struct VirtualPointer {
    pub x: Frac,
    pub y: Frac,
}

/// What a `MouseMap` holds, as exact numbers.
pub struct MouseMapView {
    /// Whether the mapping was taken from a scale other than zero.
    pub live: bool,
    /// The factor applied to a shifted window coordinate.
    pub scale: Rational,
    pub offset_x: Rational,
    pub offset_y: Rational,
}

/// The virtual coordinate of a window coordinate: shifted by the offset,
/// then multiplied by the pointer scale.
pub open spec fn remap_of(window_coord: int, offset: Rational, scale: Rational) -> Rational {
    Rational::of_int(window_coord).plus(offset).times(scale)
}

/// The transform from window-space pointer coordinates to virtual-screen
/// coordinates.
#[derive(Clone, Copy, Debug)]
pub struct MouseMap {
    live: bool,
    scale: Frac,
    offset_x: Frac,
    offset_y: Frac,
}

impl View for MouseMap {
    type V = MouseMapView;

    closed spec fn view(&self) -> MouseMapView {
        MouseMapView {
            live: self.live,
            scale: self.scale@,
            offset_x: self.offset_x@,
            offset_y: self.offset_y@,
        }
    }
}

spec fn offset_bounded(offset: Frac) -> bool {
    &&& 0 < offset.den <= 0x2_0000_0000
    &&& -0x1_0000_0000_0000_0000 <= offset.num <= 0x1_0000_0000_0000_0000
}

impl MouseMap {
    #[verifier::type_invariant]
    spec fn inv(&self) -> bool {
        &&& 0 < self.scale.den <= 0x8000_0000
        &&& -0xffff_ffff <= self.scale.num <= 0xffff_ffff
        &&& offset_bounded(self.offset_x)
        &&& offset_bounded(self.offset_y)
    }

    /// The mapping that leaves every coordinate as it is.
    pub fn identity() -> (map: MouseMap)
        ensures
            map@ == (MouseMapView {
                live: true,
                scale: Rational::of_int(1),
                offset_x: Rational::of_int(0),
                offset_y: Rational::of_int(0),
            }),
    {
        MouseMap {
            live: true,
            scale: Frac { num: 1, den: 1 },
            offset_x: Frac { num: 0, den: 1 },
            offset_y: Frac { num: 0, den: 1 },
        }
    }

    /// Whether the mapping was taken from a scale other than zero.
    pub fn is_live(&self) -> (out: bool)
        ensures
            out == self@.live,
    {
        self.live
    }

    /// The factor applied to a shifted window coordinate.
    pub fn scale(&self) -> (out: Frac)
        ensures
            out.wf(),
            out@ == self@.scale,
    {
        proof {
            use_type_invariant(self);
        }
        self.scale
    }

    /// The horizontal shift applied to a window coordinate.
    pub fn offset_x(&self) -> (out: Frac)
        ensures
            out.wf(),
            out@ == self@.offset_x,
    {
        proof {
            use_type_invariant(self);
        }
        self.offset_x
    }

    /// The vertical shift applied to a window coordinate.
    pub fn offset_y(&self) -> (out: Frac)
        ensures
            out.wf(),
            out@ == self@.offset_y,
    {
        proof {
            use_type_invariant(self);
        }
        self.offset_y
    }

    /// Maps a window-space pointer to the virtual screen. A mapping that is
    /// not live hands `previous` back unchanged.
    pub fn remap(&self, window_x: i32, window_y: i32, previous: VirtualPointer) -> (out: VirtualPointer)
        ensures
            !self@.live ==> out == previous,
            self@.live ==> out.x.wf() && out.y.wf(),
            self@.live ==> out.x@ == remap_of(window_x as int, self@.offset_x, self@.scale),
            self@.live ==> out.y@ == remap_of(window_y as int, self@.offset_y, self@.scale),
    {
        proof {
            use_type_invariant(self);
        }
        if !self.live {
            return previous;
        }
        VirtualPointer {
            x: remap_axis(window_x, self.offset_x, self.scale),
            y: remap_axis(window_y, self.offset_y, self.scale),
        }
    }
}

fn remap_axis(window_coord: i32, offset: Frac, scale: Frac) -> (out: Frac)
    requires
        offset_bounded(offset),
        0 < scale.den <= 0x8000_0000,
        -0xffff_ffff <= scale.num <= 0xffff_ffff,
    ensures
        out.wf(),
        out@ == remap_of(window_coord as int, offset@, scale@),
{
    let p: i128 = window_coord as i128;
    assert(-0x1_0000_0000_0000_0000 <= p * offset.den <= 0x1_0000_0000_0000_0000) by (nonlinear_arith)
        requires
            -0x8000_0000 <= p <= 0x7fff_ffff,
            0 < offset.den <= 0x2_0000_0000,
    ;
    let shifted: i128 = p * offset.den + offset.num;
    assert(-0x2_0000_0000_0000_0000_0000_0000 <= shifted * scale.num
        <= 0x2_0000_0000_0000_0000_0000_0000) by (nonlinear_arith)
        requires
            -0x2_0000_0000_0000_0000 <= shifted <= 0x2_0000_0000_0000_0000,
            -0xffff_ffff <= scale.num <= 0xffff_ffff,
    ;
    assert(0 < offset.den * scale.den <= 0x1_0000_0000_0000_0000) by (nonlinear_arith)
        requires
            0 < offset.den <= 0x2_0000_0000,
            0 < scale.den <= 0x8000_0000,
    ;
    Frac { num: shifted * scale.num, den: offset.den * scale.den }
}

proof fn lemma_offset_bounded(window_dim: i32, virtual_dim: u32, scale: ScreenScale)
    requires
        scale.wf(),
    ensures
        ({
            let offset = offset_of(window_dim as int, virtual_dim as int, scale@);
            &&& 0 < offset.den <= 0x2_0000_0000
            &&& -0x1_0000_0000_0000_0000 <= offset.num <= 0x1_0000_0000_0000_0000
        }),
{
    let w = window_dim as int;
    let v = virtual_dim as int;
    let sn = scale.num as int;
    let sd = scale.den as int;
    assert(-0x8000_0000_0000_0000 <= w * sd <= 0x8000_0000_0000_0000) by (nonlinear_arith)
        requires
            -0x8000_0000 <= w <= 0x7fff_ffff,
            0 < sd <= 0xffff_ffff,
    ;
    assert(-0x8000_0000_0000_0000 <= v * sn <= 0x8000_0000_0000_0000) by (nonlinear_arith)
        requires
            -0x8000_0000 <= sn <= 0x7fff_ffff,
            0 <= v <= 0xffff_ffff,
    ;
}

/// Installs in `mouse` the pointer mapping that belongs to `screen_scale`:
/// the inverse of the scale, and the letterbox offset of each axis. A scale
/// of zero has no inverse: the mapping then keeps its numbers and stops
/// being live.
pub fn set_mouse(
    virtual_screen: &VirtualScreen,
    screen_scale: &ScreenScale,
    mouse: &mut MouseMap,
    screen_width: i32,
    screen_height: i32,
)
    requires
        screen_scale.wf(),
    ensures
        screen_scale.num == 0 ==> final(mouse)@ == (MouseMapView {
            live: false,
            scale: old(mouse)@.scale,
            offset_x: old(mouse)@.offset_x,
            offset_y: old(mouse)@.offset_y,
        }),
        screen_scale.num != 0 ==> final(mouse)@ == (MouseMapView {
            live: true,
            scale: screen_scale@.inverse(),
            offset_x: offset_of(screen_width as int, virtual_screen.width as int, screen_scale@),
            offset_y: offset_of(screen_height as int, virtual_screen.height as int, screen_scale@),
        }),
{
    proof {
        use_type_invariant(&*mouse);
    }
    if screen_scale.num == 0 {
        mouse.live = false;
        return;
    }
    let num: i128 = screen_scale.num as i128;
    let den: i128 = screen_scale.den as i128;
    let inverse = if num > 0 {
        Frac { num: den, den: num }
    } else {
        Frac { num: -den, den: -num }
    };
    let offset_x = letterbox_offset(screen_width, virtual_screen.width, screen_scale);
    let offset_y = letterbox_offset(screen_height, virtual_screen.height, screen_scale);
    proof {
        lemma_offset_bounded(screen_width, virtual_screen.width, *screen_scale);
        lemma_offset_bounded(screen_height, virtual_screen.height, *screen_scale);
    }
    *mouse = MouseMap { live: true, scale: inverse, offset_x, offset_y };
}

/// A pointer at the exact center of the window maps to the exact center of
/// the virtual screen, whatever the scale, as long as it is not zero.
pub proof fn lemma_center_maps_to_center(window_dim: int, virtual_dim: int, scale: Rational, center: int)
    requires
        scale.wf(),
        scale.num != 0,
        2 * center == window_dim,
    ensures
        remap_of(center, offset_of(window_dim, virtual_dim, scale), scale.inverse()).same(
            Rational { num: virtual_dim, den: 2 },
        ),
{
    let offset = offset_of(window_dim, virtual_dim, scale);
    let inv = scale.inverse();
    let out = remap_of(center, offset, inv);
    let n = scale.num;
    let d = scale.den;
    assert(offset.num == -(window_dim * d - virtual_dim * n) && offset.den == 2 * d);
    assert(out.num == (center * (2 * d) + offset.num) * inv.num);
    assert(out.den == (2 * d) * inv.den);
    assert(center * (2 * d) == window_dim * d) by (nonlinear_arith)
        requires
            2 * center == window_dim,
    ;
    let k = virtual_dim * n;
    assert(center * (2 * d) + offset.num == k);
    if n > 0 {
        assert((k * d) * 2 == virtual_dim * ((2 * d) * n)) by (nonlinear_arith)
            requires
                k == virtual_dim * n,
        ;
    } else {
        assert((k * (-d)) * 2 == virtual_dim * ((2 * d) * (-n))) by (nonlinear_arith)
            requires
                k == virtual_dim * n,
        ;
    }
}

} // verus!
