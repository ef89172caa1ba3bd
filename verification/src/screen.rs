use vstd::prelude::*;
use crate::rational::{Frac, Rational};

verus! {

/// The fixed logical pixel grid that the scene is rendered into.
#[derive(Clone, Copy, Debug, PartialEq, Eq, Structural)]
pub struct VirtualScreen {
    pub width: u32,
    pub height: u32,
}

impl VirtualScreen {
    /// Both dimensions are positive.
    pub open spec fn wf(&self) -> bool {
        self.width > 0 && self.height > 0
    }

    /// Builds the virtual screen from a monitor's geometry; a monitor that
    /// reports a non-positive width or height yields `None`.
    pub fn from_monitor(width: i32, height: i32) -> (out: Option<VirtualScreen>)
        ensures
            out is Some <==> width > 0 && height > 0,
            out matches Some(v) ==> v.wf() && v.width == width && v.height == height,
    {
        if width > 0 && height > 0 {
            Some(VirtualScreen { width: width as u32, height: height as u32 })
        } else {
            None
        }
    }
}

/// The uniform factor by which the virtual screen is stretched into the
/// window: a window extent over the virtual extent of the same axis.
#[derive(Clone, Copy, Debug, PartialEq, Eq, Structural)]
pub struct ScreenScale {
    pub num: i32,
    pub den: u32,
}

impl View for ScreenScale {
    type V = Rational;

    open spec fn view(&self) -> Rational {
        Rational { num: self.num as int, den: self.den as int }
    }
}

impl ScreenScale {
    /// The denominator is positive.
    pub open spec fn wf(&self) -> bool {
        self.den > 0
    }
}

/// The largest uniform scale at which the virtual screen still fits a window
/// of `width` by `height`: the smaller of the two per-axis ratios.
pub open spec fn scale_of(screen: VirtualScreen, width: int, height: int) -> Rational {
    Rational { num: width, den: screen.width as int }.min(
        Rational { num: height, den: screen.height as int },
    )
}

/// The offset that centers `virtual_dim * scale` within `window_dim`:
/// `-(window_dim - virtual_dim * scale) / 2`.
pub open spec fn offset_of(window_dim: int, virtual_dim: int, scale: Rational) -> Rational {
    Rational::of_int(window_dim).minus(Rational::of_int(virtual_dim).times(scale)).halved().negated()
}

/// Computes the scale of the virtual screen within the window.
pub fn get_screen_scale(virtual_screen: &VirtualScreen, screen_width: i32, screen_height: i32) -> (scale: ScreenScale)
    requires
        virtual_screen.wf(),
    ensures
        scale.wf(),
        scale@ == scale_of(*virtual_screen, screen_width as int, screen_height as int),
{
    let w: i64 = screen_width as i64;
    let h: i64 = screen_height as i64;
    let vw: i64 = virtual_screen.width as i64;
    let vh: i64 = virtual_screen.height as i64;
    assert(-0x8000_0000_0000_0000 <= w * vh <= 0x7fff_ffff_ffff_ffff) by (nonlinear_arith)
        requires
            -0x8000_0000 <= w <= 0x7fff_ffff,
            0 <= vh <= 0xffff_ffff,
    ;
    assert(-0x8000_0000_0000_0000 <= h * vw <= 0x7fff_ffff_ffff_ffff) by (nonlinear_arith)
        requires
            -0x8000_0000 <= h <= 0x7fff_ffff,
            0 <= vw <= 0xffff_ffff,
    ;
    if w * vh <= h * vw {
        ScreenScale { num: screen_width, den: virtual_screen.width }
    } else {
        ScreenScale { num: screen_height, den: virtual_screen.height }
    }
}

/// Computes, for one axis, the offset that centers the scaled virtual
/// screen in the window.
pub fn letterbox_offset(window_dim: i32, virtual_dim: u32, scale: &ScreenScale) -> (offset: Frac)
    requires
        scale.wf(),
    ensures
        offset.wf(),
        offset@ == offset_of(window_dim as int, virtual_dim as int, scale@),
{
    let w: i128 = window_dim as i128;
    let v: i128 = virtual_dim as i128;
    let sn: i128 = scale.num as i128;
    let sd: i128 = scale.den as i128;
    assert(-0x8000_0000_0000_0000 <= w * sd <= 0x7fff_ffff_ffff_ffff) by (nonlinear_arith)
        requires
            -0x8000_0000 <= w <= 0x7fff_ffff,
            0 <= sd <= 0xffff_ffff,
    ;
    assert(-0x8000_0000_0000_0000 <= v * sn <= 0x7fff_ffff_ffff_ffff) by (nonlinear_arith)
        requires
            -0x8000_0000 <= sn <= 0x7fff_ffff,
            0 <= v <= 0xffff_ffff,
    ;
    Frac { num: -(w * sd - v * sn), den: 2 * sd }
}

/// Computes, for one axis, the extent that the virtual screen takes up in
/// the window once it is scaled: `virtual_dim * scale`.
pub fn content_extent(virtual_dim: u32, scale: &ScreenScale) -> (extent: Frac)
    requires
        scale.wf(),
    ensures
        extent.wf(),
        extent@ == Rational::of_int(virtual_dim as int).times(scale@),
{
    let v: i128 = virtual_dim as i128;
    let sn: i128 = scale.num as i128;
    assert(-0x8000_0000_0000_0000 <= v * sn <= 0x7fff_ffff_ffff_ffff) by (nonlinear_arith)
        requires
            -0x8000_0000 <= sn <= 0x7fff_ffff,
            0 <= v <= 0xffff_ffff,
    ;
    Frac { num: v * sn, den: scale.den as i128 }
}

/// Widening the window, at a fixed height and virtual screen, never lowers
/// the scale.
pub proof fn lemma_scale_monotone_in_width(screen: VirtualScreen, w1: int, w2: int, height: int)
    requires
        screen.wf(),
        w1 <= w2,
    ensures
        scale_of(screen, w1, height).le(scale_of(screen, w2, height)),
{
    let vw = screen.width as int;
    let vh = screen.height as int;
    assert(w1 * vw <= w2 * vw) by (nonlinear_arith)
        requires
            w1 <= w2,
            vw > 0,
    ;
    assert(w1 * vh <= w2 * vh) by (nonlinear_arith)
        requires
            w1 <= w2,
            vh > 0,
    ;
}

/// Heightening the window, at a fixed width and virtual screen, never lowers
/// the scale.
pub proof fn lemma_scale_monotone_in_height(screen: VirtualScreen, width: int, h1: int, h2: int)
    requires
        screen.wf(),
        h1 <= h2,
    ensures
        scale_of(screen, width, h1).le(scale_of(screen, width, h2)),
{
    let vw = screen.width as int;
    let vh = screen.height as int;
    assert(h1 * vw <= h2 * vw) by (nonlinear_arith)
        requires
            h1 <= h2,
            vw > 0,
    ;
    assert(h1 * vh <= h2 * vh) by (nonlinear_arith)
        requires
            h1 <= h2,
            vh > 0,
    ;
}

/// A window of exactly the virtual screen's size is shown at scale one.
pub proof fn lemma_scale_of_own_size(screen: VirtualScreen)
    requires
        screen.wf(),
    ensures
        scale_of(screen, screen.width as int, screen.height as int).same(Rational::of_int(1)),
{
    let vw = screen.width as int;
    let vh = screen.height as int;
    assert(vw * vh == vh * vw) by (nonlinear_arith);
}

/// The scaled virtual screen sits centered: the margin before it (the
/// offset, negated), its scaled extent and the same margin after it add up
/// to the window's extent.
pub proof fn lemma_letterbox_centered(window_dim: int, virtual_dim: int, scale: Rational)
    requires
        scale.wf(),
    ensures
        ({
            let margin = offset_of(window_dim, virtual_dim, scale).negated();
            let content = Rational::of_int(virtual_dim).times(scale);
            margin.plus(content).plus(margin).same(Rational::of_int(window_dim))
        }),
{
    let margin = offset_of(window_dim, virtual_dim, scale).negated();
    let content = Rational::of_int(virtual_dim).times(scale);
    let total = margin.plus(content).plus(margin);
    let d = scale.den;
    let g = window_dim * d - virtual_dim * scale.num;
    assert(margin.num == g && margin.den == 2 * d);
    assert(content.num == virtual_dim * scale.num && content.den == d);
    assert(total.num * 1 == window_dim * total.den) by (nonlinear_arith)
        requires
            total.num == (g * d + (virtual_dim * scale.num) * (2 * d)) * (2 * d) + g * ((2 * d) * d),
            total.den == ((2 * d) * d) * (2 * d),
            g == window_dim * d - virtual_dim * scale.num,
    ;
}

/// At the scale computed for a window, the scaled virtual screen fits the
/// window: no margin is negative, and on the axis that limits the scale
/// there is no margin at all.
pub proof fn lemma_content_fits(screen: VirtualScreen, width: int, height: int)
    requires
        screen.wf(),
    ensures
        ({
            let scale = scale_of(screen, width, height);
            let margin_x = offset_of(width, screen.width as int, scale).negated();
            let margin_y = offset_of(height, screen.height as int, scale).negated();
            &&& margin_x.wf() && margin_y.wf()
            &&& margin_x.num >= 0 && margin_y.num >= 0
            &&& margin_x.num == 0 || margin_y.num == 0
        }),
{
    let vw = screen.width as int;
    let vh = screen.height as int;
    assert(width * vw == vw * width) by (nonlinear_arith);
    assert(height * vh == vh * height) by (nonlinear_arith);
    assert(width * vh == vh * width) by (nonlinear_arith);
    assert(height * vw == vw * height) by (nonlinear_arith);
}

} // verus!
