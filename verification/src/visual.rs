use vstd::prelude::*;
use crate::quota::HUNDRED_PERCENT;

verus! {

/// An RGB colour.
#[derive(Debug, Clone, Copy, PartialEq, Eq, Structural)]
pub struct Rgb(pub u8, pub u8, pub u8);

/// The three anchor colours of the quota scale (empty, half, full) for a
/// dark or a light taskbar.
pub open spec fn anchor_spec(dark: bool, i: int) -> Rgb {
    if dark {
        if i == 0 {
            Rgb(0xff, 0x5a, 0x5f)
        } else if i == 1 {
            Rgb(0xf6, 0xc3, 0x44)
        } else {
            Rgb(0x43, 0xd1, 0x7a)
        }
    } else {
        if i == 0 {
            Rgb(0xc6, 0x28, 0x28)
        } else if i == 1 {
            Rgb(0x8a, 0x65, 0x00)
        } else {
            Rgb(0x14, 0x7a, 0x3f)
        }
    }
}

pub fn anchor(dark: bool, i: u8) -> (c: Rgb)
    requires
        i < 3,
    ensures
        c == anchor_spec(dark, i as int),
{
    if dark {
        if i == 0 {
            Rgb(0xff, 0x5a, 0x5f)
        } else if i == 1 {
            Rgb(0xf6, 0xc3, 0x44)
        } else {
            Rgb(0x43, 0xd1, 0x7a)
        }
    } else {
        if i == 0 {
            Rgb(0xc6, 0x28, 0x28)
        } else if i == 1 {
            Rgb(0x8a, 0x65, 0x00)
        } else {
            Rgb(0x14, 0x7a, 0x3f)
        }
    }
}

/// The channel `w / 5000` of the way from `a` to `b`, rounded to the nearest
/// integer (halves away from zero).
pub open spec fn mix_spec(a: int, b: int, w: int) -> int {
    (a * (5000 - w) + b * w + 2500) / 5000
}

fn mix(a: u8, b: u8, w: u32) -> (c: u8)
    requires
        w <= 5000,
    ensures
        c == mix_spec(a as int, b as int, w as int),
{
    proof {
        assert((a as int) * (5000 - w) + (b as int) * w <= 255 * (5000 - w) + 255 * w) by (nonlinear_arith)
            requires
                a <= 255,
                b <= 255,
                w <= 5000,
        ;
        assert((a as int) * (5000 - w) + (b as int) * w >= 0) by (nonlinear_arith)
            requires
                w <= 5000,
        ;
        assert((a as int) * (5000 - w) <= 255 * 5000) by (nonlinear_arith)
            requires
                a <= 255,
                w <= 5000,
        ;
        assert((b as int) * w <= 255 * 5000) by (nonlinear_arith)
            requires
                b <= 255,
                w <= 5000,
        ;
        assert(((a as int) * (5000 - w) + (b as int) * w + 2500) / 5000 <= 255);
    }
    let left: u64 = (a as u64) * ((5000 - w) as u64);
    let right: u64 = (b as u64) * (w as u64);
    let total: u64 = left + right + 2500;
    (total / 5000) as u8
}

/// The colour of a remaining quota of `percent` hundredths of a percent:
/// clamped to 0–100 %, blended from the empty to the half anchor over the
/// lower half and from the half to the full anchor over the upper half.
pub open spec fn quota_color_spec(percent: int, dark: bool) -> Rgb {
    let value = if percent < 0 { 0 } else if percent > HUNDRED_PERCENT { HUNDRED_PERCENT as int } else { percent };
    let (a, b, w) = if value <= 5000 {
        (anchor_spec(dark, 0), anchor_spec(dark, 1), value)
    } else {
        (anchor_spec(dark, 1), anchor_spec(dark, 2), value - 5000)
    };
    Rgb(
        mix_spec(a.0 as int, b.0 as int, w) as u8,
        mix_spec(a.1 as int, b.1 as int, w) as u8,
        mix_spec(a.2 as int, b.2 as int, w) as u8,
    )
}

pub fn quota_color(percent: i64, dark: bool) -> (c: Rgb)
    ensures
        c == quota_color_spec(percent as int, dark),
{
    let value: i64 = if percent < 0 { 0 } else if percent > HUNDRED_PERCENT { HUNDRED_PERCENT } else { percent };
    let (a, b, w) = if value <= 5000 {
        (anchor(dark, 0), anchor(dark, 1), value as u32)
    } else {
        (anchor(dark, 1), anchor(dark, 2), (value - 5000) as u32)
    };
    Rgb(mix(a.0, b.0, w), mix(a.1, b.1, w), mix(a.2, b.2, w))
}

/// The scale meets its anchors exactly: empty quota shows the empty colour,
/// half shows the half colour, full shows the full colour.
pub proof fn law_color_anchors(dark: bool)
    ensures
        quota_color_spec(0, dark) == anchor_spec(dark, 0),
        quota_color_spec(5000, dark) == anchor_spec(dark, 1),
        quota_color_spec(10000, dark) == anchor_spec(dark, 2),
{
    assert forall|a: int, b: int| 0 <= a <= 255 && 0 <= b <= 255 implies #[trigger] mix_spec(a, b, 0) == a
        && mix_spec(a, b, 5000) == b by {
        assert((a * 5000 + 2500) / 5000 == a) by (nonlinear_arith)
            requires
                0 <= a <= 255,
        ;
        assert((b * 5000 + 2500) / 5000 == b) by (nonlinear_arith)
            requires
                0 <= b <= 255,
        ;
    }
}

/// Out-of-range quotas show the colour of the nearest end of the scale.
pub proof fn law_color_clamps(percent: int, dark: bool)
    ensures
        percent < 0 ==> quota_color_spec(percent, dark) == quota_color_spec(0, dark),
        percent > 10000 ==> quota_color_spec(percent, dark) == quota_color_spec(10000, dark),
{
}

} // verus!
