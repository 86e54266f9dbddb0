//! How large and how opaque the panel is.

use crate::float::Float64;
use vstd::prelude::*;
use vstd::string::*;

verus! {

/// A half.
pub const MIN_ZOOM_BITS: u64 = 0x3fe0_0000_0000_0000;

/// Three.
pub const MAX_ZOOM_BITS: u64 = 0x4008_0000_0000_0000;

/// A fifth: with less the panel is not to be found any more.
pub const MIN_OPACITY_BITS: u64 = 0x3fc9_9999_9999_999a;

/// One.
pub const MAX_OPACITY_BITS: u64 = 0x3ff0_0000_0000_0000;

/// A number brought between two others; `otherwise` where it is infinite or not a number.
pub open spec fn clamped(x: Float64, lo: Float64, hi: Float64, otherwise: Float64) -> Float64 {
    if x.magnitude() >= 0x7ff0_0000_0000_0000 {
        otherwise
    } else if !lo.le(x) {
        lo
    } else if !x.le(hi) {
        hi
    } else {
        x
    }
}

fn clamp(x: Float64, lo: Float64, hi: Float64, otherwise: Float64) -> (r: Float64)
    ensures
        r == clamped(x, lo, hi, otherwise),
{
    if x.magnitude_bits() >= 0x7ff0_0000_0000_0000 {
        otherwise
    } else if !lo.at_most(x) {
        lo
    } else if !x.at_most(hi) {
        hi
    } else {
        x
    }
}

/// The zoom factor, brought between a half and three.
pub fn clamp_zoom(zoom: Float64) -> (r: Float64)
    ensures
        r == clamped(
            zoom,
            Float64 { bits: MIN_ZOOM_BITS },
            Float64 { bits: MAX_ZOOM_BITS },
            Float64 { bits: MAX_OPACITY_BITS },
        ),
{
    clamp(
        zoom,
        Float64 { bits: MIN_ZOOM_BITS },
        Float64 { bits: MAX_ZOOM_BITS },
        Float64 { bits: MAX_OPACITY_BITS },
    )
}

/// The opacity, brought between a fifth and one.
pub fn clamp_opacity(opacity: Float64) -> (r: Float64)
    ensures
        r == clamped(
            opacity,
            Float64 { bits: MIN_OPACITY_BITS },
            Float64 { bits: MAX_OPACITY_BITS },
            Float64 { bits: MAX_OPACITY_BITS },
        ),
{
    clamp(
        opacity,
        Float64 { bits: MIN_OPACITY_BITS },
        Float64 { bits: MAX_OPACITY_BITS },
        Float64 { bits: MAX_OPACITY_BITS },
    )
}

/// A clamped number lies in its range, whatever it was.
pub proof fn clamping_gives_a_number_in_range(x: Float64, lo: Float64, hi: Float64, otherwise: Float64)
    requires
        lo.le(hi),
        lo.le(otherwise),
        otherwise.le(hi),
    ensures
        lo.le(clamped(x, lo, hi, otherwise)),
        clamped(x, lo, hi, otherwise).le(hi),
{
}

/// The panel's look in words: size and opacity in whole per cent, and whether the opacity is
/// the theme's own.
pub fn describe_view(zoom_percent: &str, opacity_percent: &str, opacity_overridden: bool) -> (s:
    String)
    ensures
        s@ == "大小 "@ + zoom_percent@ + "% · 不透明度 "@ + opacity_percent@ + "%"@ + (
        if opacity_overridden {
            Seq::empty()
        } else {
            "（依主題檔）"@
        }),
{
    let mut s: String = "大小 ".to_owned();
    s.append(zoom_percent);
    s.append("% · 不透明度 ");
    s.append(opacity_percent);
    s.append("%");
    let ghost plain = s@;
    if !opacity_overridden {
        s.append("（依主題檔）");
    }
    assert(plain + Seq::<char>::empty() =~= plain);
    s
}

/// Bringing a number into its range changes none that is in it; one below goes to the lower end,
/// one above to the upper; what is infinite or no number goes to neither.
pub proof fn clamping_goes_to_the_end_that_is_nearer(
    x: Float64,
    lo: Float64,
    hi: Float64,
    otherwise: Float64,
)
    requires
        lo.le(hi),
    ensures
        x.magnitude() < 0x7ff0_0000_0000_0000 && lo.le(x) && x.le(hi) ==> clamped(
            x,
            lo,
            hi,
            otherwise,
        ) == x,
        x.magnitude() < 0x7ff0_0000_0000_0000 && !lo.le(x) ==> clamped(x, lo, hi, otherwise) == lo,
        x.magnitude() < 0x7ff0_0000_0000_0000 && !x.le(hi) ==> clamped(x, lo, hi, otherwise) == hi,
        x.magnitude() >= 0x7ff0_0000_0000_0000 ==> clamped(x, lo, hi, otherwise) == otherwise,
{
}

} // verus!
