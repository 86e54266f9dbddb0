//! Text for people: the words for a status, the rows of the menu, the panel's caption.
//!
//! "Remote minus system clock" is positive where the system clock is slow, as is usual.

use crate::decimal::{decimal, magnitude, push_decimal};
use crate::duration::Duration;
use crate::model::{ClockModel, ModelStatus};
use crate::sync::settings::{quoted, quoted_text};
use crate::time::{HostTime, Timebase};
use vstd::prelude::*;
use vstd::string::*;

verus! {

/// The words for a status: those of one that can be shown, or why it cannot.
pub open spec fn status_words(model: ClockModel) -> Result<Seq<char>, Seq<char>> {
    match model.status {
        ModelStatus::Uncalibrated => Err("校時中…"@),
        ModelStatus::Stale => if !model.usable() {
            Err("喚醒後重新校時中"@)
        } else {
            Ok("過時"@)
        },
        ModelStatus::Converging => Ok("收斂中"@),
        ModelStatus::Tracking => Ok("追蹤中"@),
        ModelStatus::Frozen => Ok("已凍結"@),
    }
}

pub fn status_word(model: &ClockModel) -> (r: Result<&'static str, &'static str>)
    ensures
        r is Ok <==> status_words(*model) is Ok,
        r is Ok ==> r->Ok_0@ == status_words(*model)->Ok_0,
        r is Err ==> r->Err_0@ == status_words(*model)->Err_0,
{
    match model.status {
        ModelStatus::Uncalibrated => Err("校時中…"),
        ModelStatus::Stale => if !model.is_usable() {
            Err("喚醒後重新校時中")
        } else {
            Ok("過時")
        },
        ModelStatus::Converging => Ok("收斂中"),
        ModelStatus::Tracking => Ok("追蹤中"),
        ModelStatus::Frozen => Ok("已凍結"),
    }
}

/// A quotient rounded to the nearest, a half to the even neighbour.
pub open spec fn half_even(n: nat, d: nat) -> nat {
    let q = n / d;
    let r = n % d;
    if 2 * r > d || (2 * r == d && q % 2 == 1) {
        q + 1
    } else {
        q
    }
}

/// How far the system clock is off, in whole milliseconds below a second, else in seconds as
/// given.
pub open spec fn system_clock_words(off_ns: int, seconds: Seq<char>) -> Seq<char> {
    let distance = if off_ns < 0 {
        -off_ns
    } else {
        off_ns
    };
    "系統時鐘"@ + (if off_ns >= 0 {
        "慢"@
    } else {
        "快"@
    }) + " "@ + (if distance < 1_000_000_000 {
        decimal(half_even(distance as nat, 1_000_000)) + " ms"@
    } else {
        seconds + " s"@
    })
}

/// The panel's caption on the system clock. `seconds` is the distance in seconds, written to
/// two decimals; it is used from one second up.
pub fn system_clock_text(remote_minus_system_ns: i128, seconds: &str) -> (s: String)
    ensures
        s@ == system_clock_words(remote_minus_system_ns as int, seconds@),
{
    let mut s: String = "系統時鐘".to_owned();
    if remote_minus_system_ns >= 0 {
        s.append("慢");
    } else {
        s.append("快");
    }
    s.append(" ");
    let distance: u128 = magnitude(remote_minus_system_ns);
    if distance < 1_000_000_000 {
        let q: u128 = distance / 1_000_000;
        let r: u128 = distance % 1_000_000;
        let ms: u128 = if 2 * r > 1_000_000 || (2 * r == 1_000_000 && q % 2 == 1) {
            q + 1
        } else {
            q
        };
        push_decimal(&mut s, ms);
        s.append(" ms");
    } else {
        s.append(seconds);
        s.append(" s");
    }
    assert(s@ =~= system_clock_words(remote_minus_system_ns as int, seconds@));
    s
}

/// The figures of the menu, written out.
pub struct MenuFigures {
    /// Remote minus system clock in milliseconds, signed, one decimal.
    pub offset: String,
    /// The half-width in milliseconds, one decimal.
    pub half_width: String,
    /// The drift rate in parts per million, signed, one decimal.
    pub drift: String,
    /// The bound on its error in parts per million, whole.
    pub drift_bound: String,
}

/// The two rows of the menu: the state and the details.
pub fn menu_rows(model: &ClockModel, now: HostTime, figures: &MenuFigures, tb: Timebase) -> (rows: (
    String,
    String,
))
    ensures
        status_words(*model) matches Err(why) ==> rows.0@ == "標準時間："@ + why
            && rows.1@.len() == 0,
        status_words(*model) matches Ok(word) ==> {
            let since = if model.reference.0 <= now.0 {
                tb.nanos_of(now.0 - model.reference.0) / 1_000_000_000
            } else {
                0
            };
            &&& rows.0@ == "標準時間 "@ + figures.offset@ + " ms ± "@ + figures.half_width@
                + " ms（"@ + word + "）"@
            &&& rows.1@ == "漂移 "@ + figures.drift@ + " ± "@ + figures.drift_bound@
                + " ppm，上次取樣 "@ + decimal(since as nat) + " 秒前"@
        },
{
    match status_word(model) {
        Err(why) => {
            let mut primary: String = "標準時間：".to_owned();
            primary.append(why);
            (primary, String::new())
        },
        Ok(word) => {
            let mut primary: String = "標準時間 ".to_owned();
            primary.append(figures.offset.as_str());
            primary.append(" ms ± ");
            primary.append(figures.half_width.as_str());
            primary.append(" ms（");
            primary.append(word);
            primary.append("）");
            let since: Duration = now.saturating_duration_since(model.reference, tb);
            let mut detail: String = "漂移 ".to_owned();
            detail.append(figures.drift.as_str());
            detail.append(" ± ");
            detail.append(figures.drift_bound.as_str());
            detail.append(" ppm，上次取樣 ");
            push_decimal(&mut detail, since.as_secs() as u128);
            detail.append(" 秒前");
            (primary, detail)
        },
    }
}

/// What is said of a field of the target panel that holds no number.
pub fn lead_error(name: &str, given: &str) -> (s: String)
    ensures
        s@ == name@ + "要是數字，現在是 "@ + quoted_text(given@),
{
    let mut s: String = name.to_owned();
    s.append("要是數字，現在是 ");
    s.append(quoted(given).as_str());
    s
}

/// What is said of a field of the settings window that holds no number.
pub fn setting_error(name: &str, given: &str) -> (s: String)
    ensures
        s@ == "「"@ + name@ + "」要是數字，現在是 "@ + quoted_text(given@),
{
    let mut s: String = "「".to_owned();
    s.append(name);
    s.append("」要是數字，現在是 ");
    s.append(quoted(given).as_str());
    s
}

/// A quotient is rounded to the nearest, and a half to the even one of its neighbours.
pub proof fn rounding_goes_to_the_nearest(n: nat, d: nat)
    requires
        d > 0,
    ensures
        -(d as int) <= 2 * (half_even(n, d) * d - n) <= d,
        2 * (half_even(n, d) * d - n) == d || 2 * (half_even(n, d) * d - n) == -(d as int)
            ==> half_even(n, d) % 2 == 0,
{
    vstd::arithmetic::div_mod::lemma_fundamental_div_mod(n as int, d as int);
    let q = (n / d) as int;
    let r = (n % d) as int;
    vstd::arithmetic::mul::lemma_mul_is_commutative(q, d as int);
    assert((q + 1) * d == q * d + d) by (nonlinear_arith);
}

/// A clock that stands behind is slow by that much, and so is one that is right, by nothing; one
/// that stands ahead is fast.
pub proof fn behind_is_slow_and_ahead_is_fast(off_ns: nat, seconds: Seq<char>)
    requires
        off_ns < 1_000_000_000,
    ensures
        system_clock_words(off_ns as int, seconds) == "系統時鐘"@ + "慢"@ + " "@ + (decimal(
            half_even(off_ns, 1_000_000),
        ) + " ms"@),
        off_ns > 0 ==> system_clock_words(-(off_ns as int), seconds) == "系統時鐘"@ + "快"@ + " "@ + (decimal(
            half_even(off_ns, 1_000_000),
        ) + " ms"@),
{
}

/// A model has a word of its own unless it is not calibrated, or stale and of no use.
pub proof fn a_model_to_show_has_a_word(model: ClockModel)
    ensures
        status_words(model) is Err <==> model.status == ModelStatus::Uncalibrated || model.status
            == ModelStatus::Stale && model.half_width_ns == u64::MAX,
{
}

} // verus!
