//! The three ways to draw the beat.

use crate::theme::BeatStyle;
use vstd::prelude::*;

verus! {

#[derive(Clone, Copy, Debug, PartialEq, Eq, Structural)]
pub enum StripKind {
    /// A ball that lands on the beat.
    Ball,
    /// A ring that shrinks onto another.
    Ring,
    /// A dot that brightens in place.
    Pulse,
}

impl StripKind {
    pub open spec fn name(self) -> Seq<char> {
        match self {
            StripKind::Ball => "球"@,
            StripKind::Ring => "環"@,
            StripKind::Pulse => "脈衝"@,
        }
    }

    /// The name for menus and the log.
    pub fn title(self) -> (s: &'static str)
        ensures
            s@ == self.name(),
    {
        match self {
            StripKind::Ball => "球",
            StripKind::Ring => "環",
            StripKind::Pulse => "脈衝",
        }
    }

    /// The choice behind an item of the style menu; none means "as the theme says".
    pub fn of_tag(tag: i64) -> (k: Option<StripKind>)
        ensures
            k == (if tag == 1 {
                Some(StripKind::Ball)
            } else if tag == 2 {
                Some(StripKind::Ring)
            } else if tag == 3 {
                Some(StripKind::Pulse)
            } else {
                None
            }),
    {
        if tag == 1 {
            Some(StripKind::Ball)
        } else if tag == 2 {
            Some(StripKind::Ring)
        } else if tag == 3 {
            Some(StripKind::Pulse)
        } else {
            None
        }
    }
}

pub open spec fn chosen_style(choice: Option<StripKind>, base: BeatStyle) -> BeatStyle {
    match choice {
        None => base,
        Some(StripKind::Ball) => BeatStyle::Ball,
        Some(StripKind::Ring) => BeatStyle::Ring,
        Some(StripKind::Pulse) => BeatStyle::Pulse,
    }
}

/// The style that a choice of the menu sets: the chosen one, or the theme's own.
pub fn style_for(choice: Option<StripKind>, base: BeatStyle) -> (s: BeatStyle)
    ensures
        s == chosen_style(choice, base),
{
    match choice {
        None => base,
        Some(StripKind::Ball) => BeatStyle::Ball,
        Some(StripKind::Ring) => BeatStyle::Ring,
        Some(StripKind::Pulse) => BeatStyle::Pulse,
    }
}

pub open spec fn ticked(overridden: bool, style: BeatStyle) -> Option<StripKind> {
    if !overridden {
        None
    } else {
        match style {
            BeatStyle::Auto => None,
            BeatStyle::Ball => Some(StripKind::Ball),
            BeatStyle::Ring => Some(StripKind::Ring),
            BeatStyle::Pulse => Some(StripKind::Pulse),
        }
    }
}

/// The item of the menu to tick: the style where it was chosen, else "as the theme says".
pub fn ticked_choice(overridden: bool, style: BeatStyle) -> (k: Option<StripKind>)
    ensures
        k == ticked(overridden, style),
{
    if !overridden {
        return None;
    }
    match style {
        BeatStyle::Auto => None,
        BeatStyle::Ball => Some(StripKind::Ball),
        BeatStyle::Ring => Some(StripKind::Ring),
        BeatStyle::Pulse => Some(StripKind::Pulse),
    }
}

/// A choice that sets a style is the one ticked afterwards, whatever the theme's own style is,
/// and is the one drawn. Going back to the theme's own style ticks nothing else.
pub proof fn the_choice_is_ticked(choice: StripKind, base: BeatStyle, reduce_motion: bool)
    ensures
        ticked(true, chosen_style(Some(choice), base)) == Some(choice),
        crate::theme::kind_of(chosen_style(Some(choice), base), reduce_motion) == choice,
        ticked(false, chosen_style(None, base)) is None,
{
}

/// Three entries of the menu stand for a strip each, and no two for the same.
pub proof fn each_entry_stands_for_a_strip(
    a: i64,
    b: i64,
    of_a: Option<StripKind>,
    of_b: Option<StripKind>,
)
    requires
        call_ensures(StripKind::of_tag, (a,), of_a),
        call_ensures(StripKind::of_tag, (b,), of_b),
    ensures
        of_a is Some <==> 1 <= a <= 3,
        of_a is Some && of_a == of_b ==> a == b,
{
}

} // verus!
