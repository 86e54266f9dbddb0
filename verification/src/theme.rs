//! The theme: sizes, fonts, colours, the beat and the time sources, as the theme file gives
//! them; and what a change of it asks for.

use crate::duration::Duration;
use crate::float::Float64;
use crate::overrides::{before, lemma_before_is_strict};
use crate::strip::StripKind;
use crate::sync::settings::{copy_texts, quoted, quoted_text, texts, SyncSettings};
use vstd::prelude::*;
use vstd::string::*;
use vstd::utf8::encode_utf8;

verus! {

/// A colour: red, green, blue and opacity, 255 each at most.
#[derive(Clone, Copy, Debug, PartialEq, Eq, Structural)]
pub struct Color {
    pub r: u8,
    pub g: u8,
    pub b: u8,
    pub a: u8,
}

/// The value of a hexadecimal digit.
pub open spec fn hex_digit(c: u8) -> Option<int> {
    if 48 <= c <= 57 {
        Some(c - 48)
    } else if 97 <= c <= 102 {
        Some(c - 87)
    } else if 65 <= c <= 70 {
        Some(c - 55)
    } else {
        None
    }
}

/// The value of two characters as a hexadecimal number, where both are digits.
pub open spec fn hex_pair(a: u8, b: u8) -> Option<int> {
    match (hex_digit(a), hex_digit(b)) {
        (Some(x), Some(y)) => Some(16 * x + y),
        _ => None,
    }
}

fn digit_value(c: u8) -> (v: Option<u8>)
    ensures
        match v {
            Some(n) => hex_digit(c) == Some(n as int) && n < 16,
            None => hex_digit(c) is None,
        },
{
    if 48 <= c && c <= 57 {
        Some(c - 48)
    } else if 97 <= c && c <= 102 {
        Some(c - 87)
    } else if 65 <= c && c <= 70 {
        Some(c - 55)
    } else {
        None
    }
}

fn pair_value(a: u8, b: u8) -> (v: Option<u8>)
    ensures
        match v {
            Some(n) => hex_pair(a, b) == Some(n as int),
            None => hex_pair(a, b) is None,
        },
{
    match (digit_value(a), digit_value(b)) {
        (Some(x), Some(y)) => Some(16 * x + y),
        _ => None,
    }
}

impl Color {
    pub fn rgba(r: u8, g: u8, b: u8, a: u8) -> (c: Color)
        ensures
            c == (Color { r, g, b, a }),
    {
        Color { r, g, b, a }
    }

    /// What reading a colour gives: `#RRGGBB` or `#RRGGBBAA`, or the words for what is wrong.
    pub open spec fn parse_gives(s: Seq<char>, r: Result<Color, String>) -> bool {
        let b = encode_utf8(s);
        if b.len() == 0 || b[0] != 35 {
            r matches Err(e) && e@ == "顏色 "@ + quoted_text(s) + " 要以 # 開頭"@
        } else if b.len() != 7 && b.len() != 9 {
            r matches Err(e) && e@ == "顏色 "@ + quoted_text(s) + " 要是 #RRGGBB 或 #RRGGBBAA"@
        } else {
            let red = hex_pair(b[1], b[2]);
            let green = hex_pair(b[3], b[4]);
            let blue = hex_pair(b[5], b[6]);
            let alpha = if b.len() == 9 {
                hex_pair(b[7], b[8])
            } else {
                Some(255)
            };
            if red is None || green is None || blue is None || alpha is None {
                r matches Err(e) && e@ == "顏色 "@ + quoted_text(s) + " 含非十六進位字元"@
            } else {
                r matches Ok(c) && c.r == red->0 && c.g == green->0 && c.b == blue->0 && c.a
                    == alpha->0
            }
        }
    }

    pub fn parse(s: &str) -> (r: Result<Color, String>)
        ensures
            Color::parse_gives(s@, r),
    {
        let b: &[u8] = s.as_bytes();
        if b.len() == 0 || b[0] != 35 {
            return Err(color_error(s, " 要以 # 開頭"));
        }
        if b.len() != 7 && b.len() != 9 {
            return Err(color_error(s, " 要是 #RRGGBB 或 #RRGGBBAA"));
        }
        let alpha: Option<u8> = if b.len() == 9 {
            pair_value(b[7], b[8])
        } else {
            Some(255)
        };
        match (pair_value(b[1], b[2]), pair_value(b[3], b[4]), pair_value(b[5], b[6]), alpha) {
            (Some(red), Some(green), Some(blue), Some(a)) => Ok(
                Color { r: red, g: green, b: blue, a },
            ),
            _ => Err(color_error(s, " 含非十六進位字元")),
        }
    }
}

fn color_error(s: &str, why: &str) -> (e: String)
    ensures
        e@ == "顏色 "@ + quoted_text(s@) + why@,
{
    let mut e: String = "顏色 ".to_owned();
    e.append(quoted(s).as_str());
    e.append(why);
    e
}

/// The blur behind the panel.
#[derive(Clone, Copy, Debug, PartialEq, Eq, Structural)]
pub enum Material {
    Hud,
    Popover,
    Sidebar,
    Menu,
    UnderWindow,
    WindowBackground,
}

#[derive(Clone, Copy, Debug, PartialEq, Eq, Structural)]
pub enum Appearance {
    Dark,
    Light,
    /// As the system is set.
    System,
}

#[derive(Clone, Copy, Debug, PartialEq, Eq, Structural)]
pub enum Weight {
    Regular,
    Medium,
    Semibold,
    Bold,
}

#[derive(Clone, Copy, Debug, PartialEq, Eq, Structural)]
pub enum BeatStyle {
    /// The ball, or the pulse where the system asks for less motion.
    Auto,
    Ball,
    Ring,
    Pulse,
}

/// What draws the beat strip.
#[derive(Clone, Copy, Debug, PartialEq, Eq, Structural)]
pub enum BeatRenderer {
    Auto,
    Metal,
    Layer,
}

#[derive(Clone, Copy, Debug, PartialEq, Eq, Structural)]
pub struct Panel {
    pub width: Float64,
    pub corner_radius: Float64,
    pub material: Material,
    pub appearance: Appearance,
    pub opacity: Float64,
}

impl Default for Panel {
    /// 320 wide, corners of 14, opaque.
    fn default() -> (p: Panel)
        ensures
            p == (Panel {
                width: Float64 { bits: 0x4074_0000_0000_0000 },
                corner_radius: Float64 { bits: 0x402c_0000_0000_0000 },
                material: Material::Hud,
                appearance: Appearance::Dark,
                opacity: Float64 { bits: 0x3ff0_0000_0000_0000 },
            }),
    {
        Panel {
            width: Float64 { bits: 0x4074_0000_0000_0000 },
            corner_radius: Float64 { bits: 0x402c_0000_0000_0000 },
            material: Material::Hud,
            appearance: Appearance::Dark,
            opacity: Float64 { bits: 0x3ff0_0000_0000_0000 },
        }
    }
}

#[derive(Clone, Debug, PartialEq, Eq)]
pub struct Font {
    /// Empty for the system's font.
    pub family: String,
    pub weight: Weight,
    pub time_size: Float64,
    pub detail_size: Float64,
    pub caption_size: Float64,
}

impl Default for Font {
    /// The system's font in sizes 34, 13 and 11.
    fn default() -> (f: Font)
        ensures
            f.family@.len() == 0,
            f.weight == Weight::Medium,
            f.time_size.bits == 0x4041_0000_0000_0000,
            f.detail_size.bits == 0x402a_0000_0000_0000,
            f.caption_size.bits == 0x4026_0000_0000_0000,
    {
        Font {
            family: String::new(),
            weight: Weight::Medium,
            time_size: Float64 { bits: 0x4041_0000_0000_0000 },
            detail_size: Float64 { bits: 0x402a_0000_0000_0000 },
            caption_size: Float64 { bits: 0x4026_0000_0000_0000 },
        }
    }
}

#[derive(Clone, Copy, Debug, PartialEq, Eq, Structural)]
pub struct Colors {
    pub time: Color,
    pub detail: Color,
    pub caption: Color,
    pub bar: Color,
    pub bar_track: Color,
}

impl Default for Colors {
    fn default() -> (c: Colors)
        ensures
            c == (Colors {
                time: Color { r: 255, g: 255, b: 255, a: 255 },
                detail: Color { r: 255, g: 255, b: 255, a: 0xd0 },
                caption: Color { r: 255, g: 255, b: 255, a: 0x80 },
                bar: Color { r: 0x5a, g: 0xa9, b: 255, a: 255 },
                bar_track: Color { r: 255, g: 255, b: 255, a: 0x26 },
            }),
    {
        Colors {
            time: Color::rgba(255, 255, 255, 255),
            detail: Color::rgba(255, 255, 255, 0xd0),
            caption: Color::rgba(255, 255, 255, 0x80),
            bar: Color::rgba(0x5a, 0xa9, 255, 255),
            bar_track: Color::rgba(255, 255, 255, 0x26),
        }
    }
}

#[derive(Clone, Copy, Debug, PartialEq, Eq, Structural)]
pub struct Layout {
    pub padding: Float64,
    pub line_gap: Float64,
    pub bar_height: Float64,
    pub bar_full_scale_ms: Float64,
}

impl Default for Layout {
    /// 16, 6, 4 and 50.
    fn default() -> (l: Layout)
        ensures
            l == (Layout {
                padding: Float64 { bits: 0x4030_0000_0000_0000 },
                line_gap: Float64 { bits: 0x4018_0000_0000_0000 },
                bar_height: Float64 { bits: 0x4010_0000_0000_0000 },
                bar_full_scale_ms: Float64 { bits: 0x4049_0000_0000_0000 },
            }),
    {
        Layout {
            padding: Float64 { bits: 0x4030_0000_0000_0000 },
            line_gap: Float64 { bits: 0x4018_0000_0000_0000 },
            bar_height: Float64 { bits: 0x4010_0000_0000_0000 },
            bar_full_scale_ms: Float64 { bits: 0x4049_0000_0000_0000 },
        }
    }
}

/// The display lead of one screen.
#[derive(Clone, Debug, PartialEq, Eq)]
pub struct ScreenLead {
    pub name: String,
    pub lead_ms: Float64,
}

#[derive(Clone, Debug, PartialEq, Eq)]
pub struct Display {
    pub lead_ms: Float64,
    pub idle_fps: Float64,
    /// The screens with a lead of their own, in the order of their names: see
    /// [`Display::wf`].
    pub screens: Vec<ScreenLead>,
}

impl Default for Display {
    /// No lead, 60 frames a second.
    fn default() -> (d: Display)
        ensures
            d.lead_ms.bits == 0,
            d.idle_fps.bits == 0x404e_0000_0000_0000,
            d.screens@.len() == 0,
            d.wf(),
    {
        Display {
            lead_ms: Float64 { bits: 0 },
            idle_fps: Float64 { bits: 0x404e_0000_0000_0000 },
            screens: Vec::new(),
        }
    }
}

impl Display {
    /// The screens stand in the order of their names, none of them twice.
    pub open spec fn wf(self) -> bool {
        forall|i: int, j: int|
            0 <= i < j < self.screens@.len() ==> before(
                (#[trigger] self.screens@[i]).name@,
                (#[trigger] self.screens@[j]).name@,
            )
    }

    /// Whether a screen has a lead of its own.
    pub open spec fn has_own(self, name: Seq<char>) -> bool {
        exists|i: int| 0 <= i < self.screens@.len() && (#[trigger] self.screens@[i]).name@ == name
    }

    /// The display lead on a screen: its own where it has one, else the common one.
    pub fn lead_ms_for(&self, screen: Option<String>) -> (lead: Float64)
        requires
            self.wf(),
        ensures
            screen is None ==> lead == self.lead_ms,
            screen matches Some(name) && !self.has_own(name@) ==> lead == self.lead_ms,
            screen matches Some(name) ==> forall|i: int|
                0 <= i < self.screens@.len() && (#[trigger] self.screens@[i]).name@ == name@
                    ==> lead == self.screens@[i].lead_ms,
    {
        let name: String = match screen {
            None => {
                return self.lead_ms;
            },
            Some(n) => n,
        };
        let mut i: usize = 0;
        while i < self.screens.len()
            invariant
                i <= self.screens@.len(),
                self.wf(),
                screen == Some(name),
                forall|j: int| 0 <= j < i ==> (#[trigger] self.screens@[j]).name@ != name@,
            decreases self.screens@.len() - i,
        {
            if self.screens[i].name == name {
                proof {
                    assert forall|j: int| 0 <= j < self.screens@.len() && (
                    #[trigger] self.screens@[j]).name@ == name@ implies j == i by {
                        if i < j {
                            assert(before(self.screens@[i as int].name@, self.screens@[j].name@));
                            lemma_before_is_strict(name@, name@);
                        }
                    }
                }
                return self.screens[i].lead_ms;
            }
            i = i + 1;
        }
        self.lead_ms
    }
}

#[derive(Clone, Copy, Debug, PartialEq, Eq, Structural)]
pub struct Beat {
    pub style: BeatStyle,
    pub renderer: BeatRenderer,
    pub period_ms: Float64,
    pub ticks: u32,
    pub strip_height: Float64,
    pub color: Color,
    pub final_color: Color,
    pub glow: bool,
    pub glow_width: Float64,
    pub glow_opacity: Float64,
    pub volume: Float64,
    pub tick_hz: Float64,
    pub tick_ms: Float64,
    pub final_ms: Float64,
    pub visual_lead_ms: Float64,
}

impl Default for Beat {
    /// Four ticks a second apart, in a strip of 64, with a glow of 48 at 0.35, at half the
    /// volume and 1000 hertz, 30 and 200 milliseconds long.
    fn default() -> (b: Beat)
        ensures
            b == (Beat {
                style: BeatStyle::Auto,
                renderer: BeatRenderer::Auto,
                period_ms: Float64 { bits: 0x408f_4000_0000_0000 },
                ticks: 4,
                strip_height: Float64 { bits: 0x4050_0000_0000_0000 },
                color: Color { r: 0x5a, g: 0xa9, b: 255, a: 255 },
                final_color: Color { r: 255, g: 0xb4, b: 0x54, a: 255 },
                glow: true,
                glow_width: Float64 { bits: 0x4048_0000_0000_0000 },
                glow_opacity: Float64 { bits: 0x3fd6_6666_6666_6666 },
                volume: Float64 { bits: 0x3fe0_0000_0000_0000 },
                tick_hz: Float64 { bits: 0x408f_4000_0000_0000 },
                tick_ms: Float64 { bits: 0x403e_0000_0000_0000 },
                final_ms: Float64 { bits: 0x4069_0000_0000_0000 },
                visual_lead_ms: Float64 { bits: 0 },
            }),
    {
        Beat {
            style: BeatStyle::Auto,
            renderer: BeatRenderer::Auto,
            period_ms: Float64 { bits: 0x408f_4000_0000_0000 },
            ticks: 4,
            strip_height: Float64 { bits: 0x4050_0000_0000_0000 },
            color: Color::rgba(0x5a, 0xa9, 255, 255),
            final_color: Color::rgba(255, 0xb4, 0x54, 255),
            glow: true,
            glow_width: Float64 { bits: 0x4048_0000_0000_0000 },
            glow_opacity: Float64 { bits: 0x3fd6_6666_6666_6666 },
            volume: Float64 { bits: 0x3fe0_0000_0000_0000 },
            tick_hz: Float64 { bits: 0x408f_4000_0000_0000 },
            tick_ms: Float64 { bits: 0x403e_0000_0000_0000 },
            final_ms: Float64 { bits: 0x4069_0000_0000_0000 },
            visual_lead_ms: Float64 { bits: 0 },
        }
    }
}

/// The time sources and the rhythm of asking them.
#[derive(Clone, Debug, PartialEq, Eq)]
pub struct Sync {
    pub servers: Vec<String>,
    pub burst: usize,
    pub spacing_ms: Float64,
    pub cycle_s: Float64,
}

impl Default for Sync {
    /// The servers of the sampler's own defaults, four queries a second apart every 180
    /// seconds.
    fn default() -> (s: Sync)
        ensures
            s.servers@.len() == 3,
            s.servers@[0]@ == "time.stdtime.gov.tw"@,
            s.servers@[1]@ == "time.google.com"@,
            s.servers@[2]@ == "time.cloudflare.com"@,
            s.burst == 4,
            s.spacing_ms.bits == 0x408f_4000_0000_0000,
            s.cycle_s.bits == 0x4066_8000_0000_0000,
    {
        let c: crate::sync::settings::SamplerConfig =
            crate::sync::settings::SamplerConfig::default();
        Sync {
            servers: c.servers,
            burst: c.burst,
            spacing_ms: Float64 { bits: 0x408f_4000_0000_0000 },
            cycle_s: Float64 { bits: 0x4066_8000_0000_0000 },
        }
    }
}

impl Sync {
    /// The settings that the section asks for, or the words for what is wrong with it. The
    /// spans are what its two times come to.
    pub fn settings(&self, spacing: Duration, cycle: Duration) -> (r: Result<SyncSettings, String>)
        ensures
            exists|servers: Seq<String>|
                texts(servers) == texts(self.servers@) && #[trigger] SyncSettings::new_gives(
                    servers,
                    self.burst,
                    spacing@,
                    cycle@,
                    r,
                ),
    {
        let servers: Vec<String> = copy_texts(&self.servers);
        let ghost list = servers@;
        let r: Result<SyncSettings, String> = SyncSettings::new(
            servers,
            self.burst,
            spacing,
            cycle,
        );
        assert(SyncSettings::new_gives(list, self.burst, spacing@, cycle@, r));
        r
    }
}

#[derive(Clone, Debug, PartialEq, Eq)]
pub struct Theme {
    pub panel: Panel,
    pub font: Font,
    pub colors: Colors,
    pub layout: Layout,
    pub display: Display,
    pub beat: Beat,
    pub sync: Sync,
}

/// Whether two floating-point numbers are equal as numbers.
pub open spec fn number_eq(a: Float64, b: Float64) -> bool {
    a.le(b) && b.le(a)
}

fn same_number(a: Float64, b: Float64) -> (r: bool)
    ensures
        r == number_eq(a, b),
{
    a.at_most(b) && b.at_most(a)
}

impl Panel {
    /// Equal but for the opacity.
    pub open spec fn same_frame(self, o: Panel) -> bool {
        &&& number_eq(self.width, o.width)
        &&& number_eq(self.corner_radius, o.corner_radius)
        &&& self.material == o.material
        &&& self.appearance == o.appearance
    }
}

impl Font {
    pub open spec fn same(self, o: Font) -> bool {
        &&& self.family@ == o.family@
        &&& self.weight == o.weight
        &&& number_eq(self.time_size, o.time_size)
        &&& number_eq(self.detail_size, o.detail_size)
        &&& number_eq(self.caption_size, o.caption_size)
    }
}

impl Layout {
    pub open spec fn same(self, o: Layout) -> bool {
        &&& number_eq(self.padding, o.padding)
        &&& number_eq(self.line_gap, o.line_gap)
        &&& number_eq(self.bar_height, o.bar_height)
        &&& number_eq(self.bar_full_scale_ms, o.bar_full_scale_ms)
    }
}

impl Display {
    /// Equal in everything; of the screens, with both in order, those at the same place.
    pub open spec fn same(self, o: Display) -> bool
        recommends
            self.wf(),
            o.wf(),
    {
        &&& number_eq(self.lead_ms, o.lead_ms)
        &&& number_eq(self.idle_fps, o.idle_fps)
        &&& self.screens@.len() == o.screens@.len()
        &&& forall|i: int|
            #![trigger self.screens@[i]]
            0 <= i < self.screens@.len() ==> self.screens@[i].name@ == o.screens@[i].name@
                && number_eq(self.screens@[i].lead_ms, o.screens@[i].lead_ms)
    }

    fn equals(&self, o: &Display) -> (r: bool)
        requires
            self.wf(),
            o.wf(),
        ensures
            r == self.same(*o),
    {
        if !same_number(self.lead_ms, o.lead_ms) || !same_number(self.idle_fps, o.idle_fps)
            || self.screens.len() != o.screens.len() {
            return false;
        }
        let mut i: usize = 0;
        while i < self.screens.len()
            invariant
                i <= self.screens@.len() == o.screens@.len(),
                forall|j: int|
                    #![trigger self.screens@[j]]
                    0 <= j < i ==> self.screens@[j].name@ == o.screens@[j].name@ && number_eq(
                        self.screens@[j].lead_ms,
                        o.screens@[j].lead_ms,
                    ),
            decreases self.screens@.len() - i,
        {
            if self.screens[i].name != o.screens[i].name || !same_number(
                self.screens[i].lead_ms,
                o.screens[i].lead_ms,
            ) {
                assert(!(self.screens@[i as int].name@ == o.screens@[i as int].name@ && number_eq(
                    self.screens@[i as int].lead_ms,
                    o.screens@[i as int].lead_ms,
                )));
                return false;
            }
            i = i + 1;
        }
        true
    }
}

impl Beat {
    /// Equal in what the strip is drawn from.
    pub open spec fn same_look(self, o: Beat) -> bool {
        &&& self.renderer == o.renderer
        &&& number_eq(self.strip_height, o.strip_height)
        &&& self.color == o.color
        &&& self.final_color == o.final_color
    }

    /// Equal in when the ticks come.
    pub open spec fn same_timeline(self, o: Beat) -> bool {
        number_eq(self.period_ms, o.period_ms) && self.ticks == o.ticks
    }

    pub open spec fn same(self, o: Beat) -> bool {
        &&& self.style == o.style
        &&& self.same_look(o)
        &&& self.same_timeline(o)
        &&& self.glow == o.glow
        &&& number_eq(self.glow_width, o.glow_width)
        &&& number_eq(self.glow_opacity, o.glow_opacity)
        &&& number_eq(self.volume, o.volume)
        &&& number_eq(self.tick_hz, o.tick_hz)
        &&& number_eq(self.tick_ms, o.tick_ms)
        &&& number_eq(self.final_ms, o.final_ms)
        &&& number_eq(self.visual_lead_ms, o.visual_lead_ms)
    }
}

impl Sync {
    pub open spec fn same(self, o: Sync) -> bool {
        &&& texts(self.servers@) == texts(o.servers@)
        &&& self.burst == o.burst
        &&& number_eq(self.spacing_ms, o.spacing_ms)
        &&& number_eq(self.cycle_s, o.cycle_s)
    }
}

/// Whether two lists hold the same texts.
fn same_texts(a: &Vec<String>, b: &Vec<String>) -> (r: bool)
    ensures
        r == (texts(a@) == texts(b@)),
{
    if a.len() != b.len() {
        assert(texts(a@).len() != texts(b@).len());
        return false;
    }
    let mut i: usize = 0;
    while i < a.len()
        invariant
            i <= a@.len() == b@.len(),
            forall|j: int| 0 <= j < i ==> (#[trigger] a@[j])@ == b@[j]@,
        decreases a@.len() - i,
    {
        if a[i] != b[i] {
            assert(texts(a@)[i as int] != texts(b@)[i as int]);
            return false;
        }
        i = i + 1;
    }
    assert(texts(a@) =~= texts(b@));
    true
}

/// What differs between two themes.
#[derive(Clone, Copy, Debug, PartialEq, Eq, Structural)]
pub struct ThemeDelta {
    pub opacity: bool,
    /// Anything but the opacity.
    pub rest: bool,
    pub sync: bool,
    pub style: bool,
    pub display: bool,
    pub timeline: bool,
    /// Something the panel is built from: sizes, fonts, colours, and how the strip is drawn.
    pub rebuild: bool,
}

impl Theme {
    /// Whether a change makes the panel be built anew.
    pub open spec fn rebuild_needed(old_theme: Theme, new_theme: Theme) -> bool {
        !(old_theme.panel.same_frame(new_theme.panel) && old_theme.font.same(new_theme.font)
            && old_theme.colors == new_theme.colors && old_theme.layout.same(new_theme.layout)
            && old_theme.beat.same_look(new_theme.beat))
    }

    /// Whether anything but the opacity differs.
    pub open spec fn rest_differs(old_theme: Theme, new_theme: Theme) -> bool {
        !(old_theme.panel.same_frame(new_theme.panel) && old_theme.font.same(new_theme.font)
            && old_theme.colors == new_theme.colors && old_theme.layout.same(new_theme.layout)
            && old_theme.display.same(new_theme.display) && old_theme.beat.same(new_theme.beat)
            && old_theme.sync.same(new_theme.sync))
    }
}

fn same_frame(a: &Panel, b: &Panel) -> (r: bool)
    ensures
        r == a.same_frame(*b),
{
    same_number(a.width, b.width) && same_number(a.corner_radius, b.corner_radius) && a.material
        == b.material && a.appearance == b.appearance
}

fn same_font(a: &Font, b: &Font) -> (r: bool)
    ensures
        r == a.same(*b),
{
    a.family == b.family && a.weight == b.weight && same_number(a.time_size, b.time_size)
        && same_number(a.detail_size, b.detail_size) && same_number(a.caption_size, b.caption_size)
}

fn same_layout(a: &Layout, b: &Layout) -> (r: bool)
    ensures
        r == a.same(*b),
{
    same_number(a.padding, b.padding) && same_number(a.line_gap, b.line_gap) && same_number(
        a.bar_height,
        b.bar_height,
    ) && same_number(a.bar_full_scale_ms, b.bar_full_scale_ms)
}

fn same_look(a: &Beat, b: &Beat) -> (r: bool)
    ensures
        r == a.same_look(*b),
{
    a.renderer == b.renderer && same_number(a.strip_height, b.strip_height) && a.color == b.color
        && a.final_color == b.final_color
}

fn same_beat(a: &Beat, b: &Beat) -> (r: bool)
    ensures
        r == a.same(*b),
{
    a.style == b.style && same_look(a, b) && same_number(a.period_ms, b.period_ms) && a.ticks
        == b.ticks && a.glow == b.glow && same_number(a.glow_width, b.glow_width) && same_number(
        a.glow_opacity,
        b.glow_opacity,
    ) && same_number(a.volume, b.volume) && same_number(a.tick_hz, b.tick_hz) && same_number(
        a.tick_ms,
        b.tick_ms,
    ) && same_number(a.final_ms, b.final_ms) && same_number(a.visual_lead_ms, b.visual_lead_ms)
}

/// Whether a change makes the panel be built anew. Opacity, timing, sound, glow, display lead
/// and time sources all have a lighter way.
pub fn needs_rebuild(old_theme: &Theme, new_theme: &Theme) -> (b: bool)
    ensures
        b == Theme::rebuild_needed(*old_theme, *new_theme),
{
    !(same_frame(&old_theme.panel, &new_theme.panel) && same_font(&old_theme.font, &new_theme.font)
        && old_theme.colors == new_theme.colors && same_layout(&old_theme.layout, &new_theme.layout)
        && same_look(&old_theme.beat, &new_theme.beat))
}

impl ThemeDelta {
    pub open spec fn is_between(self, old_theme: Theme, new_theme: Theme) -> bool {
        &&& self.opacity == !number_eq(old_theme.panel.opacity, new_theme.panel.opacity)
        &&& self.rest == Theme::rest_differs(old_theme, new_theme)
        &&& self.sync == !old_theme.sync.same(new_theme.sync)
        &&& self.style == (old_theme.beat.style != new_theme.beat.style)
        &&& self.display == !old_theme.display.same(new_theme.display)
        &&& self.timeline == !old_theme.beat.same_timeline(new_theme.beat)
        &&& self.rebuild == Theme::rebuild_needed(old_theme, new_theme)
    }

    pub fn between(old_theme: &Theme, new_theme: &Theme) -> (d: ThemeDelta)
        requires
            old_theme.display.wf(),
            new_theme.display.wf(),
        ensures
            d.is_between(*old_theme, *new_theme),
    {
        let sync_same: bool = same_texts(&old_theme.sync.servers, &new_theme.sync.servers)
            && old_theme.sync.burst == new_theme.sync.burst && same_number(
            old_theme.sync.spacing_ms,
            new_theme.sync.spacing_ms,
        ) && same_number(old_theme.sync.cycle_s, new_theme.sync.cycle_s);
        let display_same: bool = old_theme.display.equals(&new_theme.display);
        let rebuild: bool = needs_rebuild(old_theme, new_theme);
        ThemeDelta {
            opacity: !same_number(old_theme.panel.opacity, new_theme.panel.opacity),
            rest: rebuild || !sync_same || !display_same || !same_beat(
                &old_theme.beat,
                &new_theme.beat,
            ),
            sync: !sync_same,
            style: old_theme.beat.style != new_theme.beat.style,
            display: !display_same,
            timeline: !(same_number(old_theme.beat.period_ms, new_theme.beat.period_ms)
                && old_theme.beat.ticks == new_theme.beat.ticks),
            rebuild,
        }
    }
}

/// How much of a new theme is taken over at once.
#[derive(Clone, Copy, Debug, PartialEq, Eq, Structural)]
pub enum Adopt {
    Nothing,
    OpacityOnly,
    All,
}

/// What a change of the theme asks for.
#[derive(Clone, Copy, Debug, PartialEq, Eq, Structural)]
pub struct ChangePlan {
    pub adopt: Adopt,
    /// Set the panel's opacity and say so.
    pub set_opacity: bool,
    /// Come back to the rest once the countdown is over.
    pub deferred: bool,
    /// The style changed, and this is what the strip draws now.
    pub new_kind: Option<StripKind>,
    /// The beat that runs changes over at once.
    pub retarget: bool,
    pub rebuild_face: bool,
    pub refresh_screen: bool,
    /// The ticks moved: a target that is still waiting starts over.
    pub rearm: bool,
    pub reconfigure_sync: bool,
}

/// What a style draws.
pub open spec fn kind_of(style: BeatStyle, reduce_motion: bool) -> StripKind {
    match style {
        BeatStyle::Auto => if reduce_motion {
            StripKind::Pulse
        } else {
            StripKind::Ball
        },
        BeatStyle::Ball => StripKind::Ball,
        BeatStyle::Ring => StripKind::Ring,
        BeatStyle::Pulse => StripKind::Pulse,
    }
}

pub fn resolve_kind(style: BeatStyle, reduce_motion: bool) -> (k: StripKind)
    ensures
        k == kind_of(style, reduce_motion),
{
    match style {
        BeatStyle::Auto => if reduce_motion {
            StripKind::Pulse
        } else {
            StripKind::Ball
        },
        BeatStyle::Ball => StripKind::Ball,
        BeatStyle::Ring => StripKind::Ring,
        BeatStyle::Pulse => StripKind::Pulse,
    }
}

/// What to do about a change. During a countdown only the opacity changes and the rest waits;
/// otherwise only what differs is touched.
pub open spec fn change_asks(
    d: ThemeDelta,
    countdown: bool,
    running: Option<StripKind>,
    style: BeatStyle,
    reduce_motion: bool,
) -> ChangePlan {
    if countdown {
        ChangePlan {
            adopt: if d.opacity {
                Adopt::OpacityOnly
            } else {
                Adopt::Nothing
            },
            set_opacity: d.opacity,
            deferred: d.rest,
            new_kind: None,
            retarget: false,
            rebuild_face: false,
            refresh_screen: false,
            rearm: false,
            reconfigure_sync: false,
        }
    } else {
        let kind = kind_of(style, reduce_motion);
        let retarget = d.style && running is Some && running->0 != kind;
        ChangePlan {
            adopt: Adopt::All,
            set_opacity: d.opacity,
            deferred: false,
            new_kind: if d.style {
                Some(kind)
            } else {
                None
            },
            retarget,
            rebuild_face: d.rebuild || retarget,
            refresh_screen: d.display,
            rearm: d.timeline,
            reconfigure_sync: d.sync,
        }
    }
}

pub fn plan_change(
    d: ThemeDelta,
    countdown: bool,
    running: Option<StripKind>,
    style: BeatStyle,
    reduce_motion: bool,
) -> (p: ChangePlan)
    ensures
        p == change_asks(d, countdown, running, style, reduce_motion),
{
    if countdown {
        return ChangePlan {
            adopt: if d.opacity {
                Adopt::OpacityOnly
            } else {
                Adopt::Nothing
            },
            set_opacity: d.opacity,
            deferred: d.rest,
            new_kind: None,
            retarget: false,
            rebuild_face: false,
            refresh_screen: false,
            rearm: false,
            reconfigure_sync: false,
        };
    }
    let kind: StripKind = resolve_kind(style, reduce_motion);
    let retarget: bool = d.style && match running {
        Some(k) => k != kind,
        None => false,
    };
    ChangePlan {
        adopt: Adopt::All,
        set_opacity: d.opacity,
        deferred: false,
        new_kind: if d.style {
            Some(kind)
        } else {
            None
        },
        retarget,
        rebuild_face: d.rebuild || retarget,
        refresh_screen: d.display,
        rearm: d.timeline,
        reconfigure_sync: d.sync,
    }
}

/// During a countdown the panel is never built anew and no time source is touched.
pub proof fn a_countdown_is_left_in_peace(
    d: ThemeDelta,
    running: Option<StripKind>,
    style: BeatStyle,
    reduce_motion: bool,
)
    ensures
        ({
            let p = change_asks(d, true, running, style, reduce_motion);
            !p.rebuild_face && !p.reconfigure_sync && !p.rearm && !p.retarget && p.adopt
                != Adopt::All
        }),
{
}

/// A theme that differs in nothing asks for nothing.
pub proof fn no_change_asks_for_nothing(
    d: ThemeDelta,
    countdown: bool,
    running: Option<StripKind>,
    style: BeatStyle,
    reduce_motion: bool,
)
    requires
        d == (ThemeDelta {
            opacity: false,
            rest: false,
            sync: false,
            style: false,
            display: false,
            timeline: false,
            rebuild: false,
        }),
    ensures
        ({
            let p = change_asks(d, countdown, running, style, reduce_motion);
            !p.set_opacity && !p.deferred && p.new_kind is None && !p.rebuild_face
                && !p.refresh_screen && !p.rearm && !p.reconfigure_sync
        }),
{
}

/// The style at a place of the settings window's menu; beyond the end, the last.
pub open spec fn style_of_index(i: int) -> BeatStyle {
    if i <= 0 {
        BeatStyle::Auto
    } else if i == 1 {
        BeatStyle::Ball
    } else if i == 2 {
        BeatStyle::Ring
    } else {
        BeatStyle::Pulse
    }
}

pub fn style_at(i: usize) -> (s: BeatStyle)
    ensures
        s == style_of_index(i as int),
{
    if i == 0 {
        BeatStyle::Auto
    } else if i == 1 {
        BeatStyle::Ball
    } else if i == 2 {
        BeatStyle::Ring
    } else {
        BeatStyle::Pulse
    }
}

/// The place of a style in the menu.
pub fn style_index(s: BeatStyle) -> (i: usize)
    ensures
        i < 4,
        style_of_index(i as int) == s,
{
    match s {
        BeatStyle::Auto => 0,
        BeatStyle::Ball => 1,
        BeatStyle::Ring => 2,
        BeatStyle::Pulse => 3,
    }
}

/// The renderer at a place of the settings window's menu; beyond the end, the last.
pub open spec fn renderer_of_index(i: int) -> BeatRenderer {
    if i <= 0 {
        BeatRenderer::Auto
    } else if i == 1 {
        BeatRenderer::Metal
    } else {
        BeatRenderer::Layer
    }
}

pub fn renderer_at(i: usize) -> (r: BeatRenderer)
    ensures
        r == renderer_of_index(i as int),
{
    if i == 0 {
        BeatRenderer::Auto
    } else if i == 1 {
        BeatRenderer::Metal
    } else {
        BeatRenderer::Layer
    }
}

/// The place of a renderer in the menu.
pub fn renderer_index(r: BeatRenderer) -> (i: usize)
    ensures
        i < 3,
        renderer_of_index(i as int) == r,
{
    match r {
        BeatRenderer::Auto => 0,
        BeatRenderer::Metal => 1,
        BeatRenderer::Layer => 2,
    }
}

/// A page of the settings window.
#[derive(Clone, Copy, Debug, PartialEq, Eq, Structural)]
pub enum SettingsTab {
    Timeline,
    Beat,
    Sound,
}

/// A beat section with the keys of a page set back to those of the base.
pub open spec fn page_reset(beat: Beat, base: Beat, tab: SettingsTab) -> Beat {
    match tab {
        SettingsTab::Timeline => Beat { period_ms: base.period_ms, ticks: base.ticks, ..beat },
        SettingsTab::Beat => Beat {
            style: base.style,
            renderer: base.renderer,
            strip_height: base.strip_height,
            color: base.color,
            final_color: base.final_color,
            glow: base.glow,
            glow_width: base.glow_width,
            glow_opacity: base.glow_opacity,
            ..beat
        },
        SettingsTab::Sound => Beat {
            volume: base.volume,
            tick_hz: base.tick_hz,
            tick_ms: base.tick_ms,
            final_ms: base.final_ms,
            visual_lead_ms: base.visual_lead_ms,
            ..beat
        },
    }
}

/// Sets the keys of a page back to those of the base.
pub fn reset_page(beat: &Beat, base: &Beat, tab: SettingsTab) -> (b: Beat)
    ensures
        b == page_reset(*beat, *base, tab),
{
    let mut b: Beat = *beat;
    match tab {
        SettingsTab::Timeline => {
            b.period_ms = base.period_ms;
            b.ticks = base.ticks;
        },
        SettingsTab::Beat => {
            b.style = base.style;
            b.renderer = base.renderer;
            b.strip_height = base.strip_height;
            b.color = base.color;
            b.final_color = base.final_color;
            b.glow = base.glow;
            b.glow_width = base.glow_width;
            b.glow_opacity = base.glow_opacity;
        },
        SettingsTab::Sound => {
            b.volume = base.volume;
            b.tick_hz = base.tick_hz;
            b.tick_ms = base.tick_ms;
            b.final_ms = base.final_ms;
            b.visual_lead_ms = base.visual_lead_ms;
        },
    }
    b
}

/// Setting every page back sets the whole section back.
pub proof fn all_pages_are_the_whole_section(beat: Beat, base: Beat)
    ensures
        page_reset(
            page_reset(page_reset(beat, base, SettingsTab::Timeline), base, SettingsTab::Beat),
            base,
            SettingsTab::Sound,
        ) == base,
{
}

/// The character of a hexadecimal digit, in small letters or in capitals.
pub open spec fn digit_character(v: int, capital: bool) -> u8 {
    (if v < 10 {
        48 + v
    } else if capital {
        55 + v
    } else {
        87 + v
    }) as u8
}

/// Two hexadecimal digits are read as the number that they write, in small letters or capitals,
/// and nothing else is a digit.
pub proof fn a_written_byte_is_read_back(v: u8, capital: bool, c: u8)
    ensures
        hex_pair(
            digit_character(v as int / 16, capital),
            digit_character(v as int % 16, capital),
        ) == Some(v as int),
        hex_digit(c) is Some <==> 48 <= c <= 57 || 65 <= c <= 70 || 97 <= c <= 102,
        hex_digit(c) matches Some(d) ==> 0 <= d < 16,
{
}

/// A colour is read just where it is one: a hash sign and six or eight hexadecimal digits, the
/// first two red, then green, blue and, where they are there, the opacity.
pub proof fn a_colour_is_a_hash_and_its_digits(s: Seq<char>, r: Result<Color, String>)
    requires
        Color::parse_gives(s, r),
    ensures
        ({
            let b = encode_utf8(s);
            &&& r is Ok <==> (b.len() == 7 || b.len() == 9) && b[0] == 35 && forall|i: int|
                1 <= i < b.len() ==> hex_digit(#[trigger] b[i]) is Some
            &&& r matches Ok(c) ==> {
                &&& c.r == 16 * hex_digit(b[1])->0 + hex_digit(b[2])->0
                &&& c.g == 16 * hex_digit(b[3])->0 + hex_digit(b[4])->0
                &&& c.b == 16 * hex_digit(b[5])->0 + hex_digit(b[6])->0
                &&& b.len() == 9 ==> c.a == 16 * hex_digit(b[7])->0 + hex_digit(b[8])->0
                &&& b.len() == 7 ==> c.a == 255
            }
        }),
{
    let b = encode_utf8(s);
    if b.len() == 7 && b[0] == 35 {
        if r is Ok {
            assert forall|i: int| 1 <= i < b.len() implies hex_digit(#[trigger] b[i]) is Some by {
                assert(i == 1 || i == 2 || i == 3 || i == 4 || i == 5 || i == 6);
            }
        } else if forall|i: int| 1 <= i < b.len() ==> hex_digit(#[trigger] b[i]) is Some {
            assert(hex_digit(b[1]) is Some && hex_digit(b[2]) is Some && hex_digit(b[3]) is Some);
            assert(hex_digit(b[4]) is Some && hex_digit(b[5]) is Some && hex_digit(b[6]) is Some);
        }
    }
    if b.len() == 9 && b[0] == 35 {
        if r is Ok {
            assert forall|i: int| 1 <= i < b.len() implies hex_digit(#[trigger] b[i]) is Some by {
                assert(i == 1 || i == 2 || i == 3 || i == 4 || i == 5 || i == 6 || i == 7 || i
                    == 8);
            }
        } else if forall|i: int| 1 <= i < b.len() ==> hex_digit(#[trigger] b[i]) is Some {
            assert(hex_digit(b[1]) is Some && hex_digit(b[2]) is Some && hex_digit(b[3]) is Some);
            assert(hex_digit(b[4]) is Some && hex_digit(b[5]) is Some && hex_digit(b[6]) is Some);
            assert(hex_digit(b[7]) is Some && hex_digit(b[8]) is Some);
        }
    }
}

/// Whatever a change is for, it is part of the change: what is built from the panel's keys, the
/// time sources, the screens, the style and the timing all count as the rest, and the opacity
/// alone does not.
pub proof fn every_difference_is_seen(old_theme: Theme, new_theme: Theme, d: ThemeDelta)
    requires
        d.is_between(old_theme, new_theme),
    ensures
        d.rebuild || d.sync || d.display || d.style || d.timeline ==> d.rest,
        d.opacity <==> !(old_theme.panel.opacity.le(new_theme.panel.opacity)
            && new_theme.panel.opacity.le(old_theme.panel.opacity)),
        !d.rest ==> new_theme.beat.same(old_theme.beat) && old_theme.beat.style
            == new_theme.beat.style && old_theme.beat.ticks == new_theme.beat.ticks
            && old_theme.sync.burst == new_theme.sync.burst && old_theme.colors == new_theme.colors,
        !d.rebuild ==> old_theme.colors == new_theme.colors && old_theme.font.family@
            == new_theme.font.family@ && old_theme.panel.material == new_theme.panel.material
            && old_theme.panel.appearance == new_theme.panel.appearance && old_theme.beat.renderer
            == new_theme.beat.renderer && old_theme.beat.color == new_theme.beat.color
            && old_theme.beat.final_color == new_theme.beat.final_color,
        old_theme.beat.ticks != new_theme.beat.ticks ==> d.timeline,
        old_theme.beat.style != new_theme.beat.style <==> d.style,
{
}

/// A change of opacity, timing, sound, glow, screens or time sources builds nothing anew: two
/// themes that agree in all the rest of what the panel is made of need no new one.
pub proof fn lighter_changes_build_nothing(old_theme: Theme, new_theme: Theme)
    requires
        Theme::rebuild_needed(old_theme, new_theme),
    ensures
        !(number_eq(old_theme.panel.width, new_theme.panel.width) && number_eq(
            old_theme.panel.corner_radius,
            new_theme.panel.corner_radius,
        ) && old_theme.panel.material == new_theme.panel.material && old_theme.panel.appearance
            == new_theme.panel.appearance && old_theme.font.same(new_theme.font)
            && old_theme.colors == new_theme.colors && old_theme.layout.same(new_theme.layout)
            && old_theme.beat.renderer == new_theme.beat.renderer && number_eq(
            old_theme.beat.strip_height,
            new_theme.beat.strip_height,
        ) && old_theme.beat.color == new_theme.beat.color && old_theme.beat.final_color
            == new_theme.beat.final_color),
{
}

/// Being the same is the same both ways, and a section without a number that is none is the same
/// as itself.
pub proof fn sameness_goes_both_ways(a: Theme, b: Theme)
    ensures
        a.font.same(b.font) == b.font.same(a.font),
        a.layout.same(b.layout) == b.layout.same(a.layout),
        a.beat.same(b.beat) == b.beat.same(a.beat),
        a.sync.same(b.sync) == b.sync.same(a.sync),
        a.display.same(b.display) == b.display.same(a.display),
        Theme::rebuild_needed(a, b) == Theme::rebuild_needed(b, a),
        Theme::rest_differs(a, b) == Theme::rest_differs(b, a),
{
    if a.display.same(b.display) {
        assert forall|i: int|
            #![trigger b.display.screens@[i]]
            0 <= i < b.display.screens@.len() implies b.display.screens@[i].name@
            == a.display.screens@[i].name@ && number_eq(
            b.display.screens@[i].lead_ms,
            a.display.screens@[i].lead_ms,
        ) by {
            assert(a.display.screens@[i].name@ == b.display.screens@[i].name@);
        }
    }
    if b.display.same(a.display) {
        assert forall|i: int|
            #![trigger a.display.screens@[i]]
            0 <= i < a.display.screens@.len() implies a.display.screens@[i].name@
            == b.display.screens@[i].name@ && number_eq(
            a.display.screens@[i].lead_ms,
            b.display.screens@[i].lead_ms,
        ) by {
            assert(b.display.screens@[i].name@ == a.display.screens@[i].name@);
        }
    }
}

/// Two sections that are the same agree in every number.
pub proof fn the_same_agree_in_every_number(a: Theme, b: Theme)
    ensures
        a.font.same(b.font) ==> number_eq(a.font.time_size, b.font.time_size) && number_eq(
            a.font.detail_size,
            b.font.detail_size,
        ) && number_eq(a.font.caption_size, b.font.caption_size) && a.font.weight == b.font.weight,
        a.layout.same(b.layout) ==> number_eq(a.layout.padding, b.layout.padding) && number_eq(
            a.layout.line_gap,
            b.layout.line_gap,
        ) && number_eq(a.layout.bar_height, b.layout.bar_height) && number_eq(
            a.layout.bar_full_scale_ms,
            b.layout.bar_full_scale_ms,
        ),
        a.beat.same(b.beat) ==> number_eq(a.beat.period_ms, b.beat.period_ms) && number_eq(
            a.beat.glow_width,
            b.beat.glow_width,
        ) && number_eq(a.beat.glow_opacity, b.beat.glow_opacity) && number_eq(
            a.beat.volume,
            b.beat.volume,
        ) && number_eq(a.beat.tick_hz, b.beat.tick_hz) && number_eq(a.beat.tick_ms, b.beat.tick_ms)
            && number_eq(a.beat.final_ms, b.beat.final_ms) && number_eq(
            a.beat.visual_lead_ms,
            b.beat.visual_lead_ms,
        ) && a.beat.glow == b.beat.glow,
        a.sync.same(b.sync) ==> number_eq(a.sync.spacing_ms, b.sync.spacing_ms) && number_eq(
            a.sync.cycle_s,
            b.sync.cycle_s,
        ) && texts(a.sync.servers@) == texts(b.sync.servers@),
        a.display.same(b.display) ==> number_eq(a.display.lead_ms, b.display.lead_ms) && number_eq(
            a.display.idle_fps,
            b.display.idle_fps,
        ),
{
}

/// What differs is done at once unless a countdown runs, and all of it; during a countdown the
/// opacity alone, and the rest is put off until it is over.
pub proof fn what_differs_is_done_or_put_off(
    d: ThemeDelta,
    running: Option<StripKind>,
    style: BeatStyle,
    reduce_motion: bool,
)
    ensures
        ({
            let p = change_asks(d, false, running, style, reduce_motion);
            &&& p.adopt == Adopt::All && !p.deferred
            &&& p.set_opacity == d.opacity
            &&& p.refresh_screen == d.display
            &&& p.rearm == d.timeline
            &&& p.reconfigure_sync == d.sync
            &&& d.rebuild ==> p.rebuild_face
            &&& p.rebuild_face && !d.rebuild ==> p.retarget
            &&& p.new_kind is Some <==> d.style
            &&& p.new_kind matches Some(k) ==> k == kind_of(style, reduce_motion)
            &&& p.retarget <==> d.style && running is Some && running->0 != kind_of(
                style,
                reduce_motion,
            )
        }),
        ({
            let p = change_asks(d, true, running, style, reduce_motion);
            &&& p.deferred == d.rest
            &&& p.set_opacity == d.opacity
            &&& p.adopt == Adopt::OpacityOnly <==> d.opacity
            &&& p.adopt == Adopt::Nothing <==> !d.opacity
            &&& p.new_kind is None && !p.refresh_screen
        }),
{
}

/// The system's wish for less motion decides only where nothing was chosen: a pulse in place of
/// a ball.
pub proof fn less_motion_decides_only_for_auto(style: BeatStyle)
    ensures
        style != BeatStyle::Auto ==> kind_of(style, true) == kind_of(style, false),
        kind_of(BeatStyle::Auto, true) == StripKind::Pulse,
        kind_of(BeatStyle::Auto, false) == StripKind::Ball,
{
}

/// Setting a page back touches its own keys and no others, and setting it back twice is setting
/// it back once.
pub proof fn a_page_set_back_leaves_the_others(beat: Beat, base: Beat, tab: SettingsTab)
    ensures
        page_reset(page_reset(beat, base, tab), base, tab) == page_reset(beat, base, tab),
        ({
            let b = page_reset(beat, base, tab);
            &&& tab != SettingsTab::Timeline ==> b.period_ms == beat.period_ms && b.ticks
                == beat.ticks
            &&& tab != SettingsTab::Beat ==> b.style == beat.style && b.renderer == beat.renderer
                && b.strip_height == beat.strip_height && b.color == beat.color && b.final_color
                == beat.final_color && b.glow == beat.glow && b.glow_width == beat.glow_width
                && b.glow_opacity == beat.glow_opacity
            &&& tab != SettingsTab::Sound ==> b.volume == beat.volume && b.tick_hz == beat.tick_hz
                && b.tick_ms == beat.tick_ms && b.final_ms == beat.final_ms && b.visual_lead_ms
                == beat.visual_lead_ms
        }),
{
}

/// Each place of the menu but those beyond its end stands for a style of its own: first the
/// automatic one, then the ball, the ring and the pulse.
pub proof fn the_styles_stand_in_their_places(i: int)
    ensures
        style_of_index(i) is Auto <==> i <= 0,
        style_of_index(i) is Ball <==> i == 1,
        style_of_index(i) is Ring <==> i == 2,
        style_of_index(i) is Pulse <==> i >= 3,
{
}

/// Each place of the menu but those beyond its end stands for a renderer of its own.
pub proof fn the_renderers_stand_in_their_places(i: int)
    ensures
        renderer_of_index(i) is Auto <==> i <= 0,
        renderer_of_index(i) is Metal <==> i == 1,
        renderer_of_index(i) is Layer <==> i >= 2,
{
}

/// A screen that is listed has an entry of its own, and one that is not has none.
pub proof fn a_listed_screen_has_its_own_lead(d: Display, i: int, name: Seq<char>)
    requires
        0 <= i < d.screens@.len(),
    ensures
        d.has_own(d.screens@[i].name@),
        (forall|j: int| 0 <= j < d.screens@.len() ==> (#[trigger] d.screens@[j]).name@ != name)
            ==> !d.has_own(name),
{
}

} // verus!
