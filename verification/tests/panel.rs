//! Words, colours, and the look of the panel.

use kairos::duration::Duration;
use kairos::float::Float64;
use kairos::model::{ClockModel, ModelStatus, SourceKind};
use kairos::strip::{style_for, ticked_choice, StripKind};
use kairos::sync::settings::{SamplerConfig, SyncSettings};
use kairos::text::{
    lead_error, menu_rows, setting_error, status_word, system_clock_text, MenuFigures,
};
use kairos::theme::{
    needs_rebuild, plan_change, renderer_at, renderer_index, reset_page, resolve_kind, style_at,
    style_index, Adopt, Appearance, Beat, BeatRenderer, BeatStyle, ChangePlan, Color, Colors,
    Display, Font, Layout, Material, Panel, ScreenLead, SettingsTab, Sync, Theme, ThemeDelta,
    Weight,
};
use kairos::time::{HostTime, Timebase};
use kairos::view::{clamp_opacity, clamp_zoom, describe_view};

fn tb() -> Timebase {
    Timebase::new(125, 3)
}

fn float(x: f64) -> Float64 {
    Float64 { bits: x.to_bits() }
}

fn number(x: Float64) -> f64 {
    f64::from_bits(x.bits)
}

fn model(status: ModelStatus, reference: HostTime) -> ClockModel {
    ClockModel {
        source: SourceKind::Standard,
        status,
        reference,
        // Remote minus system clock is 88 ms.
        offset_ns: 1_000 + 88_000_000,
        drift: float(12.3e-6),
        half_width_ns: 8_000_000,
        half_width_growth_ns_per_s: float(480_000.0),
    }
}

/// The rows, with their figures as the program writes them.
fn rows(m: &ClockModel, now: HostTime, system_theta_ns: i128) -> (String, String) {
    let dt_ns = m.elapsed_ns(now, tb());
    let drift_ns = (number(m.drift) * dt_ns as f64) as i128;
    let growth = (number(m.half_width_growth_ns_per_s) * (dt_ns as f64 / 1e9).abs()) as u64;
    let half = m.half_width_ns.saturating_add(growth);
    let offset = m.offset_ns + drift_ns - system_theta_ns;
    let figures = MenuFigures {
        offset: format!("{:+.1}", offset as f64 / 1e6),
        half_width: format!("{:.1}", half as f64 / 1e6),
        drift: format!("{:+.1}", number(m.drift) * 1e6),
        drift_bound: format!("{:.0}", number(m.half_width_growth_ns_per_s) / 1_000.0),
    };
    menu_rows(m, now, &figures, tb())
}

#[test]
fn menu_rows_tracking_shows_offset_and_width() {
    let now = HostTime::from_nanos(5_000_000_000_000, tb());
    let (primary, detail) = rows(&model(ModelStatus::Tracking, now), now, 1_000);
    assert_eq!(primary, "標準時間 +88.0 ms ± 8.0 ms（追蹤中）");
    assert_eq!(detail, "漂移 +12.3 ± 480 ppm，上次取樣 0 秒前");
}

#[test]
fn menu_rows_grow_width_and_age_with_time() {
    let reference = HostTime::from_nanos(5_000_000_000_000, tb());
    let now = reference.plus(Duration::from_secs(10), tb());
    let (primary, detail) = rows(&model(ModelStatus::Converging, reference), now, 1_000);
    assert_eq!(primary, "標準時間 +88.1 ms ± 12.8 ms（收斂中）");
    assert!(detail.ends_with("上次取樣 10 秒前"), "{detail}");
}

#[test]
fn menu_rows_special_states() {
    let now = HostTime::from_nanos(5_000_000_000_000, tb());
    let uncal = ClockModel::uncalibrated(SourceKind::Standard, now);
    assert_eq!(rows(&uncal, now, 0).0, "標準時間：校時中…");

    let mut woke = uncal;
    woke.status = ModelStatus::Stale;
    assert_eq!(rows(&woke, now, 0).0, "標準時間：喚醒後重新校時中");

    let stale = model(ModelStatus::Stale, now);
    assert_eq!(rows(&stale, now, 1_000).0, "標準時間 +88.0 ms ± 8.0 ms（過時）");
    assert_eq!(status_word(&model(ModelStatus::Frozen, now)), Ok("已凍結"));
}

fn clock_text(ns: i128) -> String {
    system_clock_text(ns, &format!("{:.2}", (ns as f64 / 1e9).abs()))
}

#[test]
fn system_clock_text_switches_units() {
    assert_eq!(clock_text(87_000_000), "系統時鐘慢 87 ms");
    assert_eq!(clock_text(-87_000_000), "系統時鐘快 87 ms");
    assert_eq!(clock_text(2_981_000_000), "系統時鐘慢 2.98 s");
}

#[test]
fn whole_milliseconds_are_rounded_half_to_even() {
    for ns in [0i128, 499_999, 500_000, 500_001, 1_500_000, 2_500_000, 999_499_999, 999_999_999] {
        let expected = format!("系統時鐘慢 {:.0} ms", ns as f64 / 1e6);
        assert_eq!(clock_text(ns), expected);
    }
}

#[test]
fn fields_without_a_number_are_named() {
    assert_eq!(lead_error("反應時間", "a\"b"), "反應時間要是數字，現在是 \"a\\\"b\"");
    assert_eq!(setting_error("拍距", "x"), "「拍距」要是數字，現在是 \"x\"");
}

fn check_clamps() {
    assert_eq!(number(clamp_zoom(float(0.1))), 0.5);
    assert_eq!(number(clamp_zoom(float(9.0))), 3.0);
    assert_eq!(number(clamp_zoom(float(1.25))), 1.25);
    assert_eq!(number(clamp_zoom(float(f64::NAN))), 1.0);
    assert_eq!(number(clamp_opacity(float(0.0))), 0.2);
    assert_eq!(number(clamp_opacity(float(1.5))), 1.0);
    assert_eq!(number(clamp_opacity(float(f64::INFINITY))), 1.0);
}

#[test]
fn settings_store_clamps_keep_values_in_range_and_reject_nan() {
    check_clamps();
}

#[test]
fn state_store_clamps_keep_values_in_range_and_reject_nan() {
    check_clamps();
    assert_eq!(number(clamp_zoom(float(-4.0))), 0.5);
}

fn view(zoom: f64, opacity: f64, overridden: bool) -> String {
    describe_view(
        &format!("{:.0}", zoom * 100.0),
        &format!("{:.0}", opacity * 100.0),
        overridden,
    )
}

#[test]
fn describe_view_mentions_theme_when_opacity_not_overridden() {
    assert_eq!(view(1.25, 0.9, false), "大小 125% · 不透明度 90%（依主題檔）");
    assert_eq!(view(0.5, 0.7, true), "大小 50% · 不透明度 70%");
}

#[test]
fn describe_mentions_theme_when_opacity_not_overridden() {
    let describe = |zoom: f64, opacity: Option<f64>, theme_opacity: f64| {
        view(zoom, opacity.unwrap_or(theme_opacity), opacity.is_some())
    };
    assert_eq!(describe(1.25, None, 0.9), "大小 125% · 不透明度 90%（依主題檔）");
    assert_eq!(describe(0.5, Some(0.7), 0.9), "大小 50% · 不透明度 70%");
}

#[test]
fn colors_parse_with_and_without_alpha() {
    let c = Color::parse("#5AA9FF").unwrap();
    assert_eq!(c.r, 0x5A);
    assert_eq!(c.a, 255);
    let c = Color::parse("#00000080").unwrap();
    assert_eq!(c.a, 128);
    assert!(Color::parse("5AA9FF").is_err());
    assert!(Color::parse("#12345").is_err());
    assert!(Color::parse("#GG0000").is_err());
}

#[test]
fn bad_colors_say_why() {
    assert_eq!(Color::parse("red"), Err("顏色 \"red\" 要以 # 開頭".to_string()));
    assert_eq!(Color::parse("#12"), Err("顏色 \"#12\" 要是 #RRGGBB 或 #RRGGBBAA".to_string()));
    assert_eq!(Color::parse("#zz0000"), Err("顏色 \"#zz0000\" 含非十六進位字元".to_string()));
    // A sign is no digit.
    assert_eq!(Color::parse("#+1+2+3"), Err("顏色 \"#+1+2+3\" 含非十六進位字元".to_string()));
    assert!(Color::parse("#00+000").is_err());
    assert!(Color::parse("#000000+f").is_err());
    // Letters beyond ASCII count by their bytes and are no digits.
    assert!(Color::parse("#紅綠").unwrap_err().contains("含非十六進位字元"));
    assert_eq!(Color::parse("#abcdef"), Ok(Color::rgba(0xab, 0xcd, 0xef, 255)));
}

fn default_theme() -> Theme {
    Theme {
        panel: Panel::default(),
        font: Font::default(),
        colors: Colors::default(),
        layout: Layout::default(),
        display: Display::default(),
        beat: Beat::default(),
        sync: Sync::default(),
    }
}

#[test]
fn defaults_are_the_numbers_they_say() {
    let t = default_theme();
    assert_eq!(number(t.panel.width), 320.0);
    assert_eq!(number(t.panel.corner_radius), 14.0);
    assert_eq!(number(t.panel.opacity), 1.0);
    assert_eq!((t.panel.material, t.panel.appearance), (Material::Hud, Appearance::Dark));
    assert_eq!(number(t.font.time_size), 34.0);
    assert_eq!(number(t.font.detail_size), 13.0);
    assert_eq!(number(t.font.caption_size), 11.0);
    assert_eq!(t.font.weight, Weight::Medium);
    assert_eq!(number(t.layout.padding), 16.0);
    assert_eq!(number(t.layout.line_gap), 6.0);
    assert_eq!(number(t.layout.bar_height), 4.0);
    assert_eq!(number(t.layout.bar_full_scale_ms), 50.0);
    assert_eq!(number(t.display.idle_fps), 60.0);
    assert_eq!(number(t.beat.period_ms), 1000.0);
    assert_eq!(number(t.beat.strip_height), 64.0);
    assert_eq!(number(t.beat.glow_width), 48.0);
    assert_eq!(number(t.beat.glow_opacity), 0.35);
    assert_eq!(number(t.beat.volume), 0.5);
    assert_eq!(number(t.beat.tick_hz), 1000.0);
    assert_eq!(number(t.beat.tick_ms), 30.0);
    assert_eq!(number(t.beat.final_ms), 200.0);
    assert_eq!(number(t.sync.spacing_ms), 1000.0);
    assert_eq!(number(t.sync.cycle_s), 180.0);
    assert_eq!(Color::parse("#5AA9FF"), Ok(t.beat.color));
    assert_eq!(Color::parse("#FFB454"), Ok(t.beat.final_color));
    assert_eq!(Color::parse("#FFFFFFD0"), Ok(t.colors.detail));
    assert_eq!(Color::parse("#FFFFFF80"), Ok(t.colors.caption));
    assert_eq!(Color::parse("#FFFFFF26"), Ok(t.colors.bar_track));
}

/// A section of a theme's text.
fn section(text: &str, name: &str) -> toml::Table {
    let table: toml::Table = text.parse().unwrap();
    table[name].as_table().unwrap().clone()
}

fn as_number(v: &toml::Value) -> Float64 {
    float(v.as_float().unwrap_or_else(|| v.as_integer().unwrap() as f64))
}

#[test]
fn screen_overrides_and_beat_section() {
    let text = "[display]\nlead_ms = 3\n[display.screens]\n\"DELL P2421D\" = 8\n[beat]\nstyle = \"ring\"\nvisual_lead_ms = -5\n";
    let display = section(text, "display");
    let screens = display["screens"].as_table().unwrap();
    let mut t = default_theme();
    t.display.lead_ms = as_number(&display["lead_ms"]);
    t.display.screens = screens
        .iter()
        .map(|(name, lead)| ScreenLead { name: name.clone(), lead_ms: as_number(lead) })
        .collect();
    t.beat.visual_lead_ms = as_number(&section(text, "beat")["visual_lead_ms"]);
    t.beat.style = BeatStyle::Ring;
    assert_eq!(number(t.display.lead_ms_for(Some("DELL P2421D".into()))), 8.0);
    assert_eq!(number(t.display.lead_ms_for(Some("Built-in".into()))), 3.0);
    assert_eq!(number(t.display.lead_ms_for(None)), 3.0);
    assert_eq!(resolve_kind(t.beat.style, true), StripKind::Ring);
    assert_eq!(number(t.beat.visual_lead_ms), -5.0);
    assert_eq!(number(t.beat.tick_ms), 30.0);
}

#[test]
fn each_of_several_screens_has_its_lead() {
    let screens = ["Built-in", "DELL", "DELL P2421D"]
        .into_iter()
        .zip([1.0, 2.0, 8.0])
        .map(|(name, lead)| ScreenLead { name: name.into(), lead_ms: float(lead) })
        .collect();
    let d = Display { lead_ms: float(3.0), screens, ..Display::default() };
    let lead = |name: &str| number(d.lead_ms_for(Some(name.into())));
    assert_eq!((lead("Built-in"), lead("DELL"), lead("DELL P2421D")), (1.0, 2.0, 8.0));
    assert_eq!(lead("DELL P"), 3.0);
}

fn spans(s: &Sync) -> (Duration, Duration) {
    (
        Duration::from_nanos((number(s.spacing_ms) * 1e6) as u64),
        Duration::from_nanos((number(s.cycle_s) * 1e9) as u64),
    )
}

#[test]
fn sync_section_maps_to_settings_and_reports_bad_values() {
    let text = "[sync]\nservers = [\"tock.stdtime.gov.tw\", \"time.apple.com\"]\nburst = 2\nspacing_ms = 500\ncycle_s = 120\n";
    let table = section(text, "sync");
    let servers = table["servers"].as_array().unwrap();
    let s = Sync {
        servers: servers.iter().map(|h| h.as_str().unwrap().to_string()).collect(),
        burst: table["burst"].as_integer().unwrap() as usize,
        spacing_ms: as_number(&table["spacing_ms"]),
        cycle_s: as_number(&table["cycle_s"]),
    };
    let (spacing, cycle) = spans(&s);
    let settings = s.settings(spacing, cycle).unwrap();
    assert_eq!(settings.servers, vec!["tock.stdtime.gov.tw", "time.apple.com"]);
    assert_eq!(settings.burst, 2);
    assert_eq!(settings.spacing, Duration::from_millis(500));
    assert_eq!(settings.cycle, Duration::from_secs(120));

    let defaults = Sync::default();
    let (spacing, cycle) = spans(&defaults);
    assert_eq!(
        defaults.settings(spacing, cycle).unwrap(),
        SyncSettings::from_config(&SamplerConfig::default())
    );
    let bad = Sync { servers: vec![], ..Sync::default() };
    assert!(bad.settings(spacing, cycle).is_err());
    assert!(Sync::default()
        .settings(spacing, Duration::from_secs(5))
        .unwrap_err()
        .contains("兩輪"));
}

#[test]
fn only_what_the_panel_is_built_from_rebuilds_it() {
    let a = default_theme();
    assert!(!needs_rebuild(&a, &a));
    let mut b = default_theme();
    b.panel.opacity = float(0.5);
    b.beat.volume = float(0.1);
    b.beat.ticks = 6;
    b.beat.glow = false;
    b.display.lead_ms = float(8.0);
    b.sync.burst = 2;
    assert!(!needs_rebuild(&a, &b));
    for change in 0..7 {
        let mut b = default_theme();
        match change {
            0 => b.panel.width = float(400.0),
            1 => b.font.family = "Menlo".into(),
            2 => b.colors.time = Color::rgba(0, 0, 0, 255),
            3 => b.layout.padding = float(8.0),
            4 => b.beat.renderer = BeatRenderer::Layer,
            5 => b.beat.strip_height = float(80.0),
            _ => b.beat.final_color = Color::rgba(1, 2, 3, 4),
        }
        assert!(needs_rebuild(&a, &b), "change {change}");
    }
    // A negative zero is the same number.
    let mut z = default_theme();
    z.layout.padding = float(0.0);
    let mut n = default_theme();
    n.layout.padding = float(-0.0);
    assert!(!needs_rebuild(&z, &n));
}

#[test]
fn a_change_touches_what_differs() {
    let a = default_theme();
    let mut b = default_theme();
    b.beat.style = BeatStyle::Ring;
    b.beat.ticks = 6;
    b.sync.servers = vec!["a".into()];
    let d = ThemeDelta::between(&a, &b);
    assert_eq!(
        d,
        ThemeDelta {
            opacity: false,
            rest: true,
            sync: true,
            style: true,
            display: false,
            timeline: true,
            rebuild: false,
        }
    );
    assert_eq!(
        plan_change(d, false, Some(StripKind::Ball), b.beat.style, false),
        ChangePlan {
            adopt: Adopt::All,
            set_opacity: false,
            deferred: false,
            new_kind: Some(StripKind::Ring),
            retarget: true,
            rebuild_face: true,
            refresh_screen: false,
            rearm: true,
            reconfigure_sync: true,
        }
    );
    // During a countdown all of it waits.
    let p = plan_change(d, true, Some(StripKind::Ball), b.beat.style, false);
    assert_eq!(p.adopt, Adopt::Nothing);
    assert!(p.deferred && !p.rebuild_face && !p.reconfigure_sync);
    b.panel.opacity = float(0.5);
    let p = plan_change(ThemeDelta::between(&a, &b), true, None, b.beat.style, false);
    assert_eq!(p.adopt, Adopt::OpacityOnly);
    assert!(p.set_opacity);

    let mut screens = default_theme();
    screens.display.screens.push(ScreenLead { name: "DELL".into(), lead_ms: float(8.0) });
    let d = ThemeDelta::between(&a, &screens);
    assert!(d.display && d.rest && !d.rebuild);
}

#[test]
fn styles_draw_what_they_say() {
    assert_eq!(resolve_kind(BeatStyle::Auto, false), StripKind::Ball);
    assert_eq!(resolve_kind(BeatStyle::Auto, true), StripKind::Pulse);
    assert_eq!(resolve_kind(BeatStyle::Ring, true), StripKind::Ring);
    assert_eq!(
        [StripKind::Ball, StripKind::Ring, StripKind::Pulse].map(|k| k.title()),
        ["球", "環", "脈衝"]
    );
    assert_eq!(
        [0, 1, 2, 3, 4].map(StripKind::of_tag),
        [None, Some(StripKind::Ball), Some(StripKind::Ring), Some(StripKind::Pulse), None]
    );
    assert_eq!(style_for(None, BeatStyle::Pulse), BeatStyle::Pulse);
    assert_eq!(style_for(Some(StripKind::Ring), BeatStyle::Pulse), BeatStyle::Ring);
    assert_eq!(ticked_choice(true, BeatStyle::Ring), Some(StripKind::Ring));
    assert_eq!(ticked_choice(false, BeatStyle::Ring), None);
    assert_eq!(ticked_choice(true, BeatStyle::Auto), None);
}

#[test]
fn menu_places_and_styles_agree() {
    for s in [BeatStyle::Auto, BeatStyle::Ball, BeatStyle::Ring, BeatStyle::Pulse] {
        assert_eq!(style_at(style_index(s)), s);
    }
    assert_eq!(style_at(99), BeatStyle::Pulse);
    for r in [BeatRenderer::Auto, BeatRenderer::Metal, BeatRenderer::Layer] {
        assert_eq!(renderer_at(renderer_index(r)), r);
    }
    assert_eq!(renderer_at(99), BeatRenderer::Layer);
}

#[test]
fn a_page_is_set_back_by_itself() {
    let base = Beat::default();
    let changed = Beat {
        ticks: 8,
        style: BeatStyle::Ring,
        volume: float(0.9),
        ..base
    };
    let b = reset_page(&changed, &base, SettingsTab::Timeline);
    assert_eq!((b.ticks, b.style), (4, BeatStyle::Ring));
    let b = reset_page(&changed, &base, SettingsTab::Beat);
    assert_eq!((b.ticks, b.style), (8, BeatStyle::Auto));
    let b = reset_page(&changed, &base, SettingsTab::Sound);
    assert_eq!(number(b.volume), 0.5);
    assert_eq!(b.ticks, 8);
}
