//! Overrides of the theme: laying tables over each other, and taking them apart.

use kairos::overrides::{
    commit, describe, diff, effective, has_leaf, leaf_count, merge, prune, reload,
};
use toml::{Table, Value};

fn theme(opacity: f64, width: f64, ticks: i64) -> Table {
    let mut panel = Table::new();
    panel.insert("opacity".into(), Value::Float(opacity));
    panel.insert("width".into(), Value::Float(width));
    let mut beat = Table::new();
    beat.insert("ticks".into(), Value::Integer(ticks));
    let mut font = Table::new();
    font.insert("family".into(), Value::String("".into()));
    let mut display = Table::new();
    display.insert("screens".into(), Value::Table(Table::new()));
    let mut t = Table::new();
    t.insert("panel".into(), Value::Table(panel));
    t.insert("beat".into(), Value::Table(beat));
    t.insert("font".into(), Value::Table(font));
    t.insert("display".into(), Value::Table(display));
    t
}

fn with_screen(mut t: Table, name: &str, lead: f64) -> Table {
    let mut screens = Table::new();
    screens.insert(name.into(), Value::Float(lead));
    let mut display = Table::new();
    display.insert("screens".into(), Value::Table(screens));
    t.insert("display".into(), Value::Table(display));
    t
}

fn at<'a>(t: &'a Table, section: &str, key: &str) -> Option<&'a Value> {
    t.get(section).and_then(|s| s.as_table()).and_then(|s| s.get(key))
}

#[test]
fn diff_merge_and_prune_work_leaf_by_leaf() {
    let base = theme(1.0, 320.0, 4);
    let t = with_screen(theme(0.6, 320.0, 6), "DELL", 8.0);
    let over = diff(&base, &t);
    assert_eq!(leaf_count(&over), 3);
    assert!(has_leaf(&over, "panel.opacity"));
    assert!(has_leaf(&over, "beat.ticks"));
    assert!(has_leaf(&over, "display.screens.DELL"));
    assert!(!has_leaf(&over, "panel.width"));
    assert!(!has_leaf(&over, "panel"));
    assert!(!over.contains_key("font"), "{over}");
    assert_eq!(merge(&base, &over), t);
    let words = describe(&over).unwrap();
    assert!(words.contains("panel.opacity = 0.6"), "{words}");
    assert_eq!(describe(&Table::new()).unwrap(), "沒有覆寫");

    // The base changed elsewhere: the overrides stay.
    let mut o = over.clone();
    assert!(prune(&mut o, &base, &theme(1.0, 400.0, 4)).is_empty());
    assert_eq!(o, over);

    // The base changed an overridden key: that one is void, and an empty section goes.
    let new_base = theme(0.9, 400.0, 4);
    let mut o = over.clone();
    let removed = prune(&mut o, &base, &new_base);
    assert_eq!(removed, vec!["panel.opacity".to_string()]);
    assert!(!o.contains_key("panel"));
    assert!(has_leaf(&o, "beat.ticks"));
    let eff = effective(&new_base, &o).unwrap();
    assert_eq!(at(&eff, "panel", "opacity"), Some(&Value::Float(0.9)));
    assert_eq!(at(&eff, "beat", "ticks"), Some(&Value::Integer(6)));

    assert_eq!(effective(&base, &Table::new()), None);
}

#[test]
fn differences_laid_over_the_base_give_the_whole_back() {
    let base = theme(1.0, 320.0, 4);
    for t in [theme(0.5, 320.0, 4), theme(1.0, 1.0, 9), with_screen(theme(0.2, 3.0, 1), "a.b", 1.0)]
    {
        assert_eq!(merge(&base, &diff(&base, &t)), t);
    }
    assert!(diff(&base, &base).is_empty());
    // Differences cannot take a key away: one that only the base has stays.
    let screened = with_screen(base.clone(), "DELL", 8.0);
    assert_eq!(merge(&screened, &diff(&screened, &base)), screened);
}

#[test]
fn remembered_overrides_bring_back_what_was_laid_over_the_base() {
    let base = with_screen(theme(1.0, 320.0, 4), "DELL", 8.0);
    for over in [theme(0.5, 320.0, 4), with_screen(Table::new(), "LG", 2.0), Table::new()] {
        let in_force = merge(&base, &over);
        assert_eq!(merge(&base, &diff(&base, &in_force)), in_force);
    }
}

#[test]
fn a_new_base_counts_over_older_overrides() {
    let base = theme(1.0, 320.0, 4);
    let mut over = diff(&base, &theme(0.6, 320.0, 6));
    let new_base = theme(0.9, 320.0, 4);
    let r = reload(&mut over, &base, &new_base);
    assert_eq!(r.removed, vec!["panel.opacity".to_string()]);
    assert_eq!(at(&r.effective.unwrap(), "beat", "ticks"), Some(&Value::Integer(6)));

    let mut only = diff(&base, &theme(0.6, 320.0, 4));
    let r = reload(&mut only, &base, &new_base);
    assert_eq!(r.effective, None);
    assert!(only.is_empty());
}

#[test]
fn a_commit_keeps_changes_that_wait() {
    let base = theme(1.0, 320.0, 4);
    // An override of the ticks has not been applied yet: the theme in force is the base.
    let waiting = diff(&base, &theme(1.0, 320.0, 6));
    let c = commit(&base, &waiting, &base, &theme(0.5, 320.0, 4));
    assert_eq!(at(&c.wanted, "panel", "opacity"), Some(&Value::Float(0.5)));
    assert_eq!(at(&c.wanted, "beat", "ticks"), Some(&Value::Integer(6)));
    assert_eq!(leaf_count(&c.overrides), 2);
    // Going back to the base leaves no override.
    let c = commit(&base, &c.overrides, &c.wanted, &base);
    assert!(c.overrides.is_empty());
}

#[test]
fn leaves_are_written_with_their_paths() {
    let t = with_screen(Table::new(), "DELL", 8.0);
    assert_eq!(describe(&t).unwrap(), "display.screens.DELL = 8.0");
    let mut t = Table::new();
    t.insert("a".into(), Value::String("x\"y".into()));
    t.insert("b".into(), Value::Boolean(true));
    t.insert("c".into(), Value::Array(vec![Value::Integer(1), Value::Integer(2)]));
    let words = describe(&t).unwrap();
    assert!(words.starts_with("a = ") && words.contains("、b = true、"), "{words}");
    assert_eq!(leaf_count(&t), 3);
    assert!(!has_leaf(&t, "a.b"));
}

#[test]
fn numbers_compare_as_numbers() {
    let mut a = Table::new();
    a.insert("x".into(), Value::Float(0.0));
    let mut b = Table::new();
    b.insert("x".into(), Value::Float(-0.0));
    assert!(diff(&a, &b).is_empty());
    b.insert("x".into(), Value::Float(f64::NAN));
    assert_eq!(leaf_count(&diff(&b, &b.clone())), 1);
    // An integer is not the float of the same size.
    b.insert("x".into(), Value::Integer(0));
    assert_eq!(leaf_count(&diff(&a, &b)), 1);
}
