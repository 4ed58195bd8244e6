use randcache::cache::{RandCache, ScriptedSource};
use randcache::color::Color;
use randcache::render::plan_draw;

#[test]
fn draw_cycle_replay() {
    let mut cache = RandCache::new(ScriptedSource::new(vec![10, 20, 30, 40, 50, 60]));
    let bg = Color::from_rgb(0, 0, 0);
    let first = plan_draw(&mut cache, 800, 600, bg);
    assert_eq!(first.foreground.red(), 10);
    assert_eq!(first.foreground.green(), 20);
    assert_eq!(first.foreground.blue(), 30);
    assert_eq!(first.foreground.alpha(), 255);
    // A second cycle — a resize — replays the same bytes, not 40, 50, 60.
    let second = plan_draw(&mut cache, 800, 600, bg);
    assert_eq!(second.foreground.red(), 10);
    assert_eq!(second.foreground.green(), 20);
    assert_eq!(second.foreground.blue(), 30);
}

#[test]
fn resize_changes_only_geometry() {
    let mut cache = RandCache::new(ScriptedSource::new(vec![1, 2, 3, 4, 5, 6]));
    let bg = Color::from_rgb(9, 9, 9);
    let first = plan_draw(&mut cache, 640, 480, bg);
    let second = plan_draw(&mut cache, 1920, 1080, bg);
    // The dimensions pass through to the plan...
    assert_eq!(first.width, 640);
    assert_eq!(first.height, 480);
    assert_eq!(second.width, 1920);
    assert_eq!(second.height, 1080);
    // ...but the random choices do not depend on them.
    assert_eq!(second.foreground.red(), first.foreground.red());
    assert_eq!(second.foreground.green(), first.foreground.green());
    assert_eq!(second.foreground.blue(), first.foreground.blue());
    // Each cycle consumed exactly three bytes: the ledger holds positions
    // 0, 1, 2 and nothing more.
    assert_eq!(cache.get_cache_index(), 3);
    assert!(cache.rewind_to(2).is_ok());
    assert!(cache.rewind_to(3).is_err());
}

#[test]
fn background_passes_through() {
    let mut cache = RandCache::new(ScriptedSource::new(vec![0; 8]));
    let bg = Color::from_config_string("#336699cc").unwrap();
    let plan = plan_draw(&mut cache, 100, 100, bg);
    assert_eq!(plan.background.red(), 0x33);
    assert_eq!(plan.background.green(), 0x66);
    assert_eq!(plan.background.blue(), 0x99);
    assert_eq!(plan.background.alpha(), 0xCC);
}
