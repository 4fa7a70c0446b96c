use stderrlog::Color;
use stderrlog::Level;
use stderrlog::LevelFilter;
use stderrlog::level::color_for_level;
use stderrlog::level::severity_for_verbosity;

#[test]
fn verbosity_mapping_named_levels() {
    assert_eq!(severity_for_verbosity(0), LevelFilter::Error);
    assert_eq!(severity_for_verbosity(1), LevelFilter::Warn);
    assert_eq!(severity_for_verbosity(2), LevelFilter::Info);
    assert_eq!(severity_for_verbosity(3), LevelFilter::Debug);
}

#[test]
fn verbosity_mapping_saturates_at_trace() {
    assert_eq!(severity_for_verbosity(4), LevelFilter::Trace);
    assert_eq!(severity_for_verbosity(5), LevelFilter::Trace);
    assert_eq!(severity_for_verbosity(1000), LevelFilter::Trace);
    assert_eq!(severity_for_verbosity(usize::MAX), LevelFilter::Trace);
}

#[test]
fn effective_threshold_follows_verbosity() {
    let mut cfg = stderrlog::new();
    assert_eq!(cfg.log_level_filter(), LevelFilter::Error);
    cfg.verbosity(2);
    assert_eq!(cfg.log_level_filter(), LevelFilter::Info);
    assert!(cfg.enabled(Level::Error));
    assert!(cfg.enabled(Level::Warn));
    assert!(cfg.enabled(Level::Info));
    assert!(!cfg.enabled(Level::Debug));
    assert!(!cfg.enabled(Level::Trace));
}

#[test]
fn quiet_forces_everything_off() {
    let mut cfg = stderrlog::new();
    cfg.verbosity(1000);
    cfg.quiet(true);
    assert_eq!(cfg.log_level_filter(), LevelFilter::Off);
    assert!(!cfg.enabled(Level::Error));
    assert!(!cfg.enabled(Level::Warn));
    assert!(!cfg.enabled(Level::Info));
    assert!(!cfg.enabled(Level::Debug));
    assert!(!cfg.enabled(Level::Trace));
    assert!(!cfg.should_log(Level::Error, None));
    assert!(!cfg.should_log(Level::Error, Some("a")));
    cfg.quiet(false);
    assert_eq!(cfg.log_level_filter(), LevelFilter::Trace);
    assert!(cfg.enabled(Level::Trace));
}

#[test]
fn colors_per_severity() {
    assert_eq!(color_for_level(Level::Error), Color::Red);
    assert_eq!(color_for_level(Level::Warn), Color::Magenta);
    assert_eq!(color_for_level(Level::Info), Color::Yellow);
    assert_eq!(color_for_level(Level::Debug), Color::Cyan);
    assert_eq!(color_for_level(Level::Trace), Color::Blue);
}
