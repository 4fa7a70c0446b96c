use stderrlog::Level;
use stderrlog::Timestamp;

#[test]
fn end_to_end_decision_and_line() {
    let mut cfg = stderrlog::new();
    cfg.verbosity(2);
    cfg.modules(vec!["app::net".to_string()]);
    cfg.quiet(false);
    cfg.timestamp(Timestamp::Off);

    // an Info event from a permitted module passes and renders plainly
    assert!(cfg.should_log(Level::Info, Some("app::net::conn")));
    let line = cfg.render_line(Level::Info, "connecting");
    assert_eq!(line, "INFO - connecting\n");

    // a Debug event on the same module exceeds the threshold
    assert!(!cfg.should_log(Level::Debug, Some("app::net::conn")));

    // an Info event from an unregistered module is filtered out
    assert!(!cfg.should_log(Level::Info, Some("app::ui")));

    // an event without an origin bypasses the module filter
    assert!(cfg.should_log(Level::Info, None));
}

#[test]
fn line_labels_per_severity() {
    let cfg = stderrlog::new();
    assert_eq!(cfg.render_line(Level::Error, "x"), "ERROR - x\n");
    assert_eq!(cfg.render_line(Level::Warn, "x"), "WARN - x\n");
    assert_eq!(cfg.render_line(Level::Info, "x"), "INFO - x\n");
    assert_eq!(cfg.render_line(Level::Debug, "x"), "DEBUG - x\n");
    assert_eq!(cfg.render_line(Level::Trace, "x"), "TRACE - x\n");
}

#[test]
fn timestamped_line_carries_a_prefix() {
    let mut cfg = stderrlog::new();
    cfg.timestamp(Timestamp::Second);
    let line = cfg.render_line(Level::Warn, "careful");
    assert!(line.ends_with(" - WARN - careful\n"));
    // a timestamp and its separator stand before the label
    assert!(line.len() > "WARN - careful\n".len());
    // second granularity: an offset-carrying timestamp has a fixed length,
    // e.g. 2001-02-03T04:05:06+07:00
    let ts = &line[..line.len() - " - WARN - careful\n".len()];
    assert_eq!(ts.len(), 25);
    assert_eq!(&ts[4..5], "-");
    assert_eq!(&ts[10..11], "T");

    cfg.timestamp(Timestamp::Microsecond);
    let line = cfg.render_line(Level::Warn, "careful");
    assert!(line.ends_with(" - WARN - careful\n"));
    let ts = &line[..line.len() - " - WARN - careful\n".len()];
    assert_eq!(ts.len(), 32);
    assert_eq!(&ts[19..20], ".");

    cfg.timestamp(Timestamp::Nanosecond);
    let line = cfg.render_line(Level::Warn, "careful");
    let ts = &line[..line.len() - " - WARN - careful\n".len()];
    assert_eq!(ts.len(), 35);
    assert_eq!(&ts[19..20], ".");
}
