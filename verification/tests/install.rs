use stderrlog::StdErrLog;

/// A sink that consults the verified configuration but writes nowhere, so the
/// test leaves the error stream alone.
struct QuietSink {
    cfg: StdErrLog,
}

fn to_core_level(l: log::Level) -> stderrlog::Level {
    match l {
        log::Level::Error => stderrlog::Level::Error,
        log::Level::Warn => stderrlog::Level::Warn,
        log::Level::Info => stderrlog::Level::Info,
        log::Level::Debug => stderrlog::Level::Debug,
        log::Level::Trace => stderrlog::Level::Trace,
    }
}

fn to_log_filter(f: stderrlog::LevelFilter) -> log::LevelFilter {
    match f {
        stderrlog::LevelFilter::Off => log::LevelFilter::Off,
        stderrlog::LevelFilter::Error => log::LevelFilter::Error,
        stderrlog::LevelFilter::Warn => log::LevelFilter::Warn,
        stderrlog::LevelFilter::Info => log::LevelFilter::Info,
        stderrlog::LevelFilter::Debug => log::LevelFilter::Debug,
        stderrlog::LevelFilter::Trace => log::LevelFilter::Trace,
    }
}

impl log::Log for QuietSink {
    fn enabled(&self, metadata: &log::Metadata) -> bool {
        self.cfg.enabled(to_core_level(metadata.level()))
    }

    fn log(&self, record: &log::Record) {
        let level = to_core_level(record.level());
        if self.cfg.should_log(level, record.target().into()) {
            let _ = self.cfg.render_line(level, "seen");
        }
    }

    fn flush(&self) {}
}

#[test]
fn second_installation_fails_and_keeps_the_first_threshold() {
    // a default configuration admits errors only
    let cfg = stderrlog::new();
    let first = log::set_boxed_logger(Box::new(QuietSink { cfg: cfg.clone() }));
    assert!(first.is_ok());
    log::set_max_level(to_log_filter(cfg.log_level_filter()));
    assert_eq!(log::max_level(), log::LevelFilter::Error);

    // a second installation is refused with a setup error, and the global
    // ceiling of the first installation stays in effect
    let mut louder = stderrlog::new();
    louder.verbosity(4);
    let second = log::set_boxed_logger(Box::new(QuietSink { cfg: louder }));
    assert!(second.is_err());
    assert_eq!(log::max_level(), log::LevelFilter::Error);
}
