use stderrlog::StdErrLog;

fn with_modules(mods: &[&str]) -> StdErrLog {
    let mut cfg = stderrlog::new();
    for m in mods {
        cfg.module(m.to_string());
    }
    cfg
}

#[test]
fn sorted_prefix_match() {
    let cfg = with_modules(&["a::b", "a::c"]);
    // true path prefix of a registered entry
    assert!(cfg.includes_module("a::b::d"));
    // exact match
    assert!(cfg.includes_module("a::b"));
    assert!(cfg.includes_module("a::c"));
    // nothing registered sorts at or below "z" that prefixes it
    assert!(!cfg.includes_module("z"));
    // shorter than every entry
    assert!(!cfg.includes_module("a"));
    // the scan matches literal leading characters, not path segments, so the
    // registered "a::b" admits "a::bx" as well
    assert!(cfg.includes_module("a::bx"));
}

#[test]
fn single_entry_exact_match() {
    let cfg = with_modules(&["app"]);
    assert!(cfg.includes_module("app"));
    assert!(cfg.includes_module("app::net"));
    assert!(!cfg.includes_module("ap"));
    assert!(!cfg.includes_module("aq"));
}

#[test]
fn empty_registry_allows_everything() {
    let cfg = stderrlog::new();
    assert!(cfg.includes_module(""));
    assert!(cfg.includes_module("a"));
    assert!(cfg.includes_module("anything::at::all"));
}

#[test]
fn registering_twice_keeps_one_entry() {
    let mut cfg = stderrlog::new();
    cfg.module("a::b".to_string());
    cfg.module("a::b".to_string());
    assert_eq!(cfg.module_entries().len(), 1);
    assert_eq!(cfg.module_entries()[0], "a::b");
    assert!(cfg.includes_module("a::b"));
}

#[test]
fn empty_string_module_admits_everything() {
    let cfg = with_modules(&[""]);
    // the empty entry is a literal prefix of every path
    assert!(cfg.includes_module(""));
    assert!(cfg.includes_module("a"));
    assert!(cfg.includes_module("z::deep::path"));
}

#[test]
fn paths_beyond_ascii_compare_by_character() {
    let cfg = with_modules(&["caf\u{e9}"]);
    assert!(cfg.includes_module("caf\u{e9}"));
    assert!(cfg.includes_module("caf\u{e9}::table"));
    assert!(!cfg.includes_module("cafe"));
    assert!(!cfg.includes_module("caf"));
}

#[test]
fn default_configuration_is_unrestricted() {
    let cfg: stderrlog::StdErrLog = Default::default();
    assert!(cfg.includes_module("any::module"));
    assert_eq!(cfg.module_entries().len(), 0);
    assert_eq!(cfg.log_level_filter(), stderrlog::LevelFilter::Error);
}

#[test]
fn registry_is_kept_sorted_and_unique() {
    let mut cfg = stderrlog::new();
    cfg.modules(vec![
        "m::c".to_string(),
        "m::a".to_string(),
        "m::b".to_string(),
        "m::a".to_string(),
    ]);
    let entries = cfg.module_entries();
    assert_eq!(entries.len(), 3);
    assert_eq!(entries[0], "m::a");
    assert_eq!(entries[1], "m::b");
    assert_eq!(entries[2], "m::c");
}
