use crate::level::ColorChoice;
use crate::level::Level;
use crate::level::LevelFilter;
use crate::level::Timestamp;
use crate::level::filter_ord;
use crate::level::filter_to_ord;
use crate::level::level_ord;
use crate::level::level_to_ord;
use crate::level::severity_for_verbosity;
use crate::level::spec_filter_for_verbosity;
use crate::registry::allowed_at;
use crate::registry::find_index;
use crate::registry::insert_all;
use crate::registry::insert_sorted;
use crate::registry::lemma_insert_all_push;
use crate::registry::lemma_insert_sorted_present;
use crate::registry::lemma_insert_sorted_via_position;
use crate::registry::sorted_strict;
use crate::registry::spec_allowed;
use crate::render::compose_line;
use crate::render::line_view;
use crate::render::timestamp_text;
use crate::strorder::is_prefix_of;
use crate::strorder::lemma_lex_lt_asymmetric;
use crate::strorder::lex_lt;
use crate::strorder::str_starts_with;
use vstd::prelude::*;

verus! {

/// The durable configuration and filtering engine of the logger: severity
/// threshold, quiet flag, timestamp granularity, color mode, and a sorted
/// registry of permitted module prefixes. Output sinks are thread-affined
/// runtime resources, not configuration; they are owned by the embedding
/// program, so a clone of this value carries no sink state.
#[derive(Clone, Debug)]
pub struct StdErrLog {
    verbosity: LevelFilter,
    quiet: bool,
    timestamp: Timestamp,
    modules: Vec<String>,
    color_choice: ColorChoice,
}

impl StdErrLog {
    /// The configured severity threshold.
    pub closed spec fn spec_verbosity(&self) -> LevelFilter {
        self.verbosity
    }

    /// Whether all output is suppressed.
    pub closed spec fn spec_quiet(&self) -> bool {
        self.quiet
    }

    /// The configured timestamp granularity.
    pub closed spec fn spec_timestamp(&self) -> Timestamp {
        self.timestamp
    }

    /// The configured color mode.
    pub closed spec fn spec_color_choice(&self) -> ColorChoice {
        self.color_choice
    }

    /// The registry of permitted module prefixes, as character sequences.
    pub closed spec fn spec_modules(&self) -> Seq<Seq<char>> {
        self.modules.deep_view()
    }

    /// Well-formedness: the registry is strictly sorted, hence free of
    /// duplicates.
    pub open spec fn wf(&self) -> bool {
        sorted_strict(self.spec_modules())
    }

    /// The threshold every filtering decision is taken against: fully off
    /// when quiet is set, else the configured one. Derived on every query,
    /// never cached.
    pub open spec fn spec_effective_filter(&self) -> LevelFilter {
        if self.spec_quiet() {
            LevelFilter::Off
        } else {
            self.spec_verbosity()
        }
    }

    /// An event of severity `l` passes the severity check.
    pub open spec fn spec_enabled(&self, l: Level) -> bool {
        level_ord(l) <= filter_ord(self.spec_effective_filter())
    }

    /// The whole per-event decision: the severity passes, and the origin
    /// passes the module filter; an event without an origin bypasses the
    /// module filter.
    pub open spec fn spec_should_log(&self, l: Level, path: Option<Seq<char>>) -> bool {
        &&& self.spec_enabled(l)
        &&& match path {
            Option::Some(p) => spec_allowed(self.spec_modules(), p),
            Option::None => true,
        }
    }

    /// Creates a new stderr logger configuration: only errors pass, not
    /// quiet, no timestamps, automatic color detection, an unrestricted
    /// module registry.
    pub fn new() -> (r: StdErrLog)
        ensures
            r.wf(),
            r.spec_verbosity() == LevelFilter::Error,
            r.spec_quiet() == false,
            r.spec_timestamp() == Timestamp::Off,
            r.spec_color_choice() == ColorChoice::Auto,
            r.spec_modules() == Seq::<Seq<char>>::empty(),
    {
        let r = StdErrLog {
            verbosity: LevelFilter::Error,
            quiet: false,
            timestamp: Timestamp::Off,
            modules: Vec::new(),
            color_choice: ColorChoice::Auto,
        };
        proof {
            assert(r.spec_modules() =~= Seq::<Seq<char>>::empty());
        }
        r
    }

    /// Sets the verbosity level of messages that will be displayed.
    pub fn verbosity(&mut self, verbosity: usize)
        ensures
            final(self).spec_verbosity() == spec_filter_for_verbosity(verbosity as nat),
            final(self).spec_quiet() == old(self).spec_quiet(),
            final(self).spec_timestamp() == old(self).spec_timestamp(),
            final(self).spec_color_choice() == old(self).spec_color_choice(),
            final(self).spec_modules() == old(self).spec_modules(),
            final(self).wf() == old(self).wf(),
    {
        self.verbosity = severity_for_verbosity(verbosity);
    }

    /// Silences all output, no matter the value of verbosity.
    pub fn quiet(&mut self, quiet: bool)
        ensures
            final(self).spec_quiet() == quiet,
            final(self).spec_verbosity() == old(self).spec_verbosity(),
            final(self).spec_timestamp() == old(self).spec_timestamp(),
            final(self).spec_color_choice() == old(self).spec_color_choice(),
            final(self).spec_modules() == old(self).spec_modules(),
            final(self).wf() == old(self).wf(),
    {
        self.quiet = quiet;
    }

    /// Enables or disables the use of timestamps in log messages.
    pub fn timestamp(&mut self, timestamp: Timestamp)
        ensures
            final(self).spec_timestamp() == timestamp,
            final(self).spec_verbosity() == old(self).spec_verbosity(),
            final(self).spec_quiet() == old(self).spec_quiet(),
            final(self).spec_color_choice() == old(self).spec_color_choice(),
            final(self).spec_modules() == old(self).spec_modules(),
            final(self).wf() == old(self).wf(),
    {
        self.timestamp = timestamp;
    }

    /// Enables or disables the use of color in log messages.
    pub fn color(&mut self, choice: ColorChoice)
        ensures
            final(self).spec_color_choice() == choice,
            final(self).spec_verbosity() == old(self).spec_verbosity(),
            final(self).spec_quiet() == old(self).spec_quiet(),
            final(self).spec_timestamp() == old(self).spec_timestamp(),
            final(self).spec_modules() == old(self).spec_modules(),
            final(self).wf() == old(self).wf(),
    {
        self.color_choice = choice;
    }

    /// Specifies a module to allow to log: a sorted insert into the registry,
    /// a no-op when the module is already registered.
    pub fn module(&mut self, module: String)
        requires
            old(self).wf(),
        ensures
            final(self).wf(),
            final(self).spec_modules() == insert_sorted(old(self).spec_modules(), module@),
            final(self).spec_verbosity() == old(self).spec_verbosity(),
            final(self).spec_quiet() == old(self).spec_quiet(),
            final(self).spec_timestamp() == old(self).spec_timestamp(),
            final(self).spec_color_choice() == old(self).spec_color_choice(),
    {
        let ghost s0 = self.spec_modules();
        match find_index(&self.modules, module.as_str()) {
            Result::Ok(k) => {
                proof {
                    lemma_insert_sorted_present(s0, module@, k as int);
                }
            },
            Result::Err(i) => {
                proof {
                    lemma_insert_sorted_via_position(s0, module@, i as int);
                    s0.insert_ensures(i as int, module@);
                }
                let ghost v0 = self.modules@;
                self.modules.insert(i, module);
                proof {
                    v0.insert_ensures(i as int, module);
                    assert(self.modules.deep_view() =~= s0.insert(i as int, module@)) by {
                        assert forall|j: int|
                            0 <= j < self.modules@.len() implies self.modules.deep_view()[j]
                            == s0.insert(i as int, module@)[j] by {
                            if j < i as int {
                                assert(self.modules@[j] == v0[j]);
                            } else if j == i as int {
                                assert(self.modules@[j] == module);
                            } else {
                                assert(v0.insert(i as int, module)[j - 1 + 1] == v0[j - 1]);
                                assert(s0.insert(i as int, module@)[j - 1 + 1] == s0[j - 1]);
                            }
                        }
                    }
                }
            },
        }
    }

    /// Specifies modules to allow to log: registers each in turn.
    pub fn modules(&mut self, list: Vec<String>)
        requires
            old(self).wf(),
        ensures
            final(self).wf(),
            final(self).spec_modules() == insert_all(old(self).spec_modules(), list.deep_view()),
            final(self).spec_verbosity() == old(self).spec_verbosity(),
            final(self).spec_quiet() == old(self).spec_quiet(),
            final(self).spec_timestamp() == old(self).spec_timestamp(),
            final(self).spec_color_choice() == old(self).spec_color_choice(),
    {
        let ghost s0 = self.spec_modules();
        let ghost ms = list.deep_view();
        let ghost snap = *self;
        let n = list.len();
        let mut k: usize = 0;
        while k < n
            invariant
                k <= n,
                n == list@.len(),
                ms == list.deep_view(),
                ms.len() == n,
                self.wf(),
                self.spec_modules() == insert_all(s0, ms.take(k as int)),
                self.spec_verbosity() == snap.spec_verbosity(),
                self.spec_quiet() == snap.spec_quiet(),
                self.spec_timestamp() == snap.spec_timestamp(),
                self.spec_color_choice() == snap.spec_color_choice(),
            decreases n - k,
        {
            proof {
                assert(ms.take(k as int).push(ms[k as int]) =~= ms.take(k as int + 1));
                lemma_insert_all_push(s0, ms.take(k as int), ms[k as int]);
            }
            let entry = list[k].clone();
            self.module(entry);
            k = k + 1;
        }
        proof {
            assert(ms.take(n as int) =~= ms);
        }
    }

    /// The registered module prefixes, sorted and without duplicates.
    pub fn module_entries(&self) -> (r: &Vec<String>)
        ensures
            r.deep_view() == self.spec_modules(),
    {
        &self.modules
    }

    /// The configured color mode, for whoever owns the output sinks.
    pub fn color_choice(&self) -> (c: ColorChoice)
        ensures
            c == self.spec_color_choice(),
    {
        self.color_choice
    }

    /// The effective threshold of this configuration: fully off when quiet is
    /// set, else the configured verbosity.
    pub fn log_level_filter(&self) -> (f: LevelFilter)
        ensures
            f == self.spec_effective_filter(),
    {
        if self.quiet {
            LevelFilter::Off
        } else {
            self.verbosity
        }
    }

    /// Whether an event of the given severity passes the severity check.
    pub fn enabled(&self, level: Level) -> (r: bool)
        ensures
            r == self.spec_enabled(level),
    {
        let f = self.log_level_filter();
        level_to_ord(level) <= filter_to_ord(f)
    }

    /// Whether an event from `path` is allowed by the registry: always
    /// when the registry is empty; else a binary search decides — an exact
    /// match is allowed, and otherwise the nearest entry sorting below the
    /// path must be a literal prefix of it.
    pub fn includes_module(&self, path: &str) -> (r: bool)
        requires
            self.wf(),
        ensures
            r == spec_allowed(self.spec_modules(), path@),
    {
        let ghost m = self.spec_modules();
        let ghost p = path@;
        if self.modules.is_empty() {
            return true;
        }
        match find_index(&self.modules, path) {
            Result::Ok(i) => {
                proof {
                    assert(is_prefix_of(p, p)) by {
                        assert(p.subrange(0, p.len() as int) =~= p);
                    }
                    if (i as int) < m.len() - 1 {
                        assert(lex_lt(m[i as int], m[i as int + 1]));
                    }
                    assert(allowed_at(m, p, i as int));
                }
                true
            },
            Result::Err(i) => {
                if i == 0 {
                    proof {
                        assert forall|w: int| !allowed_at(m, p, w) by {
                            if 0 <= w < m.len() {
                                assert(lex_lt(p, m[w]));
                                lemma_lex_lt_asymmetric(m[w], p);
                            }
                        }
                    }
                    false
                } else {
                    let pred: &String = &self.modules[i - 1];
                    let r = str_starts_with(path, pred.as_str());
                    proof {
                        let pi = i as int;
                        assert(m[pi - 1] == pred@);
                        assert(lex_lt(m[pi - 1], p));
                        if r {
                            if pi - 1 < m.len() - 1 {
                                assert(lex_lt(p, m[pi]));
                            }
                            assert(allowed_at(m, p, pi - 1));
                        } else {
                            assert forall|w: int| !allowed_at(m, p, w) by {
                                if 0 <= w < m.len() {
                                    if w >= pi {
                                        assert(lex_lt(p, m[w]));
                                        lemma_lex_lt_asymmetric(m[w], p);
                                    } else if w < pi - 1 {
                                        assert(lex_lt(m[w + 1], p));
                                        lemma_lex_lt_asymmetric(m[w + 1], p);
                                    } else {
                                        assert(m[w] == pred@);
                                    }
                                }
                            }
                        }
                    }
                    r
                }
            },
        }
    }

    /// The full per-event decision path: severity against the effective
    /// threshold first, then the origin against the module registry; an
    /// event without an origin bypasses the module filter.
    pub fn should_log(&self, level: Level, path: Option<&str>) -> (r: bool)
        requires
            self.wf(),
        ensures
            r == self.spec_should_log(level, path.deep_view()),
    {
        if !self.enabled(level) {
            return false;
        }
        match path {
            Option::Some(p) => self.includes_module(p),
            Option::None => true,
        }
    }

    /// Renders one accepted event into its output line: optional timestamp at
    /// the configured granularity, severity label, message, line terminator.
    pub fn render_line(&self, level: Level, msg: &str) -> (r: String)
        ensures
            self.spec_timestamp() == Timestamp::Off ==> r@ == line_view(
                Option::None,
                level,
                msg@,
            ),
            exists|t: Option<Seq<char>>|
                r@ == line_view(t, level, msg@) && ((t is None) <==> self.spec_timestamp()
                    == Timestamp::Off),
    {
        let ts = timestamp_text(self.timestamp);
        match &ts {
            Option::Some(t) => {
                let line = compose_line(Option::Some(t), level, msg);
                proof {
                    let w = Option::Some(t@);
                    assert(line@ == line_view(w, level, msg@) && ((w is None)
                        <==> self.spec_timestamp() == Timestamp::Off));
                }
                line
            },
            Option::None => {
                let line = compose_line(Option::None, level, msg);
                proof {
                    let w = Option::<Seq<char>>::None;
                    assert(line@ == line_view(w, level, msg@) && ((w is None)
                        <==> self.spec_timestamp() == Timestamp::Off));
                }
                line
            },
        }
    }
}

impl Default for StdErrLog {
    /// The default configuration is the one `new` builds.
    fn default() -> (r: Self)
        ensures
            r.wf(),
            r.spec_verbosity() == LevelFilter::Error,
            r.spec_quiet() == false,
            r.spec_timestamp() == Timestamp::Off,
            r.spec_color_choice() == ColorChoice::Auto,
            r.spec_modules() == Seq::<Seq<char>>::empty(),
    {
        StdErrLog::new()
    }
}

/// Creates a new stderr logger configuration.
pub fn new() -> (r: StdErrLog)
    ensures
        r.wf(),
        r.spec_verbosity() == LevelFilter::Error,
        r.spec_quiet() == false,
        r.spec_timestamp() == Timestamp::Off,
        r.spec_color_choice() == ColorChoice::Auto,
        r.spec_modules() == Seq::<Seq<char>>::empty(),
{
    StdErrLog::new()
}

/// Quiet mode forces rejection of every event: with the quiet flag set, no
/// severity is enabled, whatever the configured verbosity, the registry, and
/// the event's severity and origin.
pub proof fn lemma_quiet_rejects_all(c: StdErrLog, level: Level, path: Option<Seq<char>>)
    requires
        c.spec_quiet(),
    ensures
        !c.spec_should_log(level, path),
{
    assert(level_ord(level) >= 1) by {
        match level {
            Level::Error => {},
            Level::Warn => {},
            Level::Info => {},
            Level::Debug => {},
            Level::Trace => {},
        }
    }
}

} // verus!
