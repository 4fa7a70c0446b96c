use crate::level::Level;
use crate::level::Timestamp;
use vstd::prelude::*;
use vstd::string::StringExecFns;

verus! {

/// Display label of each severity, as it stands in a rendered line.
pub open spec fn label_view(l: Level) -> Seq<char> {
    match l {
        Level::Error => "ERROR"@,
        Level::Warn => "WARN"@,
        Level::Info => "INFO"@,
        Level::Debug => "DEBUG"@,
        Level::Trace => "TRACE"@,
    }
}

/// The text a line announces its severity with.
pub fn label(l: Level) -> (r: &'static str)
    ensures
        r@ == label_view(l),
{
    match l {
        Level::Error => "ERROR",
        Level::Warn => "WARN",
        Level::Info => "INFO",
        Level::Debug => "DEBUG",
        Level::Trace => "TRACE",
    }
}

/// One rendered line: optional timestamp with separator, severity label,
/// separator, message, line terminator.
pub open spec fn line_view(ts: Option<Seq<char>>, l: Level, msg: Seq<char>) -> Seq<char> {
    (match ts {
        Option::Some(t) => t + " - "@,
        Option::None => Seq::<char>::empty(),
    }) + label_view(l) + " - "@ + msg + "\n"@
}

/// Relies on chrono::Local::now and chrono's strftime-style formatter
/// (DateTime::format rendered through to_string): the current local time in
/// the given layout, offset from UTC included. The result depends on the
/// clock, so nothing is stated of it. Only the three layouts the library
/// passes are admitted; chrono renders each of them without error.
#[verifier::external_body]
fn formatted_local_now(fmt: &str) -> (r: String)
    requires
        fmt@ == "%Y-%m-%dT%H:%M:%S%:z"@ || fmt@ == "%Y-%m-%dT%H:%M:%S%.6f%:z"@ || fmt@
            == "%Y-%m-%dT%H:%M:%S%.9f%:z"@,
{
    chrono::Local::now().format(fmt).to_string()
}

/// The timestamp text a line starts with: none when timestamping is off, else
/// the current time at the configured granularity.
pub fn timestamp_text(g: Timestamp) -> (r: Option<String>)
    ensures
        (r is None) == (g == Timestamp::Off),
{
    match g {
        Timestamp::Off => Option::None,
        Timestamp::Second => Option::Some(formatted_local_now("%Y-%m-%dT%H:%M:%S%:z")),
        Timestamp::Microsecond => Option::Some(formatted_local_now("%Y-%m-%dT%H:%M:%S%.6f%:z")),
        Timestamp::Nanosecond => Option::Some(formatted_local_now("%Y-%m-%dT%H:%M:%S%.9f%:z")),
    }
}

/// Builds one output line from its parts.
pub fn compose_line(ts: Option<&String>, level: Level, msg: &str) -> (r: String)
    ensures
        r@ == line_view(
            match ts {
                Option::Some(t) => Option::Some(t@),
                Option::None => Option::None,
            },
            level,
            msg@,
        ),
{
    let mut out = String::new();
    match ts {
        Option::Some(t) => {
            out.append(t.as_str());
            out.append(" - ");
        },
        Option::None => {},
    }
    out.append(label(level));
    out.append(" - ");
    out.append(msg);
    out.append("\n");
    proof {
        assert(out@ =~= line_view(
            match ts {
                Option::Some(t) => Option::Some(t@),
                Option::None => Option::None,
            },
            level,
            msg@,
        ));
    }
    out
}

} // verus!
