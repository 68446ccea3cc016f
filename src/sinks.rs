//! Consumers of processed events: the fan-out to per-consumer queues, and
//! the text that the console and file consumers write for each event.

use vstd::prelude::*;
use crate::engine::{kept_fields, offer, views, SendOutcome};
use crate::processing::ProcessedEvent;
use crate::text::{decimal, decimal_string, trim};
use crate::types::{label_of, LogLevel, SourceId, Timestamp};
use owo_colors::OwoColorize;
use std::hash::{Hash, Hasher};
use std::sync::Arc;
use tokio::sync::mpsc::Sender;

verus! {

/// A consumer of processed events.
pub trait EventSink {
    fn emit(&self, event: &ProcessedEvent);
}

/// Hands `event` to every consumer queue, one attempt each that never
/// waits; what one queue does has no bearing on the attempts at the others.
pub fn fan_out(sinks: &Vec<Sender<Arc<ProcessedEvent>>>, event: ProcessedEvent) -> (r: Vec<
    SendOutcome,
>)
    ensures
        r@.len() == sinks@.len(),
{
    let shared = Arc::new(event);
    let mut outcomes: Vec<SendOutcome> = Vec::new();
    let mut i: usize = 0;
    while i < sinks.len()
        invariant
            i <= sinks@.len(),
            outcomes@.len() == i,
        decreases sinks@.len() - i,
    {
        let o = offer(&sinks[i], Arc::clone(&shared));
        outcomes.push(o);
        i = i + 1;
    }
    outcomes
}

/// The foreground colors used on the console.
#[derive(Clone, Copy, Debug, PartialEq, Eq, Structural)]
pub enum Tint {
    BrightBlack,
    Red,
    Green,
    Yellow,
    Magenta,
    Cyan,
}

/// The ANSI foreground code of a tint.
pub open spec fn tint_code(t: Tint) -> Seq<char> {
    match t {
        Tint::BrightBlack => "90"@,
        Tint::Red => "31"@,
        Tint::Green => "32"@,
        Tint::Yellow => "33"@,
        Tint::Magenta => "35"@,
        Tint::Cyan => "36"@,
    }
}

pub open spec fn painted(s: Seq<char>, t: Tint) -> Seq<char> {
    "\x1b["@ + tint_code(t) + "m"@ + s + "\x1b[39m"@
}

pub open spec fn rgb_painted(s: Seq<char>, r: u8, g: u8, b: u8) -> Seq<char> {
    "\x1b[38;2;"@ + decimal(r as nat) + ";"@ + decimal(g as nat) + ";"@ + decimal(b as nat) + "m"@ + s
        + "\x1b[39m"@
}

pub open spec fn emboldened(s: Seq<char>) -> Seq<char> {
    "\x1b[1m"@ + s + "\x1b[0m"@
}

pub open spec fn faded(s: Seq<char>) -> Seq<char> {
    "\x1b[2m"@ + s + "\x1b[0m"@
}

/// Relies on owo-colors' `OwoColorize::color` with an `AnsiColors` value:
/// the code of the color, the text, then the foreground reset.
#[verifier::external_body]
fn paint(s: &str, t: Tint) -> (r: String)
    ensures
        r@ == painted(s@, t),
{
    let c = match t {
        Tint::BrightBlack => owo_colors::AnsiColors::BrightBlack,
        Tint::Red => owo_colors::AnsiColors::Red,
        Tint::Green => owo_colors::AnsiColors::Green,
        Tint::Yellow => owo_colors::AnsiColors::Yellow,
        Tint::Magenta => owo_colors::AnsiColors::Magenta,
        Tint::Cyan => owo_colors::AnsiColors::Cyan,
    };
    s.color(c).to_string()
}

/// Relies on owo-colors' `OwoColorize::truecolor`: the 24-bit foreground
/// code, the text, then the foreground reset.
#[verifier::external_body]
fn paint_rgb(s: &str, r: u8, g: u8, b: u8) -> (out: String)
    ensures
        out@ == rgb_painted(s@, r, g, b),
{
    s.truecolor(r, g, b).to_string()
}

/// Relies on owo-colors' `OwoColorize::bold`: the bold code, the text, then
/// the reset of all attributes.
#[verifier::external_body]
fn embolden(s: &str) -> (r: String)
    ensures
        r@ == emboldened(s@),
{
    s.bold().to_string()
}

/// Relies on owo-colors' `OwoColorize::dimmed`: the dim code, the text, then
/// the reset of all attributes.
#[verifier::external_body]
fn fade(s: &str) -> (r: String)
    ensures
        r@ == faded(s@),
{
    s.dimmed().to_string()
}

/// What `DefaultHasher::new()` gives for a string key.
pub uninterp spec fn default_hash_of(key: Seq<char>) -> u64;

/// Relies on std's `DefaultHasher::new`, `Hash for str` and `finish`: a
/// hasher made by `new` starts from fixed keys, so the hash depends on the
/// key alone.
#[verifier::external_body]
fn default_hash(key: &str) -> (r: u64)
    ensures
        r == default_hash_of(key@),
{
    let mut h = std::collections::hash_map::DefaultHasher::new();
    key.hash(&mut h);
    h.finish()
}

/// What chrono's RFC 3339 rendering with milliseconds and `Z` gives for an instant.
pub uninterp spec fn rfc3339_millis_of(secs: int, nanos: int) -> Seq<char>;

/// Seconds up to which chrono renders every instant: well inside its last
/// year, 262142.
pub const RFC3339_SECS_LIMIT: u64 = 8_000_000_000_000;

/// Relies on chrono's `DateTime::<Utc>::from_timestamp`, which gives `None`
/// only out of its range of days or for an invalid nanosecond count (so
/// never for seconds in `0..=RFC3339_SECS_LIMIT` with nanoseconds below one
/// second), and `to_rfc3339_opts(SecondsFormat::Millis, true)`, a function
/// of the instant alone.
#[verifier::external_body]
fn rfc3339_millis(secs: i64, nanos: u32) -> (r: Option<String>)
    ensures
        0 <= secs <= RFC3339_SECS_LIMIT && nanos < 1_000_000_000 ==> r is Some,
        r matches Some(s) ==> s@ == rfc3339_millis_of(secs as int, nanos as int),
{
    match chrono::DateTime::<chrono::Utc>::from_timestamp(secs, nanos) {
        Some(d) => Some(d.to_rfc3339_opts(chrono::SecondsFormat::Millis, true)),
        None => None,
    }
}

/// The text of a rendered timestamp: RFC 3339 with milliseconds for every
/// well-formed instant up to `RFC3339_SECS_LIMIT`; beyond it, that or, out
/// of chrono's range, the count of seconds.
pub open spec fn ts_text(ts: Timestamp, t: Seq<char>) -> bool {
    if ts.wf() && ts.secs <= RFC3339_SECS_LIMIT {
        t == rfc3339_millis_of(ts.secs as int, ts.nanos as int)
    } else {
        t == rfc3339_millis_of(ts.secs as int, ts.nanos as int) || t == decimal(ts.secs as nat)
    }
}

/// Renders a timestamp in RFC 3339 with milliseconds, in UTC.
pub fn fmt_ts(ts: Timestamp) -> (r: String)
    ensures
        ts_text(ts, r@),
{
    if ts.secs <= 9_223_372_036_854_775_807u64 {
        match rfc3339_millis(ts.secs as i64, ts.nanos) {
            Some(s) => return s,
            None => {},
        }
    }
    decimal_string(ts.secs)
}

pub open spec fn level_tag(level: LogLevel) -> Seq<char> {
    match level {
        LogLevel::Trace => "TRC"@,
        LogLevel::Debug => "DBG"@,
        LogLevel::Info => "INF"@,
        LogLevel::Warn => "WRN"@,
        LogLevel::Error => "ERR"@,
    }
}

pub open spec fn level_tint(level: LogLevel) -> Tint {
    match level {
        LogLevel::Trace => Tint::BrightBlack,
        LogLevel::Debug => Tint::Cyan,
        LogLevel::Info => Tint::Green,
        LogLevel::Warn => Tint::Yellow,
        LogLevel::Error => Tint::Red,
    }
}

/// The three-letter tag of a level.
pub fn fmt_level(level: LogLevel) -> (r: &'static str)
    ensures
        r@ == level_tag(level),
{
    proof {
        reveal_strlit("TRC");
        reveal_strlit("DBG");
        reveal_strlit("INF");
        reveal_strlit("WRN");
        reveal_strlit("ERR");
    }
    match level {
        LogLevel::Trace => "TRC",
        LogLevel::Debug => "DBG",
        LogLevel::Info => "INF",
        LogLevel::Warn => "WRN",
        LogLevel::Error => "ERR",
    }
}

/// The tag of a level in its console color.
pub fn fmt_level_colored(level: LogLevel) -> (r: String)
    ensures
        r@ == painted(level_tag(level), level_tint(level)),
{
    let t = match level {
        LogLevel::Trace => Tint::BrightBlack,
        LogLevel::Debug => Tint::Cyan,
        LogLevel::Info => Tint::Green,
        LogLevel::Warn => Tint::Yellow,
        LogLevel::Error => Tint::Red,
    };
    paint(fmt_level(level), t)
}

pub open spec fn source_tag(source: SourceId) -> Seq<char> {
    "["@ + label_of(source.port@, source.alias) + "]"@
}

/// The label of a source in brackets.
pub fn fmt_source(source: &SourceId) -> (r: String)
    ensures
        r@ == source_tag(*source),
{
    let mut s = String::from_str("[");
    let label = source.label();
    s.append(label.as_str());
    s.append("]");
    s
}

/// The key a source's color is drawn from: its path, `|`, and its alias if any.
pub open spec fn color_key(source: SourceId) -> Seq<char> {
    source.port@ + "|"@ + match source.alias {
        Some(a) => a@,
        None => Seq::<char>::empty(),
    }
}

pub open spec fn max3(a: u8, b: u8, c: u8) -> u8 {
    if a >= b && a >= c {
        a
    } else if b >= c {
        b
    } else {
        c
    }
}

pub open spec fn min3(a: u8, b: u8, c: u8) -> u8 {
    if a <= b && a <= c {
        a
    } else if b <= c {
        b
    } else {
        c
    }
}

/// The color drawn from a hash: its three low bytes; where they are too
/// close to grey they are shifted; each is then brought into 64..=224.
pub open spec fn color_of_hash(x: u64) -> (u8, u8, u8) {
    let r0 = (x % 256) as u8;
    let g0 = ((x / 256) % 256) as u8;
    let b0 = ((x / 65536) % 256) as u8;
    let grey = max3(r0, g0, b0) - min3(r0, g0, b0) < 48;
    let r1 = if grey { ((r0 + 80) % 256) as u8 } else { r0 };
    let g1 = if grey { ((g0 + 160) % 256) as u8 } else { g0 };
    let b1 = if grey { ((b0 + 40) % 256) as u8 } else { b0 };
    ((64 + r1 % 161) as u8, (64 + g1 % 161) as u8, (64 + b1 % 161) as u8)
}

fn max3_exec(a: u8, b: u8, c: u8) -> (r: u8)
    ensures
        r == max3(a, b, c),
{
    if a >= b && a >= c {
        a
    } else if b >= c {
        b
    } else {
        c
    }
}

fn min3_exec(a: u8, b: u8, c: u8) -> (r: u8)
    ensures
        r == min3(a, b, c),
{
    if a <= b && a <= c {
        a
    } else if b <= c {
        b
    } else {
        c
    }
}

fn shifted(v: u8, k: u8, grey: bool) -> (r: u8)
    ensures
        r == if grey { ((v + k) % 256) as u8 } else { v },
{
    if grey {
        v.wrapping_add(k)
    } else {
        v
    }
}

fn spread(v: u8) -> (r: u8)
    ensures
        r == (64 + v % 161) as u8,
        64 <= r <= 224,
{
    64 + (v % 161)
}

/// The color for hash `x`.
pub fn color_from_hash(x: u64) -> (r: (u8, u8, u8))
    ensures
        r == color_of_hash(x),
        64 <= r.0 <= 224 && 64 <= r.1 <= 224 && 64 <= r.2 <= 224,
{
    let r0 = (x % 256) as u8;
    let g0 = ((x / 256) % 256) as u8;
    let b0 = ((x / 65536) % 256) as u8;
    let max = max3_exec(r0, g0, b0);
    let min = min3_exec(r0, g0, b0);
    let grey = max - min < 48;
    let r1 = shifted(r0, 80, grey);
    let g1 = shifted(g0, 160, grey);
    let b1 = shifted(b0, 40, grey);
    (spread(r1), spread(g1), spread(b1))
}

/// The color of a key: the color drawn from its default hash.
pub fn color_from_key(key: &str) -> (r: (u8, u8, u8))
    ensures
        r == color_of_hash(default_hash_of(key@)),
{
    color_from_hash(default_hash(key))
}

/// `s` with every occurrence of the non-empty `p`, taken from the left
/// without overlap, replaced by `c`.
pub open spec fn replaced(s: Seq<char>, p: Seq<char>, c: Seq<char>) -> Seq<char>
    decreases s.len(),
{
    if p.len() == 0 || s.len() < p.len() {
        s
    } else if s.subrange(0, p.len() as int) == p {
        c + replaced(s.subrange(p.len() as int, s.len() as int), p, c)
    } else {
        seq![s[0]] + replaced(s.subrange(1, s.len() as int), p, c)
    }
}

/// Relies on `str::replace` with a `&str` pattern: matches are taken from
/// the left, without overlap.
#[verifier::external_body]
fn replace_all(s: &str, p: &str, c: &str) -> (r: String)
    requires
        p@.len() > 0,
    ensures
        r@ == replaced(s@, p@, c@),
{
    s.replace(p, c)
}

/// `s` once each pattern of `pats`, in order, is replaced by its styled form;
/// empty patterns are passed over.
pub open spec fn highlighted(s: Seq<char>, pats: Seq<(Seq<char>, Seq<char>)>) -> Seq<char>
    decreases pats.len(),
{
    if pats.len() == 0 {
        s
    } else {
        let prev = highlighted(s, pats.drop_last());
        let (p, c) = pats.last();
        if p.len() == 0 {
            prev
        } else {
            replaced(prev, p, c)
        }
    }
}

pub open spec fn pair_views(v: Seq<(String, String)>) -> Seq<(Seq<char>, Seq<char>)> {
    v.map_values(|x: (String, String)| (x.0@, x.1@))
}

/// Replaces each pattern in `raw` by its styled form.
pub fn apply_highlights(raw: &str, patterns: &Vec<(String, String)>) -> (r: String)
    ensures
        r@ == highlighted(raw@, pair_views(patterns@)),
{
    let mut s = String::from_str(raw);
    let mut i: usize = 0;
    while i < patterns.len()
        invariant
            i <= patterns@.len(),
            s@ == highlighted(raw@, pair_views(patterns@).subrange(0, i as int)),
        decreases patterns@.len() - i,
    {
        proof {
            let pre = pair_views(patterns@).subrange(0, i + 1);
            assert(pre.drop_last() =~= pair_views(patterns@).subrange(0, i as int));
        }
        let p = &patterns[i].0;
        let c = &patterns[i].1;
        if !p.as_str().is_empty() {
            s = replace_all(s.as_str(), p.as_str(), c.as_str());
        }
        i = i + 1;
    }
    assert(pair_views(patterns@).subrange(0, i as int) =~= pair_views(patterns@));
    s
}

/// The styled form of a highlight pattern: bold yellow.
pub open spec fn highlight_style(p: Seq<char>) -> Seq<char> {
    emboldened(painted(p, Tint::Yellow))
}

/// The tag of a source, bold, in the color drawn from its key.
pub open spec fn colored_tag(source: SourceId) -> Seq<char> {
    let c = color_of_hash(default_hash_of(color_key(source)));
    emboldened(rgb_painted(source_tag(source), c.0, c.1, c.2))
}

/// The console consumer: highlights patterns in lines and colors each source.
#[derive(Clone, Debug, Default)]
pub struct StdoutSink {
    highlights: Vec<(String, String)>,
}

impl StdoutSink {
    pub closed spec fn patterns(&self) -> Seq<(Seq<char>, Seq<char>)> {
        pair_views(self.highlights@)
    }

    pub fn new() -> (r: StdoutSink)
        ensures
            r.patterns().len() == 0,
    {
        StdoutSink { highlights: Vec::new() }
    }

    /// Sets the patterns to highlight: each trimmed, empty ones dropped,
    /// each paired with its styled form.
    pub fn with_highlights(self, highlights: Vec<String>) -> (r: StdoutSink)
        ensures
            ({
                let kept = kept_fields(views(highlights@));
                &&& r.patterns().len() == kept.len()
                &&& forall|i: int|
                    0 <= i < kept.len() ==> #[trigger] r.patterns()[i] == (
                        kept[i],
                        highlight_style(kept[i]),
                    )
            }),
    {
        let mut pats: Vec<(String, String)> = Vec::new();
        let mut i: usize = 0;
        while i < highlights.len()
            invariant
                i <= highlights@.len(),
                ({
                    let kept = kept_fields(views(highlights@).subrange(0, i as int));
                    &&& pats@.len() == kept.len()
                    &&& forall|j: int|
                        0 <= j < kept.len() ==> #[trigger] pair_views(pats@)[j] == (
                            kept[j],
                            highlight_style(kept[j]),
                        )
                }),
            decreases highlights@.len() - i,
        {
            let t = trim(highlights[i].as_str());
            proof {
                let pre = views(highlights@).subrange(0, i + 1);
                assert(pre.drop_last() =~= views(highlights@).subrange(0, i as int));
                assert(pre.last() == highlights@[i as int]@);
            }
            if !t.as_str().is_empty() {
                let y = paint(t.as_str(), Tint::Yellow);
                let styled = embolden(y.as_str());
                let ghost before = pats@;
                let ghost tv = t@;
                assert(styled@ == highlight_style(tv));
                pats.push((t, styled));
                proof {
                    let pre = views(highlights@).subrange(0, i + 1);
                    let kept_prev = kept_fields(pre.drop_last());
                    let kept = kept_fields(pre);
                    assert(kept =~= kept_prev.push(tv));
                    assert forall|j: int|
                        0 <= j < kept.len() implies #[trigger] pair_views(pats@)[j] == (
                        kept[j],
                        highlight_style(kept[j]),
                    ) by {
                        if j < before.len() {
                            assert(pats@[j] == before[j]);
                            assert(pair_views(before)[j] == (kept_prev[j], highlight_style(kept_prev[j])));
                        } else {
                            assert(pair_views(pats@)[j] == (pats@[j].0@, pats@[j].1@));
                        }
                    }
                }
            }
            i = i + 1;
        }
        assert(views(highlights@).subrange(0, i as int) =~= views(highlights@));
        StdoutSink { highlights: pats }
    }

    /// The colored tag of a source, in a color drawn from its path and alias.
    pub fn fmt_source_colored(source: &SourceId) -> (r: String)
        ensures
            r@ == colored_tag(*source),
    {
        let tag = fmt_source(source);
        let mut key = String::from_str(source.port.as_str());
        key.append("|");
        match &source.alias {
            Some(a) => key.append(a.as_str()),
            None => {},
        }
        assert(key@ =~= color_key(*source));
        let (r, g, b) = color_from_key(key.as_str());
        let painted_tag = paint_rgb(tag.as_str(), r, g, b);
        embolden(painted_tag.as_str())
    }

    /// The console text for an event, and whether it goes to standard error
    /// (notices do, lines do not).
    pub fn render(&self, event: &ProcessedEvent) -> (r: (String, bool))
        ensures
            r.1 == (event is System),
            *event matches ProcessedEvent::Line { ts, source, raw } ==> exists|t: Seq<char>|
                ts_text(ts, t) && r.0@ == "["@ + faded(t) + "] "@ + colored_tag(source)
                    + " \u{2502} "@ + highlighted(raw@, self.patterns()),
            *event matches ProcessedEvent::System { ts, level, message } ==> exists|t: Seq<char>|
                ts_text(ts, t) && r.0@ == "["@ + faded(t) + "] "@ + emboldened(painted("[SYS]"@, Tint::Magenta))
                    + " "@ + painted(level_tag(level), level_tint(level)) + " \u{25b8} "@
                    + message@,
    {
        match event {
            ProcessedEvent::Line { ts, source, raw } => {
                let t = fmt_ts(*ts);
                let dim = fade(t.as_str());
                let src = StdoutSink::fmt_source_colored(source);
                let body = apply_highlights(raw.as_str(), &self.highlights);
                let mut s = String::from_str("[");
                s.append(dim.as_str());
                s.append("] ");
                s.append(src.as_str());
                s.append(" \u{2502} ");
                s.append(body.as_str());
                (s, false)
            },
            ProcessedEvent::System { ts, level, message } => {
                let t = fmt_ts(*ts);
                let dim = fade(t.as_str());
                let m = paint("[SYS]", Tint::Magenta);
                let sys = embolden(m.as_str());
                let lvl = fmt_level_colored(*level);
                let mut s = String::from_str("[");
                s.append(dim.as_str());
                s.append("] ");
                s.append(sys.as_str());
                s.append(" ");
                s.append(lvl.as_str());
                s.append(" \u{25b8} ");
                s.append(message.as_str());
                (s, true)
            },
        }
    }
}

/// The text the file consumer writes for an event, without the line end.
pub fn render_file_line(event: &ProcessedEvent) -> (r: String)
    ensures
        *event matches ProcessedEvent::Line { ts, source, raw } ==> exists|t: Seq<char>|
            ts_text(ts, t) && r@ == "["@ + t + "] "@ + source_tag(source) + " \u{2502} "@ + raw@,
        *event matches ProcessedEvent::System { ts, level, message } ==> exists|t: Seq<char>|
            ts_text(ts, t) && r@ == "["@ + t + "] [SYS] "@ + level_tag(level) + " \u{25b8} "@ + message@,
{
    match event {
        ProcessedEvent::Line { ts, source, raw } => {
            let t = fmt_ts(*ts);
            let src = fmt_source(source);
            let mut s = String::from_str("[");
            s.append(t.as_str());
            s.append("] ");
            s.append(src.as_str());
            s.append(" \u{2502} ");
            s.append(raw.as_str());
            s
        },
        ProcessedEvent::System { ts, level, message } => {
            let t = fmt_ts(*ts);
            let mut s = String::from_str("[");
            s.append(t.as_str());
            s.append("] [SYS] ");
            s.append(fmt_level(*level));
            s.append(" \u{25b8} ");
            s.append(message.as_str());
            s
        },
    }
}

} // verus!
