//! Trend delta formatting: relative times, signed deltas, trend arrows and section headers.
use vstd::prelude::*;

use crate::state::try_current_unix_timestamp;
use crate::text::{concat2, concat3, concat4, decimal, signed_decimal, u64_to_string, i64_to_string};
use crate::trend::{as_i64, fits_i64, TrendDelta};
use vstd::string::StringExecFns;

verus! {

/// Seconds per minute.
pub const MINUTE: u64 = 60;

/// Seconds per hour.
pub const HOUR: u64 = 3600;

/// Seconds per day.
pub const DAY: u64 = 86400;

/// Seconds per week.
pub const WEEK: u64 = 604800;

/// Seconds per (thirty-day) month.
pub const MONTH: u64 = 2592000;

/// ANSI escape that switches the foreground to green.
pub const GREEN: &'static str = "\x1b[32m";

/// ANSI escape that switches the foreground to red.
pub const RED: &'static str = "\x1b[31m";

/// ANSI escape for dim text.
pub const DIM: &'static str = "\x1b[2m";

/// ANSI escape that resets all attributes.
pub const RESET: &'static str = "\x1b[0m";

/// "1 <unit> ago", or "<n> <unit>s ago" for other counts.
pub open spec fn ago_phrase(n: nat, unit: Seq<char>) -> Seq<char> {
    if n == 1 {
        "1 "@ + unit + " ago"@
    } else {
        decimal(n) + " "@ + unit + "s ago"@
    }
}

/// The relative-time text for `elapsed` seconds: "just now" under a minute, then whole
/// minutes, hours, days, weeks, and thirty-day months, each rounded down.
pub open spec fn relative_time_text(elapsed: nat) -> Seq<char> {
    if elapsed < MINUTE {
        "just now"@
    } else if elapsed < HOUR {
        ago_phrase(elapsed / (MINUTE as nat), "minute"@)
    } else if elapsed < DAY {
        ago_phrase(elapsed / (HOUR as nat), "hour"@)
    } else if elapsed < WEEK {
        ago_phrase(elapsed / (DAY as nat), "day"@)
    } else if elapsed < MONTH {
        ago_phrase(elapsed / (WEEK as nat), "week"@)
    } else {
        ago_phrase(elapsed / (MONTH as nat), "month"@)
    }
}

fn ago(n: u64, unit: &str) -> (r: String)
    ensures
        r@ == ago_phrase(n as nat, unit@),
{
    if n == 1 {
        concat3("1 ", unit, " ago")
    } else {
        let digits = u64_to_string(n);
        concat4(digits.as_str(), " ", unit, "s ago")
    }
}

/// The relative time of `timestamp` seen at time `now` ("2 hours ago"); `None` when the
/// timestamp lies in the future.
pub fn format_relative_time_at(timestamp: u64, now: u64) -> (r: Option<String>)
    ensures
        match r {
            Some(s) => timestamp <= now && s@ == relative_time_text((now - timestamp) as nat),
            None => timestamp > now,
        },
{
    if timestamp > now {
        return None;
    }
    let elapsed = now - timestamp;
    let text = if elapsed < MINUTE {
        String::from_str("just now")
    } else if elapsed < HOUR {
        ago(elapsed / MINUTE, "minute")
    } else if elapsed < DAY {
        ago(elapsed / HOUR, "hour")
    } else if elapsed < WEEK {
        ago(elapsed / DAY, "day")
    } else if elapsed < MONTH {
        ago(elapsed / WEEK, "week")
    } else {
        ago(elapsed / MONTH, "month")
    };
    Some(text)
}

/// The relative-time text of `timestamp` seen at time `now` (which is not before it).
pub open spec fn relative_time_at(timestamp: u64, now: u64) -> Seq<char> {
    relative_time_text((now - timestamp) as nat)
}

/// The relative time of `timestamp` as seen now; `None` when the timestamp lies in the future
/// or the clock cannot be read.
pub fn format_relative_time(timestamp: u64) -> (r: Option<String>)
    ensures
        r matches Some(s) ==> exists|now: u64|
            timestamp <= now && s@ == #[trigger] relative_time_at(timestamp, now),
{
    match try_current_unix_timestamp() {
        Some(now) => {
            let r = format_relative_time_at(timestamp, now);
            if let Some(s) = &r {
                assert(s@ == relative_time_at(timestamp, now));
            }
            r
        },
        None => None,
    }
}

/// The previous value `current - delta` that a percentage change is taken of (`current` read
/// as `as i64` reads it), or `None` when it is zero and no percentage exists.
pub fn percentage_base(delta: i64, current: usize) -> (r: Option<i64>)
    requires
        fits_i64(as_i64(current) - delta),
    ensures
        match r {
            Some(previous) => previous == as_i64(current) - delta && previous != 0,
            None => as_i64(current) - delta == 0,
        },
{
    let previous = current as i64 - delta;
    if previous == 0 {
        None
    } else {
        Some(previous)
    }
}

/// Trend arrow for a delta: up for growth, down for shrinkage, a tilde for no change.
pub fn trend_arrow(delta: i64) -> (r: &'static str)
    ensures
        r@ == (if delta > 0 {
            "↑"@
        } else if delta < 0 {
            "↓"@
        } else {
            "~"@
        }),
{
    if delta > 0 {
        "↑"
    } else if delta < 0 {
        "↓"
    } else {
        "~"
    }
}

/// ANSI color for a delta: green for growth, red for shrinkage, dim for no change.
pub fn trend_color(delta: i64) -> (r: &'static str)
    ensures
        r@ == (if delta > 0 {
            GREEN@
        } else if delta < 0 {
            RED@
        } else {
            DIM@
        }),
{
    if delta > 0 {
        GREEN
    } else if delta < 0 {
        RED
    } else {
        DIM
    }
}

/// The signed rendering of a delta: `+N` when positive, `-N` when negative, `0` for zero.
pub open spec fn delta_text(value: int) -> Seq<char> {
    if value > 0 {
        "+"@ + decimal(value as nat)
    } else if value < 0 {
        signed_decimal(value)
    } else {
        "0"@
    }
}

/// Format a delta value with its sign.
pub fn format_delta(value: i64) -> (r: String)
    ensures
        r@ == delta_text(value as int),
{
    if value > 0 {
        let digits = u64_to_string(value as u64);
        concat2("+", digits.as_str())
    } else if value < 0 {
        i64_to_string(value)
    } else {
        String::from_str("0")
    }
}

/// When colored output is wanted.
#[derive(Debug, Clone, Copy, PartialEq, Eq, Structural)]
pub enum ColorMode {
    /// Color when standard output supports it.
    Auto,
    /// Always color.
    Always,
    /// Never color.
    Never,
}

impl ColorMode {
    /// Whether to color standard output, given whether standard output supports color
    /// (a terminal, with no `NO_COLOR` request), which the caller determines.
    pub fn should_enable_for_stdout(self, stdout_supports_color: bool) -> (r: bool)
        ensures
            r == match self {
                ColorMode::Auto => stdout_supports_color,
                ColorMode::Always => true,
                ColorMode::Never => false,
            },
    {
        match self {
            ColorMode::Auto => stdout_supports_color,
            ColorMode::Always => true,
            ColorMode::Never => false,
        }
    }
}

/// Formatter for trend delta lines with optional colors.
pub struct TrendLineFormatter {
    use_colors: bool,
}

impl View for TrendLineFormatter {
    type V = bool;

    /// Whether the formatter colors its lines.
    closed spec fn view(&self) -> bool {
        self.use_colors
    }
}

/// The text of a trend line: name, arrow, signed delta and the percentage text, wrapped in the
/// trend color when colors are on.
pub open spec fn trend_line_text(use_colors: bool, name: Seq<char>, delta: int, pct: Seq<char>) -> Seq<
    char,
> {
    let arrow = if delta > 0 {
        "↑"@
    } else if delta < 0 {
        "↓"@
    } else {
        "~"@
    };
    let color = if delta > 0 {
        GREEN@
    } else if delta < 0 {
        RED@
    } else {
        DIM@
    };
    if use_colors {
        "  "@ + name + ": "@ + color + arrow + " "@ + delta_text(delta) + pct + RESET@
    } else {
        "  "@ + name + ": "@ + arrow + " "@ + delta_text(delta) + pct
    }
}

impl TrendLineFormatter {
    /// A formatter for the given color mode; `stdout_supports_color` decides the `Auto` mode.
    pub fn new(mode: ColorMode, stdout_supports_color: bool) -> (r: Self)
        ensures
            r.uses_colors() == mode.should_enable_for_stdout_spec(stdout_supports_color),
    {
        TrendLineFormatter { use_colors: Self::should_use_colors(mode, stdout_supports_color) }
    }

    fn should_use_colors(mode: ColorMode, stdout_supports_color: bool) -> (r: bool)
        ensures
            r == mode.should_enable_for_stdout_spec(stdout_supports_color),
    {
        mode.should_enable_for_stdout(stdout_supports_color)
    }

    /// Whether this formatter colors its lines.
    pub open spec fn uses_colors(&self) -> bool {
        self@
    }

    /// Whether lines are colored.
    pub fn colors_enabled(&self) -> (r: bool)
        ensures
            r == self.uses_colors(),
    {
        self.use_colors
    }

    /// A trend line such as `  Code: ↑ +50 (+12.5%)`, where `percentage` is the rendered
    /// percentage suffix (` (+12.5%)`, or empty when there is none).
    pub fn format_line_with_percentage(&self, name: &str, delta: i64, percentage: &str) -> (r:
        String)
        ensures
            r@ == trend_line_text(self.uses_colors(), name@, delta as int, percentage@),
    {
        let arrow = trend_arrow(delta);
        let delta_str = format_delta(delta);
        let mut line = concat3("  ", name, ": ");
        if self.use_colors {
            line.append(trend_color(delta));
        }
        line.append(arrow);
        line.append(" ");
        line.append(delta_str.as_str());
        line.append(percentage);
        if self.use_colors {
            line.append(RESET);
        }
        line
    }
}

impl ColorMode {
    /// The decision of `should_enable_for_stdout`.
    pub open spec fn should_enable_for_stdout_spec(self, stdout_supports_color: bool) -> bool {
        match self {
            ColorMode::Auto => stdout_supports_color,
            ColorMode::Always => true,
            ColorMode::Never => false,
        }
    }
}

/// The relative-time suffix of a header: ` (<relative time>)` when the previous timestamp is
/// known and not in the future, else empty.
pub open spec fn relative_suffix(previous: Option<u64>, now: u64) -> Seq<char> {
    match previous {
        Some(t) => if t <= now {
            " ("@ + relative_time_text((now - t) as nat) + ")"@
        } else {
            Seq::empty()
        },
        None => Seq::empty(),
    }
}

/// The trend header for a delta given the relative-time suffix `rel`.
pub open spec fn header_text(
    git_ref: Option<Seq<char>>,
    git_branch: Option<Seq<char>>,
    rel: Seq<char>,
) -> Seq<char> {
    match (git_ref, git_branch) {
        (Some(commit), Some(branch)) => "Changes since commit "@ + commit + " on "@ + branch + rel
            + ":"@,
        (Some(commit), None) => "Changes since commit "@ + commit + rel + ":"@,
        (None, _) => if rel.len() > 0 {
            "Changes since previous run"@ + rel + ":"@
        } else {
            "Changes from previous run:"@
        },
    }
}

/// The view of an optional string.
pub open spec fn opt_view(s: Option<String>) -> Option<Seq<char>> {
    match s {
        Some(x) => Some(x@),
        None => None,
    }
}

/// The trend header of `trend` seen at time `now` (`None` when the clock is unknown).
pub open spec fn trend_header(trend: TrendDelta, now: Option<u64>) -> Seq<char> {
    header_text(
        opt_view(trend.previous_git_ref),
        opt_view(trend.previous_git_branch),
        match now {
            Some(n) => relative_suffix(trend.previous_timestamp, n),
            None => Seq::empty(),
        },
    )
}

/// The trend section header as seen at time `now` (`None` when the clock is unknown):
/// "Changes since commit a1b2c3d on main (2 hours ago):", "Changes since commit a1b2c3d:",
/// "Changes since previous run (2 hours ago):" or "Changes from previous run:".
pub fn format_trend_header_at(trend: &TrendDelta, now: Option<u64>) -> (r: String)
    ensures
        r@ == trend_header(*trend, now),
{
    let rel: String = match (trend.previous_timestamp, now) {
        (Some(t), Some(n)) => match format_relative_time_at(t, n) {
            Some(text) => concat3(" (", text.as_str(), ")"),
            None => String::new(),
        },
        _ => String::new(),
    };
    match (&trend.previous_git_ref, &trend.previous_git_branch) {
        (Some(commit), Some(branch)) => {
            let mut s = concat4("Changes since commit ", commit.as_str(), " on ", branch.as_str());
            s.append(rel.as_str());
            s.append(":");
            s
        },
        (Some(commit), None) => concat4("Changes since commit ", commit.as_str(), rel.as_str(), ":"),
        (None, _) => {
            let rel_chars = crate::text::chars_of(rel.as_str());
            if rel_chars.len() > 0 {
                concat3("Changes since previous run", rel.as_str(), ":")
            } else {
                String::from_str("Changes from previous run:")
            }
        },
    }
}

/// The trend section header as seen now.
pub fn format_trend_header(trend: &TrendDelta) -> (r: String)
    ensures
        exists|now: Option<u64>| r@ == #[trigger] trend_header(*trend, now),
{
    let now = try_current_unix_timestamp();
    format_trend_header_at(trend, now)
}

/// `s` without one trailing `:` (unchanged when it does not end with one).
pub open spec fn strip_colon(s: Seq<char>) -> Seq<char> {
    if s.len() > 0 && s.last() == ':' {
        s.drop_last()
    } else {
        s
    }
}

/// The markdown trend header at time `now`: the plain header without its trailing colon.
pub fn format_trend_header_markdown_at(trend: &TrendDelta, now: Option<u64>) -> (r: String)
    ensures
        r@ == strip_colon(trend_header(*trend, now)),
{
    let header = format_trend_header_at(trend, now);
    let chars = crate::text::chars_of(header.as_str());
    let n = chars.len();
    if n > 0 && chars[n - 1] == ':' {
        crate::text::string_from_range(&chars, 0, n - 1)
    } else {
        header
    }
}

/// The markdown trend header as seen now: the plain header without its trailing colon.
pub fn format_trend_header_markdown(trend: &TrendDelta) -> (r: String)
    ensures
        exists|now: Option<u64>| r@ == strip_colon(#[trigger] trend_header(*trend, now)),
{
    let now = try_current_unix_timestamp();
    format_trend_header_markdown_at(trend, now)
}


/// What the trend header opens with for a previous entry's commit and branch, before any
/// relative time: the commit and branch, the commit alone, or the previous run.
pub open spec fn header_opening(git_ref: Option<Seq<char>>, git_branch: Option<Seq<char>>) -> Seq<
    char,
> {
    match (git_ref, git_branch) {
        (Some(c), Some(b)) => "Changes since commit "@ + c + " on "@ + b,
        (Some(c), None) => "Changes since commit "@ + c,
        (None, _) => "Changes since previous run"@,
    }
}

/// When the previous entry's time is known and not later than `now`, the trend header names
/// how long ago it was, in brackets right before the closing colon, whatever git context the
/// entry has: "Changes since commit a1b2c3d on main (2 hours ago):". Without a usable time the
/// header carries no time: "Changes since commit a1b2c3d on main:", and "Changes from previous
/// run:" without a commit.
pub proof fn law_trend_header_names_the_time(trend: TrendDelta, now: Option<u64>)
    ensures
        ({
            let opening = header_opening(
                opt_view(trend.previous_git_ref),
                opt_view(trend.previous_git_branch),
            );
            match (trend.previous_timestamp, now) {
                (Some(t), Some(n)) if t <= n => trend_header(trend, now) == opening + " ("@
                    + relative_time_text((n - t) as nat) + ")"@ + ":"@,
                _ => trend_header(trend, now) == if trend.previous_git_ref is Some {
                    opening + ":"@
                } else {
                    "Changes from previous run:"@
                },
            }
        }),
{
    let r = opt_view(trend.previous_git_ref);
    let b = opt_view(trend.previous_git_branch);
    match (trend.previous_timestamp, now) {
        (Some(t), Some(n)) if t <= n => {
            let rel = " ("@ + relative_time_text((n - t) as nat) + ")"@;
            reveal_strlit(" (");
            assert(rel.len() > 0);
            match (r, b) {
                (Some(c), Some(br)) => {
                    assert("Changes since commit "@ + c + " on "@ + br + rel + ":"@ =~= header_opening(
                        r,
                        b,
                    ) + " ("@ + relative_time_text((n - t) as nat) + ")"@ + ":"@);
                },
                (Some(c), None) => {
                    assert("Changes since commit "@ + c + rel + ":"@ =~= header_opening(r, b) + " ("@
                        + relative_time_text((n - t) as nat) + ")"@ + ":"@);
                },
                (None, _) => {
                    assert("Changes since previous run"@ + rel + ":"@ =~= header_opening(r, b)
                        + " ("@ + relative_time_text((n - t) as nat) + ")"@ + ":"@);
                },
            }
        },
        _ => {
            let e = Seq::<char>::empty();
            match (r, b) {
                (Some(c), Some(br)) => {
                    assert("Changes since commit "@ + c + " on "@ + br + e + ":"@ =~= header_opening(
                        r,
                        b,
                    ) + ":"@);
                },
                (Some(c), None) => {
                    assert("Changes since commit "@ + c + e + ":"@ =~= header_opening(r, b) + ":"@);
                },
                (None, _) => {},
            }
        },
    }
}

} // verus!
