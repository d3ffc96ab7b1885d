//! Trend history: snapshots of project statistics over time, deltas between them, and the
//! retention policy that keeps the history bounded.
use vstd::prelude::*;

use crate::state::try_current_unix_timestamp;

verus! {

/// Seconds per day for age calculation.
pub const SECONDS_PER_DAY: u64 = 86400;

/// Version written into new history files.
pub const HISTORY_VERSION: u32 = 1;

/// Default threshold for significant code changes: changes of this many code lines or fewer
/// are trivial unless files were added or removed.
pub const DEFAULT_MIN_CODE_DELTA: u64 = 10;

/// Line counts of one file.
#[derive(Debug, Clone, Copy, PartialEq, Eq)]
pub struct LineStats {
    pub total: usize,
    pub code: usize,
    pub comment: usize,
    pub blank: usize,
    pub ignored: usize,
}

/// Statistics of one scanned file.
#[derive(Debug, Clone)]
pub struct FileStatistics {
    pub path: String,
    pub stats: LineStats,
    pub language: String,
}

/// Totals of a scanned project.
#[derive(Debug, Clone)]
pub struct ProjectStatistics {
    pub files: Vec<FileStatistics>,
    pub total_files: usize,
    pub total_lines: usize,
    pub total_code: usize,
    pub total_comment: usize,
    pub total_blank: usize,
}

/// Sum of the total line counts of `files`.
pub open spec fn sum_total(files: Seq<FileStatistics>) -> nat
    decreases files.len(),
{
    if files.len() == 0 {
        0
    } else {
        sum_total(files.drop_last()) + files.last().stats.total as nat
    }
}

/// Sum of the code line counts of `files`.
pub open spec fn sum_code(files: Seq<FileStatistics>) -> nat
    decreases files.len(),
{
    if files.len() == 0 {
        0
    } else {
        sum_code(files.drop_last()) + files.last().stats.code as nat
    }
}

/// Sum of the comment line counts of `files`.
pub open spec fn sum_comment(files: Seq<FileStatistics>) -> nat
    decreases files.len(),
{
    if files.len() == 0 {
        0
    } else {
        sum_comment(files.drop_last()) + files.last().stats.comment as nat
    }
}

/// Sum of the blank line counts of `files`.
pub open spec fn sum_blank(files: Seq<FileStatistics>) -> nat
    decreases files.len(),
{
    if files.len() == 0 {
        0
    } else {
        sum_blank(files.drop_last()) + files.last().stats.blank as nat
    }
}

impl ProjectStatistics {
    /// Totals over the given files.
    pub fn new(files: Vec<FileStatistics>) -> (r: ProjectStatistics)
        requires
            sum_total(files@) <= usize::MAX,
            sum_code(files@) <= usize::MAX,
            sum_comment(files@) <= usize::MAX,
            sum_blank(files@) <= usize::MAX,
        ensures
            r.files@ == files@,
            r.total_files == files.len(),
            r.total_lines == sum_total(files@),
            r.total_code == sum_code(files@),
            r.total_comment == sum_comment(files@),
            r.total_blank == sum_blank(files@),
    {
        let mut total: usize = 0;
        let mut code: usize = 0;
        let mut comment: usize = 0;
        let mut blank: usize = 0;
        let mut i: usize = 0;
        while i < files.len()
            invariant
                0 <= i <= files.len(),
                sum_total(files@) <= usize::MAX,
                sum_code(files@) <= usize::MAX,
                sum_comment(files@) <= usize::MAX,
                sum_blank(files@) <= usize::MAX,
                total == sum_total(files@.take(i as int)),
                code == sum_code(files@.take(i as int)),
                comment == sum_comment(files@.take(i as int)),
                blank == sum_blank(files@.take(i as int)),
            decreases files.len() - i,
        {
            proof {
                lemma_sums_grow(files@, (i + 1) as int);
                assert(files@.take(i + 1).drop_last() =~= files@.take(i as int));
            }
            total = total + files[i].stats.total;
            code = code + files[i].stats.code;
            comment = comment + files[i].stats.comment;
            blank = blank + files[i].stats.blank;
            i = i + 1;
        }
        assert(files@.take(files.len() as int) =~= files@);
        let n = files.len();
        ProjectStatistics {
            files,
            total_files: n,
            total_lines: total,
            total_code: code,
            total_comment: comment,
            total_blank: blank,
        }
    }
}

proof fn lemma_sums_grow(files: Seq<FileStatistics>, i: int)
    requires
        0 <= i <= files.len(),
    ensures
        sum_total(files.take(i)) <= sum_total(files),
        sum_code(files.take(i)) <= sum_code(files),
        sum_comment(files.take(i)) <= sum_comment(files),
        sum_blank(files.take(i)) <= sum_blank(files),
    decreases files.len(),
{
    if i < files.len() {
        lemma_sums_grow(files.drop_last(), i);
        assert(files.drop_last().take(i) =~= files.take(i));
    } else {
        assert(files.take(i) =~= files);
    }
}

/// Git commit and branch of the working tree at the time of a snapshot.
#[derive(Debug, Clone)]
pub struct GitContext {
    /// Commit hash (short form).
    pub commit: String,
    /// Branch name; `None` in detached HEAD state.
    pub branch: Option<String>,
}

/// Trend retention and significance settings.
#[derive(Debug, Clone, Copy, PartialEq, Eq)]
pub struct TrendConfig {
    /// Keep at most this many entries (the newest).
    pub max_entries: Option<usize>,
    /// Drop entries older than this many days.
    pub max_age_days: Option<u64>,
    /// Minimum number of seconds between two recorded entries.
    pub min_interval_secs: Option<u64>,
    /// Code-line change above which a delta is significant.
    pub min_code_delta: Option<u64>,
}

impl Default for TrendConfig {
    fn default() -> (r: Self)
        ensures
            r.max_entries is None,
            r.max_age_days is None,
            r.min_interval_secs is None,
            r.min_code_delta is None,
    {
        TrendConfig {
            max_entries: None,
            max_age_days: None,
            min_interval_secs: None,
            min_code_delta: None,
        }
    }
}

/// A single historical snapshot of project statistics.
#[derive(Debug, Clone, PartialEq, Eq)]
pub struct TrendEntry {
    /// Unix timestamp (seconds since epoch).
    pub timestamp: u64,
    pub total_files: usize,
    pub total_lines: usize,
    pub code: usize,
    pub comment: usize,
    pub blank: usize,
    /// Git commit hash at the time of the snapshot; `None` outside a git repository.
    pub git_ref: Option<String>,
    /// Git branch at the time of the snapshot; `None` outside a repository or on a detached HEAD.
    pub git_branch: Option<String>,
}

/// Whether `e` records the totals of `stats`.
pub open spec fn entry_records(e: TrendEntry, stats: ProjectStatistics) -> bool {
    &&& e.total_files == stats.total_files
    &&& e.total_lines == stats.total_lines
    &&& e.code == stats.total_code
    &&& e.comment == stats.total_comment
    &&& e.blank == stats.total_blank
}

/// The commit that a git context contributes to an entry.
pub open spec fn context_ref(ctx: Option<GitContext>) -> Option<String> {
    match ctx {
        Some(c) => Some(c.commit),
        None => None,
    }
}

/// The branch that a git context contributes to an entry.
pub open spec fn context_branch(ctx: Option<GitContext>) -> Option<String> {
    match ctx {
        Some(c) => c.branch,
        None => None,
    }
}

impl TrendEntry {
    /// A snapshot of `stats` taken now, without git context; `None` when the clock reads a time
    /// before the Unix epoch.
    pub fn new(stats: &ProjectStatistics) -> (r: Option<TrendEntry>)
        ensures
            r matches Some(e) ==> entry_records(e, *stats) && e.git_ref is None
                && e.git_branch is None,
    {
        match try_current_unix_timestamp() {
            Some(now) => Some(TrendEntry::at(stats, now)),
            None => None,
        }
    }

    /// A snapshot of `stats` stamped with `timestamp`, without git context.
    pub fn at(stats: &ProjectStatistics, timestamp: u64) -> (e: TrendEntry)
        ensures
            entry_records(e, *stats),
            e.timestamp == timestamp,
            e.git_ref is None,
            e.git_branch is None,
    {
        TrendEntry {
            timestamp,
            total_files: stats.total_files,
            total_lines: stats.total_lines,
            code: stats.total_code,
            comment: stats.total_comment,
            blank: stats.total_blank,
            git_ref: None,
            git_branch: None,
        }
    }

    /// The same entry with another timestamp.
    pub fn with_timestamp(self, timestamp: u64) -> (e: TrendEntry)
        ensures
            e == (TrendEntry { timestamp, ..self }),
    {
        let mut e = self;
        e.timestamp = timestamp;
        e
    }

    /// The same entry with the given git commit and branch.
    pub fn with_git_context(self, git_ref: Option<String>, git_branch: Option<String>) -> (e:
        TrendEntry)
        ensures
            e == (TrendEntry { git_ref, git_branch, ..self }),
    {
        let mut e = self;
        e.git_ref = git_ref;
        e.git_branch = git_branch;
        e
    }
}

/// Delta between current and previous statistics.
#[derive(Debug, Clone)]
pub struct TrendDelta {
    pub files_delta: i64,
    pub lines_delta: i64,
    pub code_delta: i64,
    pub comment_delta: i64,
    pub blank_delta: i64,
    /// Timestamp of the previous entry.
    pub previous_timestamp: Option<u64>,
    /// Git commit hash of the previous entry.
    pub previous_git_ref: Option<String>,
    /// Git branch of the previous entry.
    pub previous_git_branch: Option<String>,
}

impl Default for TrendDelta {
    fn default() -> (r: Self)
        ensures
            r.files_delta == 0 && r.lines_delta == 0 && r.code_delta == 0 && r.comment_delta == 0
                && r.blank_delta == 0,
            r.previous_timestamp is None,
            r.previous_git_ref is None,
            r.previous_git_branch is None,
    {
        TrendDelta {
            files_delta: 0,
            lines_delta: 0,
            code_delta: 0,
            comment_delta: 0,
            blank_delta: 0,
            previous_timestamp: None,
            previous_git_ref: None,
            previous_git_branch: None,
        }
    }
}

/// A count as `as i64` reads it: the count itself when it fits, else its low 64 bits read as a
/// two's-complement number.
pub open spec fn as_i64(n: usize) -> int {
    (n as i64) as int
}

/// The difference of two counts as the deltas are computed: each count taken `as i64`.
pub open spec fn count_delta(current: usize, previous: usize) -> int {
    as_i64(current) - as_i64(previous)
}

/// Whether a difference lies in the range of an `i64`.
pub open spec fn fits_i64(x: int) -> bool {
    i64::MIN <= x <= i64::MAX
}

/// Whether every delta from `prev` to `stats` can be computed without overflowing an `i64`.
pub open spec fn counts_fit_i64(prev: TrendEntry, stats: ProjectStatistics) -> bool {
    &&& fits_i64(count_delta(stats.total_files, prev.total_files))
    &&& fits_i64(count_delta(stats.total_lines, prev.total_lines))
    &&& fits_i64(count_delta(stats.total_code, prev.code))
    &&& fits_i64(count_delta(stats.total_comment, prev.comment))
    &&& fits_i64(count_delta(stats.total_blank, prev.blank))
}

/// Whether `d` is the delta from `prev` to `stats`.
pub open spec fn is_delta(d: TrendDelta, prev: TrendEntry, stats: ProjectStatistics) -> bool {
    &&& d.files_delta == count_delta(stats.total_files, prev.total_files)
    &&& d.lines_delta == count_delta(stats.total_lines, prev.total_lines)
    &&& d.code_delta == count_delta(stats.total_code, prev.code)
    &&& d.comment_delta == count_delta(stats.total_comment, prev.comment)
    &&& d.blank_delta == count_delta(stats.total_blank, prev.blank)
    &&& d.previous_timestamp == Some(prev.timestamp)
    &&& d.previous_git_ref == prev.git_ref
    &&& d.previous_git_branch == prev.git_branch
}

/// Absolute value of an integer.
pub open spec fn abs(x: int) -> nat {
    if x < 0 {
        (-x) as nat
    } else {
        x as nat
    }
}

/// The code-delta threshold of a configuration.
pub open spec fn code_threshold(config: TrendConfig) -> u64 {
    match config.min_code_delta {
        Some(t) => t,
        None => DEFAULT_MIN_CODE_DELTA,
    }
}

fn clone_opt_string(s: &Option<String>) -> (r: Option<String>)
    ensures
        r == *s,
{
    match s {
        Some(x) => Some(x.clone()),
        None => None,
    }
}

impl TrendDelta {
    /// Delta from the previous entry to the current statistics.
    pub fn compute(previous: &TrendEntry, current: &ProjectStatistics) -> (d: TrendDelta)
        requires
            counts_fit_i64(*previous, *current),
        ensures
            is_delta(d, *previous, *current),
    {
        TrendDelta {
            files_delta: current.total_files as i64 - previous.total_files as i64,
            lines_delta: current.total_lines as i64 - previous.total_lines as i64,
            code_delta: current.total_code as i64 - previous.code as i64,
            comment_delta: current.total_comment as i64 - previous.comment as i64,
            blank_delta: current.total_blank as i64 - previous.blank as i64,
            previous_timestamp: Some(previous.timestamp),
            previous_git_ref: clone_opt_string(&previous.git_ref),
            previous_git_branch: clone_opt_string(&previous.git_branch),
        }
    }

    /// Whether any count changed.
    pub fn has_changes(&self) -> (r: bool)
        ensures
            r == (self.files_delta != 0 || self.lines_delta != 0 || self.code_delta != 0
                || self.comment_delta != 0 || self.blank_delta != 0),
    {
        self.files_delta != 0 || self.lines_delta != 0 || self.code_delta != 0
            || self.comment_delta != 0 || self.blank_delta != 0
    }

    /// Whether the delta is significant enough to display: files were added or removed, or the
    /// absolute code delta exceeds the configured threshold (default 10).
    pub fn is_significant(&self, config: &TrendConfig) -> (r: bool)
        ensures
            r == (self.files_delta != 0 || abs(self.code_delta as int) > code_threshold(*config)),
    {
        if self.files_delta != 0 {
            return true;
        }
        let threshold = match config.min_code_delta {
            Some(t) => t,
            None => DEFAULT_MIN_CODE_DELTA,
        };
        let magnitude: u64 = if self.code_delta >= 0 {
            self.code_delta as u64
        } else if self.code_delta == i64::MIN {
            9223372036854775808u64
        } else {
            (-self.code_delta) as u64
        };
        magnitude > threshold
    }
}

/// `a - b`, or zero when `b` exceeds `a` (`u64::saturating_sub`).
pub open spec fn saturating_sub(a: u64, b: u64) -> u64 {
    if a >= b {
        (a - b) as u64
    } else {
        0
    }
}

/// Index of the newest entry stamped at or before `t`, or -1 when there is none.
pub open spec fn newest_at_or_before(entries: Seq<TrendEntry>, t: u64) -> int
    decreases entries.len(),
{
    if entries.len() == 0 {
        -1
    } else if entries.last().timestamp <= t {
        entries.len() - 1
    } else {
        newest_at_or_before(entries.drop_last(), t)
    }
}

/// The oldest timestamp that an age limit of `max_age_days` keeps at time `now`.
pub open spec fn age_cutoff(now: u64, max_age_days: u64) -> u64 {
    saturating_sub(now, (max_age_days * SECONDS_PER_DAY) as u64)
}

/// The entries stamped at or after `cutoff`, in their order.
pub open spec fn not_older_than(entries: Seq<TrendEntry>, cutoff: u64) -> Seq<TrendEntry> {
    entries.filter(|e: TrendEntry| e.timestamp >= cutoff)
}

/// The entries kept by the age limit of `config` at time `now`.
pub open spec fn after_age_limit(entries: Seq<TrendEntry>, config: TrendConfig, now: u64) -> Seq<
    TrendEntry,
> {
    match config.max_age_days {
        Some(days) => not_older_than(entries, age_cutoff(now, days)),
        None => entries,
    }
}

/// The newest `max` entries (all of them when there are no more than `max`).
pub open spec fn newest(entries: Seq<TrendEntry>, max: usize) -> Seq<TrendEntry> {
    if entries.len() > max {
        entries.skip(entries.len() - max)
    } else {
        entries
    }
}

/// What the retention policy of `config` keeps of `entries` at time `now`: first the age
/// limit, then the newest `max_entries`.
pub open spec fn retained(entries: Seq<TrendEntry>, config: TrendConfig, now: u64) -> Seq<
    TrendEntry,
> {
    let aged = after_age_limit(entries, config, now);
    match config.max_entries {
        Some(max) => newest(aged, max),
        None => aged,
    }
}

/// Whether the age limit of `config` can be computed without overflow.
pub open spec fn age_limit_fits(config: TrendConfig) -> bool {
    match config.max_age_days {
        Some(days) => days * SECONDS_PER_DAY <= u64::MAX,
        None => true,
    }
}

/// Whether a new entry may be recorded at time `now` after the entries `entries`.
pub open spec fn may_add(entries: Seq<TrendEntry>, config: TrendConfig, now: u64) -> bool {
    match config.min_interval_secs {
        None => true,
        Some(interval) => entries.len() == 0 || saturating_sub(now, entries.last().timestamp)
            >= interval,
    }
}


/// The newest entry at or before `t` is stamped at or before `t`, and every later entry is
/// stamped after `t`; when there is none, every entry is stamped after `t`.
pub proof fn lemma_newest_at_or_before(entries: Seq<TrendEntry>, t: u64)
    ensures
        newest_at_or_before(entries, t) == -1 ==> forall|j: int|
            0 <= j < entries.len() ==> #[trigger] entries[j].timestamp > t,
        newest_at_or_before(entries, t) != -1 ==> {
            let i = newest_at_or_before(entries, t);
            &&& 0 <= i < entries.len()
            &&& entries[i].timestamp <= t
            &&& forall|j: int| i < j < entries.len() ==> #[trigger] entries[j].timestamp > t
        },
    decreases entries.len(),
{
    if entries.len() > 0 && entries.last().timestamp > t {
        let prefix = entries.drop_last();
        lemma_newest_at_or_before(prefix, t);
        assert forall|j: int| 0 <= j < prefix.len() implies #[trigger] entries[j] == prefix[j] by {}
    }
}

/// Retention is idempotent: applying the same policy again at the same time removes nothing.
pub proof fn law_retention_idempotent(entries: Seq<TrendEntry>, config: TrendConfig, now: u64)
    ensures
        retained(retained(entries, config, now), config, now) == retained(entries, config, now),
{
    let aged = after_age_limit(entries, config, now);
    let kept = retained(entries, config, now);
    match config.max_age_days {
        Some(days) => {
            let cutoff = age_cutoff(now, days);
            let pred = |e: TrendEntry| e.timestamp >= cutoff;
            assert forall|i: int| 0 <= i < aged.len() implies pred(#[trigger] aged[i]) by {
                entries.lemma_filter_pred(pred, i);
            }
            assert forall|i: int| 0 <= i < kept.len() implies pred(#[trigger] kept[i]) by {
                if config.max_entries is Some && aged.len() > config.max_entries->0 {
                    assert(kept[i] == aged[i + aged.len() - config.max_entries->0]);
                }
            }
            lemma_filter_keeps_all(kept, pred);
        },
        None => {},
    }
}

/// Filtering a sequence whose elements all satisfy the predicate gives the sequence itself.
proof fn lemma_filter_keeps_all(s: Seq<TrendEntry>, pred: spec_fn(TrendEntry) -> bool)
    requires
        forall|i: int| 0 <= i < s.len() ==> pred(#[trigger] s[i]),
    ensures
        s.filter(pred) == s,
    decreases s.len(),
{
    reveal_with_fuel(Seq::filter, 1);
    if s.len() > 0 {
        let p = s.drop_last();
        assert forall|i: int| 0 <= i < p.len() implies pred(#[trigger] p[i]) by {
            assert(p[i] == s[i]);
        }
        lemma_filter_keeps_all(p, pred);
        assert(pred(s[s.len() - 1]));
        assert(p.push(s.last()) =~= s);
    } else {
        assert(s.filter(pred) =~= s);
    }
}

/// What retention keeps is bounded by `max_entries`, stamped no earlier than the age cutoff,
/// and taken from the original entries.
pub proof fn law_retention_bounds(entries: Seq<TrendEntry>, config: TrendConfig, now: u64)
    ensures
        ({
            let kept = retained(entries, config, now);
            &&& config.max_entries matches Some(max) ==> kept.len() <= max
            &&& config.max_age_days matches Some(days) ==> forall|i: int|
                0 <= i < kept.len() ==> #[trigger] kept[i].timestamp >= age_cutoff(now, days)
            &&& forall|i: int| 0 <= i < kept.len() ==> entries.contains(#[trigger] kept[i])
            &&& kept.len() <= entries.len()
        }),
{
    let aged = after_age_limit(entries, config, now);
    let kept = retained(entries, config, now);
    match config.max_age_days {
        Some(days) => {
            let pred = |e: TrendEntry| e.timestamp >= age_cutoff(now, days);
            entries.lemma_filter_len(pred);
            assert forall|i: int| 0 <= i < aged.len() implies pred(#[trigger] aged[i])
                && entries.contains(aged[i]) by {
                entries.lemma_filter_pred(pred, i);
                entries.lemma_filter_contains_rev(pred, aged[i]);
            }
        },
        None => {
            assert forall|i: int| 0 <= i < aged.len() implies entries.contains(#[trigger] aged[i]) by {
                assert(entries[i] == aged[i]);
            }
        },
    }
    assert forall|i: int| 0 <= i < kept.len() implies aged.contains(#[trigger] kept[i]) by {
        if config.max_entries is Some && aged.len() > config.max_entries->0 {
            assert(kept[i] == aged[i + aged.len() - config.max_entries->0]);
        } else {
            assert(kept[i] == aged[i]);
        }
    }
    assert forall|i: int| 0 <= i < kept.len() implies entries.contains(#[trigger] kept[i]) by {
        assert(aged.contains(kept[i]));
        let j = choose|j: int| 0 <= j < aged.len() && aged[j] == kept[i];
        assert(entries.contains(aged[j]));
    }
    if config.max_age_days is Some {
        assert forall|i: int| 0 <= i < kept.len() implies #[trigger] kept[i].timestamp
            >= age_cutoff(now, config.max_age_days->0) by {
            let j = choose|j: int| 0 <= j < aged.len() && aged[j] == kept[i];
            assert(aged[j].timestamp >= age_cutoff(now, config.max_age_days->0));
        }
    }
}

/// A snapshot compared with the statistics it records shows no change.
pub proof fn law_delta_to_own_snapshot_has_no_changes(
    d: TrendDelta,
    entry: TrendEntry,
    stats: ProjectStatistics,
)
    requires
        entry_records(entry, stats),
        is_delta(d, entry, stats),
    ensures
        !(d.files_delta != 0 || d.lines_delta != 0 || d.code_delta != 0 || d.comment_delta != 0
            || d.blank_delta != 0),
{
}

/// A significant delta always has changes.
pub proof fn law_significant_implies_changes(d: TrendDelta, config: TrendConfig)
    requires
        d.files_delta != 0 || abs(d.code_delta as int) > code_threshold(config),
    ensures
        d.files_delta != 0 || d.lines_delta != 0 || d.code_delta != 0 || d.comment_delta != 0
            || d.blank_delta != 0,
{
}

/// Right after an entry stamped `t` is appended, a new entry may be added at `now` exactly when
/// no interval is configured or `now - t` (saturating) reaches it.
pub proof fn law_may_add_after_append(
    entries: Seq<TrendEntry>,
    entry: TrendEntry,
    config: TrendConfig,
    now: u64,
)
    ensures
        may_add(entries.push(entry), config, now) == match config.min_interval_secs {
            None => true,
            Some(interval) => saturating_sub(now, entry.timestamp) >= interval,
        },
{
}

/// Historical statistics storage: a format version and the entries, oldest first.
#[derive(Debug, Clone, PartialEq, Eq)]
pub struct TrendHistory {
    version: u32,
    entries: Vec<TrendEntry>,
}

impl View for TrendHistory {
    type V = Seq<TrendEntry>;

    /// The entries, oldest first.
    closed spec fn view(&self) -> Seq<TrendEntry> {
        self.entries@
    }
}

impl Default for TrendHistory {
    fn default() -> (r: Self)
        ensures
            r@ == Seq::<TrendEntry>::empty(),
            r.version_spec() == HISTORY_VERSION,
    {
        TrendHistory::new()
    }
}

impl TrendHistory {
    /// The format version of the history.
    pub closed spec fn version_spec(&self) -> u32 {
        self.version
    }

    /// An empty history of the current format version.
    pub fn new() -> (r: Self)
        ensures
            r@ == Seq::<TrendEntry>::empty(),
            r.version_spec() == HISTORY_VERSION,
    {
        TrendHistory { version: HISTORY_VERSION, entries: Vec::new() }
    }

    /// A history of the given version holding the given entries, as read from storage.
    pub fn from_parts(version: u32, entries: Vec<TrendEntry>) -> (r: Self)
        ensures
            r@ == entries@,
            r.version_spec() == version,
    {
        TrendHistory { version, entries }
    }

    /// The most recent entry.
    pub fn latest(&self) -> (r: Option<&TrendEntry>)
        ensures
            match r {
                Some(e) => self@.len() > 0 && *e == self@.last(),
                None => self@.len() == 0,
            },
    {
        let n = self.entries.len();
        if n == 0 {
            None
        } else {
            Some(&self.entries[n - 1])
        }
    }

    /// Record a snapshot of `stats` taken now, without git context. Returns whether it was
    /// recorded: nothing is recorded when the clock reads a time before the Unix epoch.
    pub fn add(&mut self, stats: &ProjectStatistics) -> (added: bool)
        ensures
            final(self).version_spec() == old(self).version_spec(),
            !added ==> final(self)@ == old(self)@,
            added ==> {
                &&& final(self)@.len() == old(self)@.len() + 1
                &&& final(self)@.drop_last() == old(self)@
                &&& entry_records(final(self)@.last(), *stats)
                &&& final(self)@.last().git_ref is None
                &&& final(self)@.last().git_branch is None
            },
    {
        match TrendEntry::new(stats) {
            Some(e) => {
                self.entries.push(e);
                assert(self.entries@.drop_last() =~= old(self)@);
                true
            },
            None => false,
        }
    }

    /// Record a snapshot of `stats` taken now, with the commit and branch of `git_context`.
    /// Returns whether it was recorded: nothing is recorded when the clock reads a time before
    /// the Unix epoch.
    pub fn add_with_context(&mut self, stats: &ProjectStatistics, git_context: Option<&GitContext>)
        -> (added: bool)
        ensures
            final(self).version_spec() == old(self).version_spec(),
            !added ==> final(self)@ == old(self)@,
            added ==> {
                &&& final(self)@.len() == old(self)@.len() + 1
                &&& final(self)@.drop_last() == old(self)@
                &&& entry_records(final(self)@.last(), *stats)
                &&& final(self)@.last().git_ref == context_ref(
                    match git_context {
                        Some(c) => Some(*c),
                        None => None,
                    },
                )
                &&& final(self)@.last().git_branch == context_branch(
                    match git_context {
                        Some(c) => Some(*c),
                        None => None,
                    },
                )
            },
    {
        match try_current_unix_timestamp() {
            Some(now) => {
                let e = Self::entry_with_context(stats, git_context, now);
                self.entries.push(e);
                assert(self.entries@.drop_last() =~= old(self)@);
                true
            },
            None => false,
        }
    }

    fn entry_with_context(stats: &ProjectStatistics, git_context: Option<&GitContext>, now: u64) -> (e:
        TrendEntry)
        ensures
            entry_records(e, *stats),
            e.timestamp == now,
            e.git_ref == context_ref(
                match git_context {
                    Some(c) => Some(*c),
                    None => None,
                },
            ),
            e.git_branch == context_branch(
                match git_context {
                    Some(c) => Some(*c),
                    None => None,
                },
            ),
    {
        let (git_ref, git_branch) = match git_context {
            Some(ctx) => (Some(ctx.commit.clone()), clone_opt_string(&ctx.branch)),
            None => (None, None),
        };
        TrendEntry::at(stats, now).with_git_context(git_ref, git_branch)
    }

    /// Append an entry.
    pub fn add_entry(&mut self, entry: TrendEntry)
        ensures
            final(self).version_spec() == old(self).version_spec(),
            final(self)@ == old(self)@.push(entry),
    {
        self.entries.push(entry);
    }

    /// Delta from the latest entry to `current`, or `None` for an empty history.
    pub fn compute_delta(&self, current: &ProjectStatistics) -> (r: Option<TrendDelta>)
        requires
            self@.len() > 0 ==> counts_fit_i64(self@.last(), *current),
        ensures
            match r {
                Some(d) => self@.len() > 0 && is_delta(d, self@.last(), *current),
                None => self@.len() == 0,
            },
    {
        match self.latest() {
            Some(prev) => Some(TrendDelta::compute(prev, current)),
            None => None,
        }
    }

    /// The newest entry stamped at or before `at_or_before`, or `None` when every entry is
    /// newer (or there is none).
    pub fn find_entry_at_or_before(&self, at_or_before: u64) -> (r: Option<&TrendEntry>)
        ensures
            match r {
                Some(e) => {
                    &&& 0 <= newest_at_or_before(self@, at_or_before) < self@.len()
                    &&& *e == self@[newest_at_or_before(self@, at_or_before)]
                },
                None => newest_at_or_before(self@, at_or_before) == -1,
            },
    {
        let ghost s = self.entries@;
        let mut i = self.entries.len();
        assert(s.take(i as int) =~= s);
        while i > 0
            invariant
                i <= s.len(),
                s == self.entries@,
                newest_at_or_before(s, at_or_before) == newest_at_or_before(
                    s.take(i as int),
                    at_or_before,
                ),
            decreases i,
        {
            if self.entries[i - 1].timestamp <= at_or_before {
                return Some(&self.entries[i - 1]);
            }
            assert(s.take(i as int).drop_last() =~= s.take(i - 1));
            i = i - 1;
        }
        None
    }

    /// Delta from the newest entry stamped at or before `current_time - duration_secs`
    /// (saturating at zero) to `current`.
    pub fn compute_delta_since(
        &self,
        duration_secs: u64,
        current: &ProjectStatistics,
        current_time: u64,
    ) -> (r: Option<TrendDelta>)
        requires
            ({
                let idx = newest_at_or_before(self@, saturating_sub(current_time, duration_secs));
                0 <= idx < self@.len() ==> counts_fit_i64(self@[idx], *current)
            }),
        ensures
            ({
                let idx = newest_at_or_before(self@, saturating_sub(current_time, duration_secs));
                match r {
                    Some(d) => 0 <= idx < self@.len() && is_delta(d, self@[idx], *current),
                    None => idx == -1,
                }
            }),
    {
        let target = current_time.saturating_sub(duration_secs);
        match self.find_entry_at_or_before(target) {
            Some(prev) => {
                Some(TrendDelta::compute(prev, current))
            },
            None => None,
        }
    }

    /// Number of entries.
    pub fn len(&self) -> (r: usize)
        ensures
            r == self@.len(),
    {
        self.entries.len()
    }

    /// Whether the history holds no entry.
    pub fn is_empty(&self) -> (r: bool)
        ensures
            r == (self@.len() == 0),
    {
        self.entries.len() == 0
    }

    /// All entries, oldest first.
    pub fn entries(&self) -> (r: &[TrendEntry])
        ensures
            r@ == self@,
    {
        self.entries.as_slice()
    }

    /// The history format version.
    pub fn version(&self) -> (r: u32)
        ensures
            r == self.version_spec(),
    {
        self.version
    }

    /// Whether a new entry may be added at `current_time`: always when no minimum interval is
    /// configured or the history is empty, else when at least `min_interval_secs` have passed
    /// since the latest entry.
    pub fn should_add(&self, config: &TrendConfig, current_time: u64) -> (r: bool)
        ensures
            r == may_add(self@, *config, current_time),
    {
        let min_interval = match config.min_interval_secs {
            Some(m) => m,
            None => {
                return true;
            },
        };
        match self.latest() {
            None => true,
            Some(latest) => current_time.saturating_sub(latest.timestamp) >= min_interval,
        }
    }

    /// Apply the retention policy at `current_time`: remove entries older than `max_age_days`,
    /// then the oldest entries beyond `max_entries`. Returns the number of entries removed.
    pub fn apply_retention(&mut self, config: &TrendConfig, current_time: u64) -> (removed: usize)
        requires
            age_limit_fits(*config),
        ensures
            final(self).version_spec() == old(self).version_spec(),
            final(self)@ == retained(old(self)@, *config, current_time),
            removed == old(self)@.len() - final(self)@.len(),
    {
        let original_count = self.entries.len();
        if let Some(max_age_days) = config.max_age_days {
            let cutoff = current_time.saturating_sub(max_age_days * SECONDS_PER_DAY);
            let mut old_entries: Vec<TrendEntry> = Vec::new();
            std::mem::swap(&mut old_entries, &mut self.entries);
            let ghost s = old_entries@;
            let mut kept: Vec<TrendEntry> = Vec::new();
            proof {
                reveal_with_fuel(Seq::filter, 1);
                assert(s.take(0).filter(|e: TrendEntry| e.timestamp >= cutoff) =~= kept@);
            }
            for e in it: old_entries.into_iter()
                invariant
                    it.seq() == s,
                    kept@ == s.take(it.index()).filter(|e: TrendEntry| e.timestamp >= cutoff),
            {
                proof {
                    reveal_with_fuel(Seq::filter, 1);
                    assert(s.take(it.index() + 1).drop_last() =~= s.take(it.index()));
                }
                if e.timestamp >= cutoff {
                    kept.push(e);
                }
            }
            assert(s.take(s.len() as int) =~= s);
            self.entries = kept;
            proof {
                s.lemma_filter_len(|e: TrendEntry| e.timestamp >= cutoff);
            }
        }
        let ghost aged = self.entries@;
        assert(aged == after_age_limit(old(self)@, *config, current_time));
        if let Some(max_entries) = config.max_entries {
            if self.entries.len() > max_entries {
                let excess = self.entries.len() - max_entries;
                let kept = self.entries.split_off(excess);
                self.entries = kept;
                assert(self.entries@ =~= aged.skip(aged.len() - max_entries));
            }
        }
        original_count - self.entries.len()
    }

    /// Record a snapshot of `stats` taken at `now`, with git context, if `should_add` allows it
    /// at that time. Returns whether the entry was recorded.
    pub fn add_if_allowed_at(
        &mut self,
        stats: &ProjectStatistics,
        config: &TrendConfig,
        git_context: Option<&GitContext>,
        now: u64,
    ) -> (added: bool)
        ensures
            final(self).version_spec() == old(self).version_spec(),
            added == may_add(old(self)@, *config, now),
            !added ==> final(self)@ == old(self)@,
            added ==> {
                &&& final(self)@.len() == old(self)@.len() + 1
                &&& final(self)@.drop_last() == old(self)@
                &&& entry_records(final(self)@.last(), *stats)
                &&& final(self)@.last().timestamp == now
                &&& final(self)@.last().git_ref == context_ref(
                    match git_context {
                        Some(c) => Some(*c),
                        None => None,
                    },
                )
                &&& final(self)@.last().git_branch == context_branch(
                    match git_context {
                        Some(c) => Some(*c),
                        None => None,
                    },
                )
            },
    {
        if !self.should_add(config, now) {
            return false;
        }
        let e = Self::entry_with_context(stats, git_context, now);
        self.entries.push(e);
        assert(self.entries@.drop_last() =~= old(self)@);
        true
    }

    /// Record a snapshot of `stats` taken now, with git context, if `should_add` allows it at
    /// the current time. Returns whether the entry was recorded; nothing is recorded when the
    /// clock reads a time before the Unix epoch.
    pub fn add_if_allowed_with_context(
        &mut self,
        stats: &ProjectStatistics,
        config: &TrendConfig,
        git_context: Option<&GitContext>,
    ) -> (added: bool)
        ensures
            final(self).version_spec() == old(self).version_spec(),
            added ==> exists|now: u64|
                {
                    &&& may_add(old(self)@, *config, now)
                    &&& #[trigger] final(self)@.last().timestamp == now
                },
            !added ==> final(self)@ == old(self)@,
            added ==> {
                &&& final(self)@.len() == old(self)@.len() + 1
                &&& final(self)@.drop_last() == old(self)@
                &&& entry_records(final(self)@.last(), *stats)
                &&& final(self)@.last().git_ref == context_ref(
                    match git_context {
                        Some(c) => Some(*c),
                        None => None,
                    },
                )
                &&& final(self)@.last().git_branch == context_branch(
                    match git_context {
                        Some(c) => Some(*c),
                        None => None,
                    },
                )
            },
    {
        match try_current_unix_timestamp() {
            Some(now) => self.add_if_allowed_at(stats, config, git_context, now),
            None => false,
        }
    }

    /// Record a snapshot of `stats` taken now, without git context, if `should_add` allows it
    /// at the current time. Returns whether the entry was recorded; nothing is recorded when the
    /// clock reads a time before the Unix epoch.
    pub fn add_if_allowed(&mut self, stats: &ProjectStatistics, config: &TrendConfig) -> (added:
        bool)
        ensures
            final(self).version_spec() == old(self).version_spec(),
            added ==> exists|now: u64|
                {
                    &&& may_add(old(self)@, *config, now)
                    &&& #[trigger] final(self)@.last().timestamp == now
                },
            !added ==> final(self)@ == old(self)@,
            added ==> {
                &&& final(self)@.len() == old(self)@.len() + 1
                &&& final(self)@.drop_last() == old(self)@
                &&& entry_records(final(self)@.last(), *stats)
                &&& final(self)@.last().git_ref is None
                &&& final(self)@.last().git_branch is None
            },
    {
        self.add_if_allowed_with_context(stats, config, None)
    }
}

} // verus!
