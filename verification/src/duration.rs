//! Parsing of human-readable durations such as `7d`, `1w`, `12h`, `5m` or `300s`.
use vstd::prelude::*;

use crate::error::SlocGuardError;
use crate::text::{chars_of, concat3, string_from_range};

verus! {

/// Whether `c` has the Unicode `White_Space` property (what `char::is_whitespace` tests).
pub open spec fn is_whitespace(c: char) -> bool {
    let x = c as u32;
    (0x9 <= x <= 0xd) || x == 0x20 || x == 0x85 || x == 0xa0 || x == 0x1680 || (0x2000 <= x
        <= 0x200a) || x == 0x2028 || x == 0x2029 || x == 0x202f || x == 0x205f || x == 0x3000
}

/// `s` without its leading whitespace.
pub open spec fn trim_start(s: Seq<char>) -> Seq<char>
    decreases s.len(),
{
    if s.len() > 0 && is_whitespace(s[0]) {
        trim_start(s.drop_first())
    } else {
        s
    }
}

/// `s` without its trailing whitespace.
pub open spec fn trim_end(s: Seq<char>) -> Seq<char>
    decreases s.len(),
{
    if s.len() > 0 && is_whitespace(s.last()) {
        trim_end(s.drop_last())
    } else {
        s
    }
}

/// `s` without leading and trailing whitespace (`str::trim`).
pub open spec fn trim(s: Seq<char>) -> Seq<char> {
    trim_end(trim_start(s))
}

/// Whether `c` is one of `0`..`9`.
pub open spec fn is_ascii_digit(c: char) -> bool {
    '0' <= c <= '9'
}

/// Whether every character of `s` is an ASCII digit.
pub open spec fn all_digits(s: Seq<char>) -> bool {
    forall|i: int| 0 <= i < s.len() ==> is_ascii_digit(#[trigger] s[i])
}

/// The number that a string of ASCII digits denotes.
pub open spec fn digits_value(s: Seq<char>) -> nat
    decreases s.len(),
{
    if s.len() == 0 {
        0
    } else {
        digits_value(s.drop_last()) * 10 + ((s.last() as nat) - 48) as nat
    }
}

/// Whether `c` lowercases (`char::to_lowercase`) to the single ASCII lowercase letter `w`.
pub open spec fn lowercases_to(c: char, w: char) -> bool {
    ||| c == w
    ||| ('A' <= c <= 'Z' && (c as u32) + 32 == (w as u32))
    ||| ((c as u32) == 0x212a && w == 'k')
}

/// Whether the lowercase form of `unit` is the ASCII word `word`.
pub open spec fn unit_is(unit: Seq<char>, word: Seq<char>) -> bool {
    &&& unit.len() == word.len()
    &&& forall|i: int| 0 <= i < unit.len() ==> lowercases_to(#[trigger] unit[i], word[i])
}

/// Seconds per unit, for the unit names that durations accept (in any letter case).
#[verifier::opaque]
pub open spec fn unit_seconds(unit: Seq<char>) -> Option<nat> {
    if unit_is(unit, "s"@) || unit_is(unit, "sec"@) || unit_is(unit, "secs"@) || unit_is(
        unit,
        "second"@,
    ) || unit_is(unit, "seconds"@) {
        Some(1)
    } else if unit_is(unit, "m"@) || unit_is(unit, "min"@) || unit_is(unit, "mins"@) || unit_is(
        unit,
        "minute"@,
    ) || unit_is(unit, "minutes"@) {
        Some(60)
    } else if unit_is(unit, "h"@) || unit_is(unit, "hr"@) || unit_is(unit, "hrs"@) || unit_is(
        unit,
        "hour"@,
    ) || unit_is(unit, "hours"@) {
        Some(3600)
    } else if unit_is(unit, "d"@) || unit_is(unit, "day"@) || unit_is(unit, "days"@) {
        Some(86400)
    } else if unit_is(unit, "w"@) || unit_is(unit, "wk"@) || unit_is(unit, "wks"@) || unit_is(
        unit,
        "week"@,
    ) || unit_is(unit, "weeks"@) {
        Some(604800)
    } else {
        None
    }
}

/// Where the number of a trimmed duration ends: the first position that holds no digit.
pub open spec fn unit_start(t: Seq<char>) -> int {
    choose|k: int| 0 <= k < t.len() && all_digits(t.take(k)) && !is_ascii_digit(t[k])
}

/// What `parse_duration` gives for `input`: the number of seconds, or the error message.
#[verifier::opaque]
pub open spec fn duration_outcome(input: Seq<char>) -> Result<nat, Seq<char>> {
    let t = trim(input);
    if t.len() == 0 {
        Err("Duration cannot be empty. Expected format: <number><unit> (e.g., 7d, 1w, 12h)"@)
    } else if all_digits(t) {
        Err("Invalid duration format: '"@ + t
            + "'. Missing unit. Expected format: <number><unit> (e.g., 7d, 1w, 12h)"@)
    } else if unit_start(t) == 0 {
        Err("Invalid duration format: '"@ + t
            + "'. Missing number. Expected format: <number><unit> (e.g., 7d, 1w, 12h)"@)
    } else {
        let k = unit_start(t);
        let num = t.take(k);
        let unit = t.skip(k);
        if digits_value(num) > u64::MAX {
            Err("Invalid duration number: '"@ + num + "'. Expected a positive integer"@)
        } else if digits_value(num) == 0 {
            Err("Duration must be greater than zero"@)
        } else {
            match unit_seconds(unit) {
                Some(m) => Ok(digits_value(num) * m),
                None => Err("Invalid duration unit: '"@ + unit
                    + "'. Supported units: s, m, h, d, w"@),
            }
        }
    }
}

/// Whether the seconds that `input` denotes (if it parses) fit in a `u64`.
pub open spec fn duration_fits(input: Seq<char>) -> bool {
    match duration_outcome(input) {
        Ok(v) => v <= u64::MAX,
        Err(_) => true,
    }
}

proof fn lemma_trim_start_skip(s: Seq<char>, i: int)
    requires
        0 <= i < s.len(),
        is_whitespace(s[i]),
        trim_start(s) == trim_start(s.skip(i)),
    ensures
        trim_start(s) == trim_start(s.skip(i + 1)),
{
    assert(s.skip(i).drop_first() =~= s.skip(i + 1));
}

proof fn lemma_trim_end_take(s: Seq<char>, j: int)
    requires
        0 < j <= s.len(),
        is_whitespace(s[j - 1]),
        trim_end(s) == trim_end(s.take(j)),
    ensures
        trim_end(s) == trim_end(s.take(j - 1)),
{
    assert(s.take(j).drop_last() =~= s.take(j - 1));
}

proof fn lemma_digits_value_monotone(s: Seq<char>, i: int)
    requires
        0 <= i <= s.len(),
    ensures
        digits_value(s) >= digits_value(s.take(i)),
    decreases s.len(),
{
    if i < s.len() {
        assert(s.drop_last() =~= s.take(s.len() - 1));
        lemma_digits_value_monotone(s.drop_last(), i);
        assert(s.drop_last().take(i) =~= s.take(i));
    } else {
        assert(s.take(i) =~= s);
    }
}

fn is_ws_char(c: char) -> (b: bool)
    ensures
        b == is_whitespace(c),
{
    let x = c as u32;
    (0x9 <= x && x <= 0xd) || x == 0x20 || x == 0x85 || x == 0xa0 || x == 0x1680 || (0x2000 <= x
        && x <= 0x200a) || x == 0x2028 || x == 0x2029 || x == 0x202f || x == 0x205f || x == 0x3000
}

fn lowercases_to_exec(c: char, w: char) -> (b: bool)
    ensures
        b == lowercases_to(c, w),
{
    c == w || ('A' <= c && c <= 'Z' && (c as u32) + 32 == (w as u32)) || ((c as u32) == 0x212a
        && w == 'k')
}

/// Whether `v[start..end]`, lowercased, spells the ASCII word `word`.
fn range_is_word(v: &Vec<char>, start: usize, end: usize, word: &str) -> (b: bool)
    requires
        start <= end <= v.len(),
    ensures
        b == unit_is(v@.subrange(start as int, end as int), word@),
{
    let w = chars_of(word);
    if end - start != w.len() {
        return false;
    }
    let mut i: usize = 0;
    while i < w.len()
        invariant
            start <= end <= v.len(),
            end - start == w.len(),
            w@ == word@,
            0 <= i <= w.len(),
            forall|j: int|
                0 <= j < i ==> lowercases_to(
                    #[trigger] v@.subrange(start as int, end as int)[j],
                    word@[j],
                ),
        decreases w.len() - i,
    {
        if !lowercases_to_exec(v[start + i], w[i]) {
            assert(v@.subrange(start as int, end as int)[i as int] == v@[start + i]);
            return false;
        }
        assert(v@.subrange(start as int, end as int)[i as int] == v@[start + i]);
        i = i + 1;
    }
    true
}

fn unit_seconds_exec(v: &Vec<char>, start: usize, end: usize) -> (r: Option<u64>)
    requires
        start <= end <= v.len(),
    ensures
        match unit_seconds(v@.subrange(start as int, end as int)) {
            Some(m) => r == Some(m as u64) && m <= u64::MAX,
            None => r is None,
        },
{
    reveal(unit_seconds);
    if range_is_word(v, start, end, "s") || range_is_word(v, start, end, "sec") || range_is_word(
        v,
        start,
        end,
        "secs",
    ) || range_is_word(v, start, end, "second") || range_is_word(v, start, end, "seconds") {
        Some(1)
    } else if range_is_word(v, start, end, "m") || range_is_word(v, start, end, "min")
        || range_is_word(v, start, end, "mins") || range_is_word(v, start, end, "minute")
        || range_is_word(v, start, end, "minutes") {
        Some(60)
    } else if range_is_word(v, start, end, "h") || range_is_word(v, start, end, "hr")
        || range_is_word(v, start, end, "hrs") || range_is_word(v, start, end, "hour")
        || range_is_word(v, start, end, "hours") {
        Some(3600)
    } else if range_is_word(v, start, end, "d") || range_is_word(v, start, end, "day")
        || range_is_word(v, start, end, "days") {
        Some(86400)
    } else if range_is_word(v, start, end, "w") || range_is_word(v, start, end, "wk")
        || range_is_word(v, start, end, "wks") || range_is_word(v, start, end, "week")
        || range_is_word(v, start, end, "weeks") {
        Some(604800)
    } else {
        None
    }
}

fn config_error(msg: String) -> (e: SlocGuardError)
    ensures
        e == SlocGuardError::Config(msg),
{
    SlocGuardError::Config(msg)
}

/// The bounds of `v` without leading and trailing whitespace.
fn trim_bounds(v: &Vec<char>) -> (r: (usize, usize))
    ensures
        r.0 <= r.1 <= v.len(),
        v@.subrange(r.0 as int, r.1 as int) == trim(v@),
{
    let ghost s = v@;
    let mut start: usize = 0;
    assert(s.skip(0) =~= s);
    while start < v.len() && is_ws_char(v[start])
        invariant
            v@ == s,
            0 <= start <= v.len(),
            trim_start(s) == trim_start(s.skip(start as int)),
        decreases v.len() - start,
    {
        proof {
            lemma_trim_start_skip(s, start as int);
        }
        start = start + 1;
    }
    let ghost ts = s.skip(start as int);
    assert(trim_start(s) == ts) by {
        if ts.len() > 0 {
            assert(ts[0] == s[start as int]);
        }
    }
    let mut end: usize = v.len();
    assert(ts.take(ts.len() as int) =~= ts);
    while end > start && is_ws_char(v[end - 1])
        invariant
            v@ == s,
            ts == s.skip(start as int),
            start <= end <= v.len(),
            trim_end(ts) == trim_end(ts.take(end - start)),
        decreases end,
    {
        proof {
            assert(ts[end - start - 1] == s[end - 1]);
            lemma_trim_end_take(ts, end - start);
        }
        end = end - 1;
    }
    let ghost t = s.subrange(start as int, end as int);
    assert(trim(s) == t) by {
        assert(ts.take(end - start) =~= t);
        if t.len() > 0 {
            assert(t.last() == s[end - 1]);
        }
    }
    (start, end)
}

/// The end of the run of ASCII digits that starts at `start`.
fn digit_run_end(v: &Vec<char>, start: usize, end: usize) -> (k: usize)
    requires
        start <= end <= v.len(),
    ensures
        start <= k <= end,
        all_digits(v@.subrange(start as int, k as int)),
        k < end ==> !is_ascii_digit(v@[k as int]),
{
    let mut k: usize = start;
    while k < end && '0' <= v[k] && v[k] <= '9'
        invariant
            start <= k <= end <= v.len(),
            all_digits(v@.subrange(start as int, k as int)),
        decreases end - k,
    {
        assert(v@.subrange(start as int, k + 1) =~= v@.subrange(start as int, k as int).push(
            v@[k as int],
        ));
        k = k + 1;
    }
    k
}

/// The value of the digits `v[start..end]`, or `None` when it exceeds `u64::MAX`.
fn digits_to_u64(v: &Vec<char>, start: usize, end: usize) -> (r: Option<u64>)
    requires
        start <= end <= v.len(),
        all_digits(v@.subrange(start as int, end as int)),
    ensures
        match r {
            Some(x) => x as nat == digits_value(v@.subrange(start as int, end as int)),
            None => digits_value(v@.subrange(start as int, end as int)) > u64::MAX,
        },
{
    let ghost num = v@.subrange(start as int, end as int);
    let mut value: u64 = 0;
    let mut i: usize = start;
    assert(num.take(0) =~= Seq::<char>::empty());
    while i < end
        invariant
            start <= i <= end <= v.len(),
            num == v@.subrange(start as int, end as int),
            all_digits(num),
            value as nat == digits_value(num.take(i - start)),
        decreases end - i,
    {
        assert(num[i - start] == v@[i as int]);
        assert(is_ascii_digit(num[i - start]));
        let d = (v[i] as u32) - 48;
        assert(num.take(i + 1 - start).drop_last() =~= num.take(i - start));
        assert(num.take(i + 1 - start).last() == v@[i as int]);
        let next = match value.checked_mul(10) {
            Some(x) => x.checked_add(d as u64),
            None => None,
        };
        match next {
            Some(x) => {
                value = x;
            },
            None => {
                proof {
                    lemma_digits_value_monotone(num, (i + 1 - start) as int);
                }
                return None;
            },
        }
        i = i + 1;
    }
    assert(num.take(end - start) =~= num);
    Some(value)
}

/// Parse a duration string into seconds.
///
/// Accepted forms are a positive integer followed by a unit: `s`/`sec`/`secs`/`second`/`seconds`,
/// `m`/`min`/`mins`/`minute`/`minutes`, `h`/`hr`/`hrs`/`hour`/`hours`, `d`/`day`/`days`, or
/// `w`/`wk`/`wks`/`week`/`weeks`, in any letter case, with surrounding whitespace ignored.
/// Every other input gives a `Config` error whose text says what is wrong.
/// Whether `parse_duration` can be asked about `input`: the seconds it denotes, if it parses,
/// fit in a `u64` (the product of the number and its unit is computed without overflow).
#[verifier::spinoff_prover]
pub fn duration_fits_u64(input: &str) -> (r: bool)
    ensures
        r == duration_fits(input@),
{
    reveal(duration_outcome);
    let v = chars_of(input);
    let (start, end) = trim_bounds(&v);
    let ghost t = v@.subrange(start as int, end as int);
    if start == end {
        return true;
    }
    let k = digit_run_end(&v, start, end);
    let ghost kk = (k - start) as int;
    assert(t.take(kk) =~= v@.subrange(start as int, k as int));
    if k == end {
        assert(t.take(kk) =~= t);
        return true;
    }
    assert(unit_start(t) == kk) by {
        assert(t[kk] == v@[k as int]);
        assert(0 <= kk < t.len() && all_digits(t.take(kk)) && !is_ascii_digit(t[kk]));
        let c = unit_start(t);
        if c < kk {
            assert(t.take(kk)[c] == t[c]);
        } else if c > kk {
            assert(t.take(c)[kk] == t[kk]);
        }
    }
    assert(!all_digits(t)) by {
        assert(!is_ascii_digit(t[kk]));
    }
    if k == start {
        return true;
    }
    assert(t.skip(kk) =~= v@.subrange(k as int, end as int));
    match digits_to_u64(&v, start, k) {
        None => true,
        Some(value) => {
            if value == 0 {
                return true;
            }
            match unit_seconds_exec(&v, k, end) {
                Some(m) => value.checked_mul(m).is_some(),
                None => true,
            }
        },
    }
}

#[verifier::spinoff_prover]
pub fn parse_duration(input: &str) -> (r: Result<u64, SlocGuardError>)
    requires
        duration_fits(input@),
    ensures
        match r {
            Ok(v) => duration_outcome(input@) == Ok::<nat, Seq<char>>(v as nat),
            Err(e) => e is Config && duration_outcome(input@) == Err::<nat, Seq<char>>(
                e->Config_0@,
            ),
        },
{
    reveal(duration_outcome);
    let v = chars_of(input);
    let (start, end) = trim_bounds(&v);
    let ghost t = v@.subrange(start as int, end as int);
    if start == end {
        return Err(
            config_error(
                String::from_str(
                    "Duration cannot be empty. Expected format: <number><unit> (e.g., 7d, 1w, 12h)",
                ),
            ),
        );
    }
    let k = digit_run_end(&v, start, end);
    let ghost kk = (k - start) as int;
    assert(t.take(kk) =~= v@.subrange(start as int, k as int));
    let trimmed = string_from_range(&v, start, end);
    if k == end {
        assert(t.take(kk) =~= t);
        let msg = concat3(
            "Invalid duration format: '",
            trimmed.as_str(),
            "'. Missing unit. Expected format: <number><unit> (e.g., 7d, 1w, 12h)",
        );
        return Err(config_error(msg));
    }
    assert(unit_start(t) == kk) by {
        assert(t[kk] == v@[k as int]);
        assert(0 <= kk < t.len() && all_digits(t.take(kk)) && !is_ascii_digit(t[kk]));
        let c = unit_start(t);
        if c < kk {
            assert(t.take(kk)[c] == t[c]);
        } else if c > kk {
            assert(t.take(c)[kk] == t[kk]);
        }
    }
    assert(!all_digits(t)) by {
        assert(!is_ascii_digit(t[kk]));
    }
    if k == start {
        let msg = concat3(
            "Invalid duration format: '",
            trimmed.as_str(),
            "'. Missing number. Expected format: <number><unit> (e.g., 7d, 1w, 12h)",
        );
        return Err(config_error(msg));
    }
    assert(t.skip(kk) =~= v@.subrange(k as int, end as int));
    match digits_to_u64(&v, start, k) {
        None => {
            let num_str = string_from_range(&v, start, k);
            let msg = concat3(
                "Invalid duration number: '",
                num_str.as_str(),
                "'. Expected a positive integer",
            );
            Err(config_error(msg))
        },
        Some(value) => {
            if value == 0 {
                return Err(config_error(String::from_str("Duration must be greater than zero")));
            }
            match unit_seconds_exec(&v, k, end) {
                Some(m) => {
                    assert(duration_outcome(input@) == Ok::<nat, Seq<char>>(
                        value as nat * m as nat,
                    ));
                    Ok(value * m)
                },
                None => {
                    let unit = string_from_range(&v, k, end);
                    let msg = concat3(
                        "Invalid duration unit: '",
                        unit.as_str(),
                        "'. Supported units: s, m, h, d, w",
                    );
                    Err(config_error(msg))
                },
            }
        },
    }
}


/// Whether `u` spells the lowercase ASCII word `w` in any letter case.
pub open spec fn spells(u: Seq<char>, w: Seq<char>) -> bool {
    &&& u.len() == w.len()
    &&& forall|i: int|
        0 <= i < u.len() ==> (#[trigger] u[i] == w[i] || ('A' <= u[i] <= 'Z' && (u[i] as u32)
            + 32 == (w[i] as u32)))
}

/// Each unit word of a duration, in any letter case, stands for its own unit: `s`, `sec`,
/// `secs`, `second`, `seconds` for one second; `m`, `min`, `mins`, `minute`, `minutes` for 60;
/// `h`, `hr`, `hrs`, `hour`, `hours` for 3600; `d`, `day`, `days` for 86400; and `w`, `wk`,
/// `wks`, `week`, `weeks` for 604800 seconds.
#[verifier::spinoff_prover]
#[verifier::rlimit(60)]
pub proof fn law_unit_words(u: Seq<char>)
    ensures
        spells(u, "s"@) || spells(u, "sec"@) || spells(u, "secs"@) || spells(u, "second"@)
            || spells(u, "seconds"@) ==> unit_seconds(u) == Some(1nat),
        spells(u, "m"@) || spells(u, "min"@) || spells(u, "mins"@) || spells(u, "minute"@)
            || spells(u, "minutes"@) ==> unit_seconds(u) == Some(60nat),
        spells(u, "h"@) || spells(u, "hr"@) || spells(u, "hrs"@) || spells(u, "hour"@)
            || spells(u, "hours"@) ==> unit_seconds(u) == Some(3600nat),
        spells(u, "d"@) || spells(u, "day"@) || spells(u, "days"@) ==> unit_seconds(u) == Some(
            86400nat,
        ),
        spells(u, "w"@) || spells(u, "wk"@) || spells(u, "wks"@) || spells(u, "week"@)
            || spells(u, "weeks"@) ==> unit_seconds(u) == Some(604800nat),
{
    reveal(unit_seconds);
    reveal_strlit("s");
    reveal_strlit("sec");
    reveal_strlit("secs");
    reveal_strlit("second");
    reveal_strlit("seconds");
    reveal_strlit("m");
    reveal_strlit("min");
    reveal_strlit("mins");
    reveal_strlit("minute");
    reveal_strlit("minutes");
    reveal_strlit("h");
    reveal_strlit("hr");
    reveal_strlit("hrs");
    reveal_strlit("hour");
    reveal_strlit("hours");
    reveal_strlit("d");
    reveal_strlit("day");
    reveal_strlit("days");
    reveal_strlit("w");
    reveal_strlit("wk");
    reveal_strlit("wks");
    reveal_strlit("week");
    reveal_strlit("weeks");
    if u.len() > 0 {
        assert(spells(u, "s"@) || spells(u, "sec"@) || spells(u, "secs"@) || spells(u, "second"@)
            || spells(u, "seconds"@) || spells(u, "m"@) || spells(u, "min"@) || spells(u, "mins"@)
            || spells(u, "minute"@) || spells(u, "minutes"@) || spells(u, "h"@) || spells(u, "hr"@)
            || spells(u, "hrs"@) || spells(u, "hour"@) || spells(u, "hours"@) || spells(u, "d"@)
            || spells(u, "day"@) || spells(u, "days"@) || spells(u, "w"@) || spells(u, "wk"@)
            || spells(u, "wks"@) || spells(u, "week"@) || spells(u, "weeks"@) ==> {
            let c = u[0];
            c == 's' || c == 'S' || c == 'm' || c == 'M' || c == 'h' || c == 'H' || c == 'd'
                || c == 'D' || c == 'w' || c == 'W'
        });
    }
}


/// Whether `u` spells one of the words of the unit of `seconds` seconds (see
/// `law_unit_words`), in any letter case.
pub open spec fn names_unit(u: Seq<char>, seconds: nat) -> bool {
    if seconds == 1 {
        spells(u, "s"@) || spells(u, "sec"@) || spells(u, "secs"@) || spells(u, "second"@)
            || spells(u, "seconds"@)
    } else if seconds == 60 {
        spells(u, "m"@) || spells(u, "min"@) || spells(u, "mins"@) || spells(u, "minute"@)
            || spells(u, "minutes"@)
    } else if seconds == 3600 {
        spells(u, "h"@) || spells(u, "hr"@) || spells(u, "hrs"@) || spells(u, "hour"@)
            || spells(u, "hours"@)
    } else if seconds == 86400 {
        spells(u, "d"@) || spells(u, "day"@) || spells(u, "days"@)
    } else if seconds == 604800 {
        spells(u, "w"@) || spells(u, "wk"@) || spells(u, "wks"@) || spells(u, "week"@)
            || spells(u, "weeks"@)
    } else {
        false
    }
}

/// A positive number written in decimal digits, followed by a word of a unit, parses to the
/// number times the seconds of that unit: `7d` is 604800, `1week` (or `1WEEK`) is 604800,
/// `12h` is 43200.
#[verifier::spinoff_prover]
pub proof fn law_number_then_unit(num: Seq<char>, u: Seq<char>, seconds: nat)
    requires
        num.len() > 0,
        forall|i: int| 0 <= i < num.len() ==> '0' <= #[trigger] num[i] <= '9',
        0 < digits_value(num) <= u64::MAX,
        names_unit(u, seconds),
    ensures
        duration_outcome(num + u) == Ok::<nat, Seq<char>>(digits_value(num) * seconds),
{
    law_unit_words(u);
    reveal_strlit("s");
    reveal_strlit("sec");
    reveal_strlit("secs");
    reveal_strlit("second");
    reveal_strlit("seconds");
    reveal_strlit("m");
    reveal_strlit("min");
    reveal_strlit("mins");
    reveal_strlit("minute");
    reveal_strlit("minutes");
    reveal_strlit("h");
    reveal_strlit("hr");
    reveal_strlit("hrs");
    reveal_strlit("hour");
    reveal_strlit("hours");
    reveal_strlit("d");
    reveal_strlit("day");
    reveal_strlit("days");
    reveal_strlit("w");
    reveal_strlit("wk");
    reveal_strlit("wks");
    reveal_strlit("week");
    reveal_strlit("weeks");
    assert(unit_seconds(u) == Some(seconds));
    assert(u.len() > 0);
    let c0 = u[0];
    let cl = u[u.len() - 1];
    assert(('a' <= c0 <= 'z') || ('A' <= c0 <= 'Z'));
    assert(('a' <= cl <= 'z') || ('A' <= cl <= 'Z'));
    let t = num + u;
    reveal(duration_outcome);
    assert(t[0] == num[0]);
    assert(!is_whitespace(t[0]));
    assert(trim_start(t) == t);
    assert(t.last() == cl);
    assert(trim_end(t) == t);
    assert(trim(t) == t);
    let k = num.len() as int;
    assert(t[k] == c0);
    assert(!is_ascii_digit(t[k]));
    assert(!all_digits(t));
    assert(t.take(k) =~= num);
    assert(t.skip(k) =~= u);
    assert(all_digits(t.take(k))) by {
        assert forall|i: int| 0 <= i < k implies is_ascii_digit(#[trigger] t.take(k)[i]) by {
            assert(t.take(k)[i] == num[i]);
        }
    }
    assert(unit_start(t) == k) by {
        let c = unit_start(t);
        assert(0 <= k < t.len() && all_digits(t.take(k)) && !is_ascii_digit(t[k]));
        if c < k {
            assert(t.take(k)[c] == t[c]);
        } else if c > k {
            assert(t.take(c)[k] == t[k]);
        }
    }
}

} // verus!
