//! Metrics of the machine, from what system commands write.

use vstd::prelude::*;
use vstd::string::*;

use crate::clock::{host_name, seconds_between, seconds_passed, Moment};
use crate::commands::{filled_trimmed, trim_filled};
use crate::json::{
    either, empty_object, int_or_null, int_value, json_int, json_nat, json_opt_int, json_text,
    lemma_entry_value, nat_value, opt_json_view, opt_str_view, opt_text, value_or, Fields, Json,
    JsonView,
};
use crate::numbers::{json_moment, moment_value};
use crate::text::{
    all_digits, cat, chars_of, dec, dec_int, fields, find_from, first_of, i64_of, is_digit,
    is_white, law_decimal_i64_read_back, law_decimal_read_back, law_fields, law_first_of, law_lines,
    law_run, law_trimmed, lemma_dec, lemma_occurs_in_part, lemma_trimmed_occurs, lines, occurs,
    occurs_at, parse_i64, parse_u64, run_end, run_len, same, split_fields, split_lines,
    string_between, texts, trim, trim_of, trimmed, trimmed_of, u64_of, CharClass,
};

verus! {

/// The seconds for which metrics are kept.
pub const CACHE_TTL_SECS: u64 = 30;

/// Whether metrics that were taken so many seconds ago can be shown again.
pub fn metrics_are_fresh(age_seconds: u64, force_refresh: bool) -> (r: bool)
    ensures
        r == (!force_refresh && age_seconds < CACHE_TTL_SECS),
{
    !force_refresh && age_seconds < CACHE_TTL_SECS
}

/// The metrics that are kept, if any, with the time at which they were taken.
pub open spec fn kept_metrics(
    kept: Option<(Moment, JsonView)>,
    now: Moment,
    force_refresh: bool,
) -> Option<JsonView> {
    match kept {
        Some((taken_at, metrics)) => if !force_refresh && seconds_passed(taken_at, now)
            < CACHE_TTL_SECS {
            Some(metrics)
        } else {
            None
        },
        None => None,
    }
}

/// The metrics that were taken last, and when.
pub struct MetricsCache {
    kept: Option<(Moment, Json)>,
}

impl View for MetricsCache {
    type V = Option<(Moment, JsonView)>;

    closed spec fn view(&self) -> Option<(Moment, JsonView)> {
        match self.kept {
            Some(k) => Some((k.0, k.1@)),
            None => None,
        }
    }
}

impl MetricsCache {
    /// No metrics.
    pub fn new() -> (r: Self)
        ensures
            r@ is None,
    {
        MetricsCache { kept: None }
    }

    /// The metrics that can be shown again.
    pub fn lookup(&self, now: Moment, force_refresh: bool) -> (r: Option<Json>)
        ensures
            opt_json_view(r) == kept_metrics(self@, now, force_refresh),
    {
        match &self.kept {
            Some(k) => if metrics_are_fresh(seconds_between(k.0, now), force_refresh) {
                Some(k.1.copy())
            } else {
                None
            },
            None => None,
        }
    }

    /// Keeps metrics that were taken now, in place of earlier ones.
    pub fn keep(&mut self, metrics: &Json, now: Moment)
        ensures
            final(self)@ == Some((now, metrics@)),
    {
        self.kept = Some((now, metrics.copy()));
    }
}

/// Metrics that were taken less than half a minute ago are given back as they are, and
/// nothing is measured again, unless that is asked for; older ones never are given back.
pub proof fn law_metrics_given_back(metrics: JsonView, taken_at: Moment, now: Moment)
    ensures
        seconds_passed(taken_at, now) < 30 ==> kept_metrics(
            Some((taken_at, metrics)),
            now,
            false,
        ) == Some(metrics),
        seconds_passed(taken_at, now) >= 30 ==> kept_metrics(
            Some((taken_at, metrics)),
            now,
            false,
        ) is None,
        kept_metrics(Some((taken_at, metrics)), now, true) is None,
{
}

/// What a command has to say: what it wrote, or else what it wrote to its error
/// output.
pub fn command_text(stdout: &str, stderr: &str) -> (r: Option<String>)
    ensures
        opt_text(r) == either(filled_trimmed(stdout@), filled_trimmed(stderr@)),
{
    match trim_filled(stdout) {
        Some(s) => Some(s),
        None => trim_filled(stderr),
    }
}

/// The number that a text writes.
pub open spec fn number_in(text: Option<Seq<char>>) -> Option<i64> {
    match text {
        Some(t) => i64_of(trimmed(t)),
        None => None,
    }
}

/// The number that a text writes.
pub fn parse_sysctl_int(text: Option<&str>) -> (r: Option<i64>)
    ensures
        r == number_in(opt_str_view(text)),
{
    match text {
        Some(t) => parse_i64(trim(t)),
        None => None,
    }
}

// ---------------------------------------------------------------------------
// Memory
// ---------------------------------------------------------------------------

/// What stands between the first `from` and the next `to` behind it.
pub open spec fn between(s: Seq<char>, from: Seq<char>, to: Seq<char>) -> Option<Seq<char>> {
    match first_of(s, from) {
        Some(i) => {
            let rest = s.skip(i + from.len());
            match first_of(rest, to) {
                Some(e) => Some(rest.take(e)),
                None => None,
            }
        },
        None => None,
    }
}

fn part_between(s: &str, from: &str, to: &str) -> (r: Option<String>)
    ensures
        opt_text(r) == between(s@, from@, to@),
{
    let chars = chars_of(s);
    match find_from(&chars, from, 0) {
        Some(i) => {
            proof {
                law_first_of(s@, from@);
            }
            let n = chars.len();
            let start = i + from.unicode_len();
            let rest = string_between(&chars, start, n);
            assert(rest@ =~= s@.skip(start as int));
            let tail = chars_of(rest.as_str());
            match find_from(&tail, to, 0) {
                Some(e) => {
                    proof {
                        law_first_of(rest@, to@);
                    }
                    assert(tail@.subrange(0, e as int) =~= rest@.take(e as int));
                    Some(string_between(&tail, 0, e))
                },
                None => None,
            }
        },
        None => None,
    }
}

/// The size of a page that the first line tells, or the usual one.
pub open spec fn page_size_in(all: Seq<Seq<char>>) -> i64 {
    if all.len() == 0 {
        4096
    } else {
        match between(all[0], "page size of "@, " "@) {
            Some(t) => value_or(i64_of(t), 4096),
            None => 4096,
        }
    }
}

fn read_page_size(all: &Vec<String>) -> (r: i64)
    ensures
        r == page_size_in(texts(all@)),
{
    if all.len() == 0 {
        return 4096;
    }
    assert(texts(all@)[0] == all@[0]@);
    match part_between(all[0].as_str(), "page size of ", " ") {
        Some(t) => match parse_i64(t.as_str()) {
            Some(n) => n,
            None => 4096,
        },
        None => 4096,
    }
}

/// A text without full stops and commas.
pub open spec fn without_marks(s: Seq<char>) -> Seq<char> {
    s.filter(|c: char| c != '.' && c != ',')
}

fn drop_marks(s: &str) -> (r: String)
    ensures
        r@ == without_marks(s@),
{
    let chars = chars_of(s);
    let mut out = String::new();
    let mut i: usize = 0;
    proof {
        reveal(Seq::filter);
        assert(s@.take(0) =~= Seq::<char>::empty());
        assert(out@ =~= without_marks(s@.take(0)));
    }
    while i < chars.len()
        invariant
            i <= chars@.len(),
            chars@ == s@,
            out@ == without_marks(s@.take(i as int)),
        decreases chars@.len() - i,
    {
        proof {
            reveal(Seq::filter);
            assert(s@.take(i + 1).drop_last() =~= s@.take(i as int));
            assert(s@.take(i + 1).last() == chars@[i as int]);
        }
        if chars[i] != '.' && chars[i] != ',' {
            out.push(chars[i]);
        }
        i = i + 1;
    }
    assert(s@.take(i as int) =~= s@);
    out
}

/// The name and the number that a line tells, if it tells them: what stands before
/// the first colon, and the number behind it.
pub open spec fn statistic_in(line: Seq<char>) -> Option<(Seq<char>, i64)> {
    match first_of(line, ":"@) {
        Some(p) => match i64_of(without_marks(trimmed(line.skip(p + 1)))) {
            Some(n) => Some((trimmed_of(trimmed(line.take(p)), CharClass::Just('"')), n)),
            None => None,
        },
        None => None,
    }
}

/// The number that lines tell last under a name, or zero.
pub open spec fn statistic(all: Seq<Seq<char>>, name: Seq<char>) -> i64
    decreases all.len(),
{
    if all.len() == 0 {
        0
    } else {
        match statistic_in(all.last()) {
            Some(s) => if s.0 == name {
                s.1
            } else {
                statistic(all.drop_last(), name)
            },
            None => statistic(all.drop_last(), name),
        }
    }
}

fn read_statistic(line: &str) -> (r: Option<(String, i64)>)
    ensures
        match r {
            Some(s) => statistic_in(line@) == Some((s.0@, s.1)),
            None => statistic_in(line@) is None,
        },
{
    let chars = chars_of(line);
    match find_from(&chars, ":", 0) {
        Some(p) => {
            proof {
                law_first_of(line@, ":"@);
                reveal_strlit(":");
            }
            let n = chars.len();
            let before = string_between(&chars, 0, p);
            let behind = string_between(&chars, p + 1, n);
            assert(before@ =~= line@.take(p as int));
            assert(behind@ =~= line@.skip(p + 1));
            match parse_i64(drop_marks(trim(behind.as_str())).as_str()) {
                Some(v) => {
                    let name = trim_of(trim(before.as_str()), CharClass::Just('"'));
                    Some((name.to_owned(), v))
                },
                None => None,
            }
        },
        None => None,
    }
}

/// The lines behind the first one.
pub open spec fn behind_first(all: Seq<Seq<char>>) -> Seq<Seq<char>> {
    if all.len() == 0 {
        all
    } else {
        all.skip(1)
    }
}

fn find_statistic(all: &Vec<String>, name: &str) -> (r: i64)
    ensures
        r == statistic(behind_first(texts(all@)), name@),
{
    let ghost rest = behind_first(texts(all@));
    let mut n: usize = all.len();
    if n == 0 {
        return 0;
    }
    assert(rest.take(n - 1) =~= rest);
    while n > 1
        invariant
            1 <= n <= all@.len(),
            rest == texts(all@).skip(1),
            statistic(rest.take(n - 1), name@) == statistic(rest, name@),
        decreases n,
    {
        assert(rest.take(n - 1).last() == all@[n - 1]@);
        assert(rest.take(n - 1).drop_last() =~= rest.take(n - 2));
        match read_statistic(all[n - 1].as_str()) {
            Some(s) => if same(s.0.as_str(), name) {
                return s.1;
            },
            None => {},
        }
        n = n - 1;
    }
    assert(rest.take(0) =~= Seq::<Seq<char>>::empty());
    0
}

/// What is in use of the memory, in bytes.
#[derive(Debug, Clone, Copy)]
pub struct VmStat {
    pub page_size: i64,
    pub free_bytes: i64,
    pub active_bytes: i64,
    pub inactive_bytes: i64,
    pub speculative_bytes: i64,
    pub wired_bytes: i64,
    pub compressed_bytes: i64,
    pub purgeable_bytes: i64,
    pub file_backed_bytes: i64,
    pub anonymous_bytes: i64,
}

/// The bytes of the pages that are counted under a name.
pub open spec fn bytes_under(output: Seq<char>, name: Seq<char>) -> int {
    statistic(behind_first(lines(output)), name) * page_size_in(lines(output))
}

/// Whether the bytes of the pages that are counted under a name fit.
pub open spec fn bytes_fit(output: Seq<char>, name: Seq<char>) -> bool {
    i64::MIN <= bytes_under(output, name) <= i64::MAX
}

/// Whether all numbers of bytes fit.
pub open spec fn vm_stat_fits(output: Seq<char>) -> bool {
    &&& bytes_fit(output, "Pages free"@)
    &&& bytes_fit(output, "Pages active"@)
    &&& bytes_fit(output, "Pages inactive"@)
    &&& bytes_fit(output, "Pages speculative"@)
    &&& bytes_fit(output, "Pages wired down"@)
    &&& bytes_fit(output, "Pages occupied by compressor"@)
    &&& bytes_fit(output, "Pages purgeable"@)
    &&& bytes_fit(output, "File-backed pages"@)
    &&& bytes_fit(output, "Anonymous pages"@)
}

/// Whether this is what the text tells of the memory.
pub open spec fn is_vm_stat(v: VmStat, output: Seq<char>) -> bool {
    &&& v.page_size == page_size_in(lines(output))
    &&& v.free_bytes == bytes_under(output, "Pages free"@)
    &&& v.active_bytes == bytes_under(output, "Pages active"@)
    &&& v.inactive_bytes == bytes_under(output, "Pages inactive"@)
    &&& v.speculative_bytes == bytes_under(output, "Pages speculative"@)
    &&& v.wired_bytes == bytes_under(output, "Pages wired down"@)
    &&& v.compressed_bytes == bytes_under(output, "Pages occupied by compressor"@)
    &&& v.purgeable_bytes == bytes_under(output, "Pages purgeable"@)
    &&& v.file_backed_bytes == bytes_under(output, "File-backed pages"@)
    &&& v.anonymous_bytes == bytes_under(output, "Anonymous pages"@)
}

fn read_bytes(all: &Vec<String>, page_size: i64, name: &str) -> (r: Option<i64>)
    ensures
        ({
            let bytes = statistic(behind_first(texts(all@)), name@) * page_size;
            match r {
                Some(n) => n == bytes,
                None => bytes < i64::MIN || bytes > i64::MAX,
            }
        }),
{
    let pages = find_statistic(all, name);
    assert(-0x8000_0000_0000_0000_0000_0000_0000_0000 < pages * page_size
        < 0x7fff_ffff_ffff_ffff_ffff_ffff_ffff_ffff) by (nonlinear_arith)
        requires
            -0x8000_0000_0000_0000 <= pages <= 0x7fff_ffff_ffff_ffff,
            -0x8000_0000_0000_0000 <= page_size <= 0x7fff_ffff_ffff_ffff,
    ;
    let bytes: i128 = pages as i128 * page_size as i128;
    if bytes < -0x8000_0000_0000_0000 || bytes > 0x7fff_ffff_ffff_ffff {
        None
    } else {
        Some(bytes as i64)
    }
}

/// What a text tells of the memory; nothing where a number of bytes does not fit.
pub fn parse_vm_stat(output: &str) -> (r: Option<VmStat>)
    ensures
        match r {
            Some(v) => vm_stat_fits(output@) && is_vm_stat(v, output@),
            None => !vm_stat_fits(output@),
        },
{
    let all = split_lines(output);
    let page_size = read_page_size(&all);
    let free = read_bytes(&all, page_size, "Pages free");
    let active = read_bytes(&all, page_size, "Pages active");
    let inactive = read_bytes(&all, page_size, "Pages inactive");
    let speculative = read_bytes(&all, page_size, "Pages speculative");
    let wired = read_bytes(&all, page_size, "Pages wired down");
    let compressed = read_bytes(&all, page_size, "Pages occupied by compressor");
    let purgeable = read_bytes(&all, page_size, "Pages purgeable");
    let file_backed = read_bytes(&all, page_size, "File-backed pages");
    let anonymous = read_bytes(&all, page_size, "Anonymous pages");
    Some(
        VmStat {
            page_size,
            free_bytes: free?,
            active_bytes: active?,
            inactive_bytes: inactive?,
            speculative_bytes: speculative?,
            wired_bytes: wired?,
            compressed_bytes: compressed?,
            purgeable_bytes: purgeable?,
            file_backed_bytes: file_backed?,
            anonymous_bytes: anonymous?,
        },
    )
}

/// The memory in use: what is neither free nor a copy of files, but never less than
/// nothing.
pub open spec fn memory_used(total: int, free: int, cached: int) -> int {
    if total - free - cached < 0 {
        0
    } else {
        total - free - cached
    }
}

/// Whether the memory in use can be told in 64 bits.
pub open spec fn memory_can_be_told(total: Option<i64>, vm: Option<VmStat>) -> bool {
    match (total, vm) {
        (Some(t), Some(v)) => {
            &&& i64::MIN <= t - v.free_bytes <= i64::MAX
            &&& i64::MIN <= t - v.free_bytes - v.file_backed_bytes <= i64::MAX
        },
        _ => true,
    }
}

/// Whether the memory in use can be told in 64 bits.
pub fn memory_fits(total: Option<i64>, vm: Option<VmStat>) -> (r: bool)
    ensures
        r == memory_can_be_told(total, vm),
{
    match (total, vm) {
        (Some(t), Some(v)) => {
            let raw: i128 = t as i128 - v.free_bytes as i128;
            let used: i128 = raw - v.file_backed_bytes as i128;
            let low: i128 = -0x8000_0000_0000_0000;
            let high: i128 = 0x7fff_ffff_ffff_ffff;
            low <= raw && raw <= high && low <= used && used <= high
        },
        _ => true,
    }
}

// ---------------------------------------------------------------------------
// Swap, uptime, processes, disks and load
// ---------------------------------------------------------------------------

/// What stands behind the first `mark`.
pub open spec fn behind(s: Seq<char>, mark: Seq<char>) -> Option<Seq<char>> {
    match first_of(s, mark) {
        Some(i) => Some(s.skip(i + mark.len())),
        None => None,
    }
}

fn part_behind(s: &str, mark: &str) -> (r: Option<String>)
    ensures
        opt_text(r) == behind(s@, mark@),
{
    let chars = chars_of(s);
    match find_from(&chars, mark, 0) {
        Some(i) => {
            proof {
                law_first_of(s@, mark@);
            }
            let n = chars.len();
            let start = i + mark.unicode_len();
            let rest = string_between(&chars, start, n);
            assert(rest@ =~= s@.skip(start as int));
            Some(rest)
        },
        None => None,
    }
}

/// Whether a text of digits and full stops writes a number: it has a digit, and at
/// most one full stop.
pub open spec fn writes_number(s: Seq<char>) -> bool {
    (exists|i: int| 0 <= i < s.len() && is_digit(#[trigger] s[i])) && s.filter(
        |c: char| c == '.',
    ).len() <= 1
}

fn is_number_text(s: &str) -> (r: bool)
    ensures
        r == writes_number(s@),
{
    let chars = chars_of(s);
    let mut any: bool = false;
    let mut stops: usize = 0;
    let mut i: usize = 0;
    proof {
        reveal(Seq::filter);
        assert(s@.take(0) =~= Seq::<char>::empty());
    }
    while i < chars.len()
        invariant
            i <= chars@.len(),
            chars@ == s@,
            any == (exists|k: int| 0 <= k < i && is_digit(#[trigger] s@[k])),
            stops <= i,
            stops == s@.take(i as int).filter(|c: char| c == '.').len(),
        decreases chars@.len() - i,
    {
        proof {
            reveal(Seq::filter);
            assert(s@.take(i + 1).drop_last() =~= s@.take(i as int));
            assert(s@.take(i + 1).last() == chars@[i as int]);
        }
        let c = chars[i];
        if '0' <= c && c <= '9' {
            assert(is_digit(s@[i as int]));
            any = true;
        }
        if c == '.' {
            stops = stops + 1;
        }
        i = i + 1;
    }
    assert(s@.take(i as int) =~= s@);
    any && stops <= 1
}

/// An amount of swap space: a number, and the letter of its unit.
pub struct SwapAmount {
    pub number: String,
    pub unit: char,
}

/// The amount of swap space under a label: the number behind it, and the character
/// behind that.
pub open spec fn swap_amount(output: Seq<char>, label: Seq<char>) -> Option<(Seq<char>, char)> {
    match behind(output, label + " = "@) {
        Some(rest) => {
            let n = run_len(rest, CharClass::NonDecimal) as int;
            if n < rest.len() && writes_number(rest.take(n)) {
                Some((rest.take(n), rest[n]))
            } else {
                None
            }
        },
        None => None,
    }
}

/// The amount of swap space under a label.
pub fn extract_swap(output: &str, label: &str) -> (r: Option<SwapAmount>)
    ensures
        match r {
            Some(a) => swap_amount(output@, label@) == Some((a.number@, a.unit)),
            None => swap_amount(output@, label@) is None,
        },
{
    let rest = match part_behind(output, cat(label, " = ").as_str()) {
        Some(rest) => rest,
        None => {
            return None;
        },
    };
    let chars = chars_of(rest.as_str());
    assert(rest@.skip(0) =~= rest@);
    let n = run_end(&chars, CharClass::NonDecimal, 0);
    if n == chars.len() {
        return None;
    }
    let number = string_between(&chars, 0, n);
    assert(number@ =~= rest@.take(n as int));
    if is_number_text(number.as_str()) {
        Some(SwapAmount { number, unit: chars[n] })
    } else {
        None
    }
}

/// The bytes of a unit of swap space.
pub open spec fn unit_bytes(unit: char) -> u64 {
    if unit == 'K' {
        1024
    } else if unit == 'M' {
        1_048_576
    } else if unit == 'G' {
        1_073_741_824
    } else if unit == 'T' {
        1_099_511_627_776
    } else {
        1
    }
}

/// The bytes of a unit of swap space, by its ASCII letter.
pub fn swap_scale(unit: char) -> (r: u64)
    requires
        unit as u32 <= 0x7f,
    ensures
        r == unit_bytes(unit),
{
    if unit == 'K' {
        1024
    } else if unit == 'M' {
        1_048_576
    } else if unit == 'G' {
        1_073_741_824
    } else if unit == 'T' {
        1_099_511_627_776
    } else {
        1
    }
}

/// The digits behind `sec = `, if something that is no digit follows them.
pub open spec fn boot_seconds(output: Seq<char>) -> Option<Seq<char>> {
    match behind(output, "sec = "@) {
        Some(rest) => {
            let n = run_len(rest, CharClass::NonDigit) as int;
            if 0 < n < rest.len() {
                Some(rest.take(n))
            } else {
                None
            }
        },
        None => None,
    }
}

/// The second at which the machine was started, in decimal digits.
pub fn parse_boot_time(output: &str) -> (r: Option<String>)
    ensures
        opt_text(r) == boot_seconds(output@),
{
    let rest = match part_behind(output, "sec = ") {
        Some(rest) => rest,
        None => {
            return None;
        },
    };
    let chars = chars_of(rest.as_str());
    assert(rest@.skip(0) =~= rest@);
    let n = run_end(&chars, CharClass::NonDigit, 0);
    if n == 0 || n == chars.len() {
        return None;
    }
    let digits = string_between(&chars, 0, n);
    assert(digits@ =~= rest@.take(n as int));
    Some(digits)
}

/// Bytes of a number of kilobytes.
pub fn kilobytes_to_bytes(kb: i64) -> (r: i64)
    requires
        i64::MIN <= kb * 1024 <= i64::MAX,
    ensures
        r == kb * 1024,
{
    kb * 1024
}

/// The kilobytes of a disk, and those that are free: the second and the fourth word of
/// the second line, where the third is a number as well.
pub open spec fn disk_kilobytes(text: Seq<char>) -> Option<(u64, u64)> {
    if lines(text).len() < 2 {
        None
    } else {
        let words = fields(lines(text)[1], CharClass::White);
        if words.len() < 4 {
            None
        } else {
            match (u64_of(words[1]), u64_of(words[2]), u64_of(words[3])) {
                (Some(total), Some(_), Some(free)) => Some((total, free)),
                _ => None,
            }
        }
    }
}

/// The kilobytes of a disk, and those that are free.
pub fn parse_df(text: &str) -> (r: Option<(u64, u64)>)
    ensures
        r == disk_kilobytes(text@),
{
    let all = split_lines(text);
    assert(texts(all@).len() == all@.len());
    if all.len() < 2 {
        return None;
    }
    assert(texts(all@)[1] == all@[1]@);
    let words = split_fields(all[1].as_str(), CharClass::White);
    assert(texts(words@).len() == words@.len());
    if words.len() < 4 {
        return None;
    }
    assert(texts(words@)[1] == words@[1]@);
    assert(texts(words@)[2] == words@[2]@);
    assert(texts(words@)[3] == words@[3]@);
    match (
        parse_u64(words[1].as_str()),
        parse_u64(words[2].as_str()),
        parse_u64(words[3].as_str()),
    ) {
        (Some(total), Some(_), Some(free)) => Some((total, free)),
        _ => None,
    }
}

/// The bytes of a disk: all, used and free.
#[derive(Debug, Clone, Copy, PartialEq, Eq, Structural)]
pub struct DiskUsage {
    pub total: u64,
    pub used: u64,
    pub free: u64,
}

/// The bytes of a disk, from its kilobytes; none where these are not known.
pub fn disk_usage(kilobytes: Option<(u64, u64)>) -> (r: DiskUsage)
    requires
        kilobytes matches Some(k) ==> k.0 * 1024 <= u64::MAX && k.1 * 1024 <= u64::MAX,
    ensures
        match kilobytes {
            Some(k) => r.total == k.0 * 1024 && r.free == k.1 * 1024 && r.used == if k.0 >= k.1 {
                (k.0 - k.1) * 1024
            } else {
                0
            },
            None => r.total == 0 && r.used == 0 && r.free == 0,
        },
{
    match kilobytes {
        Some(k) => {
            let total: u64 = k.0 * 1024;
            let free: u64 = k.1 * 1024;
            let used: u64 = if total >= free {
                total - free
            } else {
                0
            };
            DiskUsage { total, used, free }
        },
        None => DiskUsage { total: 0, used: 0, free: 0 },
    }
}

/// The words that write the load of the machine, without the braces around them.
pub fn load_words(output: &str) -> (r: Vec<String>)
    ensures
        texts(r@) == fields(trimmed_of(output@, CharClass::BraceOrWhite), CharClass::White),
{
    split_fields(trim_of(output, CharClass::BraceOrWhite), CharClass::White)
}

// ---------------------------------------------------------------------------
// The report
// ---------------------------------------------------------------------------

/// What is known of the system.
pub struct Platform {
    pub release: String,
    pub version: String,
    pub mac_ver: String,
    pub machine: String,
}

/// What is known of swap space.
pub struct SwapUsage {
    pub total: Option<i64>,
    pub used: Option<i64>,
    pub free: Option<i64>,
    pub raw: String,
}

/// What was found of the machine. The loads are JSON numbers, and so is the uptime,
/// or null.
pub struct Findings {
    pub collected_at: Moment,
    pub platform: Platform,
    pub logical_cores: i64,
    pub load_1m: Json,
    pub load_5m: Json,
    pub load_15m: Json,
    pub total_memory: Option<i64>,
    pub vm: Option<VmStat>,
    pub swap: Option<SwapUsage>,
    pub root: DiskUsage,
    pub home: DiskUsage,
    pub uptime_seconds: Json,
    pub pid: u32,
    pub rss_bytes: Option<i64>,
}

/// The report on the platform.
pub open spec fn platform_entries(p: Platform) -> Seq<(Seq<char>, JsonView)> {
    seq![
        ("system"@, JsonView::Str("Darwin"@)),
        ("release"@, JsonView::Str(p.release@)),
        ("version"@, JsonView::Str(p.version@)),
        ("mac_ver"@, JsonView::Str(p.mac_ver@)),
        ("machine"@, JsonView::Str(p.machine@)),
    ]
}

/// The report on the processors.
pub open spec fn cpu_entries(f: Findings) -> Seq<(Seq<char>, JsonView)> {
    seq![
        ("logical_cores"@, int_value(f.logical_cores)),
        ("loadavg_1m"@, f.load_1m@),
        ("loadavg_5m"@, f.load_5m@),
        ("loadavg_15m"@, f.load_15m@),
    ]
}

/// One of the numbers of bytes, or null.
pub open spec fn vm_value(vm: Option<VmStat>, pick: spec_fn(VmStat) -> i64) -> JsonView {
    match vm {
        Some(v) => int_value(pick(v)),
        None => JsonView::Null,
    }
}

/// The memory in use, or null.
pub open spec fn used_value(f: Findings) -> JsonView {
    match (f.total_memory, f.vm) {
        (Some(t), Some(v)) => int_value(
            memory_used(t as int, v.free_bytes as int, v.file_backed_bytes as int) as i64,
        ),
        _ => JsonView::Null,
    }
}

/// The memory that is not free, or null.
pub open spec fn raw_used_value(f: Findings) -> JsonView {
    match (f.total_memory, f.vm) {
        (Some(t), Some(v)) => int_value((t - v.free_bytes) as i64),
        _ => JsonView::Null,
    }
}

/// The report on the memory.
pub open spec fn memory_entries(f: Findings) -> Seq<(Seq<char>, JsonView)> {
    seq![
        ("total_bytes"@, int_or_null(f.total_memory)),
        ("used_bytes"@, used_value(f)),
        ("raw_used_bytes"@, raw_used_value(f)),
        ("free_bytes"@, vm_value(f.vm, |v: VmStat| v.free_bytes)),
        ("cached_files_bytes"@, vm_value(f.vm, |v: VmStat| v.file_backed_bytes)),
        ("app_memory_bytes"@, vm_value(f.vm, |v: VmStat| v.anonymous_bytes)),
        ("active_bytes"@, vm_value(f.vm, |v: VmStat| v.active_bytes)),
        ("inactive_bytes"@, vm_value(f.vm, |v: VmStat| v.inactive_bytes)),
        ("speculative_bytes"@, vm_value(f.vm, |v: VmStat| v.speculative_bytes)),
        ("wired_bytes"@, vm_value(f.vm, |v: VmStat| v.wired_bytes)),
        ("compressed_bytes"@, vm_value(f.vm, |v: VmStat| v.compressed_bytes)),
        ("purgeable_bytes"@, vm_value(f.vm, |v: VmStat| v.purgeable_bytes)),
        ("file_backed_bytes"@, vm_value(f.vm, |v: VmStat| v.file_backed_bytes)),
    ]
}

/// The report on swap space.
pub open spec fn swap_report(s: Option<SwapUsage>) -> JsonView {
    match s {
        Some(s) => JsonView::Object(
            seq![
                ("total_bytes"@, int_or_null(s.total)),
                ("used_bytes"@, int_or_null(s.used)),
                ("free_bytes"@, int_or_null(s.free)),
                ("raw"@, JsonView::Str(s.raw@)),
            ],
        ),
        None => empty_object(),
    }
}

/// The swap space in use, or null.
pub open spec fn swap_used(s: Option<SwapUsage>) -> JsonView {
    match s {
        Some(s) => int_or_null(s.used),
        None => JsonView::Null,
    }
}

/// The report on the memory in the words of the activity monitor.
pub open spec fn monitor_entries(f: Findings) -> Seq<(Seq<char>, JsonView)> {
    seq![
        ("physical_memory_bytes"@, int_or_null(f.total_memory)),
        ("memory_used_bytes"@, used_value(f)),
        ("cached_files_bytes"@, vm_value(f.vm, |v: VmStat| v.file_backed_bytes)),
        ("app_memory_bytes"@, vm_value(f.vm, |v: VmStat| v.anonymous_bytes)),
        ("wired_memory_bytes"@, vm_value(f.vm, |v: VmStat| v.wired_bytes)),
        ("compressed_bytes"@, vm_value(f.vm, |v: VmStat| v.compressed_bytes)),
        ("swap_used_bytes"@, swap_used(f.swap)),
    ]
}

/// The report in the words of the activity monitor.
pub open spec fn activity_entries(f: Findings) -> Seq<(Seq<char>, JsonView)> {
    seq![("memory"@, JsonView::Object(monitor_entries(f)))]
}

/// The report on the disks.
pub open spec fn disk_entries(f: Findings) -> Seq<(Seq<char>, JsonView)> {
    seq![
        ("root_total_bytes"@, nat_value(f.root.total)),
        ("root_used_bytes"@, nat_value(f.root.used)),
        ("root_free_bytes"@, nat_value(f.root.free)),
        ("home_total_bytes"@, nat_value(f.home.total)),
        ("home_used_bytes"@, nat_value(f.home.used)),
        ("home_free_bytes"@, nat_value(f.home.free)),
    ]
}

/// The report on the process of the agent.
pub open spec fn process_entries(f: Findings) -> Seq<(Seq<char>, JsonView)> {
    seq![("pid"@, nat_value(f.pid as u64)), ("rss_bytes"@, int_or_null(f.rss_bytes))]
}

/// The report on the machine.
pub open spec fn metrics_report(hostname: Seq<char>, f: Findings) -> JsonView {
    JsonView::Object(
        seq![
            ("collected_at"@, moment_value(f.collected_at)),
            ("hostname"@, JsonView::Str(hostname)),
            ("platform"@, JsonView::Object(platform_entries(f.platform))),
            ("cpu"@, JsonView::Object(cpu_entries(f))),
            ("memory"@, JsonView::Object(memory_entries(f))),
            ("swap"@, swap_report(f.swap)),
            ("activity_monitor"@, JsonView::Object(activity_entries(f))),
            ("disk"@, JsonView::Object(disk_entries(f))),
            ("uptime_seconds"@, f.uptime_seconds@),
            ("agent_process"@, JsonView::Object(process_entries(f))),
        ],
    )
}

fn used_json(f: &Findings) -> (r: Json)
    requires
        memory_can_be_told(f.total_memory, f.vm),
    ensures
        r@ == used_value(*f),
{
    match (f.total_memory, f.vm) {
        (Some(t), Some(v)) => {
            let left: i64 = (t as i128 - v.free_bytes as i128 - v.file_backed_bytes as i128) as i64;
            json_int(
                if left < 0 {
                    0
                } else {
                    left
                },
            )
        },
        _ => Json::Null,
    }
}

fn raw_used_json(f: &Findings) -> (r: Json)
    requires
        memory_can_be_told(f.total_memory, f.vm),
    ensures
        r@ == raw_used_value(*f),
{
    match (f.total_memory, f.vm) {
        (Some(t), Some(v)) => json_int(t - v.free_bytes),
        _ => Json::Null,
    }
}

fn report_platform(p: &Platform) -> (r: Json)
    ensures
        r@ == JsonView::Object(platform_entries(*p)),
{
    let mut f = Fields::new();
    f.put("system", json_text("Darwin"));
    f.put("release", json_text(p.release.as_str()));
    f.put("version", json_text(p.version.as_str()));
    f.put("mac_ver", json_text(p.mac_ver.as_str()));
    f.put("machine", json_text(p.machine.as_str()));
    assert(f@ == platform_entries(*p));
    f.object()
}

fn report_cpu(x: &Findings) -> (r: Json)
    ensures
        r@ == JsonView::Object(cpu_entries(*x)),
{
    let mut f = Fields::new();
    f.put("logical_cores", json_int(x.logical_cores));
    f.put("loadavg_1m", x.load_1m.copy());
    f.put("loadavg_5m", x.load_5m.copy());
    f.put("loadavg_15m", x.load_15m.copy());
    assert(f@ == cpu_entries(*x));
    f.object()
}

/// The numbers of bytes, each where they are known.
struct VmJson {
    free: Option<i64>,
    active: Option<i64>,
    inactive: Option<i64>,
    speculative: Option<i64>,
    wired: Option<i64>,
    compressed: Option<i64>,
    purgeable: Option<i64>,
    file_backed: Option<i64>,
    anonymous: Option<i64>,
}

fn vm_numbers(vm: Option<VmStat>) -> (r: VmJson)
    ensures
        int_or_null(r.free) == vm_value(vm, |v: VmStat| v.free_bytes),
        int_or_null(r.active) == vm_value(vm, |v: VmStat| v.active_bytes),
        int_or_null(r.inactive) == vm_value(vm, |v: VmStat| v.inactive_bytes),
        int_or_null(r.speculative) == vm_value(vm, |v: VmStat| v.speculative_bytes),
        int_or_null(r.wired) == vm_value(vm, |v: VmStat| v.wired_bytes),
        int_or_null(r.compressed) == vm_value(vm, |v: VmStat| v.compressed_bytes),
        int_or_null(r.purgeable) == vm_value(vm, |v: VmStat| v.purgeable_bytes),
        int_or_null(r.file_backed) == vm_value(vm, |v: VmStat| v.file_backed_bytes),
        int_or_null(r.anonymous) == vm_value(vm, |v: VmStat| v.anonymous_bytes),
{
    match vm {
        Some(v) => VmJson {
            free: Some(v.free_bytes),
            active: Some(v.active_bytes),
            inactive: Some(v.inactive_bytes),
            speculative: Some(v.speculative_bytes),
            wired: Some(v.wired_bytes),
            compressed: Some(v.compressed_bytes),
            purgeable: Some(v.purgeable_bytes),
            file_backed: Some(v.file_backed_bytes),
            anonymous: Some(v.anonymous_bytes),
        },
        None => VmJson {
            free: None,
            active: None,
            inactive: None,
            speculative: None,
            wired: None,
            compressed: None,
            purgeable: None,
            file_backed: None,
            anonymous: None,
        },
    }
}

fn report_memory(x: &Findings) -> (r: Json)
    requires
        memory_can_be_told(x.total_memory, x.vm),
    ensures
        r@ == JsonView::Object(memory_entries(*x)),
{
    let n = vm_numbers(x.vm);
    let mut f = Fields::new();
    f.put("total_bytes", json_opt_int(x.total_memory));
    f.put("used_bytes", used_json(x));
    f.put("raw_used_bytes", raw_used_json(x));
    f.put("free_bytes", json_opt_int(n.free));
    f.put("cached_files_bytes", json_opt_int(n.file_backed));
    f.put("app_memory_bytes", json_opt_int(n.anonymous));
    f.put("active_bytes", json_opt_int(n.active));
    f.put("inactive_bytes", json_opt_int(n.inactive));
    f.put("speculative_bytes", json_opt_int(n.speculative));
    f.put("wired_bytes", json_opt_int(n.wired));
    f.put("compressed_bytes", json_opt_int(n.compressed));
    f.put("purgeable_bytes", json_opt_int(n.purgeable));
    f.put("file_backed_bytes", json_opt_int(n.file_backed));
    assert(f@ == memory_entries(*x));
    f.object()
}

fn report_swap(s: &Option<SwapUsage>) -> (r: Json)
    ensures
        r@ == swap_report(*s),
{
    match s {
        Some(u) => {
            let mut f = Fields::new();
            f.put("total_bytes", json_opt_int(u.total));
            f.put("used_bytes", json_opt_int(u.used));
            f.put("free_bytes", json_opt_int(u.free));
            f.put("raw", json_text(u.raw.as_str()));
            assert(f@ == swap_report(*s)->Object_0);
            f.object()
        },
        None => Fields::new().object(),
    }
}

fn report_activity(x: &Findings) -> (r: Json)
    requires
        memory_can_be_told(x.total_memory, x.vm),
    ensures
        r@ == JsonView::Object(activity_entries(*x)),
{
    let n = vm_numbers(x.vm);
    let swapped = match &x.swap {
        Some(s) => s.used,
        None => None,
    };
    let mut m = Fields::new();
    m.put("physical_memory_bytes", json_opt_int(x.total_memory));
    m.put("memory_used_bytes", used_json(x));
    m.put("cached_files_bytes", json_opt_int(n.file_backed));
    m.put("app_memory_bytes", json_opt_int(n.anonymous));
    m.put("wired_memory_bytes", json_opt_int(n.wired));
    m.put("compressed_bytes", json_opt_int(n.compressed));
    m.put("swap_used_bytes", json_opt_int(swapped));
    assert(m@ == monitor_entries(*x));
    let mut f = Fields::new();
    f.put("memory", m.object());
    assert(f@ == activity_entries(*x));
    f.object()
}

fn report_disks(x: &Findings) -> (r: Json)
    ensures
        r@ == JsonView::Object(disk_entries(*x)),
{
    let mut f = Fields::new();
    f.put("root_total_bytes", json_nat(x.root.total));
    f.put("root_used_bytes", json_nat(x.root.used));
    f.put("root_free_bytes", json_nat(x.root.free));
    f.put("home_total_bytes", json_nat(x.home.total));
    f.put("home_used_bytes", json_nat(x.home.used));
    f.put("home_free_bytes", json_nat(x.home.free));
    assert(f@ == disk_entries(*x));
    f.object()
}

/// The report on the machine of the given name.
pub fn report_metrics(hostname: &str, findings: &Findings) -> (r: Json)
    requires
        memory_can_be_told(findings.total_memory, findings.vm),
    ensures
        r@ == metrics_report(hostname@, *findings),
{
    let mut p = Fields::new();
    p.put("pid", json_nat(findings.pid as u64));
    p.put("rss_bytes", json_opt_int(findings.rss_bytes));
    assert(p@ == process_entries(*findings));

    let mut f = Fields::new();
    f.put("collected_at", json_moment(findings.collected_at));
    f.put("hostname", json_text(hostname));
    f.put("platform", report_platform(&findings.platform));
    f.put("cpu", report_cpu(findings));
    f.put("memory", report_memory(findings));
    f.put("swap", report_swap(&findings.swap));
    f.put("activity_monitor", report_activity(findings));
    f.put("disk", report_disks(findings));
    f.put("uptime_seconds", findings.uptime_seconds.copy());
    f.put("agent_process", p.object());
    assert(f@ == metrics_report(hostname@, *findings)->Object_0);
    f.object()
}

/// The report on this machine.
pub fn get_system_metrics(findings: &Findings) -> (r: Json)
    requires
        memory_can_be_told(findings.total_memory, findings.vm),
    ensures
        exists|hostname: Seq<char>| r@ == metrics_report(hostname, *findings),
{
    let name = host_name();
    let r = report_metrics(name.as_str(), findings);
    assert(r@ == metrics_report(name@, *findings));
    r
}

// ---------------------------------------------------------------------------
// Laws
// ---------------------------------------------------------------------------

/// The memory in use is never less than nothing, and with what is free and what is a
/// copy of files it makes up the whole, as long as these are not more than the whole.
pub proof fn law_memory_used(total: int, free: int, cached: int)
    ensures
        memory_used(total, free, cached) >= 0,
        free + cached <= total ==> memory_used(total, free, cached) + free + cached == total,
{
}

/// Whether a text can stand before the colon of a line and be found there again.
spec fn is_label(name: Seq<char>) -> bool {
    &&& name.len() > 0
    &&& forall|i: int| 0 <= i < name.len() ==> #[trigger] name[i] != ':'
    &&& !is_white(name[0]) && !is_white(name.last())
    &&& name[0] != '"' && name.last() != '"'
}

/// Whether a text holds nothing but spaces.
pub open spec fn all_spaces(s: Seq<char>) -> bool {
    forall|i: int| 0 <= i < s.len() ==> #[trigger] s[i] == ' '
}

/// Whether a line counts `n` pages under a name: `Pages free:      10.`
pub open spec fn is_count_line(line: Seq<char>, name: Seq<char>, n: nat) -> bool {
    exists|pad: Seq<char>|
        #[trigger] all_spaces(pad) && line == name + ":"@ + pad + dec(n) + "."@
}

/// Whether lines behind the first one count `n` pages under a name, and none behind that
/// holds the name again.
pub open spec fn counts_pages(all: Seq<Seq<char>>, name: Seq<char>, n: nat) -> bool {
    exists|k: int|
        1 <= k < all.len() && is_count_line(#[trigger] all[k], name, n) && forall|j: int|
            k < j < all.len() ==> !occurs(#[trigger] all[j], name)
}

/// Whether no line behind the first one holds a name.
pub open spec fn counts_none(all: Seq<Seq<char>>, name: Seq<char>) -> bool {
    forall|j: int| 1 <= j < all.len() ==> !occurs(#[trigger] all[j], name)
}

proof fn lemma_count_line(line: Seq<char>, name: Seq<char>, n: nat)
    requires
        is_label(name),
        is_count_line(line, name, n),
        n <= i64::MAX,
    ensures
        statistic_in(line) == Some((name, n as i64)),
{
    let pad = choose|pad: Seq<char>|
        #[trigger] all_spaces(pad) && line == name + ":"@ + pad + dec(n) + "."@;
    reveal_strlit(":");
    reveal_strlit(".");
    let p = name.len() as int;
    law_first_of(line, ":"@);
    assert(line.subrange(p, p + 1) =~= ":"@);
    assert(occurs_at(line, ":"@, p));
    let found = first_of(line, ":"@)->0;
    if found < p {
        assert(line.subrange(found, found + 1)[0] == ':');
        assert(line[found] == name[found]);
    }
    assert(first_of(line, ":"@) == Some(p));
    let none = Seq::<char>::empty();
    assert(line.take(p) =~= none + name + none);
    law_trimmed(none, name, none, CharClass::White);
    law_trimmed(none, name, none, CharClass::Just('"'));
    assert(none + name + none =~= name);
    lemma_dec(n);
    let digits = dec(n);
    let told = digits + "."@;
    assert(line.skip(p + 1) =~= pad + told + none);
    assert(is_digit(digits[0]));
    assert(told[0] == digits[0]);
    assert(told.last() == '.');
    assert forall|i: int| 0 <= i < pad.len() implies CharClass::White.has(#[trigger] pad[i]) by {}
    law_trimmed(pad, told, none, CharClass::White);
    lemma_marks_dropped(digits);
    assert(told =~= digits.push('.'));
    law_decimal_i64_read_back(n as i64);
}

proof fn lemma_marks_dropped(digits: Seq<char>)
    requires
        all_digits(digits),
    ensures
        without_marks(digits.push('.')) == digits,
{
    reveal(Seq::filter);
    let t = digits.push('.');
    assert(t.drop_last() =~= digits);
    lemma_digits_unmarked(digits);
}

proof fn lemma_digits_unmarked(digits: Seq<char>)
    requires
        all_digits(digits),
    ensures
        without_marks(digits) == digits,
    decreases digits.len(),
{
    reveal(Seq::filter);
    if digits.len() > 0 {
        let rest = digits.drop_last();
        assert forall|i: int| 0 <= i < rest.len() implies is_digit(#[trigger] rest[i]) by {
            assert(rest[i] == digits[i]);
        }
        assert(is_digit(digits[digits.len() - 1]));
        lemma_digits_unmarked(rest);
        assert(rest.push(digits.last()) =~= digits);
    } else {
        assert(without_marks(digits) =~= digits);
    }
}

proof fn lemma_name_in_line(line: Seq<char>, name: Seq<char>)
    requires
        !occurs(line, name),
    ensures
        statistic_in(line) matches Some(s) ==> s.0 != name,
{
    if statistic_in(line) is Some {
        law_first_of(line, ":"@);
        let p = first_of(line, ":"@)->0;
        let head = line.take(p);
        lemma_trimmed_occurs(head, CharClass::White);
        let inner = trimmed(head);
        lemma_trimmed_occurs(inner, CharClass::Just('"'));
        let found = trimmed_of(inner, CharClass::Just('"'));
        let i = choose|i: int| occurs_at(head, inner, i);
        lemma_occurs_in_part(head, i, i + inner.len(), found);
        assert(line.subrange(0, p) =~= head);
        lemma_occurs_in_part(line, 0, p, found);
    }
}

proof fn lemma_statistic(all: Seq<Seq<char>>, name: Seq<char>, n: nat, k: int)
    requires
        is_label(name),
        n <= i64::MAX,
        0 <= k < all.len(),
        is_count_line(all[k], name, n),
        forall|j: int| k < j < all.len() ==> !occurs(#[trigger] all[j], name),
    ensures
        statistic(all, name) == n,
    decreases all.len(),
{
    if k == all.len() - 1 {
        lemma_count_line(all[k], name, n);
    } else {
        lemma_name_in_line(all[all.len() - 1], name);
        let rest = all.drop_last();
        assert forall|j: int| k < j < rest.len() implies !occurs(#[trigger] rest[j], name) by {
            assert(rest[j] == all[j]);
        }
        lemma_statistic(rest, name, n, k);
    }
}

proof fn lemma_no_statistic(all: Seq<Seq<char>>, name: Seq<char>)
    requires
        forall|j: int| 0 <= j < all.len() ==> !occurs(#[trigger] all[j], name),
    ensures
        statistic(all, name) == 0,
    decreases all.len(),
{
    if all.len() > 0 {
        lemma_name_in_line(all[all.len() - 1], name);
        let rest = all.drop_last();
        assert forall|j: int| 0 <= j < rest.len() implies !occurs(#[trigger] rest[j], name) by {
            assert(rest[j] == all[j]);
        }
        lemma_no_statistic(rest, name);
    }
}

proof fn lemma_pages(all: Seq<Seq<char>>, name: Seq<char>, n: nat)
    requires
        is_label(name),
        n <= i64::MAX,
        counts_pages(all, name, n) || (n == 0 && counts_none(all, name)),
    ensures
        statistic(behind_first(all), name) == n,
{
    let rest = behind_first(all);
    if counts_pages(all, name, n) {
        let k = choose|k: int|
            1 <= k < all.len() && is_count_line(#[trigger] all[k], name, n) && forall|j: int|
                k < j < all.len() ==> !occurs(#[trigger] all[j], name);
        assert forall|j: int| k - 1 < j < rest.len() implies !occurs(#[trigger] rest[j], name) by {
            assert(rest[j] == all[j + 1]);
        }
        assert(rest[k - 1] == all[k]);
        lemma_statistic(rest, name, n, k - 1);
    } else {
        assert forall|j: int| 0 <= j < rest.len() implies !occurs(#[trigger] rest[j], name) by {
            if all.len() > 0 {
                assert(rest[j] == all[j + 1]);
            }
        }
        lemma_no_statistic(rest, name);
    }
}

proof fn lemma_page_size(all: Seq<Seq<char>>, size: nat)
    requires
        all.len() > 0,
        all[0] == "Mach Virtual Memory Statistics: (page size of "@ + dec(size) + " bytes)"@,
        size <= i64::MAX,
    ensures
        page_size_in(all) == size,
{
    let line = all[0];
    let mark = "page size of "@;
    let head = "Mach Virtual Memory Statistics: (page size of "@;
    reveal_strlit("Mach Virtual Memory Statistics: (page size of ");
    reveal_strlit("page size of ");
    reveal_strlit(" bytes)");
    reveal_strlit(" ");
    assert(head.len() == 46);
    assert(mark.len() == 13);
    assert(" "@.len() == 1);
    assert(line.subrange(33, 46) =~= mark);
    assert(occurs_at(line, mark, 33));
    law_first_of(line, mark);
    let i = first_of(line, mark)->0;
    if i < 33 {
        assert(line.subrange(i, i + 13)[0] == 'p');
        assert(line[i] == head[i]);
        assert(head[i] != 'p');
    }
    let rest = line.skip(46);
    let digits = dec(size);
    let n = digits.len() as int;
    lemma_dec(size);
    assert(rest =~= digits + " bytes)"@);
    law_first_of(rest, " "@);
    assert(rest.subrange(n, n + 1) =~= " "@);
    assert(occurs_at(rest, " "@, n));
    let e = first_of(rest, " "@)->0;
    if e < n {
        assert(rest.subrange(e, e + 1)[0] == ' ');
        assert(rest[e] == digits[e]);
        assert(is_digit(digits[e]));
    }
    assert(rest.take(n) =~= digits);
    law_decimal_i64_read_back(size as i64);
}

/// What is read of the memory is what the command has written: where its first line tells
/// the size of a page, each number of bytes is the number of pages that is counted under
/// the name of its own, times that size; and where a name is not there, nothing. It is
/// read exactly where all these numbers of bytes fit, and the order of the lines and what
/// else stands in between does not matter.
pub proof fn law_memory_read(
    output: Seq<char>,
    size: nat,
    free: nat,
    active: nat,
    inactive: nat,
    speculative: nat,
    wired: nat,
    compressed: nat,
    purgeable: nat,
    file_backed: nat,
    anonymous: nat,
    v: VmStat,
)
    requires
        lines(output).len() > 0,
        lines(output)[0] == "Mach Virtual Memory Statistics: (page size of "@ + dec(size)
            + " bytes)"@,
        size <= i64::MAX,
        free <= i64::MAX,
        counts_pages(lines(output), "Pages free"@, free) || (free == 0 && counts_none(
            lines(output),
            "Pages free"@,
        )),
        active <= i64::MAX,
        counts_pages(lines(output), "Pages active"@, active) || (active == 0 && counts_none(
            lines(output),
            "Pages active"@,
        )),
        inactive <= i64::MAX,
        counts_pages(lines(output), "Pages inactive"@, inactive) || (inactive == 0 && counts_none(
            lines(output),
            "Pages inactive"@,
        )),
        speculative <= i64::MAX,
        counts_pages(lines(output), "Pages speculative"@, speculative) || (speculative == 0 && counts_none(
            lines(output),
            "Pages speculative"@,
        )),
        wired <= i64::MAX,
        counts_pages(lines(output), "Pages wired down"@, wired) || (wired == 0 && counts_none(
            lines(output),
            "Pages wired down"@,
        )),
        compressed <= i64::MAX,
        counts_pages(lines(output), "Pages occupied by compressor"@, compressed) || (compressed == 0 && counts_none(
            lines(output),
            "Pages occupied by compressor"@,
        )),
        purgeable <= i64::MAX,
        counts_pages(lines(output), "Pages purgeable"@, purgeable) || (purgeable == 0 && counts_none(
            lines(output),
            "Pages purgeable"@,
        )),
        file_backed <= i64::MAX,
        counts_pages(lines(output), "File-backed pages"@, file_backed) || (file_backed == 0 && counts_none(
            lines(output),
            "File-backed pages"@,
        )),
        anonymous <= i64::MAX,
        counts_pages(lines(output), "Anonymous pages"@, anonymous) || (anonymous == 0 && counts_none(
            lines(output),
            "Anonymous pages"@,
        )),
    ensures
        is_vm_stat(v, output) ==> {
            &&& v.page_size == size
            &&& v.free_bytes == free * size
            &&& v.active_bytes == active * size
            &&& v.inactive_bytes == inactive * size
            &&& v.speculative_bytes == speculative * size
            &&& v.wired_bytes == wired * size
            &&& v.compressed_bytes == compressed * size
            &&& v.purgeable_bytes == purgeable * size
            &&& v.file_backed_bytes == file_backed * size
            &&& v.anonymous_bytes == anonymous * size
        },
        vm_stat_fits(output) <==> {
            &&& free * size <= i64::MAX
            &&& active * size <= i64::MAX
            &&& inactive * size <= i64::MAX
            &&& speculative * size <= i64::MAX
            &&& wired * size <= i64::MAX
            &&& compressed * size <= i64::MAX
            &&& purgeable * size <= i64::MAX
            &&& file_backed * size <= i64::MAX
            &&& anonymous * size <= i64::MAX
        },
{
    let all = lines(output);
    lemma_page_size(all, size);
    reveal_strlit("Pages free");
    assert("Pages free"@.len() == 10);
    lemma_pages(all, "Pages free"@, free);
    reveal_strlit("Pages active");
    assert("Pages active"@.len() == 12);
    lemma_pages(all, "Pages active"@, active);
    reveal_strlit("Pages inactive");
    assert("Pages inactive"@.len() == 14);
    lemma_pages(all, "Pages inactive"@, inactive);
    reveal_strlit("Pages speculative");
    assert("Pages speculative"@.len() == 17);
    lemma_pages(all, "Pages speculative"@, speculative);
    reveal_strlit("Pages wired down");
    assert("Pages wired down"@.len() == 16);
    lemma_pages(all, "Pages wired down"@, wired);
    reveal_strlit("Pages occupied by compressor");
    assert("Pages occupied by compressor"@.len() == 28);
    lemma_pages(all, "Pages occupied by compressor"@, compressed);
    reveal_strlit("Pages purgeable");
    assert("Pages purgeable"@.len() == 15);
    lemma_pages(all, "Pages purgeable"@, purgeable);
    reveal_strlit("File-backed pages");
    assert("File-backed pages"@.len() == 17);
    lemma_pages(all, "File-backed pages"@, file_backed);
    reveal_strlit("Anonymous pages");
    assert("Anonymous pages"@.len() == 15);
    lemma_pages(all, "Anonymous pages"@, anonymous);
    assert(free * size >= 0) by (nonlinear_arith);
    assert(active * size >= 0) by (nonlinear_arith);
    assert(inactive * size >= 0) by (nonlinear_arith);
    assert(speculative * size >= 0) by (nonlinear_arith);
    assert(wired * size >= 0) by (nonlinear_arith);
    assert(compressed * size >= 0) by (nonlinear_arith);
    assert(purgeable * size >= 0) by (nonlinear_arith);
    assert(file_backed * size >= 0) by (nonlinear_arith);
    assert(anonymous * size >= 0) by (nonlinear_arith);
}

proof fn lemma_metrics(hostname: Seq<char>, f: Findings)
    ensures
        ({
            let told = metrics_report(hostname, f);
            &&& told.get("collected_at"@) == Some(moment_value(f.collected_at))
            &&& told.get("hostname"@) == Some(JsonView::Str(hostname))
            &&& told.get("platform"@) == Some(JsonView::Object(platform_entries(f.platform)))
            &&& told.get("cpu"@) == Some(JsonView::Object(cpu_entries(f)))
            &&& told.get("memory"@) == Some(JsonView::Object(memory_entries(f)))
            &&& told.get("swap"@) == Some(swap_report(f.swap))
            &&& told.get("activity_monitor"@) == Some(JsonView::Object(activity_entries(f)))
            &&& told.get("disk"@) == Some(JsonView::Object(disk_entries(f)))
            &&& told.get("uptime_seconds"@) == Some(f.uptime_seconds@)
            &&& told.get("agent_process"@) == Some(JsonView::Object(process_entries(f)))
        }),
{
    let entries = metrics_report(hostname, f)->Object_0;
    reveal_strlit("collected_at");
    assert("collected_at"@.len() == 12);
    reveal_strlit("hostname");
    assert("hostname"@.len() == 8);
    reveal_strlit("platform");
    assert("platform"@.len() == 8);
    reveal_strlit("cpu");
    assert("cpu"@.len() == 3);
    reveal_strlit("memory");
    assert("memory"@.len() == 6);
    reveal_strlit("swap");
    assert("swap"@.len() == 4);
    reveal_strlit("activity_monitor");
    assert("activity_monitor"@.len() == 16);
    reveal_strlit("disk");
    assert("disk"@.len() == 4);
    reveal_strlit("uptime_seconds");
    assert("uptime_seconds"@.len() == 14);
    reveal_strlit("agent_process");
    assert("agent_process"@.len() == 13);
    assert("hostname"@[0] != "platform"@[0]);
    assert("swap"@[0] != "disk"@[0]);
    lemma_entry_value(entries, "collected_at"@, 0);
    lemma_entry_value(entries, "hostname"@, 1);
    lemma_entry_value(entries, "platform"@, 2);
    lemma_entry_value(entries, "cpu"@, 3);
    lemma_entry_value(entries, "memory"@, 4);
    lemma_entry_value(entries, "swap"@, 5);
    lemma_entry_value(entries, "activity_monitor"@, 6);
    lemma_entry_value(entries, "disk"@, 7);
    lemma_entry_value(entries, "uptime_seconds"@, 8);
    lemma_entry_value(entries, "agent_process"@, 9);
}

/// The report on the memory, where it is known, shows each number of bytes under its own
/// name, in both of its parts; the memory in use is what is left of the whole without what
/// is free and what is a copy of files, and nothing where that is more than the whole.
pub proof fn law_memory_reported(hostname: Seq<char>, f: Findings, total: i64, v: VmStat)
    requires
        f.total_memory == Some(total),
        f.vm == Some(v),
        memory_can_be_told(f.total_memory, f.vm),
    ensures
        ({
            let told = metrics_report(hostname, f);
            let left = total - v.free_bytes - v.file_backed_bytes;
            let used = if left < 0 {
                0i64
            } else {
                left as i64
            };
            &&& told.get("memory"@) matches Some(m) && {
                &&& m.get("total_bytes"@) == Some(int_value(total))
                &&& m.get("used_bytes"@) == Some(int_value(used))
                &&& m.get("raw_used_bytes"@) == Some(int_value((total - v.free_bytes) as i64))
                &&& m.get("free_bytes"@) == Some(int_value(v.free_bytes))
                &&& m.get("cached_files_bytes"@) == Some(int_value(v.file_backed_bytes))
                &&& m.get("app_memory_bytes"@) == Some(int_value(v.anonymous_bytes))
                &&& m.get("active_bytes"@) == Some(int_value(v.active_bytes))
                &&& m.get("inactive_bytes"@) == Some(int_value(v.inactive_bytes))
                &&& m.get("speculative_bytes"@) == Some(int_value(v.speculative_bytes))
                &&& m.get("wired_bytes"@) == Some(int_value(v.wired_bytes))
                &&& m.get("compressed_bytes"@) == Some(int_value(v.compressed_bytes))
                &&& m.get("purgeable_bytes"@) == Some(int_value(v.purgeable_bytes))
                &&& m.get("file_backed_bytes"@) == Some(int_value(v.file_backed_bytes))
            }
            &&& told.get("activity_monitor"@) matches Some(a) && a.get("memory"@) matches Some(m)
                && {
                &&& m.get("physical_memory_bytes"@) == Some(int_value(total))
                &&& m.get("memory_used_bytes"@) == Some(int_value(used))
                &&& m.get("cached_files_bytes"@) == Some(int_value(v.file_backed_bytes))
                &&& m.get("app_memory_bytes"@) == Some(int_value(v.anonymous_bytes))
                &&& m.get("wired_memory_bytes"@) == Some(int_value(v.wired_bytes))
                &&& m.get("compressed_bytes"@) == Some(int_value(v.compressed_bytes))
                &&& m.get("swap_used_bytes"@) == Some(
                    match f.swap {
                        Some(s) => match s.used {
                            Some(n) => int_value(n),
                            None => JsonView::Null,
                        },
                        None => JsonView::Null,
                    },
                )
            }
        }),
{
    lemma_metrics(hostname, f);
    let entries = memory_entries(f);
    let monitor = monitor_entries(f);
    let activity = activity_entries(f);
    reveal_strlit("total_bytes");
    assert("total_bytes"@.len() == 11);
    reveal_strlit("used_bytes");
    assert("used_bytes"@.len() == 10);
    reveal_strlit("raw_used_bytes");
    assert("raw_used_bytes"@.len() == 14);
    reveal_strlit("free_bytes");
    assert("free_bytes"@.len() == 10);
    reveal_strlit("cached_files_bytes");
    assert("cached_files_bytes"@.len() == 18);
    reveal_strlit("app_memory_bytes");
    assert("app_memory_bytes"@.len() == 16);
    reveal_strlit("active_bytes");
    assert("active_bytes"@.len() == 12);
    reveal_strlit("inactive_bytes");
    assert("inactive_bytes"@.len() == 14);
    reveal_strlit("speculative_bytes");
    assert("speculative_bytes"@.len() == 17);
    reveal_strlit("wired_bytes");
    assert("wired_bytes"@.len() == 11);
    reveal_strlit("compressed_bytes");
    assert("compressed_bytes"@.len() == 16);
    reveal_strlit("purgeable_bytes");
    assert("purgeable_bytes"@.len() == 15);
    reveal_strlit("file_backed_bytes");
    assert("file_backed_bytes"@.len() == 17);
    reveal_strlit("physical_memory_bytes");
    assert("physical_memory_bytes"@.len() == 21);
    reveal_strlit("memory_used_bytes");
    assert("memory_used_bytes"@.len() == 17);
    reveal_strlit("wired_memory_bytes");
    assert("wired_memory_bytes"@.len() == 18);
    reveal_strlit("swap_used_bytes");
    assert("swap_used_bytes"@.len() == 15);
    reveal_strlit("memory");
    assert("memory"@.len() == 6);
    assert("used_bytes"@[0] != "free_bytes"@[0]);
    assert("raw_used_bytes"@[0] != "inactive_bytes"@[0]);
    assert("total_bytes"@[0] != "wired_bytes"@[0]);
    assert("app_memory_bytes"@[0] != "compressed_bytes"@[0]);
    assert("speculative_bytes"@[0] != "file_backed_bytes"@[0]);
    lemma_entry_value(entries, "total_bytes"@, 0);
    lemma_entry_value(entries, "used_bytes"@, 1);
    lemma_entry_value(entries, "raw_used_bytes"@, 2);
    lemma_entry_value(entries, "free_bytes"@, 3);
    lemma_entry_value(entries, "cached_files_bytes"@, 4);
    lemma_entry_value(entries, "app_memory_bytes"@, 5);
    lemma_entry_value(entries, "active_bytes"@, 6);
    lemma_entry_value(entries, "inactive_bytes"@, 7);
    lemma_entry_value(entries, "speculative_bytes"@, 8);
    lemma_entry_value(entries, "wired_bytes"@, 9);
    lemma_entry_value(entries, "compressed_bytes"@, 10);
    lemma_entry_value(entries, "purgeable_bytes"@, 11);
    lemma_entry_value(entries, "file_backed_bytes"@, 12);
    assert("cached_files_bytes"@[0] != "wired_memory_bytes"@[0]);
    assert("app_memory_bytes"@[0] != "compressed_bytes"@[0]);
    lemma_entry_value(monitor, "physical_memory_bytes"@, 0);
    lemma_entry_value(monitor, "memory_used_bytes"@, 1);
    lemma_entry_value(monitor, "cached_files_bytes"@, 2);
    lemma_entry_value(monitor, "app_memory_bytes"@, 3);
    lemma_entry_value(monitor, "wired_memory_bytes"@, 4);
    lemma_entry_value(monitor, "compressed_bytes"@, 5);
    lemma_entry_value(monitor, "swap_used_bytes"@, 6);
    lemma_entry_value(activity, "memory"@, 0);
}

/// The rest of the report on the machine shows each finding under its own name.
pub proof fn law_machine_reported(hostname: Seq<char>, f: Findings, s: SwapUsage)
    ensures
        ({
            let told = metrics_report(hostname, f);
            &&& told.get("collected_at"@) == Some(moment_value(f.collected_at))
            &&& told.get("hostname"@) == Some(JsonView::Str(hostname))
            &&& told.get("uptime_seconds"@) == Some(f.uptime_seconds@)
            &&& told.get("platform"@) matches Some(p) && {
                &&& p.get("system"@) == Some(JsonView::Str("Darwin"@))
                &&& p.get("release"@) == Some(JsonView::Str(f.platform.release@))
                &&& p.get("version"@) == Some(JsonView::Str(f.platform.version@))
                &&& p.get("mac_ver"@) == Some(JsonView::Str(f.platform.mac_ver@))
                &&& p.get("machine"@) == Some(JsonView::Str(f.platform.machine@))
            }
            &&& told.get("cpu"@) matches Some(c) && {
                &&& c.get("logical_cores"@) == Some(int_value(f.logical_cores))
                &&& c.get("loadavg_1m"@) == Some(f.load_1m@)
                &&& c.get("loadavg_5m"@) == Some(f.load_5m@)
                &&& c.get("loadavg_15m"@) == Some(f.load_15m@)
            }
            &&& told.get("disk"@) matches Some(d) && {
                &&& d.get("root_total_bytes"@) == Some(nat_value(f.root.total))
                &&& d.get("root_used_bytes"@) == Some(nat_value(f.root.used))
                &&& d.get("root_free_bytes"@) == Some(nat_value(f.root.free))
                &&& d.get("home_total_bytes"@) == Some(nat_value(f.home.total))
                &&& d.get("home_used_bytes"@) == Some(nat_value(f.home.used))
                &&& d.get("home_free_bytes"@) == Some(nat_value(f.home.free))
            }
            &&& told.get("agent_process"@) matches Some(p) && {
                &&& p.get("pid"@) == Some(nat_value(f.pid as u64))
                &&& p.get("rss_bytes"@) == Some(
                    match f.rss_bytes {
                        Some(n) => int_value(n),
                        None => JsonView::Null,
                    },
                )
            }
            &&& f.swap == Some(s) ==> (told.get("swap"@) matches Some(w) && {
                &&& w.get("total_bytes"@) == Some(int_or_null(s.total))
                &&& w.get("used_bytes"@) == Some(int_or_null(s.used))
                &&& w.get("free_bytes"@) == Some(int_or_null(s.free))
                &&& w.get("raw"@) == Some(JsonView::Str(s.raw@))
            })
            &&& f.swap is None ==> told.get("swap"@) == Some(JsonView::Object(Seq::empty()))
        }),
{
    lemma_metrics(hostname, f);
    let platform = platform_entries(f.platform);
    let cpu = cpu_entries(f);
    let disk = disk_entries(f);
    let process = process_entries(f);
    reveal_strlit("system");
    assert("system"@.len() == 6);
    reveal_strlit("release");
    assert("release"@.len() == 7);
    reveal_strlit("version");
    assert("version"@.len() == 7);
    reveal_strlit("mac_ver");
    assert("mac_ver"@.len() == 7);
    reveal_strlit("machine");
    assert("machine"@.len() == 7);
    reveal_strlit("logical_cores");
    assert("logical_cores"@.len() == 13);
    reveal_strlit("loadavg_1m");
    assert("loadavg_1m"@.len() == 10);
    reveal_strlit("loadavg_5m");
    assert("loadavg_5m"@.len() == 10);
    reveal_strlit("loadavg_15m");
    assert("loadavg_15m"@.len() == 11);
    reveal_strlit("root_total_bytes");
    assert("root_total_bytes"@.len() == 16);
    reveal_strlit("root_used_bytes");
    assert("root_used_bytes"@.len() == 15);
    reveal_strlit("root_free_bytes");
    assert("root_free_bytes"@.len() == 15);
    reveal_strlit("home_total_bytes");
    assert("home_total_bytes"@.len() == 16);
    reveal_strlit("home_used_bytes");
    assert("home_used_bytes"@.len() == 15);
    reveal_strlit("home_free_bytes");
    assert("home_free_bytes"@.len() == 15);
    reveal_strlit("pid");
    assert("pid"@.len() == 3);
    reveal_strlit("rss_bytes");
    assert("rss_bytes"@.len() == 9);
    reveal_strlit("total_bytes");
    assert("total_bytes"@.len() == 11);
    reveal_strlit("used_bytes");
    assert("used_bytes"@.len() == 10);
    reveal_strlit("free_bytes");
    assert("free_bytes"@.len() == 10);
    reveal_strlit("raw");
    assert("raw"@.len() == 3);
    assert("release"@[0] != "version"@[0]);
    assert("release"@[0] != "mac_ver"@[0]);
    assert("version"@[0] != "mac_ver"@[0]);
    assert("release"@[0] != "machine"@[0]);
    assert("version"@[0] != "machine"@[0]);
    assert("mac_ver"@[3] != "machine"@[3]);
    lemma_entry_value(platform, "system"@, 0);
    lemma_entry_value(platform, "release"@, 1);
    lemma_entry_value(platform, "version"@, 2);
    lemma_entry_value(platform, "mac_ver"@, 3);
    lemma_entry_value(platform, "machine"@, 4);
    assert("loadavg_1m"@[8] != "loadavg_5m"@[8]);
    lemma_entry_value(cpu, "logical_cores"@, 0);
    lemma_entry_value(cpu, "loadavg_1m"@, 1);
    lemma_entry_value(cpu, "loadavg_5m"@, 2);
    lemma_entry_value(cpu, "loadavg_15m"@, 3);
    assert("root_used_bytes"@[5] != "root_free_bytes"@[5]);
    assert("root_total_bytes"@[0] != "home_total_bytes"@[0]);
    assert("root_used_bytes"@[0] != "home_used_bytes"@[0]);
    assert("root_free_bytes"@[0] != "home_used_bytes"@[0]);
    assert("root_used_bytes"@[0] != "home_free_bytes"@[0]);
    assert("root_free_bytes"@[0] != "home_free_bytes"@[0]);
    assert("home_used_bytes"@[5] != "home_free_bytes"@[5]);
    lemma_entry_value(disk, "root_total_bytes"@, 0);
    lemma_entry_value(disk, "root_used_bytes"@, 1);
    lemma_entry_value(disk, "root_free_bytes"@, 2);
    lemma_entry_value(disk, "home_total_bytes"@, 3);
    lemma_entry_value(disk, "home_used_bytes"@, 4);
    lemma_entry_value(disk, "home_free_bytes"@, 5);
    lemma_entry_value(process, "pid"@, 0);
    lemma_entry_value(process, "rss_bytes"@, 1);
    if f.swap == Some(s) {
        let swap = swap_report(f.swap)->Object_0;
        assert("used_bytes"@[0] != "free_bytes"@[0]);
        lemma_entry_value(swap, "total_bytes"@, 0);
        lemma_entry_value(swap, "used_bytes"@, 1);
        lemma_entry_value(swap, "free_bytes"@, 2);
        lemma_entry_value(swap, "raw"@, 3);
    }
}

/// The amount of swap space under a label is read as it is written: behind the label and an
/// equals sign, a number, and behind it the letter of its unit.
pub proof fn law_swap_read(
    before: Seq<char>,
    label: Seq<char>,
    number: Seq<char>,
    unit: char,
    rest: Seq<char>,
)
    requires
        forall|i: int|
            0 <= i < before.len() ==> !occurs_at(
                before + label + " = "@ + number.push(unit) + rest,
                label + " = "@,
                i,
            ),
        forall|i: int|
            0 <= i < number.len() ==> is_digit(#[trigger] number[i]) || number[i] == '.',
        writes_number(number),
        !is_digit(unit) && unit != '.',
    ensures
        swap_amount(before + label + " = "@ + number.push(unit) + rest, label) == Some(
            (number, unit),
        ),
{
    let mark = label + " = "@;
    let told = number.push(unit) + rest;
    let output = before + label + " = "@ + number.push(unit) + rest;
    let n = before.len() as int;
    assert(output =~= before + mark + told);
    assert(output.subrange(n, n + mark.len()) =~= mark);
    assert(occurs_at(output, mark, n));
    law_first_of(output, mark);
    assert(first_of(output, mark) == Some(n));
    assert(output.skip(n + mark.len()) =~= told);
    law_run(number, unit, rest, CharClass::NonDecimal);
    let k = number.len() as int;
    assert(told.take(k) =~= number);
    assert(told[k] == unit);
}

/// The units of swap space: each letter stands for 1024 times the one before, and what is
/// no such letter for single bytes.
pub proof fn law_swap_units(unit: char)
    ensures
        unit_bytes('K') == 1024,
        unit_bytes('M') == 1024 * unit_bytes('K'),
        unit_bytes('G') == 1024 * unit_bytes('M'),
        unit_bytes('T') == 1024 * unit_bytes('G'),
        unit != 'K' && unit != 'M' && unit != 'G' && unit != 'T' ==> unit_bytes(unit) == 1,
{
}

/// The second at which the machine was started is read as it is written: the digits behind
/// the first `sec = `, up to what is no digit.
pub proof fn law_boot_time_read(before: Seq<char>, n: nat, c: char, rest: Seq<char>)
    requires
        forall|i: int|
            0 <= i < before.len() ==> !occurs_at(
                before + "sec = "@ + dec(n).push(c) + rest,
                "sec = "@,
                i,
            ),
        !is_digit(c),
    ensures
        boot_seconds(before + "sec = "@ + dec(n).push(c) + rest) == Some(dec(n)),
{
    let mark = "sec = "@;
    let told = dec(n).push(c) + rest;
    let output = before + mark + dec(n).push(c) + rest;
    let k = before.len() as int;
    lemma_dec(n);
    assert(output =~= before + mark + told);
    assert(output.subrange(k, k + mark.len()) =~= mark);
    assert(occurs_at(output, mark, k));
    law_first_of(output, mark);
    assert(first_of(output, mark) == Some(k));
    assert(output.skip(k + mark.len()) =~= told);
    law_run(dec(n), c, rest, CharClass::NonDigit);
    assert(told.take(dec(n).len() as int) =~= dec(n));
}

proof fn lemma_word(word: Seq<char>, rest: Seq<char>)
    requires
        word.len() > 0,
        forall|j: int| 0 <= j < word.len() ==> !is_white(#[trigger] word[j]),
    ensures
        fields(word + " "@ + rest, CharClass::White) == seq![word] + fields(rest, CharClass::White),
{
    let class = CharClass::White;
    reveal_strlit(" ");
    assert forall|j: int| 0 <= j < word.len() implies !class.has(#[trigger] word[j]) by {}
    law_fields(word, ' ', rest, class);
    assert(word + " "@ + rest =~= word.push(' ') + rest);
}

proof fn lemma_number_word(n: u64)
    ensures
        dec(n as nat).len() > 0,
        forall|j: int| 0 <= j < dec(n as nat).len() ==> !is_white(#[trigger] dec(n as nat)[j]),
        u64_of(dec(n as nat)) == Some(n),
{
    lemma_dec(n as nat);
    law_decimal_read_back(n);
    assert forall|j: int| 0 <= j < dec(n as nat).len() implies !is_white(
        #[trigger] dec(n as nat)[j],
    ) by {
        assert(is_digit(dec(n as nat)[j]));
    }
}

/// Whether a text is part of one line, which it may end.
spec fn in_one_line(s: Seq<char>) -> bool {
    &&& forall|j: int| 0 <= j < s.len() ==> #[trigger] s[j] != '\n'
    &&& s.len() == 0 || s.last() != '\r'
}

proof fn lemma_one_line(word: Seq<char>, rest: Seq<char>)
    requires
        forall|j: int| 0 <= j < word.len() ==> !is_white(#[trigger] word[j]),
        in_one_line(rest),
    ensures
        in_one_line(word + " "@ + rest),
{
    reveal_strlit(" ");
    let s = word + " "@ + rest;
    let n = word.len() as int;
    assert forall|j: int| 0 <= j < s.len() implies #[trigger] s[j] != '\n' by {
        if j < n {
            assert(s[j] == word[j]);
        } else if j > n {
            assert(s[j] == rest[j - n - 1]);
        }
    }
    if rest.len() > 0 {
        assert(s.last() == rest.last());
    } else {
        assert(s.last() == ' ');
    }
}

/// The size of a disk is read from the second line that the command has written: behind the
/// name of the disk stand its kilobytes, those in use and those that are free.
#[verifier::spinoff_prover]
#[verifier::rlimit(60)]
pub proof fn law_disk_read(
    heading: Seq<char>,
    disk: Seq<char>,
    total: u64,
    used: u64,
    free: u64,
    rest: Seq<char>,
)
    requires
        forall|j: int| 0 <= j < heading.len() ==> #[trigger] heading[j] != '\n',
        heading.len() == 0 || heading.last() != '\r',
        disk.len() > 0,
        forall|j: int| 0 <= j < disk.len() ==> !is_white(#[trigger] disk[j]),
        forall|j: int| 0 <= j < rest.len() ==> #[trigger] rest[j] != '\n',
        rest.len() == 0 || rest.last() != '\r',
    ensures
        disk_kilobytes(
            heading.push('\n') + (disk + " "@ + (dec(total as nat) + " "@ + (dec(used as nat)
                + " "@ + (dec(free as nat) + " "@ + rest)))),
        ) == Some((total, free)),
{
    let dt = dec(total as nat);
    let du = dec(used as nat);
    let df = dec(free as nat);
    let l3 = df + " "@ + rest;
    let l2 = du + " "@ + l3;
    let l1 = dt + " "@ + l2;
    let line = disk + " "@ + l1;
    let text = heading.push('\n') + line;
    reveal_strlit(" ");
    lemma_number_word(total);
    lemma_number_word(used);
    lemma_number_word(free);
    lemma_word(df, rest);
    lemma_word(du, l3);
    lemma_word(dt, l2);
    lemma_word(disk, l1);
    lemma_one_line(df, rest);
    lemma_one_line(du, l3);
    lemma_one_line(dt, l2);
    lemma_one_line(disk, l1);
    law_lines(heading, line);
    law_lines(line, Seq::empty());
    assert(lines(text) =~= seq![heading, line]);
    let words = fields(line, CharClass::White);
    assert(words =~= seq![disk, dt, du, df] + fields(rest, CharClass::White));
}

/// The bytes of a disk: what is in use and what is free make up the whole, as long as no more
/// is free than there is; and where nothing is known, all is nothing.
pub proof fn law_disk_usage(kilobytes: Option<(u64, u64)>, r: DiskUsage)
    requires
        call_ensures(disk_usage, (kilobytes,), r),
    ensures
        kilobytes matches Some(k) ==> r.total == 1024 * k.0 && r.free == 1024 * k.1 && (k.1 <= k.0
            ==> r.used + r.free == r.total) && (k.1 > k.0 ==> r.used == 0),
        kilobytes is None ==> r.total == 0 && r.used == 0 && r.free == 0,
{
}

/// A number that a system command writes is read with whatever white space is around it.
pub proof fn law_number_read(before: Seq<char>, n: i64, behind: Seq<char>)
    requires
        forall|i: int| 0 <= i < before.len() ==> is_white(#[trigger] before[i]),
        forall|i: int| 0 <= i < behind.len() ==> is_white(#[trigger] behind[i]),
    ensures
        number_in(Some(before + dec_int(n as int) + behind)) == Some(n),
        number_in(None) is None,
{
    let s = dec_int(n as int);
    law_decimal_i64_read_back(n);
    if n < 0 {
        let d = dec((-n) as nat);
        lemma_dec((-n) as nat);
        assert(s[0] == '-');
        assert(s.last() == d.last());
        assert(is_digit(d[d.len() - 1]));
    } else {
        let d = dec(n as nat);
        lemma_dec(n as nat);
        assert(is_digit(d[0]));
        assert(is_digit(d[d.len() - 1]));
    }
    assert forall|i: int| 0 <= i < before.len() implies CharClass::White.has(#[trigger] before[i]) by {}
    assert forall|i: int| 0 <= i < behind.len() implies CharClass::White.has(#[trigger] behind[i]) by {}
    law_trimmed(before, s, behind, CharClass::White);
}

/// Metrics are shown again for half a minute, unless new ones are asked for.
pub proof fn law_fresh(age_seconds: u64, force_refresh: bool, r: bool)
    requires
        call_ensures(metrics_are_fresh, (age_seconds, force_refresh), r),
    ensures
        r <==> !force_refresh && age_seconds < 30,
{
}

/// A command has to say what it wrote, and only where that is blank what it wrote to its
/// error output; where both are blank, nothing.
pub proof fn law_command_text(stdout: &str, stderr: &str, r: Option<String>)
    requires
        call_ensures(command_text, (stdout, stderr), r),
    ensures
        trimmed(stdout@).len() > 0 ==> (r matches Some(t) && t@ == trimmed(stdout@)),
        trimmed(stdout@).len() == 0 && trimmed(stderr@).len() > 0 ==> (r matches Some(t) && t@
            == trimmed(stderr@)),
        trimmed(stdout@).len() == 0 && trimmed(stderr@).len() == 0 ==> r is None,
{
}

/// Pages whose size is not told count as ones of four kilobytes.
pub proof fn law_page_size_unknown(output: Seq<char>, v: VmStat)
    requires
        lines(output).len() == 0 || !occurs(lines(output)[0], "page size of "@),
    ensures
        is_vm_stat(v, output) ==> v.page_size == 4096,
{
    if lines(output).len() > 0 {
        law_first_of(lines(output)[0], "page size of "@);
    }
}

} // verus!
