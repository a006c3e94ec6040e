//! The lunar calendar tool: reading a Gregorian (`YYYY-MM-DD`) or lunisolar
//! (`lunar:YYYY-MM-DD`, `lunar:YYYY-闰MM-DD`) date, converting between the two
//! calendars, naming the year's stem and branch and its animal, and reckoning
//! the four pillars (八字) of a birth time with their weight.
//!
//! The calendar tables are those of the `chinese-lunisolar-calendar` crate and
//! the date parsing is chrono's; both are reached through the trusted items
//! of this module, whose results are named by the spec functions below.

use vstd::prelude::*;
use chrono::Datelike;
use chrono::Timelike;
use chinese_lunisolar_calendar::{ChineseVariant, EarthlyBranch, LunisolarDate};
use crate::text::{chars_of, string_of, extend_chars, decimal, digit_char, push_decimal, parse_usize, parse_usize_chars, has_prefix, starts_with, chars_equal};

verus! {

// ---------------------------------------------------------------------------
// Dates and times of day
// ---------------------------------------------------------------------------

/// A date of the proleptic Gregorian calendar.
#[derive(Clone, Copy, Debug, PartialEq, Eq, Structural)]
pub struct CivilDate {
    pub year: i32,
    pub month: u32,
    pub day: u32,
}

/// A time of day to the minute, as read from `HH:MM`.
#[derive(Clone, Copy, Debug, PartialEq, Eq, Structural)]
pub struct ClockTime {
    pub hour: u32,
    pub minute: u32,
}

/// Gregorian leap years.
pub open spec fn is_leap_year(y: int) -> bool {
    (y % 4 == 0 && y % 100 != 0) || y % 400 == 0
}

/// The number of days in month `m` of year `y`.
pub open spec fn days_in_month(y: int, m: int) -> int {
    if m == 2 {
        if is_leap_year(y) { 29 } else { 28 }
    } else if m == 4 || m == 6 || m == 9 || m == 11 {
        30
    } else {
        31
    }
}

/// A date that chrono can hold: a real day of a year between -262143 and 262142.
pub open spec fn is_calendar_date(d: CivilDate) -> bool {
    &&& -262143 <= d.year <= 262142
    &&& 1 <= d.month <= 12
    &&& 1 <= d.day <= days_in_month(d.year as int, d.month as int)
}

/// A time of day: hour below 24, minute below 60.
pub open spec fn is_clock_time(t: ClockTime) -> bool {
    t.hour < 24 && t.minute < 60
}

// ---------------------------------------------------------------------------
// Writing dates and times (chrono's `%Y`, `%m`, `%d`, `%H`, `%M`)
// ---------------------------------------------------------------------------

/// `n` (below 100) as two digits.
pub open spec fn two_digits(n: nat) -> Seq<char> {
    seq![digit_char(n / 10), digit_char(n % 10)]
}

/// `n` in decimal, zero-padded on the left to at least four digits.
pub open spec fn four_digits(n: nat) -> Seq<char> {
    if n < 10 {
        "000"@ + decimal(n)
    } else if n < 100 {
        "00"@ + decimal(n)
    } else if n < 1000 {
        "0"@ + decimal(n)
    } else {
        decimal(n)
    }
}

/// A year as chrono writes it: four digits from 0 to 9999, otherwise an
/// explicit sign before at least four digits.
pub open spec fn year_text(y: int) -> Seq<char> {
    if 0 <= y <= 9999 {
        four_digits(y as nat)
    } else if y < 0 {
        "-"@ + four_digits((-y) as nat)
    } else {
        "+"@ + four_digits(y as nat)
    }
}

/// `YYYY-MM-DD`.
pub open spec fn iso_date_text(d: CivilDate) -> Seq<char> {
    year_text(d.year as int) + "-"@ + two_digits(d.month as nat) + "-"@ + two_digits(d.day as nat)
}

/// `YYYY年MM月DD日`.
pub open spec fn chinese_date_text(d: CivilDate) -> Seq<char> {
    year_text(d.year as int) + "年"@ + two_digits(d.month as nat) + "月"@ + two_digits(d.day as nat)
        + "日"@
}

/// `HH:MM`.
pub open spec fn clock_text(t: ClockTime) -> Seq<char> {
    two_digits(t.hour as nat) + ":"@ + two_digits(t.minute as nat)
}

fn digit(d: u32) -> (c: char)
    requires
        d < 10,
    ensures
        c == digit_char(d as nat),
{
    if d == 0 {
        '0'
    } else if d == 1 {
        '1'
    } else if d == 2 {
        '2'
    } else if d == 3 {
        '3'
    } else if d == 4 {
        '4'
    } else if d == 5 {
        '5'
    } else if d == 6 {
        '6'
    } else if d == 7 {
        '7'
    } else if d == 8 {
        '8'
    } else {
        '9'
    }
}

fn push_two_digits(out: &mut Vec<char>, n: u32)
    requires
        n < 100,
    ensures
        final(out)@ == old(out)@ + two_digits(n as nat),
{
    out.push(digit(n / 10));
    out.push(digit(n % 10));
    assert(out@ =~= old(out)@ + two_digits(n as nat));
}

fn push_four_digits(out: &mut Vec<char>, n: u32)
    ensures
        final(out)@ == old(out)@ + four_digits(n as nat),
{
    let ghost start = out@;
    if n < 10 {
        extend_chars(out, chars_of("000").as_slice());
    } else if n < 100 {
        extend_chars(out, chars_of("00").as_slice());
    } else if n < 1000 {
        extend_chars(out, chars_of("0").as_slice());
    }
    push_decimal(out, n as u64);
    proof {
        if n < 10 {
            assert(out@ =~= start + ("000"@ + decimal(n as nat)));
        } else if n < 100 {
            assert(out@ =~= start + ("00"@ + decimal(n as nat)));
        } else if n < 1000 {
            assert(out@ =~= start + ("0"@ + decimal(n as nat)));
        } else {
            assert(out@ =~= start + decimal(n as nat));
        }
    }
}

fn push_year(out: &mut Vec<char>, y: i32)
    ensures
        final(out)@ == old(out)@ + year_text(y as int),
{
    let ghost start = out@;
    if 0 <= y && y <= 9999 {
        push_four_digits(out, y as u32);
    } else if y < 0 {
        extend_chars(out, chars_of("-").as_slice());
        let a: i64 = -(y as i64);
        push_four_digits(out, a as u32);
        assert(out@ =~= start + ("-"@ + four_digits((-y) as nat)));
    } else {
        extend_chars(out, chars_of("+").as_slice());
        push_four_digits(out, y as u32);
        assert(out@ =~= start + ("+"@ + four_digits(y as nat)));
    }
}

fn push_str(out: &mut Vec<char>, s: &str)
    ensures
        final(out)@ == old(out)@ + s@,
{
    extend_chars(out, chars_of(s).as_slice());
}

impl CivilDate {
    /// The date as `YYYY-MM-DD` (chrono's `NaiveDate` display).
    pub fn to_string(&self) -> (r: String)
        requires
            self.month < 100,
            self.day < 100,
        ensures
            r@ == iso_date_text(*self),
    {
        let mut out: Vec<char> = Vec::new();
        push_year(&mut out, self.year);
        push_str(&mut out, "-");
        push_two_digits(&mut out, self.month);
        push_str(&mut out, "-");
        push_two_digits(&mut out, self.day);
        assert(out@ =~= iso_date_text(*self));
        string_of(out.as_slice())
    }

    /// The date as `YYYY年MM月DD日`.
    pub fn chinese_text(&self) -> (r: String)
        requires
            self.month < 100,
            self.day < 100,
        ensures
            r@ == chinese_date_text(*self),
    {
        let mut out: Vec<char> = Vec::new();
        push_year(&mut out, self.year);
        push_str(&mut out, "年");
        push_two_digits(&mut out, self.month);
        push_str(&mut out, "月");
        push_two_digits(&mut out, self.day);
        push_str(&mut out, "日");
        assert(out@ =~= chinese_date_text(*self));
        string_of(out.as_slice())
    }
}

impl ClockTime {
    /// The time as `HH:MM`.
    pub fn to_string(&self) -> (r: String)
        requires
            self.hour < 100,
            self.minute < 100,
        ensures
            r@ == clock_text(*self),
    {
        let mut out: Vec<char> = Vec::new();
        push_two_digits(&mut out, self.hour);
        push_str(&mut out, ":");
        push_two_digits(&mut out, self.minute);
        assert(out@ =~= clock_text(*self));
        string_of(out.as_slice())
    }
}

// ---------------------------------------------------------------------------
// Heavenly stems, earthly branches and the four pillars
// ---------------------------------------------------------------------------

/// The heavenly stem of ordinal `i` (甲 is 0).
pub open spec fn stem_char(i: int) -> char {
    if i == 0 {
        '甲'
    } else if i == 1 {
        '乙'
    } else if i == 2 {
        '丙'
    } else if i == 3 {
        '丁'
    } else if i == 4 {
        '戊'
    } else if i == 5 {
        '己'
    } else if i == 6 {
        '庚'
    } else if i == 7 {
        '辛'
    } else if i == 8 {
        '壬'
    } else {
        '癸'
    }
}

/// The earthly branch of ordinal `i` (子 is 0).
pub open spec fn branch_char(i: int) -> char {
    if i == 0 {
        '子'
    } else if i == 1 {
        '丑'
    } else if i == 2 {
        '寅'
    } else if i == 3 {
        '卯'
    } else if i == 4 {
        '辰'
    } else if i == 5 {
        '巳'
    } else if i == 6 {
        '午'
    } else if i == 7 {
        '未'
    } else if i == 8 {
        '申'
    } else if i == 9 {
        '酉'
    } else if i == 10 {
        '戌'
    } else {
        '亥'
    }
}

/// The character of the heavenly stem of ordinal `i`.
pub fn stem_name(i: u8) -> (c: char)
    ensures
        c == stem_char(i as int),
{
    if i == 0 {
        '甲'
    } else if i == 1 {
        '乙'
    } else if i == 2 {
        '丙'
    } else if i == 3 {
        '丁'
    } else if i == 4 {
        '戊'
    } else if i == 5 {
        '己'
    } else if i == 6 {
        '庚'
    } else if i == 7 {
        '辛'
    } else if i == 8 {
        '壬'
    } else {
        '癸'
    }
}

/// The character of the earthly branch of ordinal `i`.
pub fn branch_name(i: u8) -> (c: char)
    ensures
        c == branch_char(i as int),
{
    if i == 0 {
        '子'
    } else if i == 1 {
        '丑'
    } else if i == 2 {
        '寅'
    } else if i == 3 {
        '卯'
    } else if i == 4 {
        '辰'
    } else if i == 5 {
        '巳'
    } else if i == 6 {
        '午'
    } else if i == 7 {
        '未'
    } else if i == 8 {
        '申'
    } else if i == 9 {
        '酉'
    } else if i == 10 {
        '戌'
    } else {
        '亥'
    }
}

/// One pillar: a heavenly stem and an earthly branch, by ordinal.
#[derive(Clone, Copy, Debug, PartialEq, Eq, Structural)]
pub struct Pillar {
    pub stem: u8,
    pub branch: u8,
}

/// A pillar whose ordinals name a stem and a branch.
pub open spec fn is_pillar(p: Pillar) -> bool {
    p.stem < 10 && p.branch < 12
}

/// The two characters of a pillar, stem first.
pub open spec fn pillar_text(p: Pillar) -> Seq<char> {
    seq![stem_char(p.stem as int), branch_char(p.branch as int)]
}

impl Pillar {
    /// The pillar's two characters.
    pub fn text(&self) -> (r: String)
        ensures
            r@ == pillar_text(*self),
    {
        let mut out: Vec<char> = Vec::new();
        out.push(stem_name(self.stem));
        out.push(branch_name(self.branch));
        assert(out@ =~= pillar_text(*self));
        string_of(out.as_slice())
    }
}

/// The day pillar of the day `days` days after 0001-01-01: both cycles are
/// counted from ordinal 9 on that day.
pub open spec fn day_pillar(days: int) -> Pillar {
    Pillar { stem: ((days + 9) % 10) as u8, branch: ((days + 9) % 12) as u8 }
}

/// The stem that opens the first month of a year whose stem is `year_stem`
/// (甲己之年丙作首, 乙庚之岁戊为头, 丙辛寻庚, 丁壬起壬, 戊癸起甲).
pub open spec fn first_month_stem(year_stem: int) -> int {
    let k = year_stem % 5;
    if k == 0 {
        2
    } else if k == 1 {
        4
    } else if k == 2 {
        6
    } else if k == 3 {
        8
    } else {
        0
    }
}

/// The month pillar of lunar month `month` (1 to 12) in a year of stem
/// `year_stem`: the first month is 寅, and stems run on from `first_month_stem`.
pub open spec fn month_pillar(year_stem: int, month: int) -> Pillar {
    Pillar {
        stem: ((first_month_stem(year_stem) + month - 1) % 10) as u8,
        branch: ((month + 1) % 12) as u8,
    }
}

/// The branch of the two-hour period that holds `hour` (23 and 0 are 子).
pub open spec fn hour_branch(hour: int) -> int {
    ((hour + 1) % 24) / 2
}

/// The stem that opens the day of stem `day_stem` at 子 hour
/// (甲己还加甲, 乙庚丙作初, 丙辛从戊起, 丁壬庚子居, 戊癸起壬).
pub open spec fn first_hour_stem(day_stem: int) -> int {
    let k = day_stem % 5;
    if k == 0 {
        0
    } else if k == 1 {
        2
    } else if k == 2 {
        4
    } else if k == 3 {
        6
    } else {
        8
    }
}

/// The hour pillar at `hour` on a day of stem `day_stem`.
pub open spec fn hour_pillar(day_stem: int, hour: int) -> Pillar {
    Pillar {
        stem: ((first_hour_stem(day_stem) + hour_branch(hour)) % 10) as u8,
        branch: hour_branch(hour) as u8,
    }
}

fn day_pillar_of_days(days: i64) -> (r: Pillar)
    requires
        -9 <= days <= i64::MAX - 9,
    ensures
        r == day_pillar(days as int),
        is_pillar(r),
{
    let n = days + 9;
    Pillar { stem: (n % 10) as u8, branch: (n % 12) as u8 }
}

/// The month pillar of lunar month `month` in a year of stem `year_stem`.
fn month_pillar_of(year_stem: u8, month: u8) -> (r: Pillar)
    requires
        1 <= month <= 12,
    ensures
        r == month_pillar(year_stem as int, month as int),
        is_pillar(r),
{
    let k = year_stem % 5;
    let base: u8 = if k == 0 {
        2
    } else if k == 1 {
        4
    } else if k == 2 {
        6
    } else if k == 3 {
        8
    } else {
        0
    };
    Pillar { stem: (base + month - 1) % 10, branch: (month + 1) % 12 }
}

/// The branch ordinal of the two-hour period holding `hour`.
pub fn hour_branch_of(hour: u32) -> (r: u8)
    requires
        hour < 24,
    ensures
        r == hour_branch(hour as int),
        r < 12,
{
    (((hour + 1) % 24) / 2) as u8
}

/// The hour stem on a day of stem `day_stem` at the period of branch `branch`.
pub fn calculate_hour_stem(day_stem: u8, branch: u8) -> (r: u8)
    requires
        branch < 12,
    ensures
        r == (first_hour_stem(day_stem as int) + branch) % 10,
        r < 10,
{
    let k = day_stem % 5;
    let base: u8 = if k == 0 {
        0
    } else if k == 1 {
        2
    } else if k == 2 {
        4
    } else if k == 3 {
        6
    } else {
        8
    };
    (base + branch) % 10
}

// ---------------------------------------------------------------------------
// Splitting and trimming text
// ---------------------------------------------------------------------------

/// The pieces of `s` between occurrences of `c` (std `str::split` with a
/// character): one more piece than there are occurrences, empty ones kept.
pub open spec fn split_char(s: Seq<char>, c: char) -> Seq<Seq<char>>
    decreases s.len(),
{
    if s.len() == 0 {
        seq![Seq::<char>::empty()]
    } else {
        let r = split_char(s.drop_first(), c);
        if s[0] == c {
            seq![Seq::<char>::empty()] + r
        } else {
            r.update(0, seq![s[0]] + r[0])
        }
    }
}

/// `s` without the characters `c` at its end (std `trim_end_matches` with a character).
pub open spec fn trim_end_char(s: Seq<char>, c: char) -> Seq<char>
    decreases s.len(),
{
    if s.len() > 0 && s.last() == c {
        trim_end_char(s.drop_last(), c)
    } else {
        s
    }
}

proof fn lemma_split_nonempty(s: Seq<char>, c: char)
    ensures
        split_char(s, c).len() >= 1,
    decreases s.len(),
{
    if s.len() > 0 {
        lemma_split_nonempty(s.drop_first(), c);
    }
}

/// `cur` put in front of the first of the pieces `r`.
spec fn onto_first(cur: Seq<char>, r: Seq<Seq<char>>) -> Seq<Seq<char>> {
    r.update(0, cur + r[0])
}

/// The views of a vector of character vectors.
pub open spec fn piece_views(v: Seq<Vec<char>>) -> Seq<Seq<char>> {
    v.map_values(|x: Vec<char>| x@)
}

/// Splits `s` at every `c` (see `split_char`).
pub fn split_at_char(s: &[char], c: char) -> (r: Vec<Vec<char>>)
    ensures
        piece_views(r@) == split_char(s@, c),
{
    let mut parts: Vec<Vec<char>> = Vec::new();
    let mut cur: Vec<char> = Vec::new();
    let mut i: usize = 0;
    proof {
        lemma_split_nonempty(s@, c);
        assert(s@.skip(0) =~= s@);
        assert(onto_first(cur@, split_char(s@, c)) =~= split_char(s@, c));
        assert(piece_views(parts@) + onto_first(cur@, split_char(s@, c)) =~= split_char(s@, c));
    }
    while i < s.len()
        invariant
            i <= s.len(),
            split_char(s@, c) == piece_views(parts@) + onto_first(cur@, split_char(s@.skip(i as int), c)),
        decreases s.len() - i,
    {
        let ghost t = s@.skip(i as int);
        let ghost rest = split_char(s@.skip(i + 1), c);
        proof {
            assert(t.drop_first() =~= s@.skip(i + 1));
            assert(t[0] == s@[i as int]);
            lemma_split_nonempty(s@.skip(i + 1), c);
        }
        if s[i] == c {
            let ghost before = piece_views(parts@);
            let ghost old_cur = cur@;
            parts.push(cur);
            cur = Vec::new();
            proof {
                assert(piece_views(parts@) =~= before.push(old_cur));
                assert(onto_first(Seq::<char>::empty(), rest) =~= rest);
                assert(onto_first(old_cur, split_char(t, c)) =~= seq![old_cur] + rest);
                assert(split_char(s@, c) =~= piece_views(parts@) + onto_first(cur@, rest));
            }
        } else {
            let ghost old_cur = cur@;
            cur.push(s[i]);
            proof {
                assert(cur@ =~= old_cur + seq![t[0]]);
                assert(split_char(t, c) == rest.update(0, seq![t[0]] + rest[0]));
                assert((old_cur + seq![t[0]]) + rest[0] =~= old_cur + (seq![t[0]] + rest[0]));
                assert(onto_first(old_cur, split_char(t, c)) =~= onto_first(cur@, rest));
            }
        }
        i = i + 1;
    }
    proof {
        assert(s@.skip(i as int) =~= Seq::<char>::empty());
        assert(onto_first(cur@, split_char(Seq::<char>::empty(), c)) =~= seq![cur@]);
    }
    let ghost before = piece_views(parts@);
    let ghost last = cur@;
    parts.push(cur);
    assert(piece_views(parts@) =~= before.push(last));
    assert(piece_views(parts@) =~= split_char(s@, c));
    parts
}

/// Whether `c` occurs in `s`.
pub fn has_char(s: &[char], c: char) -> (r: bool)
    ensures
        r == s@.contains(c),
{
    let mut i: usize = 0;
    while i < s.len()
        invariant
            i <= s.len(),
            forall|k: int| 0 <= k < i ==> s@[k] != c,
        decreases s.len() - i,
    {
        if s[i] == c {
            assert(s@[i as int] == c);
            return true;
        }
        i = i + 1;
    }
    false
}

/// `s` without the characters `c` at its end.
pub fn trim_end_of(s: &[char], c: char) -> (r: Vec<char>)
    ensures
        r@ == trim_end_char(s@, c),
{
    let mut n: usize = s.len();
    assert(s@.take(n as int) =~= s@);
    while n > 0 && s[n - 1] == c
        invariant
            n <= s.len(),
            trim_end_char(s@.take(n as int), c) == trim_end_char(s@, c),
        decreases n,
    {
        assert(s@.take(n as int).drop_last() =~= s@.take(n - 1));
        n = n - 1;
    }
    let mut r: Vec<char> = Vec::new();
    let mut i: usize = 0;
    while i < n
        invariant
            i <= n <= s.len(),
            r@ == s@.take(i as int),
        decreases n - i,
    {
        r.push(s[i]);
        assert(r@ =~= s@.take(i + 1));
        i = i + 1;
    }
    r
}

// ---------------------------------------------------------------------------
// The calendar crate and chrono
// ---------------------------------------------------------------------------

/// What the calendar tables say of one lunisolar date.
#[derive(Clone, Debug, PartialEq, Eq)]
pub struct LunarInfo {
    /// The Gregorian date of the same day.
    pub solar: CivilDate,
    /// The ordinals of the lunar year's heavenly stem and earthly branch.
    pub year_stem: u8,
    pub year_branch: u8,
    /// The date written in simplified Chinese: the Gregorian year of the
    /// lunisolar year, the year's stem and branch with its animal, the month
    /// and the day, separated by ideographic spaces.
    pub text: String,
    /// The weights, in tenths of a liang, of the year, the month and the day.
    pub year_weight: u8,
    pub month_weight: u8,
    pub day_weight: u8,
}

/// A lunisolar date: the Gregorian year of its lunisolar year, the lunar
/// month (and whether it is the leap month) and the day, with what the
/// tables say of it.
#[derive(Clone, Debug, PartialEq, Eq)]
pub struct LunarDate {
    pub year: u16,
    pub month: u8,
    pub leap: bool,
    pub day: u8,
    pub info: LunarInfo,
}

/// The facts that hold of every lunisolar date the tables know.
pub open spec fn is_lunar_info(info: LunarInfo) -> bool {
    &&& is_calendar_date(info.solar)
    &&& 1901 <= info.solar.year <= 2101
    &&& info.year_stem < 10
    &&& info.year_branch < 12
}

/// The year's stem and branch of the lunisolar year numbered `year` (the
/// Gregorian year in which it begins): the cycles stand at 甲 in years
/// ending in 4 and at 子 every twelfth year from 1900 + 4.
pub open spec fn year_of_cycle(year: int, stem: int, branch: int) -> bool {
    stem == (year + 6) % 10 && branch == (year + 8) % 12
}

/// A lunisolar date as the library builds it.
pub open spec fn is_lunar_date(d: LunarDate) -> bool {
    &&& 1 <= d.month <= 12
    &&& is_lunar_info(d.info)
    &&& year_of_cycle(d.year as int, d.info.year_stem as int, d.info.year_branch as int)
}

/// What chrono's `NaiveDate::parse_from_str(s, pattern)` gives: the date, or
/// its error message.
pub uninterp spec fn parsed_date(s: Seq<char>, pattern: Seq<char>) -> Result<CivilDate, Seq<char>>;

/// What chrono's `NaiveTime::parse_from_str(s, pattern)` gives: hour and
/// minute, or its error message.
pub uninterp spec fn parsed_time(s: Seq<char>, pattern: Seq<char>) -> Result<ClockTime, Seq<char>>;

/// What `LunisolarDate::from_naive_date` gives for a Gregorian date: the
/// lunisolar year, month, leap flag and day, or the name of its error.
pub uninterp spec fn lunisolar_of_solar(d: CivilDate) -> Result<(u16, u8, bool, u8), Seq<char>>;

/// What `LunisolarDate::from_ymd` gives for a lunisolar year, month, leap
/// flag and day, read out as a `LunarInfo`, or the name of its error.
pub uninterp spec fn lunisolar_info(year: u16, month: u8, leap: bool, day: u8) -> Result<LunarInfo, Seq<char>>;

/// chrono's `signed_duration_since(..).num_days()` between two dates.
pub uninterp spec fn days_between(d: CivilDate, base: CivilDate) -> int;

/// chrono's weekday of a date, counted from Monday as 0.
pub uninterp spec fn weekday_number(d: CivilDate) -> int;

/// The weight, in tenths of a liang, that the calendar tables give the
/// two-hour period holding a time of day.
pub uninterp spec fn hour_weight(t: ClockTime) -> int;

/// What the library answers for a lunisolar year, month, leap flag and day:
/// the tables end with the lunisolar year 2100, and a later year is refused
/// as an incorrect lunisolar year, as the calendar crate refuses years it
/// does not know; earlier years go to the calendar crate.
pub open spec fn lunar_details(year: u16, month: u8, leap: bool, day: u8) -> Result<LunarInfo, Seq<char>> {
    if year > 2100 {
        Err("IncorrectLunisolarYear"@)
    } else {
        lunisolar_info(year, month, leap, day)
    }
}

/// Calls chrono's `NaiveDate::parse_from_str`; a date that comes back is a
/// real calendar date, and the outcome is named `parsed_date`.
#[verifier::external_body]
fn parse_date(s: &str, pattern: &str) -> (r: Result<CivilDate, String>)
    ensures
        match r {
            Ok(d) => parsed_date(s@, pattern@) == Ok::<CivilDate, Seq<char>>(d) && is_calendar_date(d),
            Err(e) => parsed_date(s@, pattern@) == Err::<CivilDate, Seq<char>>(e@),
        },
{
    match chrono::NaiveDate::parse_from_str(s, pattern) {
        Ok(d) => Ok(CivilDate { year: d.year(), month: d.month(), day: d.day() }),
        Err(e) => Err(e.to_string()),
    }
}

/// Calls chrono's `NaiveTime::parse_from_str`; hour and minute that come back
/// are a time of day, and the outcome is named `parsed_time`.
#[verifier::external_body]
fn parse_clock(s: &str, pattern: &str) -> (r: Result<ClockTime, String>)
    ensures
        match r {
            Ok(t) => parsed_time(s@, pattern@) == Ok::<ClockTime, Seq<char>>(t) && is_clock_time(t),
            Err(e) => parsed_time(s@, pattern@) == Err::<ClockTime, Seq<char>>(e@),
        },
{
    match chrono::NaiveTime::parse_from_str(s, pattern) {
        Ok(t) => Ok(ClockTime { hour: t.hour(), minute: t.minute() }),
        Err(e) => Err(e.to_string()),
    }
}

/// Today's date in the local time zone (chrono `Local::now().date_naive()`);
/// it depends on the clock and the zone, and only its being a real date is stated.
#[verifier::external_body]
fn local_today() -> (r: CivilDate)
    ensures
        is_calendar_date(r),
{
    let d = chrono::Local::now().date_naive();
    CivilDate { year: d.year(), month: d.month(), day: d.day() }
}

/// Calls `LunisolarDate::from_naive_date` and reads out the lunisolar year,
/// month, leap flag and day, or the error's name (its `Debug` form). The
/// crate refuses dates before 1901-02-19 and after 2101-01-28, so a date it
/// converts lies in the years 1901 to 2101.
#[verifier::external_body]
fn lunisolar_fields(d: CivilDate) -> (r: Result<(u16, u8, bool, u8), String>)
    requires
        is_calendar_date(d),
    ensures
        match r {
            Ok(t) => lunisolar_of_solar(d) == Ok::<(u16, u8, bool, u8), Seq<char>>(t) && 1901 <= d.year <= 2101,
            Err(e) => lunisolar_of_solar(d) == Err::<(u16, u8, bool, u8), Seq<char>>(e@),
        },
{
    let n = chrono::NaiveDate::from_ymd_opt(d.year, d.month, d.day).unwrap();
    match LunisolarDate::from_naive_date(n) {
        Ok(l) => Ok((l.get_lunisolar_year().to_u16(), l.get_lunar_month().to_u8(), l.get_lunar_month().is_leap_month(), l.get_lunar_day().to_u8())),
        Err(e) => Err(format!("{:?}", e)),
    }
}

/// Calls `LunisolarDate::from_ymd` and reads out the Gregorian date, the
/// year's stem and branch ordinals, the simplified Chinese text and the
/// weights of year, month and day, or the error's name. The crate accepts
/// months 1 to 12 only, its dates lie between 1901-02-19 and 2101-01-28, and
/// it reckons the year's stem as `(year - 1901 + 7) % 10` and its branch as
/// `(year - 1901 + 1) % 12`. For the lunisolar year 2101 the crate's
/// leap-month table has no entry and the call panics, so years after 2100
/// are left out.
#[verifier::external_body]
fn lunisolar_details(year: u16, month: u8, leap: bool, day: u8) -> (r: Result<LunarInfo, String>)
    requires
        year <= 2100,
    ensures
        match r {
            Ok(info) => lunisolar_info(year, month, leap, day) == Ok::<LunarInfo, Seq<char>>(info)
                && is_lunar_info(info) && 1 <= month <= 12 && 1901 <= year <= 2101
                && year_of_cycle(year as int, info.year_stem as int, info.year_branch as int),
            Err(e) => lunisolar_info(year, month, leap, day) == Err::<LunarInfo, Seq<char>>(e@),
        },
{
    match LunisolarDate::from_ymd(year, month, leap, day) {
        Err(e) => Err(format!("{:?}", e)),
        Ok(l) => {
            let (s, y) = (l.to_solar_date().to_naive_date(), l.get_lunar_year());
            Ok(LunarInfo {
                solar: CivilDate { year: s.year(), month: s.month(), day: s.day() },
                year_stem: y.get_heavenly_stems() as u8, year_branch: y.get_earthly_branch() as u8,
                text: l.to_chinese_string(ChineseVariant::Simple), year_weight: y.get_ba_zi_weight(),
                month_weight: l.get_lunar_month().get_ba_zi_weight(), day_weight: l.get_lunar_day().get_ba_zi_weight(),
            })
        },
    }
}

/// Calls chrono's `signed_duration_since(..).num_days()`, named
/// `days_between`; counted from 0001-01-01, a date of year `y >= 1` is at
/// least 0 and fewer than `366 * y` days on.
#[verifier::external_body]
fn days_from(d: CivilDate, base: CivilDate) -> (r: i64)
    requires
        is_calendar_date(d),
        is_calendar_date(base),
    ensures
        r == days_between(d, base),
        base == (CivilDate { year: 1, month: 1, day: 1 }) && d.year >= 1 ==> 0 <= r < 366 * d.year,
{
    let a = chrono::NaiveDate::from_ymd_opt(d.year, d.month, d.day).unwrap();
    let b = chrono::NaiveDate::from_ymd_opt(base.year, base.month, base.day).unwrap();
    a.signed_duration_since(b).num_days()
}

/// Calls chrono's `weekday().num_days_from_monday()`, named `weekday_number`.
#[verifier::external_body]
fn weekday_of(d: CivilDate) -> (r: u8)
    requires
        is_calendar_date(d),
    ensures
        r == weekday_number(d),
        r < 7,
{
    chrono::NaiveDate::from_ymd_opt(d.year, d.month, d.day).unwrap().weekday().num_days_from_monday() as u8
}

/// Calls `EarthlyBranch::from_time(..).get_ba_zi_weight()`, named `hour_weight`.
#[verifier::external_body]
fn time_weight(t: ClockTime) -> (r: u8)
    requires
        is_clock_time(t),
    ensures
        r == hour_weight(t),
{
    EarthlyBranch::from_time(chrono::NaiveTime::from_hms_opt(t.hour, t.minute, 0).unwrap()).get_ba_zi_weight()
}

// ---------------------------------------------------------------------------
// Reading the date argument
// ---------------------------------------------------------------------------

/// What std's `from_str` gives for an unsigned type whose largest value is `max`.
pub open spec fn bounded_parse(s: Seq<char>, max: nat) -> Option<nat> {
    match parse_usize(s) {
        Some(v) => if v <= max { Some(v) } else { None },
        None => None,
    }
}

/// The month text and the leap flag of the month part of a lunisolar date:
/// a leading `闰` marks the leap month.
pub open spec fn month_part(p: Seq<char>) -> (Seq<char>, bool) {
    if p.len() > 0 && p[0] == '闰' {
        (p.drop_first(), true)
    } else {
        (p, false)
    }
}

/// A resolved date argument: the Gregorian date, the lunisolar date, and
/// whether the argument was written in the lunar calendar.
pub type Resolved = (CivilDate, LunarDate, bool);

/// How `YYYY-MM-DD` or `YYYY-闰MM-DD` (lunisolar) is read.
pub open spec fn lunar_resolution(s: Seq<char>) -> Result<Resolved, Seq<char>> {
    let parts = split_char(s, '-');
    if parts.len() != 3 {
        Err("农历日期格式错误。格式: YYYY-MM-DD 或 YYYY-闰MM-DD"@)
    } else {
        match bounded_parse(parts[0], 65535) {
            None => Err("农历年份解析失败"@),
            Some(y) => match bounded_parse(month_part(parts[1]).0, 255) {
                None => Err("农历月份解析失败"@),
                Some(m) => match bounded_parse(parts[2], 255) {
                    None => Err("农历日期解析失败"@),
                    Some(d) => match lunar_details(y as u16, m as u8, month_part(parts[1]).1, d as u8) {
                        Err(e) => Err("农历日期无效: "@ + e),
                        Ok(info) => Ok(
                            (
                                info.solar,
                                LunarDate { year: y as u16, month: m as u8, leap: month_part(parts[1]).1, day: d as u8, info },
                                true,
                            ),
                        ),
                    },
                },
            },
        }
    }
}

/// The message of a Gregorian date that cannot be converted.
pub open spec fn conversion_message(e: Seq<char>) -> Seq<char> {
    "农历转换失败: "@ + e + "。支持范围: 1901-02-19 到 2101-01-28"@
}

/// How a Gregorian date is converted: the lunisolar year, month and day of
/// the date, and what the tables say of them.
pub open spec fn solar_resolution(d: CivilDate) -> Result<Resolved, Seq<char>> {
    match lunisolar_of_solar(d) {
        Err(e) => Err(conversion_message(e)),
        Ok(t) => match lunar_details(t.0, t.1, t.2, t.3) {
            Err(e) => Err(conversion_message(e)),
            Ok(info) => Ok((d, LunarDate { year: t.0, month: t.1, leap: t.2, day: t.3, info }, false)),
        },
    }
}

/// How the date argument is read, `today` being the local date: `lunar:`
/// followed by a lunisolar date; `today` or nothing for today; otherwise a
/// Gregorian `YYYY-MM-DD`.
pub open spec fn date_resolution(today: CivilDate, s: Seq<char>) -> Result<Resolved, Seq<char>> {
    if has_prefix(s, "lunar:"@) {
        lunar_resolution(s.skip("lunar:"@.len() as int))
    } else if s == "today"@ || s.len() == 0 {
        solar_resolution(today)
    } else {
        match parsed_date(s, "%Y-%m-%d"@) {
            Err(e) => Err("日期格式错误: "@ + e + "。请使用 YYYY-MM-DD 格式"@),
            Ok(d) => solar_resolution(d),
        }
    }
}

/// `r` is the outcome `o`, an error taken by its characters.
pub open spec fn outcome_is<T>(r: Result<T, String>, o: Result<T, Seq<char>>) -> bool {
    match r {
        Ok(v) => o == Ok::<T, Seq<char>>(v),
        Err(e) => o == Err::<T, Seq<char>>(e@),
    }
}

/// What every resolved date satisfies.
pub open spec fn is_resolved(v: Resolved) -> bool {
    is_lunar_date(v.1) && is_calendar_date(v.0) && 1901 <= v.0.year <= 2101
}

fn lunar_info_of(year: u16, month: u8, leap: bool, day: u8) -> (r: Result<LunarInfo, String>)
    ensures
        match r {
            Ok(info) => lunar_details(year, month, leap, day) == Ok::<LunarInfo, Seq<char>>(info)
                && is_lunar_info(info) && 1 <= month <= 12 && 1901 <= year <= 2100
                && year_of_cycle(year as int, info.year_stem as int, info.year_branch as int),
            Err(e) => lunar_details(year, month, leap, day) == Err::<LunarInfo, Seq<char>>(e@),
        },
{
    if year > 2100 {
        return Err("IncorrectLunisolarYear".to_owned());
    }
    lunisolar_details(year, month, leap, day)
}

fn parse_bounded(s: &[char], max: usize) -> (r: Option<usize>)
    ensures
        match r {
            Some(v) => bounded_parse(s@, max as nat) == Some(v as nat) && v <= max,
            None => bounded_parse(s@, max as nat) is None,
        },
{
    match parse_usize_chars(s) {
        Some(v) => if v <= max { Some(v) } else { None },
        None => None,
    }
}

fn message(prefix: &str, middle: &[char], suffix: &str) -> (r: String)
    ensures
        r@ == prefix@ + middle@ + suffix@,
{
    let mut out = chars_of(prefix);
    extend_chars(&mut out, middle);
    push_str(&mut out, suffix);
    string_of(out.as_slice())
}

fn lunar_from_chars(s: &[char]) -> (r: Result<Resolved, String>)
    ensures
        outcome_is(r, lunar_resolution(s@)),
        r matches Ok(v) ==> is_resolved(v),
{
    let parts = split_at_char(s, '-');
    let ghost pieces = split_char(s@, '-');
    assert(piece_views(parts@).len() == parts@.len());
    if parts.len() != 3 {
        return Err("农历日期格式错误。格式: YYYY-MM-DD 或 YYYY-闰MM-DD".to_owned());
    }
    assert(parts[0]@ == pieces[0] && parts[1]@ == pieces[1] && parts[2]@ == pieces[2]);
    let year = match parse_bounded(parts[0].as_slice(), 65535) {
        Some(y) => y as u16,
        None => return Err("农历年份解析失败".to_owned()),
    };
    let p1 = parts[1].as_slice();
    let leap = p1.len() > 0 && p1[0] == '闰';
    let month_text: &[char] = if leap {
        vstd::slice::slice_subrange(p1, 1, p1.len())
    } else {
        p1
    };
    assert(month_text@ == month_part(pieces[1]).0 && leap == month_part(pieces[1]).1);
    let month = match parse_bounded(month_text, 255) {
        Some(m) => m as u8,
        None => return Err("农历月份解析失败".to_owned()),
    };
    let day = match parse_bounded(parts[2].as_slice(), 255) {
        Some(d) => d as u8,
        None => return Err("农历日期解析失败".to_owned()),
    };
    match lunar_info_of(year, month, leap, day) {
        Err(e) => {
            proof {
                reveal_strlit("");
                assert("农历日期无效: "@ + e@ + ""@ =~= "农历日期无效: "@ + e@);
            }
            Err(message("农历日期无效: ", chars_of(e.as_str()).as_slice(), ""))
        },
        Ok(info) => {
            let solar = info.solar;
            Ok((solar, LunarDate { year, month, leap, day, info }, true))
        },
    }
}

/// Reads a lunisolar date `YYYY-MM-DD` or `YYYY-闰MM-DD` (see `lunar_resolution`).
pub fn parse_lunar_date(lunar_str: &str) -> (r: Result<Resolved, String>)
    ensures
        outcome_is(r, lunar_resolution(lunar_str@)),
        r matches Ok(v) ==> is_resolved(v),
{
    lunar_from_chars(chars_of(lunar_str).as_slice())
}

fn solar_from_date(d: CivilDate) -> (r: Result<Resolved, String>)
    requires
        is_calendar_date(d),
    ensures
        outcome_is(r, solar_resolution(d)),
        r matches Ok(v) ==> is_resolved(v),
{
    match lunisolar_fields(d) {
        Err(e) => Err(message("农历转换失败: ", chars_of(e.as_str()).as_slice(), "。支持范围: 1901-02-19 到 2101-01-28")),
        Ok(t) => match lunar_info_of(t.0, t.1, t.2, t.3) {
            Err(e) => Err(message("农历转换失败: ", chars_of(e.as_str()).as_slice(), "。支持范围: 1901-02-19 到 2101-01-28")),
            Ok(info) => Ok((d, LunarDate { year: t.0, month: t.1, leap: t.2, day: t.3, info }, false)),
        },
    }
}

/// Reads the date argument with `today` as the local date (see `date_resolution`).
pub fn resolve_date(today: CivilDate, date_str: &str) -> (r: Result<Resolved, String>)
    requires
        is_calendar_date(today),
    ensures
        outcome_is(r, date_resolution(today, date_str@)),
        r matches Ok(v) ==> is_resolved(v),
{
    let s = chars_of(date_str);
    let prefix = chars_of("lunar:");
    if starts_with(s.as_slice(), prefix.as_slice()) {
        let rest = vstd::slice::slice_subrange(s.as_slice(), prefix.len(), s.len());
        assert(rest@ =~= date_str@.skip("lunar:"@.len() as int));
        return lunar_from_chars(rest);
    }
    if chars_equal(s.as_slice(), chars_of("today").as_slice()) || s.len() == 0 {
        return solar_from_date(today);
    }
    match parse_date(date_str, "%Y-%m-%d") {
        Err(e) => Err(message("日期格式错误: ", chars_of(e.as_str()).as_slice(), "。请使用 YYYY-MM-DD 格式")),
        Ok(d) => solar_from_date(d),
    }
}

/// Reads the date argument, taking the local date for `today` or nothing.
pub fn parse_date_bidirectional(date_str: &str) -> (r: Result<Resolved, String>)
    ensures
        exists|today: CivilDate| is_calendar_date(today) && outcome_is(r, #[trigger] date_resolution(today, date_str@)),
        r matches Ok(v) ==> is_resolved(v),
{
    let today = local_today();
    resolve_date(today, date_str)
}

/// What the time argument gives: hour and minute, or the message of a time
/// that is not `HH:MM`.
pub open spec fn time_resolution(s: Seq<char>) -> Result<ClockTime, Seq<char>> {
    match parsed_time(s, "%H:%M"@) {
        Ok(t) => Ok(t),
        Err(e) => Err("时间格式错误: "@ + e + "。请使用 HH:MM 格式（如 14:30）"@),
    }
}

/// Reads a time of day `HH:MM` (see `time_resolution`).
pub fn parse_time(time_str: &str) -> (r: Result<ClockTime, String>)
    ensures
        outcome_is(r, time_resolution(time_str@)),
        r matches Ok(t) ==> is_clock_time(t),
{
    match parse_clock(time_str, "%H:%M") {
        Ok(t) => Ok(t),
        Err(e) => Err(message("时间格式错误: ", chars_of(e.as_str()).as_slice(), "。请使用 HH:MM 格式（如 14:30）")),
    }
}

// ---------------------------------------------------------------------------
// The year's names, the weekday and the weight
// ---------------------------------------------------------------------------

/// The calendar text with its ideographic spaces written as plain spaces.
pub open spec fn spaced(s: Seq<char>) -> Seq<char> {
    s.map_values(|c: char| if c == '　' { ' ' } else { c })
}

/// The year's stem-and-branch name and its animal, read from the second
/// space-separated part of the calendar text (`甲辰、龙年` gives `甲辰` and `龙`).
pub open spec fn year_names(text: Seq<char>) -> Option<(Seq<char>, Seq<char>)> {
    let parts = split_char(text, '　');
    if parts.len() >= 2 && parts[1].contains('、') {
        let names = split_char(parts[1], '、');
        if names.len() >= 2 {
            Some((names[0], trim_end_char(names[1], '年')))
        } else {
            None
        }
    } else {
        None
    }
}

/// The name of the weekday counted from Monday as 0.
pub open spec fn weekday_name(n: int) -> Seq<char> {
    if n == 0 {
        "星期一"@
    } else if n == 1 {
        "星期二"@
    } else if n == 2 {
        "星期三"@
    } else if n == 3 {
        "星期四"@
    } else if n == 4 {
        "星期五"@
    } else if n == 5 {
        "星期六"@
    } else {
        "星期日"@
    }
}

/// A weight given in tenths, written as a decimal number the way a float of
/// that value prints: no fraction when it is whole, else one digit after the point.
pub open spec fn tenths_text(n: nat) -> Seq<char> {
    if n % 10 == 0 {
        decimal(n / 10)
    } else {
        decimal(n / 10) + seq!['.', digit_char(n % 10)]
    }
}

fn spaced_text(s: &[char]) -> (r: Vec<char>)
    ensures
        r@ == spaced(s@),
{
    let mut r: Vec<char> = Vec::new();
    let mut i: usize = 0;
    while i < s.len()
        invariant
            i <= s.len(),
            r@ == spaced(s@.take(i as int)),
        decreases s.len() - i,
    {
        let c = s[i];
        r.push(if c == '　' { ' ' } else { c });
        assert(r@ =~= spaced(s@.take(i + 1)));
        i = i + 1;
    }
    assert(s@.take(s.len() as int) =~= s@);
    r
}

fn copy_chars(s: &[char]) -> (r: Vec<char>)
    ensures
        r@ == s@,
{
    let mut r: Vec<char> = Vec::new();
    extend_chars(&mut r, s);
    r
}

/// The year's names in the calendar text (see `year_names`).
pub fn year_names_of(text: &[char]) -> (r: Option<(Vec<char>, Vec<char>)>)
    ensures
        match r {
            Some(p) => year_names(text@) == Some((p.0@, p.1@)),
            None => year_names(text@) is None,
        },
{
    let parts = split_at_char(text, '　');
    let ghost pieces = split_char(text@, '　');
    assert(piece_views(parts@).len() == parts@.len());
    if parts.len() >= 2 {
        assert(parts[1]@ == pieces[1]);
        if has_char(parts[1].as_slice(), '、') {
            let names = split_at_char(parts[1].as_slice(), '、');
            let ghost name_pieces = split_char(pieces[1], '、');
            assert(piece_views(names@).len() == names@.len());
            if names.len() >= 2 {
                assert(names[0]@ == name_pieces[0] && names[1]@ == name_pieces[1]);
                let first = copy_chars(names[0].as_slice());
                let animal = trim_end_of(names[1].as_slice(), '年');
                return Some((first, animal));
            }
        }
    }
    None
}

/// The name of the weekday counted from Monday as 0.
pub fn format_weekday(n: u8) -> (r: &'static str)
    ensures
        r@ == weekday_name(n as int),
{
    if n == 0 {
        "星期一"
    } else if n == 1 {
        "星期二"
    } else if n == 2 {
        "星期三"
    } else if n == 3 {
        "星期四"
    } else if n == 4 {
        "星期五"
    } else if n == 5 {
        "星期六"
    } else {
        "星期日"
    }
}

fn push_tenths(out: &mut Vec<char>, n: u32)
    ensures
        final(out)@ == old(out)@ + tenths_text(n as nat),
{
    let ghost start = out@;
    push_decimal(out, (n / 10) as u64);
    if n % 10 != 0 {
        out.push('.');
        out.push(digit(n % 10));
        assert(out@ =~= start + (decimal((n / 10) as nat) + seq!['.', digit_char((n % 10) as nat)]));
    }
}

// ---------------------------------------------------------------------------
// The four pillars
// ---------------------------------------------------------------------------

/// The pillars of year, month, day and hour.
#[derive(Clone, Copy, Debug, PartialEq, Eq, Structural)]
pub struct BaZi {
    pub year: Pillar,
    pub month: Pillar,
    pub day: Pillar,
    pub hour: Pillar,
}

/// 0001-01-01, the day from which the day pillars are counted.
pub open spec fn first_day() -> CivilDate {
    CivilDate { year: 1, month: 1, day: 1 }
}

/// The four pillars of a birth at time `t` on the lunisolar date `lunar`: the
/// year's stem and branch; the month pillar of its lunar month; the day
/// pillar of its Gregorian date; and the hour pillar from the day's stem.
pub open spec fn bazi_of(lunar: LunarDate, t: ClockTime) -> BaZi {
    let day = day_pillar(days_between(lunar.info.solar, first_day()));
    BaZi {
        year: Pillar { stem: lunar.info.year_stem, branch: lunar.info.year_branch },
        month: month_pillar(lunar.info.year_stem as int, lunar.month as int),
        day: day,
        hour: hour_pillar(day.stem as int, t.hour as int),
    }
}

/// The weight of a birth at time `t` on `lunar`, in tenths of a liang.
pub open spec fn bazi_weight(lunar: LunarDate, t: ClockTime) -> nat {
    (lunar.info.year_weight + lunar.info.month_weight + lunar.info.day_weight + hour_weight(t)) as nat
}

/// The day pillar of a Gregorian date of the common era (see `day_pillar`).
pub fn calculate_day_pillar(date: CivilDate) -> (r: Result<Pillar, String>)
    requires
        is_calendar_date(date),
        date.year >= 1,
    ensures
        r == Ok::<Pillar, String>(day_pillar(days_between(date, first_day()))),
        r matches Ok(p) && is_pillar(p),
{
    let days = days_from(date, CivilDate { year: 1, month: 1, day: 1 });
    assert(days < 366 * 262143) by (nonlinear_arith)
        requires
            days < 366 * date.year,
            date.year <= 262142;
    Ok(day_pillar_of_days(days))
}

/// The month pillar of a lunisolar date in a year of stem `year_stem` (see `month_pillar`).
pub fn calculate_month_pillar(lunar: &LunarDate, year_stem: u8) -> (r: Result<Pillar, String>)
    requires
        1 <= lunar.month <= 12,
    ensures
        r == Ok::<Pillar, String>(month_pillar(year_stem as int, lunar.month as int)),
        r matches Ok(p) && is_pillar(p),
{
    Ok(month_pillar_of(year_stem, lunar.month))
}

fn four_pillars(lunar: &LunarDate, time: ClockTime) -> (r: BaZi)
    requires
        is_lunar_date(*lunar),
        is_clock_time(time),
    ensures
        r == bazi_of(*lunar, time),
        is_pillar(r.year) && is_pillar(r.month) && is_pillar(r.day) && is_pillar(r.hour),
{
    let days = days_from(lunar.info.solar, CivilDate { year: 1, month: 1, day: 1 });
    assert(days < 366 * 2102) by (nonlinear_arith)
        requires
            days < 366 * lunar.info.solar.year,
            lunar.info.solar.year <= 2101;
    let day = day_pillar_of_days(days);
    let branch = hour_branch_of(time.hour);
    BaZi {
        year: Pillar { stem: lunar.info.year_stem, branch: lunar.info.year_branch },
        month: month_pillar_of(lunar.info.year_stem, lunar.month),
        day,
        hour: Pillar { stem: calculate_hour_stem(day.stem, branch), branch },
    }
}

/// The four pillars of a birth at `time` on `lunar` (see `bazi_of`).
pub fn calculate_bazi(lunar: &LunarDate, time: ClockTime) -> (r: Result<BaZi, String>)
    requires
        is_lunar_date(*lunar),
        is_clock_time(time),
    ensures
        r == Ok::<BaZi, String>(bazi_of(*lunar, time)),
{
    Ok(four_pillars(lunar, time))
}

/// `八字: Y M D H`, the four pillars on one line.
pub open spec fn bazi_simple_text(b: BaZi) -> Seq<char> {
    "八字: "@ + pillar_text(b.year) + " "@ + pillar_text(b.month) + " "@ + pillar_text(b.day) + " "@
        + pillar_text(b.hour)
}

/// One line of the full four pillars: its label, the pillar, and again its
/// stem and branch in brackets.
pub open spec fn pillar_line(label: Seq<char>, p: Pillar) -> Seq<char> {
    "  "@ + label + ": "@ + pillar_text(p) + " （"@ + pillar_text(p) + "）\n"@
}

/// The full four pillars, one per line, and the weight.
pub open spec fn bazi_full_text(b: BaZi, weight: nat) -> Seq<char> {
    "🔮 八字（四柱）\n"@ + pillar_line("年柱"@, b.year) + pillar_line("月柱"@, b.month) + pillar_line(
        "日柱"@,
        b.day,
    ) + pillar_line("时柱"@, b.hour) + "\n💎 八字重量: "@ + tenths_text(weight) + " 两"@
}

fn push_pillar(out: &mut Vec<char>, p: Pillar)
    ensures
        final(out)@ == old(out)@ + pillar_text(p),
{
    out.push(stem_name(p.stem));
    out.push(branch_name(p.branch));
    assert(out@ =~= old(out)@ + pillar_text(p));
}

/// The four pillars on one line (see `bazi_simple_text`).
pub fn format_bazi_simple(lunar: &LunarDate, time: ClockTime) -> (r: String)
    requires
        is_lunar_date(*lunar),
        is_clock_time(time),
    ensures
        r@ == bazi_simple_text(bazi_of(*lunar, time)),
{
    let b = four_pillars(lunar, time);
    let mut out = chars_of("八字: ");
    push_pillar(&mut out, b.year);
    push_str(&mut out, " ");
    push_pillar(&mut out, b.month);
    push_str(&mut out, " ");
    push_pillar(&mut out, b.day);
    push_str(&mut out, " ");
    push_pillar(&mut out, b.hour);
    assert(out@ =~= bazi_simple_text(b));
    string_of(out.as_slice())
}

fn push_pillar_line(out: &mut Vec<char>, label: &str, p: Pillar)
    ensures
        final(out)@ == old(out)@ + pillar_line(label@, p),
{
    let ghost start = out@;
    push_str(out, "  ");
    push_str(out, label);
    push_str(out, ": ");
    push_pillar(out, p);
    push_str(out, " （");
    push_pillar(out, p);
    push_str(out, "）\n");
    assert(out@ =~= start + pillar_line(label@, p));
}

/// The full four pillars with the weight (see `bazi_full_text`).
pub fn format_bazi_full(lunar: &LunarDate, time: ClockTime) -> (r: String)
    requires
        is_lunar_date(*lunar),
        is_clock_time(time),
    ensures
        r@ == bazi_full_text(bazi_of(*lunar, time), bazi_weight(*lunar, time)),
{
    let b = four_pillars(lunar, time);
    let mut out = chars_of("🔮 八字（四柱）\n");
    push_pillar_line(&mut out, "年柱", b.year);
    push_pillar_line(&mut out, "月柱", b.month);
    push_pillar_line(&mut out, "日柱", b.day);
    push_pillar_line(&mut out, "时柱", b.hour);
    push_str(&mut out, "\n💎 八字重量: ");
    let w = lunar.info.year_weight as u32 + lunar.info.month_weight as u32 + lunar.info.day_weight as u32
        + time_weight(time) as u32;
    push_tenths(&mut out, w);
    push_str(&mut out, " 两");
    assert(out@ =~= bazi_full_text(b, bazi_weight(*lunar, time)));
    string_of(out.as_slice())
}

// ---------------------------------------------------------------------------
// The three levels of detail
// ---------------------------------------------------------------------------

/// The simple answer: the date in the calendar it was given in, an arrow,
/// and the date in the other calendar.
pub open spec fn simple_text(solar: CivilDate, lunar: LunarDate, is_lunar_input: bool) -> Seq<char> {
    if is_lunar_input {
        "农历 "@ + lunar.info.text@ + " → 公历 "@ + iso_date_text(solar)
    } else {
        "公历 "@ + iso_date_text(solar) + " → 农历 "@ + lunar.info.text@
    }
}

/// The lines naming the year's stem and branch and its animal, each line
/// made of `lead`, the label and the name, ended by `end`.
pub open spec fn names_text(text: Seq<char>, lead: Seq<char>, end: Seq<char>) -> Seq<char> {
    match year_names(text) {
        Some(n) => lead + "干支: "@ + n.0 + end + lead + "生肖: "@ + n.1 + end,
        None => Seq::<char>::empty(),
    }
}

/// The standard answer: both dates, the year's names, and for a birth time
/// that time and the four pillars on one line.
pub open spec fn standard_text(solar: CivilDate, lunar: LunarDate, is_lunar_input: bool, time: Option<ClockTime>) -> Seq<char> {
    let text = lunar.info.text@;
    let head = if is_lunar_input {
        "📅 农历 "@ + spaced(text) + "\n公历 "@ + chinese_date_text(solar)
    } else {
        "📅 公历 "@ + chinese_date_text(solar) + "\n农历 "@ + spaced(text)
    };
    let birth = match time {
        Some(t) => "\n\n⏰ 出生时间: "@ + clock_text(t) + "\n"@ + bazi_simple_text(bazi_of(lunar, t)),
        None => Seq::<char>::empty(),
    };
    head + names_text(text, "\n"@, Seq::<char>::empty()) + birth
}

/// The full answer: a framed block with the Gregorian date and weekday, the
/// lunisolar date and the year's names, for a birth time the full four
/// pillars with their weight, and for a lunar input a note of its Gregorian date.
pub open spec fn full_text(solar: CivilDate, lunar: LunarDate, is_lunar_input: bool, time: Option<ClockTime>) -> Seq<char> {
    let text = lunar.info.text@;
    let birth = match time {
        Some(t) => "\n⏰ 出生时间: "@ + clock_text(t) + "\n"@ + "\n"@ + bazi_full_text(bazi_of(lunar, t), bazi_weight(lunar, t)),
        None => Seq::<char>::empty(),
    };
    let note = if is_lunar_input {
        "\n💡 农历输入，转换结果: 公历 "@ + chinese_date_text(solar)
    } else {
        Seq::<char>::empty()
    };
    "═══ 农历信息 ═══\n\n"@ + "📅 公历\n"@ + "  日期: "@ + chinese_date_text(solar) + "\n"@ + "  星期: "@
        + weekday_name(weekday_number(solar)) + "\n"@ + "\n🌙 农历\n"@ + "  "@ + spaced(text) + "\n"@
        + names_text(text, "  "@, "\n"@) + birth + note + "\n══════════════════"@
}

fn push_names(out: &mut Vec<char>, text: &[char], lead: &str, end: &str)
    ensures
        final(out)@ == old(out)@ + names_text(text@, lead@, end@),
{
    let ghost start = out@;
    match year_names_of(text) {
        Some(n) => {
            push_str(out, lead);
            push_str(out, "干支: ");
            extend_chars(out, n.0.as_slice());
            push_str(out, end);
            push_str(out, lead);
            push_str(out, "生肖: ");
            extend_chars(out, n.1.as_slice());
            push_str(out, end);
            assert(out@ =~= start + names_text(text@, lead@, end@));
        },
        None => {
            assert(out@ =~= start + names_text(text@, lead@, end@));
        },
    }
}

/// The simple answer (see `simple_text`).
pub fn format_simple(solar: &CivilDate, lunar: &LunarDate, is_lunar_input: bool) -> (r: String)
    requires
        solar.month < 100 && solar.day < 100,
    ensures
        r@ == simple_text(*solar, *lunar, is_lunar_input),
{
    let date = solar.to_string();
    let mut out: Vec<char> = Vec::new();
    if is_lunar_input {
        push_str(&mut out, "农历 ");
        push_str(&mut out, lunar.info.text.as_str());
        push_str(&mut out, " → 公历 ");
        push_str(&mut out, date.as_str());
    } else {
        push_str(&mut out, "公历 ");
        push_str(&mut out, date.as_str());
        push_str(&mut out, " → 农历 ");
        push_str(&mut out, lunar.info.text.as_str());
    }
    assert(out@ =~= simple_text(*solar, *lunar, is_lunar_input));
    string_of(out.as_slice())
}

/// The standard answer (see `standard_text`).
pub fn format_standard(solar: &CivilDate, lunar: &LunarDate, is_lunar_input: bool, time: Option<ClockTime>) -> (r: String)
    requires
        solar.month < 100 && solar.day < 100,
        is_lunar_date(*lunar),
        time matches Some(t) ==> is_clock_time(t),
    ensures
        r@ == standard_text(*solar, *lunar, is_lunar_input, time),
{
    let text = chars_of(lunar.info.text.as_str());
    let shown = spaced_text(text.as_slice());
    let date = solar.chinese_text();
    let mut out: Vec<char> = Vec::new();
    if is_lunar_input {
        push_str(&mut out, "📅 农历 ");
        extend_chars(&mut out, shown.as_slice());
        push_str(&mut out, "\n公历 ");
        push_str(&mut out, date.as_str());
    } else {
        push_str(&mut out, "📅 公历 ");
        push_str(&mut out, date.as_str());
        push_str(&mut out, "\n农历 ");
        extend_chars(&mut out, shown.as_slice());
    }
    let ghost head = out@;
    push_names(&mut out, text.as_slice(), "\n", "");
    proof {
        reveal_strlit("");
        assert(""@ =~= Seq::<char>::empty());
    }
    let ghost named = out@;
    match time {
        Some(t) => {
            push_str(&mut out, "\n\n⏰ 出生时间: ");
            push_str(&mut out, t.to_string().as_str());
            push_str(&mut out, "\n");
            push_str(&mut out, format_bazi_simple(lunar, t).as_str());
            assert(out@ =~= named + ("\n\n⏰ 出生时间: "@ + clock_text(t) + "\n"@ + bazi_simple_text(bazi_of(*lunar, t))));
        },
        None => {
            assert(out@ =~= named + Seq::<char>::empty());
        },
    }
    assert(out@ =~= standard_text(*solar, *lunar, is_lunar_input, time));
    string_of(out.as_slice())
}

/// The full answer (see `full_text`).
pub fn format_full(solar: &CivilDate, lunar: &LunarDate, is_lunar_input: bool, time: Option<ClockTime>) -> (r: String)
    requires
        is_calendar_date(*solar),
        is_lunar_date(*lunar),
        time matches Some(t) ==> is_clock_time(t),
    ensures
        r@ == full_text(*solar, *lunar, is_lunar_input, time),
{
    let text = chars_of(lunar.info.text.as_str());
    let date = solar.chinese_text();
    let mut out = chars_of("═══ 农历信息 ═══\n\n");
    push_str(&mut out, "📅 公历\n");
    push_str(&mut out, "  日期: ");
    push_str(&mut out, date.as_str());
    push_str(&mut out, "\n");
    push_str(&mut out, "  星期: ");
    push_str(&mut out, format_weekday(weekday_of(*solar)));
    push_str(&mut out, "\n");
    push_str(&mut out, "\n🌙 农历\n");
    push_str(&mut out, "  ");
    extend_chars(&mut out, spaced_text(text.as_slice()).as_slice());
    push_str(&mut out, "\n");
    push_names(&mut out, text.as_slice(), "  ", "\n");
    let ghost named = out@;
    match time {
        Some(t) => {
            push_str(&mut out, "\n⏰ 出生时间: ");
            push_str(&mut out, t.to_string().as_str());
            push_str(&mut out, "\n");
            push_str(&mut out, "\n");
            push_str(&mut out, format_bazi_full(lunar, t).as_str());
            assert(out@ =~= named + ("\n⏰ 出生时间: "@ + clock_text(t) + "\n"@ + "\n"@ + bazi_full_text(
                bazi_of(*lunar, t),
                bazi_weight(*lunar, t),
            )));
        },
        None => {
            assert(out@ =~= named + Seq::<char>::empty());
        },
    }
    let ghost timed = out@;
    if is_lunar_input {
        push_str(&mut out, "\n💡 农历输入，转换结果: 公历 ");
        push_str(&mut out, date.as_str());
    } else {
        assert(out@ =~= timed + Seq::<char>::empty());
    }
    push_str(&mut out, "\n══════════════════");
    assert(out@ =~= full_text(*solar, *lunar, is_lunar_input, time));
    string_of(out.as_slice())
}

// ---------------------------------------------------------------------------
// The tool
// ---------------------------------------------------------------------------

/// The tool's answer, `today` being the local date: the date argument is read
/// first, then the optional time, then the level of detail (`simple`,
/// `standard` or `full`) picks the answer.
pub open spec fn query_answer(today: CivilDate, date: Seq<char>, time: Option<Seq<char>>, level: Seq<char>) -> Result<Seq<char>, Seq<char>> {
    match date_resolution(today, date) {
        Err(e) => Err(e),
        Ok(v) => {
            let t = match time {
                None => Ok(None),
                Some(ts) => match time_resolution(ts) {
                    Ok(t) => Ok(Some(t)),
                    Err(e) => Err(e),
                },
            };
            match t {
                Err(e) => Err(e),
                Ok(t) => if level == "simple"@ {
                    Ok(simple_text(v.0, v.1, v.2))
                } else if level == "standard"@ {
                    Ok(standard_text(v.0, v.1, v.2, t))
                } else if level == "full"@ {
                    Ok(full_text(v.0, v.1, v.2, t))
                } else {
                    Err("不支持的详细程度: "@ + level + "。支持: simple, standard, full"@)
                },
            }
        },
    }
}

/// `r` is the answer `o`, both texts taken by their characters.
pub open spec fn answer_is(r: Result<String, String>, o: Result<Seq<char>, Seq<char>>) -> bool {
    match r {
        Ok(v) => o == Ok::<Seq<char>, Seq<char>>(v@),
        Err(e) => o == Err::<Seq<char>, Seq<char>>(e@),
    }
}

/// The time argument by its characters.
pub open spec fn time_arg(time: Option<&str>) -> Option<Seq<char>> {
    match time {
        Some(s) => Some(s@),
        None => None,
    }
}

/// The tool's answer with `today` as the local date (see `query_answer`).
pub fn lunar_query_on(today: CivilDate, date: &str, time: Option<&str>, detail_level: &str) -> (r: Result<String, String>)
    requires
        is_calendar_date(today),
    ensures
        answer_is(r, query_answer(today, date@, time_arg(time), detail_level@)),
{
    let (solar, lunar, is_lunar_input) = match resolve_date(today, date) {
        Ok(v) => v,
        Err(e) => return Err(e),
    };
    let time_opt: Option<ClockTime> = match time {
        Some(ts) => match parse_time(ts) {
            Ok(t) => Some(t),
            Err(e) => return Err(e),
        },
        None => None,
    };
    let level = chars_of(detail_level);
    if chars_equal(level.as_slice(), chars_of("simple").as_slice()) {
        Ok(format_simple(&solar, &lunar, is_lunar_input))
    } else if chars_equal(level.as_slice(), chars_of("standard").as_slice()) {
        Ok(format_standard(&solar, &lunar, is_lunar_input, time_opt))
    } else if chars_equal(level.as_slice(), chars_of("full").as_slice()) {
        Ok(format_full(&solar, &lunar, is_lunar_input, time_opt))
    } else {
        Err(message("不支持的详细程度: ", level.as_slice(), "。支持: simple, standard, full"))
    }
}

/// The lunar calendar tool: answers a date argument (`today`, `YYYY-MM-DD`,
/// `lunar:YYYY-MM-DD` or `lunar:YYYY-闰MM-DD`), an optional birth time `HH:MM`
/// and a level of detail, reading the local date when the argument asks for today.
pub fn lunar_query(date: &str, time: Option<&str>, detail_level: &str) -> (r: Result<String, String>)
    ensures
        exists|today: CivilDate|
            is_calendar_date(today) && answer_is(r, #[trigger] query_answer(today, date@, time_arg(time), detail_level@)),
{
    let today = local_today();
    lunar_query_on(today, date, time, detail_level)
}

// ---------------------------------------------------------------------------
// Laws
// ---------------------------------------------------------------------------

/// A stem and a branch of the same parity: one of the sixty pairs of the cycle.
pub open spec fn sexagenary(p: Pillar) -> bool {
    p.stem % 2 == p.branch % 2
}

proof fn lemma_parity_mod10(x: int)
    ensures
        (x % 10) % 2 == x % 2,
{
    vstd::arithmetic::div_mod::lemma_mod_mod(x, 2, 5);
}

proof fn lemma_parity_mod12(x: int)
    ensures
        (x % 12) % 2 == x % 2,
{
    vstd::arithmetic::div_mod::lemma_mod_mod(x, 2, 6);
}

proof fn lemma_day_pillar_sexagenary(days: int)
    ensures
        sexagenary(day_pillar(days)),
{
    let x = days + 9;
    lemma_parity_mod10(x);
    lemma_parity_mod12(x);
    assert(0 <= x % 10 < 10 && 0 <= x % 12 < 12);
    assert(day_pillar(days).stem == x % 10);
    assert(day_pillar(days).branch == x % 12);
}

proof fn lemma_shift_parity(x: int, k: int)
    requires
        k % 2 == 0,
    ensures
        (x + k) % 2 == x % 2,
{
    vstd::arithmetic::div_mod::lemma_mod_adds(x, k, 2);
}

proof fn lemma_month_pillar_sexagenary(year_stem: int, month: int)
    ensures
        sexagenary(month_pillar(year_stem, month)),
{
    let base = first_month_stem(year_stem);
    let a = base + month - 1;
    let c = month + 1;
    assert(base == 0 || base == 2 || base == 4 || base == 6 || base == 8);
    assert((base - 2) % 2 == 0);
    lemma_shift_parity(c, base - 2);
    assert(a == c + (base - 2));
    lemma_parity_mod10(a);
    lemma_parity_mod12(c);
    assert(0 <= a % 10 < 10 && 0 <= c % 12 < 12);
    assert(month_pillar(year_stem, month).stem == a % 10);
    assert(month_pillar(year_stem, month).branch == c % 12);
}

proof fn lemma_hour_pillar_sexagenary(day_stem: int, hour: int)
    requires
        0 <= hour < 24,
    ensures
        sexagenary(hour_pillar(day_stem, hour)),
{
    let hb = hour_branch(hour);
    assert(0 <= hb < 12);
    let base = first_hour_stem(day_stem);
    assert(base % 2 == 0);
    lemma_parity_mod10(base + hb);
    assert((base + hb) % 2 == hb % 2);
    assert(0 <= (base + hb) % 10 < 10);
    assert(hour_pillar(day_stem, hour).stem == (base + hb) % 10);
    assert(hour_pillar(day_stem, hour).branch == hb);
}

/// Every pillar of a birth is one of the sixty stem-and-branch pairs: its
/// stem and branch have the same parity.
pub proof fn law_pillars_are_sexagenary(lunar: LunarDate, t: ClockTime)
    requires
        is_lunar_date(lunar),
        is_clock_time(t),
    ensures
        sexagenary(bazi_of(lunar, t).year),
        sexagenary(bazi_of(lunar, t).month),
        sexagenary(bazi_of(lunar, t).day),
        sexagenary(bazi_of(lunar, t).hour),
{
    let y = lunar.year as int;
    lemma_parity_mod10(y + 6);
    lemma_parity_mod12(y + 8);
    lemma_shift_parity(y + 6, 2);
    lemma_month_pillar_sexagenary(lunar.info.year_stem as int, lunar.month as int);
    let day = day_pillar(days_between(lunar.info.solar, first_day()));
    lemma_day_pillar_sexagenary(days_between(lunar.info.solar, first_day()));
    lemma_hour_pillar_sexagenary(day.stem as int, t.hour as int);
}

/// The day pillars repeat every sixty days.
pub proof fn law_day_pillars_cycle(days: int)
    ensures
        day_pillar(days + 60) == day_pillar(days),
{
    assert((days + 60 + 9) % 10 == (days + 9) % 10);
    assert((days + 60 + 9) % 12 == (days + 9) % 12);
}


/// The month pillars follow the five-tiger rule (五虎遁): the first lunar
/// month is a 寅 month whose stem is 丙, 戊, 庚, 壬 or 甲 for a year stem of
/// 甲/己, 乙/庚, 丙/辛, 丁/壬 or 戊/癸, and each later month takes the next
/// stem and branch. So month `m` of a year of stem `s` has stem
/// `2 * (s % 5) + m + 1` and branch `m + 1` (mod 10 and 12); a 甲 year's
/// first month is 丙寅.
pub proof fn law_month_pillars_five_tigers(year_stem: int, month: int)
    requires
        0 <= year_stem,
        1 <= month <= 12,
    ensures
        month_pillar(year_stem, month).stem as int == (2 * (year_stem % 5) + month + 1) % 10,
        month_pillar(year_stem, month).branch as int == (month + 1) % 12,
        month_pillar(year_stem, 1) == (Pillar { stem: ((2 * (year_stem % 5) + 2) % 10) as u8, branch: 2 }),
        year_stem % 5 == 0 ==> month_pillar(year_stem, 1) == (Pillar { stem: 2, branch: 2 }),
        month < 12 ==> month_pillar(year_stem, month + 1).stem as int == (month_pillar(year_stem, month).stem + 1) % 10,
        month_pillar(year_stem + 5, month) == month_pillar(year_stem, month),
{
    let k = year_stem % 5;
    assert((year_stem + 5) % 5 == k);
    assert(0 <= k < 5);
    assert(first_month_stem(year_stem) == 2 * k + 2 || (k == 4 && first_month_stem(year_stem) == 0));
    if k == 4 {
        assert((2 * k + month + 1) % 10 == (month - 1) % 10);
        assert((2 * k + 2) % 10 == 0);
    }
}

/// The hour pillars follow the five-rat rule (五鼠遁): the hours 23 and 0 are
/// 子, each following pair of hours takes the next branch, and the 子 hour of
/// a day of stem `s` has stem 甲, 丙, 戊, 庚 or 壬 for `s % 5` of 0 to 4; so
/// the stem is `2 * (s % 5)` plus the branch (mod 10).
pub proof fn law_hour_pillars_five_rats(day_stem: int, hour: int)
    requires
        0 <= day_stem,
        0 <= hour < 24,
    ensures
        hour_pillar(day_stem, hour).branch as int == (if hour == 23 { 0 } else { (hour + 1) / 2 }),
        hour_pillar(day_stem, hour).stem as int == (2 * (day_stem % 5) + hour_pillar(day_stem, hour).branch) % 10,
        hour_pillar(day_stem, 0) == (Pillar { stem: (2 * (day_stem % 5)) as u8, branch: 0 }),
{
    let k = day_stem % 5;
    assert(0 <= k < 5);
    assert(first_hour_stem(day_stem) == 2 * k);
    assert(0 <= hour_branch(hour) < 12);
}

/// Successive days take the next stem and the next branch, and the day
/// numbered 0 (0001-01-01) is 癸酉.
pub proof fn law_day_pillars_step(days: int)
    requires
        0 <= days,
    ensures
        day_pillar(days + 1).stem as int == (day_pillar(days).stem + 1) % 10,
        day_pillar(days + 1).branch as int == (day_pillar(days).branch + 1) % 12,
        day_pillar(0) == (Pillar { stem: 9, branch: 9 }),
{
}


/// The four pillars of a birth: the year pillar is the lunisolar year's stem
/// and branch (甲子 for 1984, one step on each year); the month pillar follows the five-tiger rule from the year
/// stem; the day pillar advances one stem and one branch a day from 癸酉 on
/// 0001-01-01; the hour pillar follows the five-rat rule from the day stem.
pub proof fn law_four_pillars(lunar: LunarDate, t: ClockTime)
    requires
        is_lunar_date(lunar),
        is_clock_time(t),
    ensures
        bazi_of(lunar, t).year == (Pillar { stem: lunar.info.year_stem, branch: lunar.info.year_branch }),
        bazi_of(lunar, t).year.stem as int == (lunar.year + 6) % 10,
        bazi_of(lunar, t).year.branch as int == (lunar.year + 8) % 12,
        bazi_of(lunar, t).month.stem as int == (2 * (lunar.info.year_stem % 5) + lunar.month + 1) % 10,
        bazi_of(lunar, t).month.branch as int == (lunar.month + 1) % 12,
        bazi_of(lunar, t).day.stem as int == (days_between(lunar.info.solar, first_day()) + 9) % 10,
        bazi_of(lunar, t).day.branch as int == (days_between(lunar.info.solar, first_day()) + 9) % 12,
        bazi_of(lunar, t).hour.branch as int == (if t.hour == 23 { 0 } else { (t.hour + 1) / 2 }),
        bazi_of(lunar, t).hour.stem as int == (2 * (bazi_of(lunar, t).day.stem % 5) + bazi_of(lunar, t).hour.branch)
            % 10,
{
    law_month_pillars_five_tigers(lunar.info.year_stem as int, lunar.month as int);
    let day = bazi_of(lunar, t).day;
    law_hour_pillars_five_rats(day.stem as int, t.hour as int);
}

} // verus!
