//! Archiving the snapshot: where a capture is stored, and under which
//! name.
//!
//! A capture is stored as `<root>/<label>/<stamp>.jpg`. The stamp is the
//! time of archiving in UTC, to the second, written as
//! `YYYY-MM-DD_HH.MM.SS`: no character in it needs care in a file name.
//! A year of more than four digits is written in full.
//! Where the clock gives no time there is no plan, and the caller reports
//! that the clock could not be read.

use vstd::prelude::*;
use chrono::{Datelike, Timelike};
use crate::paths::{child, is_plain_name};
use crate::sandbox::{
    confined, lemma_below_clean_root_is_confined, no_doubled_separator, strictly_confined,
};
use crate::sanitize::{sanitize_path, sanitized_label, sanitized_path};
use crate::text::{append_chars, chars_of, string_of};

verus! {

/// A date and a time of day, to the second.
#[derive(Debug, Clone, Copy, PartialEq, Eq, Structural)]
pub struct Timestamp {
    pub year: u32,
    pub month: u32,
    pub day: u32,
    pub hour: u32,
    pub minute: u32,
    pub second: u32,
}

/// Where a capture is archived.
#[derive(Debug, PartialEq, Eq)]
pub struct ArchivePlan {
    /// The label directory, to be created with all that leads to it.
    pub directory: String,
    /// The file to copy the snapshot to.
    pub file: String,
}

impl Timestamp {
    /// Whether the fields are in the ranges of the calendar and the clock.
    pub open spec fn is_calendar(&self) -> bool {
        &&& 1 <= self.month <= 12
        &&& 1 <= self.day <= 31
        &&& self.hour <= 23
        &&& self.minute <= 59
        &&& self.second <= 59
    }
}

/// The length of the stamp of a time in a year of four digits.
pub const STAMP_LEN: usize = 19;

/// The character for the digit `d`.
pub open spec fn digit(d: int) -> char {
    if d == 0 {
        '0'
    } else if d == 1 {
        '1'
    } else if d == 2 {
        '2'
    } else if d == 3 {
        '3'
    } else if d == 4 {
        '4'
    } else if d == 5 {
        '5'
    } else if d == 6 {
        '6'
    } else if d == 7 {
        '7'
    } else if d == 8 {
        '8'
    } else {
        '9'
    }
}

/// `n` in decimal, without leading zeros.
pub open spec fn decimal(n: nat) -> Seq<char>
    decreases n,
{
    if n < 10 {
        seq![digit(n as int)]
    } else {
        decimal(n / 10).push(digit((n % 10) as int))
    }
}

/// `n` in decimal, with a leading zero where it has one digit only.
pub open spec fn two_digits(n: nat) -> Seq<char> {
    if n < 10 {
        seq!['0'] + decimal(n)
    } else {
        decimal(n)
    }
}

/// The time as text: the year, the month and the day with hyphens between
/// them, an underscore, and the time of day with colons.
pub open spec fn time_text(at: Timestamp) -> Seq<char> {
    decimal(at.year as nat) + seq!['-'] + two_digits(at.month as nat) + seq!['-'] + two_digits(
        at.day as nat,
    ) + seq!['_'] + two_digits(at.hour as nat) + seq![':'] + two_digits(at.minute as nat)
        + seq![':'] + two_digits(at.second as nat)
}

/// `text` with each colon replaced by a full stop.
pub open spec fn stamped(text: Seq<char>) -> Seq<char> {
    text.map_values(
        |c: char|
            if c == ':' {
                '.'
            } else {
                c
            },
    )
}

/// The stamp of a time.
pub open spec fn stamp(at: Timestamp) -> Seq<char> {
    stamped(time_text(at))
}

/// The name of the file of a capture archived at the time `at`.
pub open spec fn capture_name(at: Timestamp) -> Seq<char> {
    stamp(at) + ".jpg"@
}

/// The directory of the captures archived under `label`.
pub open spec fn label_directory(root: Seq<char>, label: Seq<char>) -> Seq<char> {
    child(root, label)
}

/// The file in which a capture is archived.
pub open spec fn archive_file(root: Seq<char>, label: Seq<char>, at: Timestamp) -> Seq<char> {
    child(label_directory(root, sanitized_path(label)), capture_name(at))
}

/// The date and time of day in UTC at `secs` seconds and `nanos`
/// nanoseconds after the Unix epoch, as `DateTime::from_timestamp` of the
/// `chrono` crate gives it; `None` where it gives none.
pub uninterp spec fn utc_time(secs: i64, nanos: u32) -> Option<Timestamp>;

/// The time that a reading of the clock stands for: none where the clock
/// gave none, or counts more seconds than a signed number holds.
pub open spec fn time_read(clock: Option<(u64, u32)>) -> Option<Timestamp> {
    match clock {
        Some((secs, nanos)) => if secs <= i64::MAX {
            utc_time(secs as i64, nanos)
        } else {
            None
        },
        None => None,
    }
}

/// The time that has passed since the Unix epoch, in seconds and
/// nanoseconds; `None` where the clock stands before the epoch.
///
/// Trusted: calls `SystemTime::elapsed` of the standard library on
/// `UNIX_EPOCH`, which gives an error where the clock stands before it and
/// does not panic. The contract claims only that the nanoseconds are less
/// than a second, as `Duration::subsec_nanos` documents.
#[verifier::external_body]
fn since_epoch() -> (clock: Option<(u64, u32)>)
    ensures
        clock matches Some((secs, nanos)) ==> nanos < 1_000_000_000,
{
    match std::time::UNIX_EPOCH.elapsed() {
        Ok(passed) => Some((passed.as_secs(), passed.subsec_nanos())),
        Err(_) => None,
    }
}

/// The date and time of day in UTC at a time after the Unix epoch.
///
/// Trusted: calls `DateTime::from_timestamp` of the `chrono` crate, which
/// returns `None` out of its range and does not panic, and reads the
/// result with `year_ce`, `month`, `day`, `hour`, `minute` and `second`.
/// The contract names the result, claims the ranges that the crate
/// documents for these, and that no time from the epoch on lies in a year
/// before 1970.
#[verifier::external_body]
fn calendar_time(secs: i64, nanos: u32) -> (time: Option<Timestamp>)
    ensures
        time == utc_time(secs, nanos),
        time matches Some(at) ==> at.is_calendar() && (secs >= 0 ==> at.year >= 1970),
{
    let at = chrono::DateTime::from_timestamp(secs, nanos)?;
    Some(
        Timestamp {
            year: at.year_ce().1,
            month: at.month(),
            day: at.day(),
            hour: at.hour(),
            minute: at.minute(),
            second: at.second(),
        },
    )
}

fn digit_char(d: u32) -> (c: char)
    requires
        d < 10,
    ensures
        c == digit(d as int),
{
    if d == 0 {
        '0'
    } else if d == 1 {
        '1'
    } else if d == 2 {
        '2'
    } else if d == 3 {
        '3'
    } else if d == 4 {
        '4'
    } else if d == 5 {
        '5'
    } else if d == 6 {
        '6'
    } else if d == 7 {
        '7'
    } else if d == 8 {
        '8'
    } else {
        '9'
    }
}

fn push_decimal(out: &mut Vec<char>, n: u32)
    ensures
        final(out)@ == old(out)@ + decimal(n as nat),
    decreases n,
{
    if n >= 10 {
        push_decimal(out, n / 10);
    }
    out.push(digit_char(n % 10));
}

fn push_two_digits(out: &mut Vec<char>, n: u32)
    ensures
        final(out)@ == old(out)@ + two_digits(n as nat),
{
    if n < 10 {
        out.push('0');
    }
    push_decimal(out, n);
}

/// Writes the stamp of a time.
pub fn format_stamp(at: &Timestamp) -> (text: String)
    ensures
        text@ == stamp(*at),
{
    let mut full: Vec<char> = Vec::new();
    push_decimal(&mut full, at.year);
    full.push('-');
    push_two_digits(&mut full, at.month);
    full.push('-');
    push_two_digits(&mut full, at.day);
    full.push('_');
    push_two_digits(&mut full, at.hour);
    full.push(':');
    push_two_digits(&mut full, at.minute);
    full.push(':');
    push_two_digits(&mut full, at.second);
    assert(full@ =~= time_text(*at));
    let kept: usize = full.len();
    let mut out: Vec<char> = Vec::new();
    let mut i: usize = 0;
    while i < kept
        invariant
            i <= kept <= full.len(),
            out.len() == i,
            forall|k: int|
                0 <= k < i ==> #[trigger] out[k] == if full[k] == ':' {
                    '.'
                } else {
                    full[k]
                },
        decreases kept - i,
    {
        let c = full[i];
        out.push(
            if c == ':' {
                '.'
            } else {
                c
            },
        );
        i = i + 1;
    }
    assert(out@ =~= stamped(full@));
    string_of(&out)
}

/// The directory of the captures archived under `label`, which is taken
/// as it is.
pub fn directory_of(root: &str, label: &str) -> (directory: String)
    ensures
        directory@ == label_directory(root@, label@),
{
    let mut out = chars_of(root);
    out.push('/');
    append_chars(&mut out, &chars_of(label));
    string_of(&out)
}

/// Plans the archiving of the snapshot under `label` at the time `at`.
/// The label is sanitized as a path first.
pub fn plan_archive(root: &str, label: &str, at: &Timestamp) -> (plan: ArchivePlan)
    ensures
        plan.directory@ == label_directory(root@, sanitized_path(label@)),
        plan.file@ == archive_file(root@, label@, *at),
{
    let safe = sanitize_path(label);
    let directory = directory_of(root, safe.as_str());
    let mut file = chars_of(directory.as_str());
    file.push('/');
    append_chars(&mut file, &chars_of(format_stamp(at).as_str()));
    append_chars(&mut file, &chars_of(".jpg"));
    assert(file@ =~= archive_file(root@, label@, *at));
    ArchivePlan { directory, file: string_of(&file) }
}

/// Plans the archiving of the snapshot under `label` at the time that a
/// reading of the clock stands for; `None` where it stands for none.
pub fn plan_archive_at(
    root: &str,
    label: &str,
    clock: Option<(u64, u32)>,
) -> (plan: Option<ArchivePlan>)
    ensures
        match plan {
            Some(p) => time_read(clock) matches Some(at) && p.directory@ == label_directory(
                root@,
                sanitized_path(label@),
            ) && p.file@ == archive_file(root@, label@, at) && at.is_calendar() && at.year
                >= 1970,
            None => time_read(clock) is None,
        },
{
    let (secs, nanos) = match clock {
        Some(reading) => reading,
        None => {
            return None;
        },
    };
    if secs > i64::MAX as u64 {
        return None;
    }
    match calendar_time(secs as i64, nanos) {
        Some(at) => Some(plan_archive(root, label, &at)),
        None => None,
    }
}

/// Plans the archiving of the snapshot under `label` now; `None` where
/// the clock gives no time. Whatever the clock says, a plan is the one of
/// [`plan_archive`] for a time of the calendar from 1970 on.
pub fn plan_archive_now(root: &str, label: &str) -> (plan: Option<ArchivePlan>)
    ensures
        plan matches Some(p) ==> p.directory@ == label_directory(root@, sanitized_path(label@))
            && exists|at: Timestamp|
            at.is_calendar() && at.year >= 1970 && p.file@ == #[trigger] archive_file(
                root@,
                label@,
                at,
            ),
{
    plan_archive_at(root, label, since_epoch())
}

/// A number of four digits is written with four digits.
proof fn lemma_decimal_of_four_digits(n: nat)
    requires
        1000 <= n <= 9999,
    ensures
        decimal(n).len() == 4,
{
    reveal_with_fuel(decimal, 4);
}

/// A number below a hundred is written with two digits.
proof fn lemma_two_digits(n: nat)
    requires
        n <= 99,
    ensures
        two_digits(n).len() == 2,
        !two_digits(n).contains(':'),
{
    reveal_with_fuel(decimal, 2);
    lemma_decimal_holds_no_separator(n);
    if n < 10 {
        lemma_concat_holds_no_colon(seq!['0'], decimal(n));
    }
}

/// Text without a colon is its own stamp, and text is stamped piece by
/// piece.
proof fn lemma_stamped_pieces(a: Seq<char>, b: Seq<char>)
    ensures
        stamped(a + b) == stamped(a) + stamped(b),
        !b.contains(':') ==> stamped(b) == b,
        stamped(seq![':']) == seq!['.'],
{
    assert(stamped(a + b) =~= stamped(a) + stamped(b));
    if !b.contains(':') {
        assert forall|i: int| 0 <= i < b.len() implies stamped(b)[i] == b[i] by {
            assert(b.contains(b[i]));
        }
        assert(stamped(b) =~= b);
    }
    assert(stamped(seq![':']) =~= seq!['.']);
}

/// Text that holds no colon still holds none with more such text behind
/// it.
proof fn lemma_concat_holds_no_colon(a: Seq<char>, b: Seq<char>)
    requires
        !a.contains(':'),
        !b.contains(':'),
    ensures
        !(a + b).contains(':'),
{
    assert forall|i: int| 0 <= i < (a + b).len() implies (a + b)[i] != ':' by {
        if i < a.len() {
            assert(a.contains(a[i]));
        } else {
            assert(b.contains(b[i - a.len()]));
        }
    }
}

/// The stamp of a time of the calendar is the whole time: the date with
/// hyphens, an underscore, and the time of day with full stops. In a year
/// of four digits it has `STAMP_LEN` characters.
pub proof fn lemma_stamp_of_calendar_time(at: Timestamp)
    requires
        at.is_calendar(),
    ensures
        stamp(at) == decimal(at.year as nat) + seq!['-'] + two_digits(at.month as nat) + seq!['-']
            + two_digits(at.day as nat) + seq!['_'] + two_digits(at.hour as nat) + seq!['.']
            + two_digits(at.minute as nat) + seq!['.'] + two_digits(at.second as nat),
        stamp(at).len() == decimal(at.year as nat).len() + 15,
        1000 <= at.year <= 9999 ==> stamp(at).len() == STAMP_LEN,
{
    let year = decimal(at.year as nat);
    let month = two_digits(at.month as nat);
    let day = two_digits(at.day as nat);
    let hour = two_digits(at.hour as nat);
    let minute = two_digits(at.minute as nat);
    let second = two_digits(at.second as nat);
    lemma_decimal_holds_no_separator(at.year as nat);
    lemma_two_digits(at.month as nat);
    lemma_two_digits(at.day as nat);
    lemma_two_digits(at.hour as nat);
    lemma_two_digits(at.minute as nat);
    lemma_two_digits(at.second as nat);
    if 1000 <= at.year <= 9999 {
        lemma_decimal_of_four_digits(at.year as nat);
    }
    let hyphen = seq!['-'];
    let under = seq!['_'];
    let colon = seq![':'];
    assert(!hyphen.contains(':') && !under.contains(':'));
    let t1 = year + hyphen;
    let t2 = t1 + month;
    let t3 = t2 + hyphen;
    let t4 = t3 + day;
    let t5 = t4 + under;
    let t6 = t5 + hour;
    let t7 = t6 + colon;
    let t8 = t7 + minute;
    let t9 = t8 + colon;
    let text = t9 + second;
    assert(text == time_text(at));
    lemma_stamped_pieces(Seq::empty(), year);
    lemma_stamped_pieces(year, hyphen);
    lemma_stamped_pieces(t1, month);
    lemma_stamped_pieces(t2, hyphen);
    lemma_stamped_pieces(t3, day);
    lemma_stamped_pieces(t4, under);
    lemma_stamped_pieces(t5, hour);
    lemma_stamped_pieces(t6, colon);
    lemma_stamped_pieces(t7, minute);
    lemma_stamped_pieces(t8, colon);
    lemma_stamped_pieces(t9, second);
}

/// A number is written with digits only.
proof fn lemma_decimal_holds_no_separator(n: nat)
    ensures
        decimal(n).len() > 0,
        !decimal(n).contains('/'),
        !decimal(n).contains(':'),
    decreases n,
{
    if n >= 10 {
        lemma_decimal_holds_no_separator(n / 10);
        let shorter = decimal(n / 10);
        assert forall|i: int| 0 <= i < decimal(n).len() implies decimal(n)[i] != '/'
            && decimal(n)[i] != ':' by {
            if i < shorter.len() {
                assert(shorter.contains(shorter[i]));
            }
        }
    }
}

/// Text that holds no separator still holds none with more such text
/// behind it.
proof fn lemma_concat_holds_no_separator(a: Seq<char>, b: Seq<char>)
    requires
        !a.contains('/'),
        !b.contains('/'),
    ensures
        !(a + b).contains('/'),
{
    assert forall|i: int| 0 <= i < (a + b).len() implies (a + b)[i] != '/' by {
        if i < a.len() {
            assert(a.contains(a[i]));
        } else {
            assert(b.contains(b[i - a.len()]));
        }
    }
}

proof fn lemma_two_digits_hold_no_separator(n: nat)
    ensures
        !two_digits(n).contains('/'),
{
    lemma_decimal_holds_no_separator(n);
    if n < 10 {
        lemma_concat_holds_no_separator(seq!['0'], decimal(n));
    }
}

/// The name of a capture's file is a plain name: it can stand in a
/// directory, whatever the time.
pub proof fn lemma_capture_name_is_plain(at: Timestamp)
    ensures
        is_plain_name(capture_name(at)),
{
    let year = decimal(at.year as nat);
    lemma_decimal_holds_no_separator(at.year as nat);
    lemma_two_digits_hold_no_separator(at.month as nat);
    lemma_two_digits_hold_no_separator(at.day as nat);
    lemma_two_digits_hold_no_separator(at.hour as nat);
    lemma_two_digits_hold_no_separator(at.minute as nat);
    lemma_two_digits_hold_no_separator(at.second as nat);
    let t1 = year + seq!['-'];
    lemma_concat_holds_no_separator(year, seq!['-']);
    let t2 = t1 + two_digits(at.month as nat);
    lemma_concat_holds_no_separator(t1, two_digits(at.month as nat));
    let t3 = t2 + seq!['-'];
    lemma_concat_holds_no_separator(t2, seq!['-']);
    let t4 = t3 + two_digits(at.day as nat);
    lemma_concat_holds_no_separator(t3, two_digits(at.day as nat));
    let t5 = t4 + seq!['_'];
    lemma_concat_holds_no_separator(t4, seq!['_']);
    let t6 = t5 + two_digits(at.hour as nat);
    lemma_concat_holds_no_separator(t5, two_digits(at.hour as nat));
    let t7 = t6 + seq![':'];
    lemma_concat_holds_no_separator(t6, seq![':']);
    let t8 = t7 + two_digits(at.minute as nat);
    lemma_concat_holds_no_separator(t7, two_digits(at.minute as nat));
    let t9 = t8 + seq![':'];
    lemma_concat_holds_no_separator(t8, seq![':']);
    let text = t9 + two_digits(at.second as nat);
    lemma_concat_holds_no_separator(t9, two_digits(at.second as nat));
    assert(text == time_text(at));
    let st = stamp(at);
    assert forall|i: int| 0 <= i < st.len() implies st[i] != '/' by {
        assert(text.contains(text[i]));
    }
    reveal_strlit(".jpg");
    let suffix = ".jpg"@;
    assert forall|i: int| 0 <= i < suffix.len() implies suffix[i] != '/' by {
        assert(suffix[0] == '.' && suffix[1] == 'j' && suffix[2] == 'p' && suffix[3] == 'g');
    }
    lemma_concat_holds_no_separator(st, suffix);
    assert(capture_name(at).len() >= 4);
}

/// Two numbers below a hundred that are written alike are the same number.
proof fn lemma_two_digits_tell_apart(n: nat, m: nat)
    requires
        n <= 99,
        m <= 99,
        two_digits(n) == two_digits(m),
    ensures
        n == m,
{
    reveal_with_fuel(decimal, 2);
    lemma_two_digits(n);
    lemma_two_digits(m);
    let a = two_digits(n);
    let b = two_digits(m);
    assert(a[0] == digit((n / 10) as int) && a[1] == digit((n % 10) as int));
    assert(b[0] == digit((m / 10) as int) && b[1] == digit((m % 10) as int));
}

/// Two digits with the same character are the same digit.
proof fn lemma_digits_tell_apart(a: int, b: int)
    requires
        0 <= a <= 9,
        0 <= b <= 9,
        digit(a) == digit(b),
    ensures
        a == b,
{
}

/// Two numbers that are written alike are the same number.
proof fn lemma_decimal_tells_apart(n: nat, m: nat)
    requires
        decimal(n) == decimal(m),
    ensures
        n == m,
    decreases n,
{
    lemma_decimal_holds_no_separator(n / 10);
    lemma_decimal_holds_no_separator(m / 10);
    if n < 10 {
        if m >= 10 {
            assert(decimal(m).len() >= 2);
            assert(decimal(n).len() == 1);
        } else {
            assert(decimal(n)[0] == digit(n as int));
            assert(decimal(m)[0] == digit(m as int));
            lemma_digits_tell_apart(n as int, m as int);
        }
    } else {
        if m < 10 {
            assert(decimal(n).len() >= 2);
            assert(decimal(m).len() == 1);
        }
        let a = decimal(n / 10);
        let b = decimal(m / 10);
        assert(decimal(n).last() == digit((n % 10) as int));
        assert(decimal(m).last() == digit((m % 10) as int));
        lemma_digits_tell_apart((n % 10) as int, (m % 10) as int);
        assert(a =~= decimal(n).drop_last());
        assert(b =~= decimal(m).drop_last());
        lemma_decimal_tells_apart(n / 10, m / 10);
    }
}

/// Two times of the calendar have the same stamp only if they are the
/// same time, to the second.
pub proof fn lemma_stamp_tells_seconds_apart(a: Timestamp, b: Timestamp)
    requires
        a.is_calendar(),
        b.is_calendar(),
        stamp(a) == stamp(b),
    ensures
        a == b,
{
    lemma_stamp_of_calendar_time(a);
    lemma_stamp_of_calendar_time(b);
    lemma_two_digits(a.month as nat);
    lemma_two_digits(b.month as nat);
    lemma_two_digits(a.day as nat);
    lemma_two_digits(b.day as nat);
    lemma_two_digits(a.hour as nat);
    lemma_two_digits(b.hour as nat);
    lemma_two_digits(a.minute as nat);
    lemma_two_digits(b.minute as nat);
    lemma_two_digits(a.second as nat);
    lemma_two_digits(b.second as nat);
    let sa = stamp(a);
    let sb = stamp(b);
    let n = decimal(a.year as nat).len() as int;
    assert(decimal(b.year as nat).len() == n);
    assert(sa.subrange(0, n) =~= decimal(a.year as nat));
    assert(sb.subrange(0, n) =~= decimal(b.year as nat));
    lemma_decimal_tells_apart(a.year as nat, b.year as nat);
    assert(sa.subrange(n + 1, n + 3) =~= two_digits(a.month as nat));
    assert(sb.subrange(n + 1, n + 3) =~= two_digits(b.month as nat));
    lemma_two_digits_tell_apart(a.month as nat, b.month as nat);
    assert(sa.subrange(n + 4, n + 6) =~= two_digits(a.day as nat));
    assert(sb.subrange(n + 4, n + 6) =~= two_digits(b.day as nat));
    lemma_two_digits_tell_apart(a.day as nat, b.day as nat);
    assert(sa.subrange(n + 7, n + 9) =~= two_digits(a.hour as nat));
    assert(sb.subrange(n + 7, n + 9) =~= two_digits(b.hour as nat));
    lemma_two_digits_tell_apart(a.hour as nat, b.hour as nat);
    assert(sa.subrange(n + 10, n + 12) =~= two_digits(a.minute as nat));
    assert(sb.subrange(n + 10, n + 12) =~= two_digits(b.minute as nat));
    lemma_two_digits_tell_apart(a.minute as nat, b.minute as nat);
    assert(sa.subrange(n + 13, n + 15) =~= two_digits(a.second as nat));
    assert(sb.subrange(n + 13, n + 15) =~= two_digits(b.second as nat));
    lemma_two_digits_tell_apart(a.second as nat, b.second as nat);
}

/// Two accepted requests are archived in the same file only if their
/// labels are the same and they are archived in the same second.
pub proof fn lemma_archives_collide_only_in_the_same_second(
    root: Seq<char>,
    raw_label1: Seq<char>,
    at1: Timestamp,
    raw_label2: Seq<char>,
    at2: Timestamp,
)
    requires
        raw_label1.len() > 0,
        raw_label2.len() > 0,
        at1.is_calendar(),
        at2.is_calendar(),
        archive_file(root, sanitized_label(raw_label1), at1) == archive_file(
            root,
            sanitized_label(raw_label2),
            at2,
        ),
    ensures
        sanitized_label(raw_label1) == sanitized_label(raw_label2),
        at1 == at2,
{
    let l1 = sanitized_label(raw_label1);
    let l2 = sanitized_label(raw_label2);
    let n1 = capture_name(at1);
    let n2 = capture_name(at2);
    let f1 = archive_file(root, l1, at1);
    let f2 = archive_file(root, l2, at2);
    crate::sanitize::lemma_label_is_stable(raw_label1);
    crate::sanitize::lemma_label_is_stable(raw_label2);
    lemma_capture_name_is_plain(at1);
    lemma_capture_name_is_plain(at2);
    crate::paths::lemma_last_name_of_child(child(root, l1), n1);
    crate::paths::lemma_last_name_of_child(child(root, l2), n2);
    assert(child(root, l1).len() == child(root, l2).len());
    assert(n1 == n2);
    assert(l1 =~= f1.subrange(root.len() as int + 1, root.len() as int + 1 + l1.len()));
    assert(l2 =~= f2.subrange(root.len() as int + 1, root.len() as int + 1 + l2.len()));
    reveal_strlit(".jpg");
    assert(stamp(at1) =~= n1.take(n1.len() - 4));
    assert(stamp(at2) =~= n2.take(n2.len() - 4));
    lemma_stamp_tells_seconds_apart(at1, at2);
}

/// A capture is archived inside the sandbox, whatever the label and the
/// time, provided the root holds no doubled separator.
pub proof fn lemma_archive_is_confined(root: Seq<char>, label: Seq<char>, at: Timestamp)
    requires
        no_doubled_separator(root),
    ensures
        confined(root, label_directory(root, sanitized_path(label))),
        confined(root, archive_file(root, label, at)),
{
    let safe = sanitized_path(label);
    let below = seq!['/'] + safe;
    assert(label_directory(root, safe) == root + below);
    lemma_below_clean_root_is_confined(root, below);
    let deeper = seq!['/'] + safe + seq!['/'] + capture_name(at);
    assert(archive_file(root, label, at) == root + deeper);
    lemma_below_clean_root_is_confined(root, deeper);
}

/// The label of an accepted request is archived under itself, and both its
/// directory and the capture lie strictly inside the sandbox: the listing
/// may prune the directory once it is empty, and never the root.
pub proof fn lemma_accepted_label_is_archived_inside(
    root: Seq<char>,
    raw_label: Seq<char>,
    at: Timestamp,
)
    requires
        no_doubled_separator(root),
        raw_label.len() > 0,
    ensures
        ({
            let label = sanitized_label(raw_label);
            &&& sanitized_path(label) == label
            &&& strictly_confined(root, label_directory(root, label))
            &&& strictly_confined(root, archive_file(root, label, at))
        }),
{
    let label = sanitized_label(raw_label);
    crate::sanitize::lemma_label_is_stable(raw_label);
    lemma_archive_is_confined(root, label, at);
    let below = seq!['/'] + label;
    assert(label_directory(root, label) == root + below);
    assert(below[1] == label[0]);
    lemma_collapsed_grows(root, below);
    let deeper = seq!['/'] + label + seq!['/'] + capture_name(at);
    assert(archive_file(root, label, at) == root + deeper);
    assert(deeper[1] == label[0]);
    lemma_collapsed_grows(root, deeper);
}

/// What a clean root followed by a separator and more collapses to is
/// longer than the root.
proof fn lemma_collapsed_grows(root: Seq<char>, rest: Seq<char>)
    requires
        no_doubled_separator(root),
        rest.len() > 1,
        rest[0] == '/',
        rest[1] != '/',
    ensures
        crate::sandbox::collapsed(root + rest).len() > root.len(),
    decreases root.len(),
{
    let s = root + rest;
    if root.len() == 0 {
        assert(s == rest);
    } else if s.len() >= 2 && s[0] == '/' && s[1] == '/' {
        if root.len() >= 2 {
            assert(root[0] == s[0] && root[0int + 1] == s[1]);
        }
        assert(root.len() == 1);
        assert(s.skip(2) == rest.skip(1));
        let tail = rest.skip(1);
        assert(tail[0] != '/');
        assert(crate::sandbox::collapsed(tail).len() >= 1);
    } else {
        let tail = root.skip(1);
        assert forall|i: int| 0 <= i && i + 1 < tail.len() implies !(tail[i] == '/'
            && #[trigger] tail[i + 1] == '/') by {
            assert(tail[i] == root[i + 1]);
            assert(tail[i + 1] == root[(i + 1) + 1]);
        }
        assert(s.skip(1) == tail + rest);
        lemma_collapsed_grows(tail, rest);
    }
}

} // verus!
