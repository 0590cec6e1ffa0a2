//! ISO 8601 durations of timer events.
//!
//! A duration `PnYnMnDTnHnMnS` (optionally after `R/`) comes to a number of
//! seconds: a year is 12 months, a month 30 days, a day 86400 seconds.

use vstd::prelude::*;
use crate::model::xml_round_trip::lemma_nat_text;
use crate::text::{
    all_digits, chars_of, digits_value, is_digit, lemma_trimmed_ends, nat_text, trim, trim_chars, trim_end, trim_start,
};
use crate::words::{pieces, pieces_state, split_pieces, texts};

verus! {

#[verifier::external_type_specification]
#[verifier::external_body]
pub struct ExTimeDelta(chrono::TimeDelta);

/// The largest number of seconds a `chrono::TimeDelta` holds
/// (`i64::MAX` milliseconds, in whole seconds).
pub const MAX_DELTA_SECONDS: i64 = 9223372036854775;

/// The number the digits `d` give, as `str::parse::<i64>` reads it, or 0
/// when it reads none (no digits, or a value above `i64::MAX`).
pub open spec fn number_or_zero(d: Seq<char>) -> int {
    if d.len() > 0 && digits_value(d) <= i64::MAX {
        digits_value(d)
    } else {
        0
    }
}

/// Reading the date part `s` (`nYnMnD`): the digits not yet followed by a
/// designator, and the days and months read so far. Other characters are
/// passed over.
pub open spec fn scan_date(s: Seq<char>) -> (Seq<char>, int, int)
    decreases s.len(),
{
    if s.len() == 0 {
        (Seq::empty(), 0, 0)
    } else {
        let prev = scan_date(s.drop_last());
        let c = s.last();
        let v = number_or_zero(prev.0);
        if c == 'Y' {
            (Seq::empty(), prev.1, prev.2 + 12 * v)
        } else if c == 'M' {
            (Seq::empty(), prev.1, prev.2 + v)
        } else if c == 'D' {
            (Seq::empty(), prev.1 + v, prev.2)
        } else if is_digit(c) {
            (prev.0.push(c), prev.1, prev.2)
        } else {
            prev
        }
    }
}

/// Reading the time part `s` (`nHnMnS`, and `nD` too): the digits not yet
/// followed by a designator, and the days and seconds read so far.
pub open spec fn scan_time(s: Seq<char>) -> (Seq<char>, int, int)
    decreases s.len(),
{
    if s.len() == 0 {
        (Seq::empty(), 0, 0)
    } else {
        let prev = scan_time(s.drop_last());
        let c = s.last();
        let v = number_or_zero(prev.0);
        if c == 'H' {
            (Seq::empty(), prev.1, prev.2 + 3600 * v)
        } else if c == 'M' {
            (Seq::empty(), prev.1, prev.2 + 60 * v)
        } else if c == 'S' {
            (Seq::empty(), prev.1, prev.2 + v)
        } else if c == 'D' {
            (Seq::empty(), prev.1 + v, prev.2)
        } else if is_digit(c) {
            (prev.0.push(c), prev.1, prev.2)
        } else {
            prev
        }
    }
}

/// The duration `s` without white space at its ends and without a leading
/// `R/`.
pub open spec fn duration_text(s: Seq<char>) -> Seq<char> {
    let t = trim(s);
    if t.len() >= 2 && t[0] == 'R' && t[1] == '/' {
        t.skip(2)
    } else {
        t
    }
}

/// The seconds of an ISO 8601 duration `s`, or the error for a text that
/// does not start with `P`. Before the first `T` come years, months and days;
/// between it and a second `T`, hours, minutes, seconds and days.
pub open spec fn duration_total(s: Seq<char>) -> Result<int, Seq<char>> {
    let d = duration_text(s);
    if d.len() == 0 || d[0] != 'P' {
        Err("Invalid ISO 8601 duration: must start with P"@)
    } else {
        let rem = d.skip(1);
        if rem.contains('T') {
            let ps = pieces(rem, 'T');
            let date = scan_date(ps[0]);
            let time = scan_time(if ps.len() > 1 { ps[1] } else { Seq::empty() });
            Ok(86400 * (date.1 + time.1) + 2592000 * date.2 + time.2)
        } else {
            let date = scan_date(rem);
            Ok(86400 * date.1 + 2592000 * date.2)
        }
    }
}

/// Whether `s` is a duration whose seconds a `TimeDelta` holds; the
/// computation of the others overflows.
pub open spec fn duration_in_bounds(s: Seq<char>) -> bool {
    duration_total(s) matches Ok(n) ==> n <= MAX_DELTA_SECONDS
}

/// A bound on the counters, above every value a `TimeDelta` holds.
const CAP: i128 = 9223372036854775807;

/// `x`, or `CAP` when `x` is larger.
spec fn capped(x: int) -> int {
    if x < CAP {
        x
    } else {
        CAP as int
    }
}

/// The number the digits `d` give, or 0.
fn number_of(d: &Vec<char>) -> (v: i128)
    requires
        forall|i: int| 0 <= i < d.len() ==> is_digit(#[trigger] d@[i]),
    ensures
        v == number_or_zero(d@),
        0 <= v <= i64::MAX,
{
    let mut v: i128 = 0;
    let mut over = false;
    for i in 0..d.len()
        invariant
            forall|j: int| 0 <= j < d.len() ==> is_digit(#[trigger] d@[j]),
            !over ==> v == digits_value(d@.take(i as int)) && 0 <= v <= i64::MAX,
            over ==> digits_value(d@.take(i as int)) > i64::MAX,
            digits_value(d@.take(i as int)) >= 0,
    {
        proof {
            assert(d@.take(i + 1).drop_last() =~= d@.take(i as int));
            assert(d@.take(i + 1).last() == d@[i as int]);
        }
        let digit = (d[i] as u32 - '0' as u32) as i128;
        if !over {
            v = v * 10 + digit;
            if v > 0x7fff_ffff_ffff_ffff {
                over = true;
            }
        }
    }
    proof {
        assert(d@.take(d.len() as int) =~= d@);
    }
    if over || d.len() == 0 {
        0
    } else {
        v
    }
}

/// Reads the date part `s`: its days and months, each capped at `CAP`.
fn read_date(s: &Vec<char>) -> (r: (i128, i128))
    ensures
        r.0 == capped(scan_date(s@).1),
        r.1 == capped(scan_date(s@).2),
        scan_date(s@).1 >= 0,
        scan_date(s@).2 >= 0,
{
    let mut cur: Vec<char> = Vec::new();
    let mut days: i128 = 0;
    let mut months: i128 = 0;
    for i in 0..s.len()
        invariant
            cur@ == scan_date(s@.take(i as int)).0,
            forall|j: int| 0 <= j < cur.len() ==> is_digit(#[trigger] cur@[j]),
            days == capped(scan_date(s@.take(i as int)).1),
            months == capped(scan_date(s@.take(i as int)).2),
            scan_date(s@.take(i as int)).1 >= 0,
            scan_date(s@.take(i as int)).2 >= 0,
    {
        proof {
            assert(s@.take(i + 1).drop_last() =~= s@.take(i as int));
            assert(s@.take(i + 1).last() == s@[i as int]);
        }
        let c = s[i];
        if c == 'Y' {
            let v = number_of(&cur);
            months = months + 12 * v;
            if months > CAP {
                months = CAP;
            }
            cur = Vec::new();
        } else if c == 'M' {
            let v = number_of(&cur);
            months = months + v;
            if months > CAP {
                months = CAP;
            }
            cur = Vec::new();
        } else if c == 'D' {
            let v = number_of(&cur);
            days = days + v;
            if days > CAP {
                days = CAP;
            }
            cur = Vec::new();
        } else if '0' <= c && c <= '9' {
            cur.push(c);
        }
        proof {
            assert(cur@ =~= scan_date(s@.take(i + 1)).0);
        }
    }
    proof {
        assert(s@.take(s.len() as int) =~= s@);
    }
    (days, months)
}

/// Reads the time part `s`: its days and seconds, each capped at `CAP`.
fn read_time(s: &Vec<char>) -> (r: (i128, i128))
    ensures
        r.0 == capped(scan_time(s@).1),
        r.1 == capped(scan_time(s@).2),
        scan_time(s@).1 >= 0,
        scan_time(s@).2 >= 0,
{
    let mut cur: Vec<char> = Vec::new();
    let mut days: i128 = 0;
    let mut secs: i128 = 0;
    for i in 0..s.len()
        invariant
            cur@ == scan_time(s@.take(i as int)).0,
            forall|j: int| 0 <= j < cur.len() ==> is_digit(#[trigger] cur@[j]),
            days == capped(scan_time(s@.take(i as int)).1),
            secs == capped(scan_time(s@.take(i as int)).2),
            scan_time(s@.take(i as int)).1 >= 0,
            scan_time(s@.take(i as int)).2 >= 0,
    {
        proof {
            assert(s@.take(i + 1).drop_last() =~= s@.take(i as int));
            assert(s@.take(i + 1).last() == s@[i as int]);
        }
        let c = s[i];
        if c == 'H' {
            let v = number_of(&cur);
            secs = secs + 3600 * v;
            if secs > CAP {
                secs = CAP;
            }
            cur = Vec::new();
        } else if c == 'M' {
            let v = number_of(&cur);
            secs = secs + 60 * v;
            if secs > CAP {
                secs = CAP;
            }
            cur = Vec::new();
        } else if c == 'S' {
            let v = number_of(&cur);
            secs = secs + v;
            if secs > CAP {
                secs = CAP;
            }
            cur = Vec::new();
        } else if c == 'D' {
            let v = number_of(&cur);
            days = days + v;
            if days > CAP {
                days = CAP;
            }
            cur = Vec::new();
        } else if '0' <= c && c <= '9' {
            cur.push(c);
        }
        proof {
            assert(cur@ =~= scan_time(s@.take(i + 1)).0);
        }
    }
    proof {
        assert(s@.take(s.len() as int) =~= s@);
    }
    (days, secs)
}

/// The characters of `s` from position `from` on.
fn tail_from(s: &Vec<char>, from: usize) -> (r: Vec<char>)
    requires
        from <= s.len(),
    ensures
        r@ == s@.skip(from as int),
{
    let mut r: Vec<char> = Vec::new();
    let mut k: usize = from;
    while k < s.len()
        invariant
            from <= k <= s.len(),
            r@ == s@.subrange(from as int, k as int),
        decreases s.len() - k,
    {
        r.push(s[k]);
        assert(r@ =~= s@.subrange(from as int, k + 1));
        k = k + 1;
    }
    assert(r@ =~= s@.skip(from as int));
    r
}

/// Whether `s` holds the character `c`.
fn holds_char(s: &Vec<char>, c: char) -> (r: bool)
    ensures
        r == s@.contains(c),
{
    let mut k: usize = 0;
    while k < s.len()
        invariant
            k <= s.len(),
            forall|j: int| 0 <= j < k ==> s@[j] != c,
        decreases s.len() - k,
    {
        if s[k] == c {
            return true;
        }
        k = k + 1;
    }
    false
}

/// The seconds of the duration `s`, or its error: exact when they are at
/// most `MAX_DELTA_SECONDS`, and otherwise above it too.
fn capped_total(s: &str) -> (r: Result<i128, String>)
    ensures
        match duration_total(s@) {
            Ok(n) => r matches Ok(v) && v >= 0 && (n <= MAX_DELTA_SECONDS <==> v <= MAX_DELTA_SECONDS) && (n
                <= MAX_DELTA_SECONDS ==> v == n),
            Err(m) => r matches Err(e) && e@ == m,
        },
{
    let t = trim_chars(&chars_of(s));
    let d = if t.len() >= 2 && t[0] == 'R' && t[1] == '/' {
        tail_from(&t, 2)
    } else {
        t
    };
    if d.len() == 0 || d[0] != 'P' {
        return Err("Invalid ISO 8601 duration: must start with P".to_owned());
    }
    let rem = tail_from(&d, 1);
    if holds_char(&rem, 'T') {
        let ps = split_pieces(&rem, 'T');
        proof {
            assert(texts(ps@).len() == ps@.len());
            assert(texts(ps@)[0] == ps@[0]@);
        }
        let (dd, dm) = read_date(&ps[0]);
        let (td, ts) = if ps.len() > 1 {
            proof {
                assert(texts(ps@)[1] == ps@[1]@);
            }
            read_time(&ps[1])
        } else {
            let empty: Vec<char> = Vec::new();
            proof {
                assert(empty@ =~= Seq::<char>::empty());
            }
            read_time(&empty)
        };
        Ok(86400 * (dd + td) + 2592000 * dm + ts)
    } else {
        let (dd, dm) = read_date(&rem);
        Ok(86400 * dd + 2592000 * dm)
    }
}

/// Whether the seconds of the duration `s` fit a `TimeDelta`: what
/// `duration_seconds` and `parse_iso8601_duration` require.
pub fn duration_fits(s: &str) -> (r: bool)
    ensures
        r == duration_in_bounds(s@),
{
    match capped_total(s) {
        Ok(v) => v <= MAX_DELTA_SECONDS as i128,
        Err(_) => true,
    }
}

/// The number of seconds of the ISO 8601 duration `s`: `PT3D` is 3 days,
/// `PT24H` 24 hours, `PT1H30M` 90 minutes, `R/PT1H` one hour. A text that
/// does not start with `P` (after white space and `R/`) is an error.
pub fn duration_seconds(s: &str) -> (r: Result<i64, String>)
    requires
        duration_in_bounds(s@),
    ensures
        match duration_total(s@) {
            Ok(n) => r matches Ok(v) && v == n,
            Err(m) => r matches Err(e) && e@ == m,
        },
        r matches Ok(v) ==> v >= 0,
{
    match capped_total(s) {
        Ok(v) => Ok(v as i64),
        Err(e) => Err(e),
    }
}

/// What `chrono::TimeDelta::seconds` returns for `seconds`.
pub uninterp spec fn delta_of_seconds(seconds: int) -> chrono::TimeDelta;

/// Calls `chrono::TimeDelta::seconds`, which panics beyond
/// `MAX_DELTA_SECONDS` either way; its result is named `delta_of_seconds`.
#[verifier::external_body]
fn seconds_delta(seconds: i64) -> (r: chrono::TimeDelta)
    requires
        -MAX_DELTA_SECONDS <= seconds <= MAX_DELTA_SECONDS,
    ensures
        r == delta_of_seconds(seconds as int),
{
    chrono::TimeDelta::seconds(seconds)
}

/// Parses the ISO 8601 duration `s` into a `chrono::Duration` of
/// `duration_seconds(s)` seconds.
pub fn parse_iso8601_duration(s: &str) -> (r: Result<chrono::TimeDelta, String>)
    requires
        duration_in_bounds(s@),
    ensures
        match duration_total(s@) {
            Ok(n) => r matches Ok(d) && d == delta_of_seconds(n),
            Err(m) => r matches Err(e) && e@ == m,
        },
{
    match duration_seconds(s) {
        Ok(n) => Ok(seconds_delta(n)),
        Err(e) => Err(e),
    }
}

/// A leading `R/` (a repeating timer) does not change a duration: for a
/// duration text without white space at its ends and without its own `R/`,
/// `R/` followed by it gives what it gives.
pub proof fn law_repeating_prefix(t: Seq<char>)
    requires
        trim(t) == t,
        !(t.len() >= 2 && t[0] == 'R' && t[1] == '/'),
    ensures
        duration_total("R/"@ + t) == duration_total(t),
{
    reveal_strlit("R/");
    let s = "R/"@ + t;
    assert(s[0] == 'R' && s[1] == '/');
    assert(trim_start(s) == s);
    if t.len() > 0 {
        lemma_trimmed_ends(t);
        assert(s.last() == t.last());
    }
    assert(trim_end(s) == s);
    assert(s.skip(2) =~= t);
}

/// Reading digits goes on with the number being read.
pub proof fn lemma_scan_date_digits(p: Seq<char>, ds: Seq<char>)
    requires
        all_digits(ds),
    ensures
        scan_date(p + ds) == (scan_date(p).0 + ds, scan_date(p).1, scan_date(p).2),
    decreases ds.len(),
{
    if ds.len() == 0 {
        assert(p + ds =~= p);
        assert(scan_date(p).0 + ds =~= scan_date(p).0);
    } else {
        let init = ds.drop_last();
        assert(all_digits(init)) by {
            assert forall|i: int| 0 <= i < init.len() implies is_digit(#[trigger] init[i]) by {
                assert(init[i] == ds[i]);
            }
        }
        lemma_scan_date_digits(p, init);
        assert((p + ds).drop_last() =~= p + init);
        assert((p + ds).last() == ds.last());
        assert(is_digit(ds[ds.len() - 1]));
        assert((scan_date(p).0 + init).push(ds.last()) =~= scan_date(p).0 + ds);
    }
}

/// Reading a number `n` then the designator `c`, where no number is being
/// read: the number read, and nothing being read after it.
pub proof fn lemma_scan_date_number(p: Seq<char>, n: nat, c: char)
    requires
        scan_date(p).0.len() == 0,
        n <= i64::MAX,
    ensures
        scan_date(p + nat_text(n)).0 == nat_text(n),
        number_or_zero(nat_text(n)) == n,
        (p + nat_text(n)).push(c).drop_last() == p + nat_text(n),
        (p + nat_text(n)).push(c).last() == c,
        scan_date(p + nat_text(n)).1 == scan_date(p).1,
        scan_date(p + nat_text(n)).2 == scan_date(p).2,
{
    lemma_nat_text(n);
    lemma_scan_date_digits(p, nat_text(n));
    assert(scan_date(p).0 + nat_text(n) =~= nat_text(n));
    assert((p + nat_text(n)).push(c).drop_last() =~= p + nat_text(n));
}

/// The duration text `P<years>Y<months>M<days>D`, each number in decimal.
pub open spec fn date_duration_text(years: nat, months: nat, days: nat) -> Seq<char> {
    seq!['P'] + nat_text(years) + seq!['Y'] + nat_text(months) + seq!['M'] + nat_text(days) + seq!['D']
}

/// The designators of a date duration add up: `P<y>Y<m>M<d>D` lasts
/// `12 * y + m` months of 30 days and `d` days, so that, for instance,
/// `P1Y6M` lasts as long as `P1Y` and `P6M` together.
pub proof fn law_date_designators_add(years: nat, months: nat, days: nat)
    requires
        years <= i64::MAX,
        months <= i64::MAX,
        days <= i64::MAX,
    ensures
        duration_total(date_duration_text(years, months, days)) == Ok::<int, Seq<char>>(
            ((12 * years + months) * 30 * 86400 + days * 86400) as int,
        ),
{
    let ty = nat_text(years);
    let tm = nat_text(months);
    let td = nat_text(days);
    let rem = ty + seq!['Y'] + tm + seq!['M'] + td + seq!['D'];
    let s = date_duration_text(years, months, days);
    assert(s =~= seq!['P'] + rem);
    lemma_nat_text(years);
    lemma_nat_text(months);
    lemma_nat_text(days);
    assert(s[0] == 'P');
    assert(s.last() == 'D');
    assert(trim_start(s) == s);
    assert(trim_end(s) == s);
    assert(duration_text(s) == s);
    assert(s.skip(1) =~= rem);
    assert(!rem.contains('T')) by {
        assert forall|i: int| 0 <= i < rem.len() implies rem[i] != 'T' by {
            if i < ty.len() {
                assert(rem[i] == ty[i] && is_digit(ty[i]));
            } else if i == ty.len() {
            } else if i < ty.len() + 1 + tm.len() {
                assert(rem[i] == tm[i - ty.len() - 1] && is_digit(tm[i - ty.len() - 1]));
            } else if i == ty.len() + 1 + tm.len() {
            } else if i < ty.len() + 2 + tm.len() + td.len() {
                assert(rem[i] == td[i - ty.len() - 2 - tm.len()] && is_digit(td[i - ty.len() - 2 - tm.len()]));
            }
        }
    }
    let e = Seq::<char>::empty();
    assert(scan_date(e) == (Seq::<char>::empty(), 0int, 0int));
    lemma_scan_date_number(e, years, 'Y');
    assert(e + ty =~= ty);
    let p1 = ty.push('Y');
    assert(scan_date(p1) == (Seq::<char>::empty(), 0int, (12 * years) as int));
    lemma_scan_date_number(p1, months, 'M');
    let p2 = (p1 + tm).push('M');
    assert(scan_date(p2) == (Seq::<char>::empty(), 0int, (12 * years + months) as int));
    lemma_scan_date_number(p2, days, 'D');
    let p3 = (p2 + td).push('D');
    assert(scan_date(p3) == (Seq::<char>::empty(), days as int, (12 * years + months) as int));
    assert(p3 =~= rem);
    assert(86400 * days + 2592000 * (12 * years + months) == (12 * years + months) * 30 * 86400 + days * 86400)
        by (nonlinear_arith);
}

/// Reading digits in the time part goes on with the number being read.
pub proof fn lemma_scan_time_digits(p: Seq<char>, ds: Seq<char>)
    requires
        all_digits(ds),
    ensures
        scan_time(p + ds) == (scan_time(p).0 + ds, scan_time(p).1, scan_time(p).2),
    decreases ds.len(),
{
    if ds.len() == 0 {
        assert(p + ds =~= p);
        assert(scan_time(p).0 + ds =~= scan_time(p).0);
    } else {
        let init = ds.drop_last();
        assert(all_digits(init)) by {
            assert forall|i: int| 0 <= i < init.len() implies is_digit(#[trigger] init[i]) by {
                assert(init[i] == ds[i]);
            }
        }
        lemma_scan_time_digits(p, init);
        assert((p + ds).drop_last() =~= p + init);
        assert((p + ds).last() == ds.last());
        assert(is_digit(ds[ds.len() - 1]));
        assert((scan_time(p).0 + init).push(ds.last()) =~= scan_time(p).0 + ds);
    }
}

/// Reading a number `n` then the designator `c` in the time part, where no
/// number is being read.
pub proof fn lemma_scan_time_number(p: Seq<char>, n: nat, c: char)
    requires
        scan_time(p).0.len() == 0,
        n <= i64::MAX,
    ensures
        scan_time(p + nat_text(n)).0 == nat_text(n),
        number_or_zero(nat_text(n)) == n,
        (p + nat_text(n)).push(c).drop_last() == p + nat_text(n),
        (p + nat_text(n)).push(c).last() == c,
        scan_time(p + nat_text(n)).1 == scan_time(p).1,
        scan_time(p + nat_text(n)).2 == scan_time(p).2,
{
    lemma_nat_text(n);
    lemma_scan_time_digits(p, nat_text(n));
    assert(scan_time(p).0 + nat_text(n) =~= nat_text(n));
    assert((p + nat_text(n)).push(c).drop_last() =~= p + nat_text(n));
}

/// Splitting where the piece being read goes on with characters other
/// than the separator.
pub proof fn lemma_pieces_state_plain(p: Seq<char>, x: Seq<char>, sep: char)
    requires
        forall|i: int| 0 <= i < x.len() ==> x[i] != sep,
    ensures
        pieces_state(p + x, sep) == (pieces_state(p, sep).0, pieces_state(p, sep).1 + x),
    decreases x.len(),
{
    if x.len() == 0 {
        assert(p + x =~= p);
        assert(pieces_state(p, sep).1 + x =~= pieces_state(p, sep).1);
    } else {
        let init = x.drop_last();
        assert forall|i: int| 0 <= i < init.len() implies init[i] != sep by {
            assert(init[i] == x[i]);
        }
        lemma_pieces_state_plain(p, init, sep);
        assert((p + x).drop_last() =~= p + init);
        assert((p + x).last() == x.last());
        assert(x[x.len() - 1] != sep);
        assert((pieces_state(p, sep).1 + init).push(x.last()) =~= pieces_state(p, sep).1 + x);
    }
}

/// The time text `<h>H<m>M<s>S`, each number in decimal.
pub open spec fn time_part_text(hours: nat, minutes: nat, seconds: nat) -> Seq<char> {
    nat_text(hours) + seq!['H'] + nat_text(minutes) + seq!['M'] + nat_text(seconds) + seq!['S']
}

/// The date text `<y>Y<m>M<d>D`, each number in decimal.
pub open spec fn date_part_text(years: nat, months: nat, days: nat) -> Seq<char> {
    nat_text(years) + seq!['Y'] + nat_text(months) + seq!['M'] + nat_text(days) + seq!['D']
}

/// Whether `s` holds no `T`, the mark that starts the time part.
pub open spec fn no_time_mark(s: Seq<char>) -> bool {
    forall|i: int| 0 <= i < s.len() ==> s[i] != 'T'
}

/// The time part: hours, minutes and seconds add up.
pub proof fn lemma_time_part(hours: nat, minutes: nat, seconds: nat)
    requires
        hours <= i64::MAX,
        minutes <= i64::MAX,
        seconds <= i64::MAX,
    ensures
        scan_time(time_part_text(hours, minutes, seconds)).1 == 0,
        scan_time(time_part_text(hours, minutes, seconds)).2 == 3600 * hours + 60 * minutes + seconds,
        no_time_mark(time_part_text(hours, minutes, seconds)),
{
    let th = nat_text(hours);
    let tm = nat_text(minutes);
    let ts = nat_text(seconds);
    lemma_nat_text(hours);
    lemma_nat_text(minutes);
    lemma_nat_text(seconds);
    let e = Seq::<char>::empty();
    assert(scan_time(e) == (Seq::<char>::empty(), 0int, 0int));
    lemma_scan_time_number(e, hours, 'H');
    assert(e + th =~= th);
    let p1 = th.push('H');
    assert(scan_time(p1) == (Seq::<char>::empty(), 0int, (3600 * hours) as int));
    lemma_scan_time_number(p1, minutes, 'M');
    let p2 = (p1 + tm).push('M');
    assert(scan_time(p2) == (Seq::<char>::empty(), 0int, (3600 * hours + 60 * minutes) as int));
    lemma_scan_time_number(p2, seconds, 'S');
    let p3 = (p2 + ts).push('S');
    assert(p3 =~= time_part_text(hours, minutes, seconds));
    let t = time_part_text(hours, minutes, seconds);
    assert forall|i: int| 0 <= i < t.len() implies t[i] != 'T' by {
        if i < th.len() {
            assert(t[i] == th[i] && is_digit(th[i]));
        } else if i == th.len() {
        } else if i < th.len() + 1 + tm.len() {
            assert(t[i] == tm[i - th.len() - 1] && is_digit(tm[i - th.len() - 1]));
        } else if i == th.len() + 1 + tm.len() {
        } else if i < th.len() + 2 + tm.len() + ts.len() {
            assert(t[i] == ts[i - th.len() - 2 - tm.len()] && is_digit(ts[i - th.len() - 2 - tm.len()]));
        }
    }
}

/// The date part: years, months and days add up.
pub proof fn lemma_date_part(years: nat, months: nat, days: nat)
    requires
        years <= i64::MAX,
        months <= i64::MAX,
        days <= i64::MAX,
    ensures
        scan_date(date_part_text(years, months, days)).1 == days,
        scan_date(date_part_text(years, months, days)).2 == 12 * years + months,
        no_time_mark(date_part_text(years, months, days)),
{
    let ty = nat_text(years);
    let tm = nat_text(months);
    let td = nat_text(days);
    lemma_nat_text(years);
    lemma_nat_text(months);
    lemma_nat_text(days);
    let e = Seq::<char>::empty();
    assert(scan_date(e) == (Seq::<char>::empty(), 0int, 0int));
    lemma_scan_date_number(e, years, 'Y');
    assert(e + ty =~= ty);
    let p1 = ty.push('Y');
    assert(scan_date(p1) == (Seq::<char>::empty(), 0int, (12 * years) as int));
    lemma_scan_date_number(p1, months, 'M');
    let p2 = (p1 + tm).push('M');
    assert(scan_date(p2) == (Seq::<char>::empty(), 0int, (12 * years + months) as int));
    lemma_scan_date_number(p2, days, 'D');
    let p3 = (p2 + td).push('D');
    assert(p3 =~= date_part_text(years, months, days));
    let t = date_part_text(years, months, days);
    assert forall|i: int| 0 <= i < t.len() implies t[i] != 'T' by {
        if i < ty.len() {
            assert(t[i] == ty[i] && is_digit(ty[i]));
        } else if i == ty.len() {
        } else if i < ty.len() + 1 + tm.len() {
            assert(t[i] == tm[i - ty.len() - 1] && is_digit(tm[i - ty.len() - 1]));
        } else if i == ty.len() + 1 + tm.len() {
        } else if i < ty.len() + 2 + tm.len() + td.len() {
            assert(t[i] == td[i - ty.len() - 2 - tm.len()] && is_digit(td[i - ty.len() - 2 - tm.len()]));
        }
    }
}

/// All the designators of a duration add up: `P<y>Y<mo>M<d>DT<h>H<mi>M<s>S`
/// lasts `12 * y + mo` months of 30 days, `d` days of 86400 seconds, `h`
/// hours, `mi` minutes and `s` seconds.
pub proof fn law_designators_add(years: nat, months: nat, days: nat, hours: nat, minutes: nat, seconds: nat)
    requires
        years <= i64::MAX,
        months <= i64::MAX,
        days <= i64::MAX,
        hours <= i64::MAX,
        minutes <= i64::MAX,
        seconds <= i64::MAX,
    ensures
        duration_total(
            seq!['P'] + date_part_text(years, months, days) + seq!['T'] + time_part_text(hours, minutes, seconds),
        ) == Ok::<int, Seq<char>>(
            ((12 * years + months) * 30 * 86400 + days * 86400 + hours * 3600 + minutes * 60 + seconds) as int,
        ),
{
    let dp = date_part_text(years, months, days);
    let tp = time_part_text(hours, minutes, seconds);
    lemma_date_part(years, months, days);
    lemma_time_part(hours, minutes, seconds);
    let rem = dp + seq!['T'] + tp;
    let s = seq!['P'] + dp + seq!['T'] + tp;
    assert(s =~= seq!['P'] + rem);
    assert(tp.len() > 0 && tp.last() == 'S');
    assert(s[0] == 'P');
    assert(s.last() == 'S');
    assert(trim_start(s) == s);
    assert(trim_end(s) == s);
    assert(duration_text(s) == s);
    assert(s.skip(1) =~= rem);
    assert(rem[dp.len() as int] == 'T');
    assert(rem.contains('T'));
    let e = Seq::<char>::empty();
    assert(pieces_state(e, 'T') == (Seq::<Seq<char>>::empty(), e));
    lemma_pieces_state_plain(e, dp, 'T');
    assert(e + dp =~= dp);
    let q = dp.push('T');
    assert(q.drop_last() =~= dp);
    assert(pieces_state(q, 'T') == (seq![dp], e)) by {
        assert(Seq::<Seq<char>>::empty().push(dp) =~= seq![dp]);
        assert(e + dp =~= dp);
    }
    lemma_pieces_state_plain(q, tp, 'T');
    assert(q + tp =~= rem);
    assert(e + tp =~= tp);
    assert(pieces(rem, 'T') =~= seq![dp, tp]);
    assert(86400 * (days + 0) + 2592000 * (12 * years + months) + (3600 * hours + 60 * minutes + seconds) == (12
        * years + months) * 30 * 86400 + days * 86400 + hours * 3600 + minutes * 60 + seconds) by (nonlinear_arith);
}

} // verus!
