use std::time::{Duration, SystemTime, SystemTimeError};

use vstd::prelude::*;
use vstd::string::*;

use crate::text::{decimal, is_digit, lemma_decimal_digits, lemma_decimal_prefix, push_decimal};

verus! {

#[verifier::external_type_specification]
#[verifier::external_body]
pub struct ExSystemTime(SystemTime);

#[verifier::external_type_specification]
#[verifier::external_body]
pub struct ExSystemTimeError(SystemTimeError);

/// Reads the system clock: `SystemTime::now`. Nothing is promised of the
/// instant it returns.
#[verifier::external_body]
fn system_time_now() -> (t: SystemTime) {
    SystemTime::now()
}

/// `SystemTime::duration_since(UNIX_EPOCH)`: the time elapsed since the Unix
/// epoch, or an error where `t` lies before it. Nothing is promised of the
/// value, which depends on the clock.
#[verifier::external_body]
fn since_unix_epoch(t: SystemTime) -> (r: Result<Duration, SystemTimeError>) {
    t.duration_since(std::time::UNIX_EPOCH)
}

/// The Unix time that a clock reading gives: the time elapsed since the
/// epoch, or `None` where the reading lies before it.
pub fn unix_time_of(reading: Result<Duration, SystemTimeError>) -> (d: Option<Duration>)
    ensures
        match reading {
            Ok(x) => d == Some(x),
            Err(_) => d is None,
        },
{
    match reading {
        Ok(d) => Some(d),
        Err(_) => None,
    }
}

/// The current Unix time, or `None` where the system clock stands before the
/// Unix epoch. Nothing is promised of the instant itself, which is read
/// from the system clock.
pub fn now() -> (d: Option<Duration>) {
    unix_time_of(since_unix_epoch(system_time_now()))
}

/// Seconds part of a duration of `dur` seconds.
pub open spec fn seconds_part(dur: nat) -> nat {
    dur % 60
}

/// Minutes part of a duration of `dur` seconds.
pub open spec fn minutes_part(dur: nat) -> nat {
    (dur / 60) % 60
}

/// Whole hours in a duration of `dur` seconds.
pub open spec fn hours_part(dur: nat) -> nat {
    (dur / 60) / 60
}

/// How `duration_string` writes `dur` seconds: "h hours, m minutes,
/// s seconds", leaving out the parts that are zero, and "Instantly?!" where
/// all three are.
pub open spec fn duration_text(dur: nat) -> Seq<char> {
    let s = seconds_part(dur);
    let m = minutes_part(dur);
    let h = hours_part(dur);
    if s == 0 && m == 0 && h == 0 {
        "Instantly?!"@
    } else if m == 0 && h == 0 {
        decimal(s) + " seconds"@
    } else if s == 0 && h == 0 {
        decimal(m) + " minutes"@
    } else if s == 0 && m == 0 {
        decimal(h) + " hours"@
    } else if s == 0 {
        decimal(h) + " hours, "@ + decimal(m) + " minutes"@
    } else if m == 0 {
        decimal(h) + " hours, "@ + decimal(s) + " seconds"@
    } else if h == 0 {
        decimal(m) + " minutes, "@ + decimal(s) + " seconds"@
    } else {
        decimal(h) + " hours, "@ + decimal(m) + " minutes, "@ + decimal(s) + " seconds"@
    }
}

/// Converts a number of seconds to a string of the format
/// "h hours, m minutes, s seconds".
pub fn duration_string(dur: u64) -> (r: String)
    ensures
        r@ == duration_text(dur as nat),
{
    let seconds = dur % 60;
    let minutes = (dur / 60) % 60;
    let hours = (dur / 60) / 60;
    let mut r = String::new();
    if seconds == 0 && minutes == 0 && hours == 0 {
        r.append("Instantly?!");
    } else if minutes == 0 && hours == 0 {
        push_decimal(&mut r, seconds);
        r.append(" seconds");
    } else if seconds == 0 && hours == 0 {
        push_decimal(&mut r, minutes);
        r.append(" minutes");
    } else if seconds == 0 && minutes == 0 {
        push_decimal(&mut r, hours);
        r.append(" hours");
    } else if seconds == 0 {
        push_decimal(&mut r, hours);
        r.append(" hours, ");
        push_decimal(&mut r, minutes);
        r.append(" minutes");
    } else if minutes == 0 {
        push_decimal(&mut r, hours);
        r.append(" hours, ");
        push_decimal(&mut r, seconds);
        r.append(" seconds");
    } else if hours == 0 {
        push_decimal(&mut r, minutes);
        r.append(" minutes, ");
        push_decimal(&mut r, seconds);
        r.append(" seconds");
    } else {
        push_decimal(&mut r, hours);
        r.append(" hours, ");
        push_decimal(&mut r, minutes);
        r.append(" minutes, ");
        push_decimal(&mut r, seconds);
        r.append(" seconds");
    }
    assert(r@ =~= duration_text(dur as nat));
    r
}

/// The three parts that `duration_string` writes add back up to the
/// duration, and the seconds and minutes parts stay below sixty.
pub proof fn duration_parts_recombine(dur: nat)
    ensures
        hours_part(dur) * 3600 + minutes_part(dur) * 60 + seconds_part(dur) == dur,
        seconds_part(dur) < 60,
        minutes_part(dur) < 60,
{
    let q = dur / 60;
    assert(dur == q * 60 + dur % 60);
    assert(q == (q / 60) * 60 + q % 60);
    assert(hours_part(dur) * 3600 + minutes_part(dur) * 60 == q * 60) by (nonlinear_arith)
        requires
            q == (q / 60) * 60 + q % 60,
            hours_part(dur) == q / 60,
            minutes_part(dur) == q % 60,
    ;
}

/// The word that follows a part's number: hours (0), minutes (1) or
/// seconds (2).
pub open spec fn unit_word(unit: nat) -> Seq<char> {
    if unit == 0 {
        " hours"@
    } else if unit == 1 {
        " minutes"@
    } else {
        " seconds"@
    }
}

/// A part of a written duration, such as "5 minutes".
pub open spec fn part_text(p: (nat, nat)) -> Seq<char> {
    decimal(p.0) + unit_word(p.1)
}

/// Parts of a written duration, joined by ", ".
pub open spec fn parts_text(ps: Seq<(nat, nat)>) -> Seq<char>
    decreases ps.len(),
{
    if ps.len() == 0 {
        Seq::<char>::empty()
    } else if ps.len() == 1 {
        part_text(ps[0])
    } else {
        part_text(ps[0]) + (", "@ + parts_text(ps.drop_first()))
    }
}

/// The parts that `duration_string` writes for `dur` seconds: (value, unit)
/// for the hours, minutes and seconds that are not zero, in that order.
pub open spec fn duration_parts(dur: nat) -> Seq<(nat, nat)> {
    let s = seconds_part(dur);
    let m = minutes_part(dur);
    let h = hours_part(dur);
    (if h > 0 {
        seq![(h, 0nat)]
    } else {
        Seq::empty()
    }) + (if m > 0 {
        seq![(m, 1nat)]
    } else {
        Seq::empty()
    }) + (if s > 0 {
        seq![(s, 2nat)]
    } else {
        Seq::empty()
    })
}

proof fn lemma_unit_words()
    ensures
        forall|u: nat| u <= 2 ==> (#[trigger] unit_word(u)).len() >= 2 && unit_word(u)[0] == ' ',
        unit_word(0)[1] == 'h',
        unit_word(1)[1] == 'm',
        unit_word(2)[1] == 's',
        unit_word(0).len() == 6,
        unit_word(1).len() == 8,
        unit_word(2).len() == 8,
{
    reveal_strlit(" hours");
    reveal_strlit(" minutes");
    reveal_strlit(" seconds");
}

/// `duration_text` is "Instantly?!" where there are no parts, and the parts
/// joined by ", " otherwise.
proof fn lemma_text_is_parts(dur: nat)
    ensures
        duration_text(dur) == if duration_parts(dur).len() == 0 {
            "Instantly?!"@
        } else {
            parts_text(duration_parts(dur))
        },
{
    reveal_with_fuel(parts_text, 4);
    reveal_strlit(" hours, ");
    reveal_strlit(" minutes, ");
    reveal_strlit(" hours");
    reveal_strlit(" minutes");
    reveal_strlit(" seconds");
    reveal_strlit(", ");
    let s = seconds_part(dur);
    let m = minutes_part(dur);
    let h = hours_part(dur);
    let ps = duration_parts(dur);
    if h > 0 && m > 0 && s > 0 {
        assert(ps =~= seq![(h, 0nat), (m, 1nat), (s, 2nat)]);
        assert(ps.drop_first() =~= seq![(m, 1nat), (s, 2nat)]);
        assert(ps.drop_first().drop_first() =~= seq![(s, 2nat)]);
    } else if h > 0 && m > 0 {
        assert(ps =~= seq![(h, 0nat), (m, 1nat)]);
        assert(ps.drop_first() =~= seq![(m, 1nat)]);
    } else if h > 0 && s > 0 {
        assert(ps =~= seq![(h, 0nat), (s, 2nat)]);
        assert(ps.drop_first() =~= seq![(s, 2nat)]);
    } else if m > 0 && s > 0 {
        assert(ps =~= seq![(m, 1nat), (s, 2nat)]);
        assert(ps.drop_first() =~= seq![(s, 2nat)]);
    } else if h > 0 {
        assert(ps =~= seq![(h, 0nat)]);
    } else if m > 0 {
        assert(ps =~= seq![(m, 1nat)]);
    } else if s > 0 {
        assert(ps =~= seq![(s, 2nat)]);
    } else {
        assert(ps =~= Seq::<(nat, nat)>::empty());
    }
    assert(duration_text(dur) =~= if ps.len() == 0 {
        "Instantly?!"@
    } else {
        parts_text(ps)
    });
}

/// Joined parts can be read back into the parts.
proof fn lemma_parts_text_injective(ps: Seq<(nat, nat)>, qs: Seq<(nat, nat)>)
    requires
        ps.len() > 0,
        qs.len() > 0,
        forall|i: int| 0 <= i < ps.len() ==> (#[trigger] ps[i]).1 <= 2,
        forall|i: int| 0 <= i < qs.len() ==> (#[trigger] qs[i]).1 <= 2,
        parts_text(ps) == parts_text(qs),
    ensures
        ps == qs,
    decreases ps.len(),
{
    lemma_unit_words();
    reveal_strlit(", ");
    let p = ps[0];
    let q = qs[0];
    let tp = if ps.len() == 1 {
        Seq::<char>::empty()
    } else {
        ", "@ + parts_text(ps.drop_first())
    };
    let tq = if qs.len() == 1 {
        Seq::<char>::empty()
    } else {
        ", "@ + parts_text(qs.drop_first())
    };
    assert(parts_text(ps) =~= decimal(p.0) + (unit_word(p.1) + tp));
    assert(parts_text(qs) =~= decimal(q.0) + (unit_word(q.1) + tq));
    assert((unit_word(p.1) + tp)[0] == ' ');
    assert((unit_word(q.1) + tq)[0] == ' ');
    lemma_decimal_prefix(p.0, q.0, unit_word(p.1) + tp, unit_word(q.1) + tq);
    let rest = unit_word(p.1) + tp;
    assert(rest[1] == unit_word(p.1)[1]);
    assert(rest[1] == unit_word(q.1)[1]);
    assert(p.1 == q.1);
    let w = unit_word(p.1).len();
    assert(tp =~= rest.subrange(w as int, rest.len() as int));
    assert(tq =~= (unit_word(q.1) + tq).subrange(w as int, rest.len() as int));
    assert(tp == tq);
    if ps.len() == 1 || qs.len() == 1 {
        if ps.len() != qs.len() {
            assert(tp.len() != tq.len());
        }
        assert(ps =~= seq![p]);
        assert(qs =~= seq![q]);
    } else {
        assert(parts_text(ps.drop_first()) =~= tp.subrange(2, tp.len() as int));
        assert(parts_text(qs.drop_first()) =~= tq.subrange(2, tq.len() as int));
        lemma_parts_text_injective(ps.drop_first(), qs.drop_first());
        assert(ps =~= seq![p] + ps.drop_first());
        assert(qs =~= seq![q] + qs.drop_first());
    }
}

/// The number of seconds that a text of `duration_string` stands for.
pub open spec fn duration_of_text(text: Seq<char>) -> nat {
    choose|d: nat| duration_text(d) == text
}

/// The text that `duration_string` writes reads back as the duration.
pub proof fn duration_text_reads_back(dur: nat)
    ensures
        duration_of_text(duration_text(dur)) == dur,
{
    let d = duration_of_text(duration_text(dur));
    assert(duration_text(d) == duration_text(dur));
    duration_text_injective(d, dur);
}

/// The value of the part of unit `unit`, or zero where there is none.
spec fn part_value(ps: Seq<(nat, nat)>, unit: nat) -> nat
    decreases ps.len(),
{
    if ps.len() == 0 {
        0
    } else if ps[0].1 == unit {
        ps[0].0
    } else {
        part_value(ps.drop_first(), unit)
    }
}

proof fn lemma_parts_values(dur: nat)
    ensures
        part_value(duration_parts(dur), 0) == hours_part(dur),
        part_value(duration_parts(dur), 1) == minutes_part(dur),
        part_value(duration_parts(dur), 2) == seconds_part(dur),
{
    reveal_with_fuel(part_value, 4);
    let s = seconds_part(dur);
    let m = minutes_part(dur);
    let h = hours_part(dur);
    let ps = duration_parts(dur);
    if h > 0 && m > 0 && s > 0 {
        assert(ps =~= seq![(h, 0nat), (m, 1nat), (s, 2nat)]);
        assert(ps.drop_first() =~= seq![(m, 1nat), (s, 2nat)]);
        assert(ps.drop_first().drop_first() =~= seq![(s, 2nat)]);
        assert(ps.drop_first().drop_first().drop_first() =~= Seq::<(nat, nat)>::empty());
    } else if h > 0 && m > 0 {
        assert(ps =~= seq![(h, 0nat), (m, 1nat)]);
        assert(ps.drop_first() =~= seq![(m, 1nat)]);
        assert(ps.drop_first().drop_first() =~= Seq::<(nat, nat)>::empty());
    } else if h > 0 && s > 0 {
        assert(ps =~= seq![(h, 0nat), (s, 2nat)]);
        assert(ps.drop_first() =~= seq![(s, 2nat)]);
        assert(ps.drop_first().drop_first() =~= Seq::<(nat, nat)>::empty());
    } else if m > 0 && s > 0 {
        assert(ps =~= seq![(m, 1nat), (s, 2nat)]);
        assert(ps.drop_first() =~= seq![(s, 2nat)]);
        assert(ps.drop_first().drop_first() =~= Seq::<(nat, nat)>::empty());
    } else if h > 0 {
        assert(ps =~= seq![(h, 0nat)]);
        assert(ps.drop_first() =~= Seq::<(nat, nat)>::empty());
    } else if m > 0 {
        assert(ps =~= seq![(m, 1nat)]);
        assert(ps.drop_first() =~= Seq::<(nat, nat)>::empty());
    } else if s > 0 {
        assert(ps =~= seq![(s, 2nat)]);
        assert(ps.drop_first() =~= Seq::<(nat, nat)>::empty());
    } else {
        assert(ps =~= Seq::<(nat, nat)>::empty());
    }
}

/// Different durations are written differently: the text that
/// `duration_string` writes determines the number of seconds.
pub proof fn duration_text_injective(x: nat, y: nat)
    requires
        duration_text(x) == duration_text(y),
    ensures
        x == y,
{
    lemma_text_is_parts(x);
    lemma_text_is_parts(y);
    duration_parts_recombine(x);
    duration_parts_recombine(y);
    lemma_parts_values(x);
    lemma_parts_values(y);
    let px = duration_parts(x);
    let py = duration_parts(y);
    reveal_strlit("Instantly?!");
    if px.len() > 0 {
        lemma_decimal_digits(px[0].0);
    }
    if py.len() > 0 {
        lemma_decimal_digits(py[0].0);
    }
    if px.len() > 0 && py.len() > 0 {
        assert forall|i: int| 0 <= i < px.len() implies (#[trigger] px[i]).1 <= 2 by {}
        assert forall|i: int| 0 <= i < py.len() implies (#[trigger] py[i]).1 <= 2 by {}
        lemma_parts_text_injective(px, py);
    } else if px.len() > 0 {
        assert(parts_text(px)[0] == decimal(px[0].0)[0]);
        assert(false);
    } else if py.len() > 0 {
        assert(parts_text(py)[0] == decimal(py[0].0)[0]);
        assert(false);
    }
}

} // verus!
