//! The two embeds of `/stats`: a user's best sessions, and their sessions
//! of the last week.
use vstd::prelude::*;
use vstd::string::*;

use crate::db::{all_well_formed, views, CumTime, CumTimeView, CumType};
use crate::duration::{duration_string, duration_text};
use crate::text::{decimal, mention, mention_leads, mention_reads_back, not_char, push_char, push_mention, without_char};

verus! {

broadcast use vstd::seq_lib::group_seq_properties;

/// Longest time, in seconds, since its end for which a session counts as
/// recent (one week).
pub const RECENT_TIMES_CUTOFF: u64 = 604_800;

/// Name for what `timeago`'s default formatter (English, one unit, down to
/// seconds) writes for a span of `secs` seconds, such as "1 hour ago".
pub uninterp spec fn time_ago(secs: u64) -> Seq<char>;

/// `timeago::Formatter::new().convert`, on a span of whole seconds. Its text
/// is named, not spelled out: it depends on `secs` alone.
#[verifier::external_body]
fn time_ago_string(secs: u64) -> (s: String)
    ensures
        s@ == time_ago(secs),
{
    timeago::Formatter::new().convert(std::time::Duration::from_secs(secs))
}

/// Every session of `s` ended by the Unix time `now`.
pub open spec fn ended_by(s: Seq<CumTimeView>, now: u64) -> bool {
    forall|i: int| 0 <= i < s.len() ==> (#[trigger] s[i]).ended_at <= now
}

/// Summed length of the sessions of `s`.
pub open spec fn total_length(s: Seq<CumTimeView>) -> int
    decreases s.len(),
{
    if s.len() == 0 {
        0
    } else {
        total_length(s.drop_last()) + s.last().length()
    }
}

/// The first three sessions of `s`, or all of them where there are fewer.
pub open spec fn first_three(s: Seq<CumTimeView>) -> Seq<CumTimeView> {
    if s.len() <= 3 {
        s
    } else {
        s.take(3)
    }
}

/// A session that ended at most a week before `now`.
pub open spec fn is_recent(t: CumTimeView, now: u64) -> bool {
    now - t.ended_at < RECENT_TIMES_CUTOFF
}

/// The sessions of `s` that ended at most a week before `now`, in order.
pub open spec fn recent_of(s: Seq<CumTimeView>, now: u64) -> Seq<CumTimeView> {
    s.filter(|t: CumTimeView| is_recent(t, now))
}

/// The title of a session's field. The length of the session is written as
/// `duration_string` writes it ("1 hours, 5 seconds").
pub open spec fn field_title(t: CumTimeView) -> Seq<char> {
    match t.typ {
        CumType::Gooning => "**😩 "@ + duration_text(t.length() as nat) + " gooning session**"@,
        CumType::Prejac => "**💦 "@ + duration_text(t.length() as nat) + " prejac**"@,
    }
}

/// The text of a field, given how long ago the session ended (`ago`) and
/// what it was dedicated to: `ago`, then " to **what**" (without asterisks)
/// where it was dedicated to something.
pub open spec fn field_text_from(ago: Seq<char>, description: Seq<char>) -> Seq<char> {
    ago + if description.len() == 0 {
        Seq::<char>::empty()
    } else {
        " to **"@ + without_char(description, '*') + "**"@
    }
}

/// The text of a session's field: how long ago it ended and, where it was
/// dedicated to something, to what (without asterisks).
pub open spec fn field_text(t: CumTimeView, now: u64) -> Seq<char> {
    field_text_from(time_ago((now - t.ended_at) as u64), t.description)
}

/// The embed field of a session: title, text, and shown inline.
pub open spec fn field_of(t: CumTimeView, now: u64) -> (Seq<char>, Seq<char>, bool) {
    (field_title(t), field_text(t, now), true)
}

/// The fields of an embed: the first three gooning sessions, then the first
/// three prejacs.
pub open spec fn fields_of(gooning: Seq<CumTimeView>, edging: Seq<CumTimeView>, now: u64) -> Seq<
    (Seq<char>, Seq<char>, bool),
> {
    first_three(gooning).map_values(|t: CumTimeView| field_of(t, now)) + first_three(
        edging,
    ).map_values(|t: CumTimeView| field_of(t, now))
}

/// The view of embed fields.
pub open spec fn fields_view(f: Seq<(String, String, bool)>) -> Seq<(Seq<char>, Seq<char>, bool)> {
    f.map_values(|x: (String, String, bool)| (x.0@, x.1@, x.2))
}

/// What an embed of `/stats` shows, apart from its colour and author.
pub struct Embed {
    pub title: String,
    pub description: String,
    /// Title, text, and whether the field is shown inline.
    pub fields: Vec<(String, String, bool)>,
}

/// `s` without its asterisks, as `str::replace('*', "")` gives it.
pub fn strip_asterisks(s: &str) -> (r: String)
    ensures
        r@ == without_char(s@, '*'),
{
    broadcast use vstd::string::group_string_axioms;

    let mut r = String::new();
    for c in it: s.chars()
        invariant
            r@ == without_char(it.seq().take(it.index()), '*'),
    {
        let ghost done = it.seq().take(it.index());
        if c != '*' {
            push_char(&mut r, c);
        }
        proof {
            assert(it.seq().take(it.index() + 1) =~= done.push(c));
            done.lemma_filter_push(c, not_char('*'));
        }
    }
    r
}

/// The text of a field, given how long ago the session ended, as timeago
/// wrote it, and what the session was dedicated to.
pub fn field_description(ago: &str, description: &str) -> (s: String)
    ensures
        s@ == field_text_from(ago@, description@),
{
    let mut s = String::new();
    s.append(ago);
    if !description.is_empty() {
        s.append(" to **");
        let stripped = strip_asterisks(description);
        s.append(stripped.as_str());
        s.append("**");
    }
    assert(s@ =~= field_text_from(ago@, description@));
    s
}

/// The embed field of one session.
pub fn time_field(t: &CumTime, now: u64) -> (f: (String, String, bool))
    requires
        t@.well_formed(),
        t.ended_at <= now,
    ensures
        (f.0@, f.1@, f.2) == field_of(t@, now),
{
    let time_name = duration_string(t.ended_at - t.started_at);
    let mut title = String::new();
    match t.typ {
        CumType::Gooning => {
            title.append("**😩 ");
            title.append(time_name.as_str());
            title.append(" gooning session**");
        },
        CumType::Prejac => {
            title.append("**💦 ");
            title.append(time_name.as_str());
            title.append(" prejac**");
        },
    }
    let ago = time_ago_string(now - t.ended_at);
    let description = field_description(ago.as_str(), t.description.as_str());
    assert(title@ =~= field_title(t@));
    (title, description, true)
}

fn push_fields(fields: &mut Vec<(String, String, bool)>, times: &Vec<CumTime>, now: u64)
    requires
        all_well_formed(first_three(views(times@))),
        ended_by(first_three(views(times@)), now),
    ensures
        fields_view(final(fields)@) == fields_view(old(fields)@) + first_three(views(times@)).map_values(
            |t: CumTimeView| field_of(t, now),
        ),
{
    let ghost start = fields_view(fields@);
    let ghost firsts = first_three(views(times@));
    let count = if times.len() <= 3 {
        times.len()
    } else {
        3
    };
    assert(firsts.len() == count);
    for i in 0..count
        invariant
            count <= times.len(),
            firsts == first_three(views(times@)),
            firsts.len() == count,
            all_well_formed(firsts),
            ended_by(firsts, now),
            fields_view(fields@) == start + firsts.take(i as int).map_values(
                |t: CumTimeView| field_of(t, now),
            ),
    {
        assert(views(times@)[i as int] == times@[i as int]@);
        assert(firsts[i as int] == times@[i as int]@);
        assert(firsts[i as int].well_formed() && firsts[i as int].ended_at <= now);
        let f = time_field(&times[i], now);
        let ghost fv = (f.0@, f.1@, f.2);
        let ghost prev = fields_view(fields@);
        fields.push(f);
        assert(fields_view(fields@) =~= prev.push(fv));
        assert(firsts.take(i + 1) =~= firsts.take(i as int).push(firsts[i as int]));
        assert(firsts.take(i + 1).map_values(|t: CumTimeView| field_of(t, now)) =~= firsts.take(
            i as int,
        ).map_values(|t: CumTimeView| field_of(t, now)).push(fv));
        assert(fields_view(fields@) =~= start + firsts.take(i + 1).map_values(
            |t: CumTimeView| field_of(t, now),
        ));
    }
    assert(firsts.take(count as int) =~= firsts);
}

/// The fields of a `/stats` embed: the first three gooning sessions, then
/// the first three prejacs.
pub fn time_fields(gooning: &Vec<CumTime>, edging: &Vec<CumTime>, now: u64) -> (f: Vec<
    (String, String, bool),
>)
    requires
        all_well_formed(first_three(views(gooning@))),
        all_well_formed(first_three(views(edging@))),
        ended_by(first_three(views(gooning@)), now),
        ended_by(first_three(views(edging@)), now),
    ensures
        fields_view(f@) == fields_of(views(gooning@), views(edging@), now),
{
    let mut f: Vec<(String, String, bool)> = Vec::new();
    assert(fields_view(f@) =~= Seq::empty());
    push_fields(&mut f, gooning, now);
    push_fields(&mut f, edging, now);
    assert(fields_view(f@) =~= fields_of(views(gooning@), views(edging@), now));
    f
}

/// Summed lengths of well-formed sessions never shrink as sessions are added.
pub proof fn lemma_total_prefix(s: Seq<CumTimeView>, i: int)
    requires
        all_well_formed(s),
        0 <= i <= s.len(),
    ensures
        0 <= total_length(s.take(i)) <= total_length(s),
    decreases s.len(),
{
    if s.len() > 0 {
        if i == s.len() {
            assert(s.take(i) =~= s);
            lemma_total_prefix(s.drop_last(), i - 1);
            assert(s.drop_last().take(i - 1) =~= s.drop_last());
        } else {
            lemma_total_prefix(s.drop_last(), i);
            assert(s.drop_last().take(i) =~= s.take(i));
        }
    }
}

fn sum_lengths(times: &Vec<CumTime>) -> (t: u64)
    requires
        all_well_formed(views(times@)),
        total_length(views(times@)) <= u64::MAX,
    ensures
        t == total_length(views(times@)),
{
    let ghost s = views(times@);
    let mut t: u64 = 0;
    for i in 0..times.len()
        invariant
            s == views(times@),
            all_well_formed(s),
            total_length(s) <= u64::MAX,
            t == total_length(s.take(i as int)),
    {
        proof {
            lemma_total_prefix(s, i + 1);
            assert(s.take(i + 1).drop_last() =~= s.take(i as int));
            assert(s[i as int] == times@[i as int]@);
        }
        t = t + (times[i].ended_at - times[i].started_at);
    }
    assert(s.take(times.len() as int) =~= s);
    t
}

/// Time spent in all the sessions of both lists, in seconds.
pub fn time_spent(gooning: &Vec<CumTime>, edging: &Vec<CumTime>) -> (t: u64)
    requires
        all_well_formed(views(gooning@)),
        all_well_formed(views(edging@)),
        total_length(views(gooning@)) + total_length(views(edging@)) <= u64::MAX,
    ensures
        t == total_length(views(gooning@)) + total_length(views(edging@)),
{
    proof {
        lemma_total_prefix(views(gooning@), 0);
        lemma_total_prefix(views(edging@), 0);
    }
    let g = sum_lengths(gooning);
    let e = sum_lengths(edging);
    g + e
}

/// The sessions of `times` that ended at most a week before `now`.
pub fn recent(times: &Vec<CumTime>, now: u64) -> (r: Vec<CumTime>)
    requires
        ended_by(views(times@), now),
    ensures
        views(r@) == recent_of(views(times@), now),
        ended_by(views(r@), now),
        all_well_formed(views(times@)) ==> all_well_formed(views(r@)),
{
    let ghost s = views(times@);
    let mut r: Vec<CumTime> = Vec::new();
    for i in 0..times.len()
        invariant
            s == views(times@),
            ended_by(s, now),
            views(r@) == recent_of(s.take(i as int), now),
            ended_by(views(r@), now),
            all_well_formed(s) ==> all_well_formed(views(r@)),
    {
        let t = &times[i];
        assert(s[i as int] == t@);
        let ghost before = views(r@);
        if now - t.ended_at < RECENT_TIMES_CUTOFF {
            r.push(CumTime {
                started_at: t.started_at,
                ended_at: t.ended_at,
                description: t.description.clone(),
                typ: t.typ,
            });
            assert(views(r@) =~= before.push(t@));
        } else {
            assert(views(r@) =~= before);
        }
        proof {
            assert(s.take(i + 1) =~= s.take(i as int).push(t@));
            s.take(i as int).lemma_filter_push(t@, |x: CumTimeView| is_recent(x, now));
        }
    }
    assert(s.take(times.len() as int) =~= s);
    r
}

/// How the best-times embed sums up a user's sessions.
pub open spec fn best_times_text(user_id: u64, spent: nat) -> Seq<char> {
    mention(user_id) + " has spent **"@ + duration_text(spent) + "** with porn in total!"@
}

/// How the recent-times embed sums up a user's sessions of the week.
pub open spec fn recent_times_text(user_id: u64, spent: nat) -> Seq<char> {
    mention(user_id) + " has spent **"@ + duration_text(spent) + "** with porn this week!"@
}

/// The "Best Times" embed of `/stats`: the time spent in all sessions, and
/// the first three gooning sessions and prejacs.
pub fn best_times_embed(gooning: &Vec<CumTime>, edging: &Vec<CumTime>, now: u64, user_id: u64) -> (e:
    Embed)
    requires
        all_well_formed(views(gooning@)),
        all_well_formed(views(edging@)),
        ended_by(first_three(views(gooning@)), now),
        ended_by(first_three(views(edging@)), now),
        total_length(views(gooning@)) + total_length(views(edging@)) <= u64::MAX,
    ensures
        e.title@ == "Best Times"@,
        e.description@ == best_times_text(
            user_id,
            (total_length(views(gooning@)) + total_length(views(edging@))) as nat,
        ),
        fields_view(e.fields@) == fields_of(views(gooning@), views(edging@), now),
{
    let spent = time_spent(gooning, edging);
    let fields = time_fields(gooning, edging, now);
    let mut title = String::new();
    title.append("Best Times");
    let mut description = String::new();
    push_mention(&mut description, user_id);
    description.append(" has spent **");
    let pretty = duration_string(spent);
    description.append(pretty.as_str());
    description.append("** with porn in total!");
    assert(description@ =~= best_times_text(user_id, spent as nat));
    Embed { title, description, fields }
}

/// The "Recent Times" embed of `/stats`: like the best-times embed, over the
/// sessions that ended at most a week before `now`.
pub fn recent_times_embed(gooning: &Vec<CumTime>, edging: &Vec<CumTime>, now: u64, user_id: u64) -> (e:
    Embed)
    requires
        ended_by(views(gooning@), now),
        ended_by(views(edging@), now),
        all_well_formed(recent_of(views(gooning@), now)),
        all_well_formed(recent_of(views(edging@), now)),
        total_length(recent_of(views(gooning@), now)) + total_length(recent_of(views(edging@), now))
            <= u64::MAX,
    ensures
        e.title@ == "Recent Times"@,
        e.description@ == recent_times_text(
            user_id,
            (total_length(recent_of(views(gooning@), now)) + total_length(
                recent_of(views(edging@), now),
            )) as nat,
        ),
        fields_view(e.fields@) == fields_of(
            recent_of(views(gooning@), now),
            recent_of(views(edging@), now),
            now,
        ),
{
    let gooning = recent(gooning, now);
    let edging = recent(edging, now);
    let spent = time_spent(&gooning, &edging);
    let fields = time_fields(&gooning, &edging, now);
    let mut title = String::new();
    title.append("Recent Times");
    let mut description = String::new();
    push_mention(&mut description, user_id);
    description.append(" has spent **");
    let pretty = duration_string(spent);
    description.append(pretty.as_str());
    description.append("** with porn this week!");
    assert(description@ =~= recent_times_text(user_id, spent as nat));
    Embed { title, description, fields }
}

/// The time spent in the sessions of the last week is never more than the
/// time spent in all of them.
pub proof fn recent_time_within_total(s: Seq<CumTimeView>, now: u64)
    requires
        all_well_formed(s),
    ensures
        0 <= total_length(recent_of(s, now)) <= total_length(s),
    decreases s.len(),
{
    reveal(Seq::filter);
    if s.len() > 0 {
        let rest = s.drop_last();
        assert(all_well_formed(rest));
        recent_time_within_total(rest, now);
        assert(s.last() == s[s.len() - 1]);
        if is_recent(s.last(), now) {
            assert(recent_of(s, now) == recent_of(rest, now).push(s.last()));
            assert(recent_of(s, now).drop_last() =~= recent_of(rest, now));
        }
    }
}

/// A `/stats` embed has at most six fields: three of each kind.
pub proof fn at_most_six_fields(gooning: Seq<CumTimeView>, edging: Seq<CumTimeView>, now: u64)
    ensures
        fields_of(gooning, edging, now).len() <= 6,
{
}

/// Time spent in the sessions of `s` that ended less than a week
/// (604 800 seconds) before `now`.
pub open spec fn time_within_week(s: Seq<CumTimeView>, now: u64) -> int
    decreases s.len(),
{
    if s.len() == 0 {
        0
    } else {
        time_within_week(s.drop_last(), now) + if now - s.last().ended_at < 604_800 {
            s.last().length()
        } else {
            0
        }
    }
}

/// A session is among the recent ones exactly when it ended less than a
/// week (604 800 seconds) before `now`, and the week's time spent counts
/// exactly those sessions.
pub proof fn recent_means_within_a_week(s: Seq<CumTimeView>, now: u64)
    ensures
        forall|i: int|
            0 <= i < recent_of(s, now).len() ==> now - (#[trigger] recent_of(s, now)[i]).ended_at
                < 604_800 && s.contains(recent_of(s, now)[i]),
        forall|i: int|
            0 <= i < s.len() && now - s[i].ended_at < 604_800 ==> recent_of(s, now).contains(
                #[trigger] s[i],
            ),
        forall|i: int|
            0 <= i < s.len() && now - s[i].ended_at >= 604_800 ==> !recent_of(s, now).contains(
                #[trigger] s[i],
            ),
        total_length(recent_of(s, now)) == time_within_week(s, now),
    decreases s.len(),
{
    broadcast use vstd::seq_lib::group_filter_ensures;

    reveal(Seq::filter);
    if s.len() > 0 {
        let rest = s.drop_last();
        recent_means_within_a_week(rest, now);
        if is_recent(s.last(), now) {
            assert(recent_of(s, now).drop_last() =~= recent_of(rest, now));
        }
    }
    assert forall|i: int|
        0 <= i < s.len() && now - s[i].ended_at >= 604_800 implies !recent_of(s, now).contains(
            #[trigger] s[i],
        ) by {
        if recent_of(s, now).contains(s[i]) {
            let j = choose|j: int| 0 <= j < recent_of(s, now).len() && recent_of(s, now)[j] == s[i];
            s.lemma_filter_pred(|t: CumTimeView| is_recent(t, now), j);
        }
    }
}

/// The best-times description starts with the mention of the whole
/// `user_id`, and descriptions for different users differ.
pub proof fn best_times_names_user(u: u64, spent: nat, v: u64, spent2: nat)
    ensures
        best_times_text(u, spent).take(("<@"@ + decimal(u as nat) + ">"@).len() as int) == "<@"@
            + decimal(u as nat) + ">"@,
        best_times_text(u, spent) == best_times_text(v, spent2) ==> u == v,
{
    let r1 = " has spent **"@ + duration_text(spent) + "** with porn in total!"@;
    let r2 = " has spent **"@ + duration_text(spent2) + "** with porn in total!"@;
    assert(best_times_text(u, spent) =~= mention(u) + r1);
    assert(best_times_text(v, spent2) =~= mention(v) + r2);
    mention_leads(u, r1);
    if best_times_text(u, spent) == best_times_text(v, spent2) {
        mention_reads_back(u, v, r1, r2);
    }
}

/// The recent-times description starts with the mention of the whole
/// `user_id`, and descriptions for different users differ.
pub proof fn recent_times_names_user(u: u64, spent: nat, v: u64, spent2: nat)
    ensures
        recent_times_text(u, spent).take(("<@"@ + decimal(u as nat) + ">"@).len() as int) == "<@"@
            + decimal(u as nat) + ">"@,
        recent_times_text(u, spent) == recent_times_text(v, spent2) ==> u == v,
{
    let r1 = " has spent **"@ + duration_text(spent) + "** with porn this week!"@;
    let r2 = " has spent **"@ + duration_text(spent2) + "** with porn this week!"@;
    assert(recent_times_text(u, spent) =~= mention(u) + r1);
    assert(recent_times_text(v, spent2) =~= mention(v) + r2);
    mention_leads(u, r1);
    if recent_times_text(u, spent) == recent_times_text(v, spent2) {
        mention_reads_back(u, v, r1, r2);
    }
}

} // verus!
