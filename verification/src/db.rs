//! The sessions the bot logs, and the order in which they are read back.
use vstd::prelude::*;
use vstd::string::*;

verus! {

broadcast use vstd::seq_lib::group_seq_properties;

/// What kind of session was logged.
#[derive(Clone, Copy, Debug, PartialEq, Eq, Structural)]
pub enum CumType {
    Prejac,
    Gooning,
}

impl CumType {
    /// The name under which the kind is stored in the `what` column.
    pub open spec fn name(self) -> Seq<char> {
        match self {
            CumType::Gooning => "gooning"@,
            CumType::Prejac => "prejac"@,
        }
    }

    /// The name under which the kind is stored in the `what` column.
    pub fn to_string(&self) -> (s: String)
        ensures
            s@ == self.name(),
    {
        let mut s = String::new();
        match self {
            CumType::Gooning => s.append("gooning"),
            CumType::Prejac => s.append("prejac"),
        }
        s
    }

    /// The kind stored under `name` in the `what` column, if any.
    pub fn from_name(name: &str) -> (t: Option<CumType>)
        ensures
            match t {
                Some(k) => k.name() == name@,
                None => name@ != CumType::Gooning.name() && name@ != CumType::Prejac.name(),
            },
    {
        let n = name.to_owned();
        if n == CumType::Gooning.to_string() {
            Some(CumType::Gooning)
        } else if n == CumType::Prejac.to_string() {
            Some(CumType::Prejac)
        } else {
            None
        }
    }
}

/// Each kind has a name of its own, so that `from_name` gives back the kind
/// whose `to_string` it reads.
pub proof fn names_identify_kinds(k: CumType, t: CumType)
    requires
        k.name() == t.name(),
    ensures
        k == t,
{
    reveal_strlit("gooning");
    reveal_strlit("prejac");
    assert("gooning"@.len() != "prejac"@.len());
}

/// One logged session: when it started and ended (Unix seconds), what it
/// was dedicated to, and its kind.
#[derive(Clone, Debug)]
pub struct CumTime {
    pub started_at: u64,
    pub ended_at: u64,
    pub description: String,
    pub typ: CumType,
}

/// A logged session as a mathematical value.
pub ghost struct CumTimeView {
    pub started_at: u64,
    pub ended_at: u64,
    pub description: Seq<char>,
    pub typ: CumType,
}

impl View for CumTime {
    type V = CumTimeView;

    open spec fn view(&self) -> CumTimeView {
        CumTimeView {
            started_at: self.started_at,
            ended_at: self.ended_at,
            description: self.description@,
            typ: self.typ,
        }
    }
}

impl CumTimeView {
    /// Length of the session in seconds.
    pub open spec fn length(self) -> int {
        self.ended_at - self.started_at
    }

    /// The session does not end before it starts.
    pub open spec fn well_formed(self) -> bool {
        self.started_at <= self.ended_at
    }
}

/// Every session of `s` is well formed.
pub open spec fn all_well_formed(s: Seq<CumTimeView>) -> bool {
    forall|i: int| 0 <= i < s.len() ==> (#[trigger] s[i]).well_formed()
}

/// The views of a vector of sessions.
pub open spec fn views(v: Seq<CumTime>) -> Seq<CumTimeView> {
    v.map_values(|t: CumTime| t@)
}

/// A row read back from `cum_times`: start, end and description.
pub type TimeRow = (u64, u64, String);

/// The session that a row stands for, once its kind is known.
pub open spec fn row_time(r: TimeRow, typ: CumType) -> CumTimeView {
    CumTimeView { started_at: r.0, ended_at: r.1, description: r.2@, typ }
}

/// The sessions that rows stand for.
pub open spec fn rows_times(rows: Seq<TimeRow>, typ: CumType) -> Seq<CumTimeView> {
    rows.map_values(|r: TimeRow| row_time(r, typ))
}

/// The sessions of `s` whose length is `k`, in their order in `s`.
pub open spec fn of_length(s: Seq<CumTimeView>, k: int) -> Seq<CumTimeView> {
    s.filter(|t: CumTimeView| t.length() == k)
}

/// Whether `x` may stand before `y` when sessions of kind `typ` are listed
/// from best to worst: the longest gooning sessions first, the shortest
/// prejacs first.
pub open spec fn ranks_before(typ: CumType, x: CumTimeView, y: CumTimeView) -> bool {
    match typ {
        CumType::Gooning => x.length() >= y.length(),
        CumType::Prejac => x.length() <= y.length(),
    }
}

/// `s` lists its sessions from best to worst for kind `typ`.
pub open spec fn best_first(typ: CumType, s: Seq<CumTimeView>) -> bool {
    forall|i: int, j: int| 0 <= i < j < s.len() ==> ranks_before(typ, s[i], s[j])
}

/// `x` ranks strictly behind `y`.
fn ranks_behind(typ: CumType, x: &CumTime, y: &CumTime) -> (r: bool)
    requires
        x@.well_formed(),
        y@.well_formed(),
    ensures
        r == !ranks_before(typ, x@, y@),
{
    match typ {
        CumType::Gooning => x.ended_at - x.started_at < y.ended_at - y.started_at,
        CumType::Prejac => x.ended_at - x.started_at > y.ended_at - y.started_at,
    }
}

proof fn lemma_of_length_insert(s: Seq<CumTimeView>, p: int, x: CumTimeView, k: int)
    requires
        0 <= p <= s.len(),
        forall|q: int| p <= q < s.len() ==> s[q].length() != x.length(),
    ensures
        of_length(s.insert(p, x), k) == if x.length() == k {
            of_length(s, k).push(x)
        } else {
            of_length(s, k)
        },
{
    let pred = |t: CumTimeView| t.length() == k;
    let front = s.subrange(0, p);
    let back = s.subrange(p, s.len() as int);
    assert(s == front + back);
    Seq::filter_distributes_over_add(front, back, pred);
    Seq::filter_distributes_over_add(front.push(x), back, pred);
    front.lemma_filter_push(x, pred);
    if x.length() == k {
        assert(back.all(|t: CumTimeView| !pred(t)));
        back.lemma_all_neg_filter_empty(pred);
        assert(back.filter(pred) =~= Seq::<CumTimeView>::empty());
        assert(of_length(s.insert(p, x), k) =~= of_length(s, k).push(x));
    }
}

/// Turns the rows read back for one kind of session into sessions, listed
/// from best to worst: from longest to shortest gooning session, and from
/// shortest to longest prejac. Sessions of equal length keep the order of
/// the rows.
pub fn times(rows: &Vec<TimeRow>, typ: CumType) -> (out: Vec<CumTime>)
    requires
        all_well_formed(rows_times(rows@, typ)),
    ensures
        out@.len() == rows@.len(),
        best_first(typ, views(out@)),
        forall|k: int| #[trigger]
            of_length(views(out@), k) == of_length(rows_times(rows@, typ), k),
        views(out@).to_multiset() == rows_times(rows@, typ).to_multiset(),
{
    let ghost inp = rows_times(rows@, typ);
    let mut out: Vec<CumTime> = Vec::new();
    let n = rows.len();
    for i in 0..n
        invariant
            n == rows.len(),
            inp == rows_times(rows@, typ),
            all_well_formed(inp),
            out@.len() == i,
            all_well_formed(views(out@)),
            best_first(typ, views(out@)),
            forall|k: int| #[trigger]
                of_length(views(out@), k) == of_length(inp.take(i as int), k),
    {
        let row = &rows[i];
        let x = CumTime {
            started_at: row.0,
            ended_at: row.1,
            description: row.2.clone(),
            typ,
        };
        assert(x@ == inp[i as int]);
        let ghost before = views(out@);
        let mut p = out.len();
        assert(forall|q: int| 0 <= q < out@.len() ==> (#[trigger] out@[q])@ == before[q]);
        while p > 0 && ranks_behind(typ, &out[p - 1], &x)
            invariant
                p <= out@.len(),
                before == views(out@),
                x@.well_formed(),
                all_well_formed(before),
                forall|q: int| 0 <= q < out@.len() ==> (#[trigger] out@[q])@ == before[q],
                forall|q: int| p <= q < before.len() ==> !ranks_before(typ, #[trigger] before[q], x@),
            decreases p,
        {
            p = p - 1;
        }
        assert forall|q: int| 0 <= q < p implies ranks_before(typ, #[trigger] before[q], x@) by {
            assert(ranks_before(typ, before[q], before[p - 1]));
        }
        out.insert(p, x);
        proof {
            let after = views(out@);
            before.insert_ensures(p as int, x@);
            assert(after =~= before.insert(p as int, x@));
            assert(inp.take(i + 1) =~= inp.take(i as int).push(x@));
            assert forall|k: int| #[trigger]
                of_length(after, k) == of_length(inp.take(i + 1), k) by {
                lemma_of_length_insert(before, p as int, x@, k);
                inp.take(i as int).lemma_filter_push(x@, |t: CumTimeView| t.length() == k);
            }
        }
    }
    assert(inp.take(n as int) =~= inp);
    proof {
        same_by_length_same_sessions(views(out@), inp);
    }
    out
}

/// The gooning sessions among the rows, longest first.
pub fn gooning_times(rows: &Vec<TimeRow>) -> (out: Vec<CumTime>)
    requires
        all_well_formed(rows_times(rows@, CumType::Gooning)),
    ensures
        out@.len() == rows@.len(),
        best_first(CumType::Gooning, views(out@)),
        forall|k: int| #[trigger]
            of_length(views(out@), k) == of_length(rows_times(rows@, CumType::Gooning), k),
{
    times(rows, CumType::Gooning)
}

/// The prejac sessions among the rows, shortest first.
pub fn edging_times(rows: &Vec<TimeRow>) -> (out: Vec<CumTime>)
    requires
        all_well_formed(rows_times(rows@, CumType::Prejac)),
    ensures
        out@.len() == rows@.len(),
        best_first(CumType::Prejac, views(out@)),
        forall|k: int| #[trigger]
            of_length(views(out@), k) == of_length(rows_times(rows@, CumType::Prejac), k),
{
    times(rows, CumType::Prejac)
}

/// Length of the gooning session that `stop_gooning` closes: its end minus
/// its start, or zero where the end comes first.
pub fn session_length(ended_at: u64, started_at: u64) -> (d: u64)
    ensures
        d == if ended_at >= started_at { ended_at - started_at } else { 0 },
{
    ended_at.saturating_sub(started_at)
}

/// A user's complete sessions of both kinds, each as (end, start).
pub struct Times {
    pub gooning: Vec<(u64, u64)>,
    pub prejac: Vec<(u64, u64)>,
}

/// The (end, start) pairs of the rows of kind `typ`, in row order.
pub open spec fn pairs_of(rows: Seq<(u64, u64, CumType)>, typ: CumType) -> Seq<(u64, u64)> {
    rows.filter(is_kind(typ)).map_values(|r: (u64, u64, CumType)| (r.1, r.0))
}

/// Holds of the rows of kind `typ`.
pub open spec fn is_kind(typ: CumType) -> spec_fn((u64, u64, CumType)) -> bool {
    |r: (u64, u64, CumType)| r.2 == typ
}

impl Times {
    /// Sorts rows of (start, end, kind) into the two lists of `Times`.
    pub fn from_rows(rows: &Vec<(u64, u64, CumType)>) -> (t: Times)
        ensures
            t.gooning@ == pairs_of(rows@, CumType::Gooning),
            t.prejac@ == pairs_of(rows@, CumType::Prejac),
    {
        let mut out = Times { gooning: Vec::new(), prejac: Vec::new() };
        for i in 0..rows.len()
            invariant
                out.gooning@ == pairs_of(rows@.take(i as int), CumType::Gooning),
                out.prejac@ == pairs_of(rows@.take(i as int), CumType::Prejac),
        {
            let (start, end, what) = rows[i];
            match what {
                CumType::Gooning => out.gooning.push((end, start)),
                CumType::Prejac => out.prejac.push((end, start)),
            }
            proof {
                let r = rows@[i as int];
                assert(rows@.take(i + 1) =~= rows@.take(i as int).push(r));
                rows@.take(i as int).lemma_filter_push(r, is_kind(CumType::Gooning));
                rows@.take(i as int).lemma_filter_push(r, is_kind(CumType::Prejac));
                assert(out.gooning@ =~= pairs_of(rows@.take(i + 1), CumType::Gooning));
                assert(out.prejac@ =~= pairs_of(rows@.take(i + 1), CumType::Prejac));
            }
        }
        assert(rows@.take(rows.len() as int) =~= rows@);
        out
    }
}

proof fn lemma_filter_count(s: Seq<CumTimeView>, k: int, x: CumTimeView)
    ensures
        of_length(s, k).to_multiset().count(x) == if x.length() == k {
            s.to_multiset().count(x)
        } else {
            0
        },
    decreases s.len(),
{
    broadcast use vstd::seq_lib::group_to_multiset_ensures;

    reveal(Seq::filter);
    if s.len() == 0 {
        assert(of_length(s, k) =~= Seq::<CumTimeView>::empty());
    } else {
        let rest = s.drop_last();
        lemma_filter_count(rest, k, x);
        assert(s =~= rest.push(s.last()));
        rest.lemma_filter_push(s.last(), |t: CumTimeView| t.length() == k);
    }
}

/// Sequences of sessions that agree, length by length, on which sessions
/// they hold and in what order, hold the same sessions.
pub proof fn same_by_length_same_sessions(s: Seq<CumTimeView>, t: Seq<CumTimeView>)
    requires
        forall|k: int| #[trigger] of_length(s, k) == of_length(t, k),
    ensures
        s.to_multiset() == t.to_multiset(),
{
    assert forall|x: CumTimeView| s.to_multiset().count(x) == t.to_multiset().count(x) by {
        lemma_filter_count(s, x.length(), x);
        lemma_filter_count(t, x.length(), x);
        assert(of_length(s, x.length()) == of_length(t, x.length()));
    }
    assert(s.to_multiset() =~= t.to_multiset());
}

/// Which sessions the statistics list first.
#[derive(Clone, Copy, Debug, PartialEq, Eq, Structural)]
pub enum TimeSort {
    /// By length.
    Top,
    /// By end.
    Recent,
}

/// The `ORDER BY` clause that lists sessions of kind `typ`, best first, by
/// `sort`: by length or by end, descending for gooning sessions and
/// ascending for prejacs.
pub open spec fn order_clause_text(sort: TimeSort, typ: CumType) -> Seq<char> {
    "ORDER BY "@ + match sort {
        TimeSort::Top => "ended_at - started_at"@,
        TimeSort::Recent => "ended_at"@,
    } + " "@ + match typ {
        CumType::Gooning => "DESC"@,
        CumType::Prejac => "ASC"@,
    }
}

/// The `ORDER BY` clause of the query that reads back sessions of kind
/// `typ` sorted by `sort`.
pub fn order_clause(sort: TimeSort, typ: CumType) -> (s: String)
    ensures
        s@ == order_clause_text(sort, typ),
{
    let mut s = String::new();
    s.append("ORDER BY ");
    match sort {
        TimeSort::Top => s.append("ended_at - started_at"),
        TimeSort::Recent => s.append("ended_at"),
    }
    s.append(" ");
    match typ {
        CumType::Gooning => s.append("DESC"),
        CumType::Prejac => s.append("ASC"),
    }
    s
}

} // verus!
