//! Read-side queries over the stored sessions: the total time of each
//! project, the same restricted to one day, and the sessions of one project,
//! newest first. Only finished stopwatch sessions with a project count.
use vstd::prelude::*;
use crate::clock::{day_of, day_of_timestamp};
use crate::model::{
    belongs_to, is_project_session, project_of, sessions_view, SessionView, TimerType, WorkSession,
};
use crate::order::{
    lemma_text_lt_irreflexive, lemma_text_lt_total, lemma_text_lt_transitive, text_lt,
    text_precedes,
};

verus! {

/// The largest magnitude of a duration in milliseconds, 2^63.
pub open spec fn duration_bound() -> int {
    0x8000_0000_0000_0000
}

/// A day given to a query, as an integer.
pub open spec fn day_spec(day: Option<i64>) -> Option<int> {
    match day {
        Some(d) => Some(d as int),
        None => None,
    }
}

/// `s` counts toward the totals: a finished stopwatch session with a project
/// that, where `day` is given, ended on that day.
pub open spec fn counted(s: SessionView, day: Option<int>) -> bool {
    &&& is_project_session(s)
    &&& (day matches Some(d) ==> day_of(s.end_time.unwrap() as int) == d)
}

/// `s` counts toward the total of project `p`.
pub open spec fn counted_for(s: SessionView, p: Seq<char>, day: Option<int>) -> bool {
    counted(s, day) && project_of(s) == p
}

/// The sum of the durations of the sessions of `s` that count toward `p`.
pub open spec fn project_total(s: Seq<SessionView>, p: Seq<char>, day: Option<int>) -> int
    decreases s.len(),
{
    if s.len() == 0 {
        0
    } else {
        project_total(s.drop_last(), p, day) + if counted_for(s.last(), p, day) {
            s.last().duration as int
        } else {
            0
        }
    }
}

/// Some session of `s` counts toward `p`.
pub open spec fn has_project(s: Seq<SessionView>, p: Seq<char>, day: Option<int>) -> bool {
    exists|i: int| 0 <= i < s.len() && #[trigger] counted_for(s[i], p, day)
}

/// The names of `r` strictly ascend.
pub open spec fn names_ascending(r: Seq<(String, i128)>) -> bool {
    forall|i: int, j: int| 0 <= i < j < r.len() ==> text_lt(#[trigger] r[i].0@, #[trigger] r[j].0@)
}

/// `r` lists each project of `s` once, by ascending name, with its total.
pub open spec fn are_project_totals(
    r: Seq<(String, i128)>,
    s: Seq<SessionView>,
    day: Option<int>,
) -> bool {
    &&& names_ascending(r)
    &&& forall|k: int|
        0 <= k < r.len() ==> has_project(s, #[trigger] r[k].0@, day) && r[k].1 == project_total(
            s,
            r[k].0@,
            day,
        )
    &&& forall|p: Seq<char>|
        #[trigger] has_project(s, p, day) ==> exists|k: int| 0 <= k < r.len() && r[k].0@ == p
}

/// Each session of `r` has ended no later than the one before it.
pub open spec fn newest_first(r: Seq<SessionView>) -> bool {
    forall|i: int, j: int|
        0 <= i < j < r.len() ==> (#[trigger] r[j]).end_time.unwrap() <= (#[trigger] r[i]).end_time.unwrap()
}

/// The sessions of `s` that are finished stopwatch sessions of `p`.
pub open spec fn sessions_of(s: Seq<SessionView>, p: Seq<char>) -> Seq<SessionView> {
    s.filter(|x: SessionView| belongs_to(x, p))
}

proof fn lemma_total_push(s: Seq<SessionView>, x: SessionView, p: Seq<char>, day: Option<int>)
    ensures
        project_total(s.push(x), p, day) == project_total(s, p, day) + if counted_for(x, p, day) {
            x.duration as int
        } else {
            0
        },
{
    assert(s.push(x).drop_last() =~= s);
}

proof fn lemma_has_push(s: Seq<SessionView>, x: SessionView, p: Seq<char>, day: Option<int>)
    ensures
        has_project(s.push(x), p, day) <==> has_project(s, p, day) || counted_for(x, p, day),
{
    let t = s.push(x);
    if has_project(s, p, day) {
        let i = choose|i: int| 0 <= i < s.len() && #[trigger] counted_for(s[i], p, day);
        assert(t[i] == s[i]);
    }
    if has_project(t, p, day) {
        let i = choose|i: int| 0 <= i < t.len() && #[trigger] counted_for(t[i], p, day);
        if i < s.len() {
            assert(t[i] == s[i]);
        }
    }
    if counted_for(x, p, day) {
        assert(t[s.len() as int] == x);
    }
}

/// A project without counted sessions totals zero.
proof fn lemma_total_absent(s: Seq<SessionView>, p: Seq<char>, day: Option<int>)
    requires
        !has_project(s, p, day),
    ensures
        project_total(s, p, day) == 0,
    decreases s.len(),
{
    if s.len() > 0 {
        assert(s =~= s.drop_last().push(s.last()));
        lemma_has_push(s.drop_last(), s.last(), p, day);
        lemma_total_absent(s.drop_last(), p, day);
    }
}

/// A total over `n` sessions lies within `n` times the largest duration.
proof fn lemma_total_bound(s: Seq<SessionView>, p: Seq<char>, day: Option<int>)
    ensures
        -(s.len() * duration_bound()) <= project_total(s, p, day) <= s.len() * duration_bound(),
    decreases s.len(),
{
    if s.len() > 0 {
        lemma_total_bound(s.drop_last(), p, day);
        assert((s.len() - 1) * duration_bound() + duration_bound() == s.len() * duration_bound())
            by (nonlinear_arith);
    }
}

/// A session that is not a finished stopwatch session with a project
/// contributes to no total: the project totals of `s` with it added are
/// those of `s`, for all days and for none.
pub proof fn lemma_untagged_ignored(
    r: Seq<(String, i128)>,
    s: Seq<SessionView>,
    x: SessionView,
    day: Option<int>,
)
    requires
        !is_project_session(x),
    ensures
        are_project_totals(r, s.push(x), day) <==> are_project_totals(r, s, day),
        forall|p: Seq<char>| project_total(s.push(x), p, day) == #[trigger] project_total(s, p, day),
        forall|p: Seq<char>| has_project(s.push(x), p, day) <==> #[trigger] has_project(s, p, day),
{
    assert forall|p: Seq<char>| project_total(s.push(x), p, day) == #[trigger] project_total(
        s,
        p,
        day,
    ) by {
        lemma_total_push(s, x, p, day);
    }
    assert forall|p: Seq<char>| has_project(s.push(x), p, day) <==> #[trigger] has_project(
        s,
        p,
        day,
    ) by {
        lemma_has_push(s, x, p, day);
    }
    if are_project_totals(r, s, day) {
        lemma_totals_skip(r, s, x, day);
    }
    if are_project_totals(r, s.push(x), day) {
        assert forall|k: int| 0 <= k < r.len() implies has_project(s, #[trigger] r[k].0@, day)
            && r[k].1 == project_total(s, r[k].0@, day) by {
            lemma_has_push(s, x, r[k].0@, day);
            lemma_total_push(s, x, r[k].0@, day);
        }
        assert forall|p: Seq<char>| #[trigger] has_project(s, p, day) implies exists|k: int|
            0 <= k < r.len() && r[k].0@ == p by {
            lemma_has_push(s, x, p, day);
        }
    }
}

/// A session that does not count leaves every total as it was.
proof fn lemma_totals_skip(
    r: Seq<(String, i128)>,
    t: Seq<SessionView>,
    x: SessionView,
    day: Option<int>,
)
    requires
        are_project_totals(r, t, day),
        !counted(x, day),
    ensures
        are_project_totals(r, t.push(x), day),
{
    assert forall|k: int| 0 <= k < r.len() implies has_project(t.push(x), #[trigger] r[k].0@, day)
        && r[k].1 == project_total(t.push(x), r[k].0@, day) by {
        lemma_has_push(t, x, r[k].0@, day);
        lemma_total_push(t, x, r[k].0@, day);
    }
    assert forall|p: Seq<char>| #[trigger] has_project(t.push(x), p, day) implies exists|k: int|
        0 <= k < r.len() && r[k].0@ == p by {
        lemma_has_push(t, x, p, day);
    }
}

/// A counted session of a listed project adds its duration to that entry.
proof fn lemma_totals_add(
    r: Seq<(String, i128)>,
    t: Seq<SessionView>,
    x: SessionView,
    day: Option<int>,
    j: int,
    e: (String, i128),
)
    requires
        are_project_totals(r, t, day),
        counted(x, day),
        0 <= j < r.len(),
        r[j].0@ == project_of(x),
        e.0@ == project_of(x),
        e.1 == r[j].1 + x.duration,
    ensures
        are_project_totals(r.update(j, e), t.push(x), day),
{
    let r2 = r.update(j, e);
    assert forall|a: int, b: int| 0 <= a < b < r2.len() implies text_lt(
        #[trigger] r2[a].0@,
        #[trigger] r2[b].0@,
    ) by {
        assert(text_lt(r[a].0@, r[b].0@));
    }
    assert forall|k: int| 0 <= k < r2.len() implies has_project(t.push(x), #[trigger] r2[k].0@, day)
        && r2[k].1 == project_total(t.push(x), r2[k].0@, day) by {
        lemma_has_push(t, x, r2[k].0@, day);
        lemma_total_push(t, x, r2[k].0@, day);
        if k != j {
            lemma_text_lt_irreflexive(r[j].0@);
            if k < j {
                assert(text_lt(r[k].0@, r[j].0@));
            } else {
                assert(text_lt(r[j].0@, r[k].0@));
            }
        }
    }
    assert forall|p: Seq<char>| #[trigger] has_project(t.push(x), p, day) implies exists|k: int|
        0 <= k < r2.len() && r2[k].0@ == p by {
        lemma_has_push(t, x, p, day);
        if p == project_of(x) {
            assert(r2[j].0@ == p);
        } else {
            let k = choose|k: int| 0 <= k < r.len() && r[k].0@ == p;
            assert(r2[k].0@ == p);
        }
    }
}

/// A counted session of a project not yet listed enters at its place in the
/// order of names.
proof fn lemma_totals_insert(
    r: Seq<(String, i128)>,
    t: Seq<SessionView>,
    x: SessionView,
    day: Option<int>,
    j: int,
    e: (String, i128),
)
    requires
        are_project_totals(r, t, day),
        counted(x, day),
        0 <= j <= r.len(),
        forall|k: int| 0 <= k < j ==> text_lt(#[trigger] r[k].0@, e.0@),
        j < r.len() ==> !text_lt(r[j].0@, e.0@) && r[j].0@ != e.0@,
        e.0@ == project_of(x),
        e.1 == x.duration,
    ensures
        are_project_totals(r.insert(j, e), t.push(x), day),
{
    let q = e.0@;
    let r2 = r.insert(j, e);
    assert forall|k: int| j <= k < r.len() implies text_lt(q, #[trigger] r[k].0@) by {
        lemma_text_lt_total(r[j].0@, q);
        if k > j {
            assert(text_lt(r[j].0@, r[k].0@));
            lemma_text_lt_transitive(q, r[j].0@, r[k].0@);
        }
    }
    assert forall|k: int| 0 <= k < r.len() implies #[trigger] r[k].0@ != q by {
        lemma_text_lt_irreflexive(q);
    }
    assert(!has_project(t, q, day));
    lemma_total_absent(t, q, day);
    assert forall|a: int, b: int| 0 <= a < b < r2.len() implies text_lt(
        #[trigger] r2[a].0@,
        #[trigger] r2[b].0@,
    ) by {
        if b < j {
            assert(text_lt(r[a].0@, r[b].0@));
        } else if b == j {
        } else if a < j {
            assert(text_lt(r[a].0@, q));
            assert(text_lt(q, r[b - 1].0@));
            lemma_text_lt_transitive(r[a].0@, q, r[b - 1].0@);
        } else if a == j {
        } else {
            assert(text_lt(r[a - 1].0@, r[b - 1].0@));
        }
    }
    assert forall|k: int| 0 <= k < r2.len() implies has_project(t.push(x), #[trigger] r2[k].0@, day)
        && r2[k].1 == project_total(t.push(x), r2[k].0@, day) by {
        lemma_has_push(t, x, r2[k].0@, day);
        lemma_total_push(t, x, r2[k].0@, day);
    }
    assert forall|p: Seq<char>| #[trigger] has_project(t.push(x), p, day) implies exists|k: int|
        0 <= k < r2.len() && r2[k].0@ == p by {
        lemma_has_push(t, x, p, day);
        if p == q {
            assert(r2[j].0@ == p);
        } else {
            let k = choose|k: int| 0 <= k < r.len() && r[k].0@ == p;
            if k < j {
                assert(r2[k].0@ == p);
            } else {
                assert(r2[k + 1].0@ == p);
            }
        }
    }
}

/// Whether `s` counts toward the totals of its project on `day`.
fn is_counted(s: &WorkSession, day: Option<i64>) -> (r: bool)
    ensures
        r == counted(s@, day_spec(day)),
{
    if s.session_type == TimerType::Stopwatch && s.tags.len() > 0 {
        match s.end_time {
            Some(end) => match day {
                Some(d) => day_of_timestamp(end) == d,
                None => true,
            },
            None => false,
        }
    } else {
        false
    }
}

/// The place of `name` among the ascending names of `r`: every name before
/// it comes before `name`, the one at it does not.
fn place_of_name(r: &Vec<(String, i128)>, name: &String) -> (j: usize)
    ensures
        j <= r@.len(),
        forall|k: int| 0 <= k < j ==> text_lt(#[trigger] r@[k].0@, name@),
        j < r@.len() ==> !text_lt(r@[j as int].0@, name@),
{
    let mut j: usize = 0;
    while j < r.len()
        invariant
            j <= r@.len(),
            forall|k: int| 0 <= k < j ==> text_lt(#[trigger] r@[k].0@, name@),
        decreases r@.len() - j,
    {
        if !text_precedes(&r[j].0, name) {
            return j;
        }
        j += 1;
    }
    j
}

/// The total duration of each project over the counted sessions, by
/// ascending project name; where `day` is given, only sessions that ended on
/// that day count.
pub fn project_totals(sessions: &Vec<WorkSession>, day: Option<i64>) -> (r: Vec<(String, i128)>)
    ensures
        are_project_totals(r@, sessions_view(sessions@), day_spec(day)),
{
    let n = sessions.len();
    let ghost s = sessions_view(sessions@);
    let ghost d = day_spec(day);
    let mut r: Vec<(String, i128)> = Vec::new();
    let mut i: usize = 0;
    while i < n
        invariant
            n == sessions@.len(),
            s == sessions_view(sessions@),
            d == day_spec(day),
            i <= n,
            are_project_totals(r@, s.take(i as int), d),
        decreases n - i,
    {
        let ghost t = s.take(i as int);
        let ghost x = s[i as int];
        assert(s.take(i + 1) =~= t.push(x));
        let session = &sessions[i];
        assert(session@ == x);
        if is_counted(session, day) {
            let name = &session.tags[0];
            let j = place_of_name(&r, name);
            if j < r.len() && r[j].0 == *name {
                proof {
                    lemma_total_bound(t, name@, d);
                    assert(i * duration_bound() + duration_bound() <= 0x7FFF_FFFF_FFFF_FFFF_FFFF_FFFF_FFFF_FFFF)
                        by (nonlinear_arith)
                        requires
                            i < n,
                            n <= usize::MAX,
                    ;
                }
                let total = r[j].1 + session.duration as i128;
                let e = (name.clone(), total);
                proof {
                    lemma_totals_add(r@, t, x, d, j as int, e);
                }
                r.set(j, e);
            } else {
                let e = (name.clone(), session.duration as i128);
                proof {
                    lemma_totals_insert(r@, t, x, d, j as int, e);
                }
                r.insert(j, e);
            }
        } else {
            proof {
                lemma_totals_skip(r@, t, x, d);
            }
        }
        i += 1;
    }
    assert(s.take(n as int) =~= s);
    r
}

/// The finished stopwatch sessions of `project`, newest first; sessions that
/// ended at the same instant keep their stored order.
pub fn sessions_for_project(sessions: &Vec<WorkSession>, project: &str) -> (r: Vec<WorkSession>)
    ensures
        sessions_view(r@).to_multiset() == sessions_of(sessions_view(sessions@), project@).to_multiset(),
        newest_first(sessions_view(r@)),
        forall|k: int| 0 <= k < r@.len() ==> belongs_to(#[trigger] r@[k]@, project@),
{
    broadcast use vstd::seq_lib::group_to_multiset_ensures;

    let project = project.to_owned();
    let ghost p = project@;
    let ghost s = sessions_view(sessions@);
    let n = sessions.len();
    let mut r: Vec<WorkSession> = Vec::new();
    let mut i: usize = 0;
    while i < n
        invariant
            n == sessions@.len(),
            s == sessions_view(sessions@),
            p == project@,
            i <= n,
            sessions_view(r@).to_multiset() == sessions_of(s.take(i as int), p).to_multiset(),
            newest_first(sessions_view(r@)),
            forall|k: int| 0 <= k < r@.len() ==> belongs_to(#[trigger] r@[k]@, p),
        decreases n - i,
    {
        let ghost t = s.take(i as int);
        let ghost x = s[i as int];
        assert(s.take(i + 1) =~= t.push(x));
        proof {
            t.lemma_filter_push(x, |x: SessionView| belongs_to(x, p));
        }
        let session = &sessions[i];
        assert(session@ == x);
        if session.belongs_to_project(&project) {
            let end = session.end_time.unwrap();
            let mut j: usize = 0;
            while j < r.len()
                invariant_except_break
                    j <= r@.len(),
                    forall|k: int| 0 <= k < r@.len() ==> belongs_to(#[trigger] r@[k]@, p),
                    forall|k: int| 0 <= k < j ==> end <= (#[trigger] r@[k]).end_time.unwrap(),
                ensures
                    j <= r@.len(),
                    forall|k: int| 0 <= k < j ==> end <= (#[trigger] r@[k]).end_time.unwrap(),
                    j < r@.len() ==> r@[j as int].end_time.unwrap() < end,
                decreases r@.len() - j,
            {
                assert(belongs_to(r@[j as int]@, p));
                if r[j].end_time.unwrap() < end {
                    break;
                }
                j += 1;
            }
            let c = session.clone();
            let ghost before = sessions_view(r@);
            r.insert(j, c);
            let ghost v = sessions_view(r@);
            assert(v =~= before.insert(j as int, x));
            assert(v.to_multiset() =~= before.to_multiset().insert(x)) by {
                vstd::seq_lib::to_multiset_insert(before, j as int, x);
            }
            assert(sessions_of(s.take(i + 1), p) == sessions_of(t, p).push(x));
            assert(sessions_of(t, p).push(x).to_multiset() =~= sessions_of(t, p).to_multiset().insert(
                x,
            )) by {
                vstd::seq_lib::to_multiset_build(sessions_of(t, p), x);
            }
            assert forall|a: int, b: int| 0 <= a < b < v.len() implies (#[trigger] v[b]).end_time.unwrap()
                <= (#[trigger] v[a]).end_time.unwrap() by {
                if b < j {
                    assert(before[a] == v[a] && before[b] == v[b]);
                } else if a > j {
                    assert(before[a - 1] == v[a] && before[b - 1] == v[b]);
                } else if a == j {
                    assert(before[b - 1] == v[b]);
                    assert(r@[j as int + 1]@ == before[j as int]);
                    if b - 1 > j {
                        assert(before[b - 1].end_time.unwrap() <= before[j as int].end_time.unwrap());
                    }
                } else if b == j {
                    assert(before[a] == v[a]);
                    assert(r@[a]@ == before[a]);
                } else {
                    assert(before[a] == v[a] && before[b - 1] == v[b]);
                }
            }
        } else {
            assert(sessions_of(s.take(i + 1), p) == sessions_of(t, p));
        }
        i += 1;
    }
    assert(s.take(n as int) =~= s);
    r
}

} // verus!
