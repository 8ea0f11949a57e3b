//! The record of one calendar date's edits and the rule that combines two
//! edits of the same date.
use crate::naive_date::Date;
use crate::timedelta::Duration;
use vstd::prelude::*;

verus! {

/// A wall-clock instant: a date and the seconds since its midnight.
#[derive(Clone, Copy, Debug, PartialEq, Eq, Structural)]
pub struct DateTime {
    pub date: Date,
    pub seconds: u32,
}

impl DateTime {
    pub open spec fn wf(&self) -> bool {
        self.date.wf() && self.seconds < 86400
    }

    /// Seconds since the start of day 0.
    pub open spec fn instant(&self) -> int {
        self.date.days * 86400 + self.seconds
    }
}

/// One date's recorded facts: clock-in, clock-out, lunch and time per
/// project. Project names are unique.
#[derive(Clone, Debug)]
pub struct Day {
    pub date: Date,
    pub start: Option<DateTime>,
    pub stop: Option<DateTime>,
    pub lunch: Option<Duration>,
    pub projects: Vec<(String, Duration)>,
}

/// Time logged against project `k` in a list of entries; the last entry
/// with that name counts.
pub open spec fn project_time(ps: Seq<(String, Duration)>, k: Seq<char>) -> Option<int>
    decreases ps.len(),
{
    if ps.len() == 0 {
        None
    } else if ps.last().0@ == k {
        Some(ps.last().1.seconds as int)
    } else {
        project_time(ps.drop_last(), k)
    }
}

/// The entries as a map from project name to seconds.
pub open spec fn project_map(ps: Seq<(String, Duration)>) -> Map<Seq<char>, int> {
    Map::new(|k: Seq<char>| project_time(ps, k) is Some, |k: Seq<char>| project_time(ps, k)->0)
}

/// No two entries carry the same project name.
pub open spec fn names_unique(ps: Seq<(String, Duration)>) -> bool {
    forall|i: int, j: int| 0 <= i < j < ps.len() ==> ps[i].0@ != ps[j].0@
}

/// Every entry's duration is well formed.
pub open spec fn durations_ok(ps: Seq<(String, Duration)>) -> bool {
    forall|i: int| 0 <= i < ps.len() ==> #[trigger] ps[i].1.wf()
}

/// The sum of the entries' seconds.
pub open spec fn projects_sum(ps: Seq<(String, Duration)>) -> int
    decreases ps.len(),
{
    if ps.len() == 0 {
        0
    } else {
        projects_sum(ps.drop_last()) + ps.last().1.seconds
    }
}

/// The facts of a day as plain values.
pub struct DayView {
    pub date: int,
    pub start: Option<DateTime>,
    pub stop: Option<DateTime>,
    pub lunch: Option<int>,
    pub projects: Map<Seq<char>, int>,
}

/// The later value where it is present, else the earlier one.
pub open spec fn later_or<T>(earlier: Option<T>, later: Option<T>) -> Option<T> {
    if later is Some {
        later
    } else {
        earlier
    }
}

/// Two edits of one date combined: the later edit wins each field it
/// holds, and project times are united with the later edit winning a name
/// both hold.
pub open spec fn merge_view(a: DayView, b: DayView) -> DayView {
    DayView {
        date: a.date,
        start: later_or(a.start, b.start),
        stop: later_or(a.stop, b.stop),
        lunch: later_or(a.lunch, b.lunch),
        projects: a.projects.union_prefer_right(b.projects),
    }
}

impl View for Day {
    type V = DayView;

    open spec fn view(&self) -> DayView {
        DayView {
            date: self.date.days as int,
            start: self.start,
            stop: self.stop,
            lunch: match self.lunch {
                Some(l) => Some(l.seconds as int),
                None => None,
            },
            projects: project_map(self.projects@),
        }
    }
}

proof fn lemma_project_time_at(ps: Seq<(String, Duration)>, i: int)
    requires
        names_unique(ps),
        0 <= i < ps.len(),
    ensures
        project_time(ps, ps[i].0@) == Some(ps[i].1.seconds as int),
    decreases ps.len(),
{
    if i < ps.len() - 1 {
        lemma_project_time_at(ps.drop_last(), i);
    }
}

proof fn lemma_project_time_absent(ps: Seq<(String, Duration)>, k: Seq<char>)
    requires
        forall|i: int| 0 <= i < ps.len() ==> ps[i].0@ != k,
    ensures
        project_time(ps, k) is None,
    decreases ps.len(),
{
    if ps.len() > 0 {
        lemma_project_time_absent(ps.drop_last(), k);
    }
}

/// The project time of a name in a unique list: the entry that carries it, or none.
proof fn lemma_project_time(ps: Seq<(String, Duration)>, k: Seq<char>)
    requires
        names_unique(ps),
    ensures
        project_time(ps, k) == (if exists|i: int| 0 <= i < ps.len() && ps[i].0@ == k {
            Some(ps[choose|i: int| 0 <= i < ps.len() && ps[i].0@ == k].1.seconds as int)
        } else {
            None
        }),
{
    if exists|i: int| 0 <= i < ps.len() && ps[i].0@ == k {
        let i = choose|i: int| 0 <= i < ps.len() && ps[i].0@ == k;
        lemma_project_time_at(ps, i);
    } else {
        lemma_project_time_absent(ps, k);
    }
}

/// Sets the time of project `name`, replacing an entry of that name or
/// adding one.
fn set_project(ps: &mut Vec<(String, Duration)>, name: String, t: Duration)
    requires
        names_unique(old(ps)@),
        durations_ok(old(ps)@),
        t.wf(),
    ensures
        names_unique(final(ps)@),
        durations_ok(final(ps)@),
        project_map(final(ps)@) == project_map(old(ps)@).insert(name@, t.seconds as int),
{
    let ghost before = ps@;
    let ghost nm = name@;
    let mut i: usize = 0;
    while i < ps.len()
        invariant
            ps@ == before,
            names_unique(before),
            durations_ok(before),
            t.wf(),
            i <= ps@.len(),
            nm == name@,
            before == old(ps)@,
            forall|j: int| 0 <= j < i ==> ps@[j].0@ != nm,
        decreases ps@.len() - i,
    {
        if ps[i].0 == name {
            ps.set(i, (name, t));
            proof {
                assert(forall|j: int| 0 <= j < ps@.len() ==> ps@[j].0@ == before[j].0@);
                assert(names_unique(ps@));
                assert forall|k: Seq<char>| #[trigger] project_time(ps@, k) == (if k == nm {
                    Some(t.seconds as int)
                } else {
                    project_time(before, k)
                }) by {
                    lemma_project_time(ps@, k);
                    lemma_project_time(before, k);
                    if k != nm {
                        if exists|j: int| 0 <= j < before.len() && before[j].0@ == k {
                            let j = choose|j: int| 0 <= j < before.len() && before[j].0@ == k;
                            assert(ps@[j].0@ == k);
                        }
                        if exists|j: int| 0 <= j < ps@.len() && ps@[j].0@ == k {
                            let j = choose|j: int| 0 <= j < ps@.len() && ps@[j].0@ == k;
                            assert(before[j].0@ == k);
                        }
                    } else {
                        lemma_project_time_at(ps@, i as int);
                    }
                }
                assert(project_map(ps@) =~= project_map(before).insert(nm, t.seconds as int));
            }
            return;
        }
        i += 1;
    }
    ps.push((name, t));
    proof {
        assert(ps@.drop_last() =~= before);
        assert(project_map(ps@) =~= project_map(before).insert(nm, t.seconds as int));
    }
}

/// A copy of a list of project entries.
pub fn copy_entries(ps: &Vec<(String, Duration)>) -> (r: Vec<(String, Duration)>)
    ensures
        r@ == ps@,
{
    let mut r: Vec<(String, Duration)> = Vec::new();
    let mut i: usize = 0;
    while i < ps.len()
        invariant
            i <= ps@.len(),
            r@.len() == i,
            forall|j: int| 0 <= j < i ==> r@[j] == ps@[j],
        decreases ps@.len() - i,
    {
        let name = ps[i].0.clone();
        r.push((name, ps[i].1));
        i += 1;
    }
    assert(r@ =~= ps@);
    r
}

impl Day {
    pub open spec fn wf(&self) -> bool {
        &&& self.date.wf()
        &&& self.start matches Some(s) ==> s.wf()
        &&& self.stop matches Some(s) ==> s.wf()
        &&& self.lunch matches Some(l) ==> l.wf()
        &&& names_unique(self.projects@)
        &&& durations_ok(self.projects@)
    }

    /// Combines an earlier edit of this date (`self`) with a later one
    /// (`other`); see `merge_view`.
    pub fn combine(&self, other: &Day) -> (r: Day)
        requires
            self.date == other.date,
            self.wf(),
            other.wf(),
        ensures
            r@ == merge_view(self@, other@),
            r.wf(),
            r.date == self.date,
            r.start == later_or(self.start, other.start),
            r.stop == later_or(self.stop, other.stop),
            r.lunch == later_or(self.lunch, other.lunch),
    {
        let mut projects = self.duplicate().projects;
        let mut k: usize = 0;
        while k < other.projects.len()
            invariant
                k <= other.projects@.len(),
                names_unique(projects@),
                names_unique(other.projects@),
                durations_ok(projects@),
                durations_ok(other.projects@),
                project_map(projects@) == project_map(self.projects@).union_prefer_right(
                    project_map(other.projects@.subrange(0, k as int)),
                ),
            decreases other.projects@.len() - k,
        {
            let ghost pre = other.projects@.subrange(0, k as int);
            let ghost next = other.projects@.subrange(0, k + 1);
            assert(next.drop_last() =~= pre);
            let name = other.projects[k].0.clone();
            assert(other.projects@[k as int].1.wf());
            set_project(&mut projects, name, other.projects[k].1);
            assert(project_map(projects@) =~= project_map(self.projects@).union_prefer_right(
                project_map(next),
            ));
            k += 1;
        }
        assert(other.projects@.subrange(0, other.projects@.len() as int) =~= other.projects@);
        let r = Day {
            date: self.date,
            start: if other.start.is_some() { other.start } else { self.start },
            stop: if other.stop.is_some() { other.stop } else { self.stop },
            lunch: if other.lunch.is_some() { other.lunch } else { self.lunch },
            projects,
        };
        assert(r@.projects =~= merge_view(self@, other@).projects);
        r
    }

    /// A copy of the edit.
    pub fn duplicate(&self) -> (r: Day)
        ensures
            r.date == self.date,
            r.start == self.start,
            r.stop == self.stop,
            r.lunch == self.lunch,
            r.projects@ == self.projects@,
            r@ == self@,
    {
        let projects = copy_entries(&self.projects);
        Day { date: self.date, start: self.start, stop: self.stop, lunch: self.lunch, projects }
    }

    /// The edit holds some fact.
    pub open spec fn has_content_spec(&self) -> bool {
        self.start is Some || self.stop is Some || self.lunch is Some || self.projects@.len() > 0
    }

    /// Whether the edit holds any fact at all; see `has_content_spec`.
    pub fn has_content(&self) -> (r: bool)
        ensures
            r == self.has_content_spec(),
    {
        self.start.is_some() || self.stop.is_some() || self.lunch.is_some()
            || self.projects.len() > 0
    }
}

} // verus!
