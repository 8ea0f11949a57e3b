//! The ledger: the ordered history of day edits, the undo buffer, the
//! registered projects, and the reconciled view of the history.
use crate::day::{merge_view, Day, DayView};
use crate::naive_date::Date;
use crate::timedelta::Duration;
use vstd::prelude::*;

verus! {

/// The expected working time per day: 7 hours 45 minutes.
pub const DEFAULT_WORKING_SECONDS: i64 = 27900;

/// The two stacks of the ledger: edits in the order made, and edits undone.
pub struct Ledger {
    pub days: Seq<Day>,
    pub undone: Seq<Day>,
}

/// The ledger after a new edit: the redo buffer is cleared.
pub open spec fn add_spec(l: Ledger, d: Day) -> Ledger {
    Ledger { days: l.days.push(d), undone: Seq::empty() }
}

/// The ledger after an undo: the last edit moves to the redo buffer.
pub open spec fn undo_spec(l: Ledger) -> Ledger {
    if l.days.len() == 0 {
        l
    } else {
        Ledger { days: l.days.drop_last(), undone: l.undone.push(l.days.last()) }
    }
}

/// The ledger after a redo: the last undone edit moves back.
pub open spec fn redo_spec(l: Ledger) -> Ledger {
    if l.undone.len() == 0 {
        l
    } else {
        Ledger { days: l.days.push(l.undone.last()), undone: l.undone.drop_last() }
    }
}

/// Index of the first view at or after `p` with the given date.
pub open spec fn date_position_from(vs: Seq<DayView>, date: int, p: int) -> Option<int>
    decreases vs.len() - p,
{
    if !(0 <= p < vs.len()) {
        None
    } else if vs[p].date == date {
        Some(p)
    } else {
        date_position_from(vs, date, p + 1)
    }
}

/// Index of the first view with the given date.
pub open spec fn date_position(vs: Seq<DayView>, date: int) -> Option<int> {
    date_position_from(vs, date, 0)
}

/// Folds one more edit into reconciled views: merged into the view of its
/// date, or appended where its date has none yet.
pub open spec fn absorb(vs: Seq<DayView>, d: DayView) -> Seq<DayView> {
    match date_position(vs, d.date) {
        Some(i) => vs.update(i, merge_view(vs[i], d)),
        None => vs.push(d),
    }
}

/// The reconciled view of a sequence of edits: one view per date, in the
/// order of each date's first edit.
pub open spec fn reconcile(ds: Seq<DayView>) -> Seq<DayView>
    decreases ds.len(),
{
    if ds.len() == 0 {
        Seq::empty()
    } else {
        absorb(reconcile(ds.drop_last()), ds.last())
    }
}

/// The views of a sequence of days.
pub open spec fn views(ds: Seq<Day>) -> Seq<DayView> {
    ds.map_values(|d: Day| d@)
}

/// The reconciled view of a ledger.
pub open spec fn ledger_view(l: Ledger) -> Seq<DayView> {
    reconcile(views(l.days))
}

/// Undoing a new edit gives back the view from before it.
pub proof fn lemma_add_then_undo(l: Ledger, d: Day)
    ensures
        ledger_view(undo_spec(add_spec(l, d))) == ledger_view(l),
{
    assert(l.days.push(d).drop_last() =~= l.days);
}

/// Redoing an undone edit gives back the view from after it.
pub proof fn lemma_undo_then_redo(l: Ledger, d: Day)
    ensures
        ledger_view(redo_spec(undo_spec(add_spec(l, d)))) == ledger_view(add_spec(l, d)),
{
    let a = add_spec(l, d);
    assert(a.days.drop_last().push(a.days.last()) =~= a.days);
}

/// Index of the first day with the given date.
fn find_date(ds: &Vec<Day>, date: Date) -> (r: Option<usize>)
    ensures
        match r {
            Some(j) => date_position(views(ds@), date.days as int) == Some(j as int) && j < ds@.len()
                && ds@[j as int].date == date,
            None => date_position(views(ds@), date.days as int) is None,
        },
{
    let mut j: usize = 0;
    while j < ds.len()
        invariant
            j <= ds@.len(),
            date_position(views(ds@), date.days as int) == date_position_from(
                views(ds@),
                date.days as int,
                j as int,
            ),
        decreases ds@.len() - j,
    {
        if ds[j].date.days == date.days {
            return Some(j);
        }
        j += 1;
    }
    None
}

/// The recorded edits, the undo buffer, the projects and the expected
/// working time per day.
pub struct Config {
    pub project_names: Vec<String>,
    pub days: Vec<Day>,
    pub undone: Vec<Day>,
    pub working_time_per_day: Duration,
}

impl Config {
    /// The two stacks as a ledger.
    pub open spec fn ledger(&self) -> Ledger {
        Ledger { days: self.days@, undone: self.undone@ }
    }

    /// Every edit in either stack is well formed.
    pub open spec fn wf(&self) -> bool {
        &&& forall|i: int| 0 <= i < self.days@.len() ==> #[trigger] self.days@[i].wf()
        &&& forall|i: int| 0 <= i < self.undone@.len() ==> #[trigger] self.undone@[i].wf()
    }

    /// A ledger holding `days`, with no undone edits, no projects and the
    /// default working time.
    pub fn new(days: Vec<Day>) -> (r: Config)
        ensures
            r.ledger() == (Ledger { days: days@, undone: Seq::empty() }),
            r.project_names@.len() == 0,
            r.working_time_per_day.seconds == DEFAULT_WORKING_SECONDS,
    {
        Config {
            project_names: Vec::new(),
            days,
            undone: Vec::new(),
            working_time_per_day: Duration { seconds: DEFAULT_WORKING_SECONDS },
        }
    }

    /// The reconciled view: one day per date, each the merge of that date's
    /// edits in the order made; see `reconcile`.
    pub fn day_from_date(&self) -> (r: Vec<Day>)
        requires
            self.wf(),
        ensures
            views(r@) == ledger_view(self.ledger()),
            forall|i: int| 0 <= i < r@.len() ==> #[trigger] r@[i].wf(),
    {
        let mut r: Vec<Day> = Vec::new();
        let mut i: usize = 0;
        assert(views(self.days@.subrange(0, 0)) =~= Seq::<DayView>::empty());
        while i < self.days.len()
            invariant
                self.wf(),
                i <= self.days@.len(),
                views(r@) == reconcile(views(self.days@.subrange(0, i as int))),
                forall|k: int| 0 <= k < r@.len() ==> #[trigger] r@[k].wf(),
            decreases self.days@.len() - i,
        {
            let day = &self.days[i];
            assert(self.days@[i as int].wf());
            let ghost vs = views(r@);
            assert(views(self.days@.subrange(0, i + 1)).drop_last() =~= views(
                self.days@.subrange(0, i as int),
            ));
            assert(views(self.days@.subrange(0, i + 1)).last() == day@);
            match find_date(&r, day.date) {
                Some(j) => {
                    assert(r@[j as int].date == day.date);
                    let c = r[j].combine(day);
                    r.set(j, c);
                    assert(views(r@) =~= vs.update(j as int, merge_view(vs[j as int], day@)));
                },
                None => {
                    r.push(day.duplicate());
                    assert(views(r@) =~= vs.push(day@));
                },
            }
            i += 1;
        }
        assert(self.days@.subrange(0, self.days@.len() as int) =~= self.days@);
        r
    }

    /// Registers a project; its reference number is its position plus two.
    pub fn add_project(&mut self, name: String)
        ensures
            final(self).project_names@ == old(self).project_names@.push(name),
            final(self).ledger() == old(self).ledger(),
            final(self).working_time_per_day == old(self).working_time_per_day,
            final(self).wf() == old(self).wf(),
    {
        self.project_names.push(name);
    }

    /// Records an edit and clears the redo buffer.
    pub fn add_day(&mut self, day: Day)
        requires
            old(self).wf(),
            day.wf(),
        ensures
            final(self).ledger() == add_spec(old(self).ledger(), day),
            final(self).project_names == old(self).project_names,
            final(self).working_time_per_day == old(self).working_time_per_day,
            final(self).wf(),
    {
        self.days.push(day);
        self.undone = Vec::new();
    }

    /// Moves the last edit to the redo buffer and returns its date;
    /// "Nothing to undo" when there is no edit.
    pub fn undo(&mut self) -> (r: Result<Date, String>)
        requires
            old(self).wf(),
        ensures
            final(self).ledger() == undo_spec(old(self).ledger()),
            final(self).project_names == old(self).project_names,
            final(self).working_time_per_day == old(self).working_time_per_day,
            final(self).wf(),
            match r {
                Ok(d) => old(self).ledger().days.len() > 0 && d == old(self).ledger().days.last().date
                    && d.wf(),
                Err(e) => old(self).ledger().days.len() == 0 && e@ == "Nothing to undo"@,
            },
    {
        proof {
            if self.days@.len() > 0 {
                assert(self.days@[self.days@.len() - 1].wf());
            }
        }
        match self.days.pop() {
            Some(day) => {
                let date = day.date;
                self.undone.push(day);
                Ok(date)
            },
            None => Err(String::from_str("Nothing to undo")),
        }
    }

    /// Moves the last undone edit back and returns its date;
    /// "Nothing to redo" when there is none.
    pub fn redo(&mut self) -> (r: Result<Date, String>)
        requires
            old(self).wf(),
        ensures
            final(self).ledger() == redo_spec(old(self).ledger()),
            final(self).project_names == old(self).project_names,
            final(self).working_time_per_day == old(self).working_time_per_day,
            final(self).wf(),
            match r {
                Ok(d) => old(self).ledger().undone.len() > 0 && d == old(self).ledger().undone.last().date
                    && d.wf(),
                Err(e) => old(self).ledger().undone.len() == 0 && e@ == "Nothing to redo"@,
            },
    {
        proof {
            if self.undone@.len() > 0 {
                assert(self.undone@[self.undone@.len() - 1].wf());
            }
        }
        match self.undone.pop() {
            Some(day) => {
                let date = day.date;
                self.days.push(day);
                Ok(date)
            },
            None => Err(String::from_str("Nothing to redo")),
        }
    }
}

} // verus!
