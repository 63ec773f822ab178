//! Session score bookkeeping: the running count, the best count seen, and
//! the number of deaths.
use vstd::prelude::*;

verus! {

/// One named counter.
#[derive(Clone)]
pub struct ScoreElement {
    pub title: String,
    pub count: u32,
}

impl ScoreElement {
    pub fn new(title: String) -> (e: ScoreElement)
        ensures
            e.title == title,
            e.count == 0,
    {
        ScoreElement { title, count: 0 }
    }
}

/// The three session counters. `best` never falls below `current`.
pub struct Score {
    pub title: String,
    pub current: ScoreElement,
    pub best: ScoreElement,
    pub death: ScoreElement,
}

impl Score {
    pub open spec fn wf(self) -> bool {
        self.best.count >= self.current.count
    }

    pub fn new() -> (s: Score)
        ensures
            s.title@ == "Scores"@,
            s.current.count == 0,
            s.best.count == 0,
            s.death.count == 0,
            s.current.title@ == "current"@,
            s.best.title@ == "best"@,
            s.death.title@ == "death"@,
            s.wf(),
    {
        Score {
            title: "Scores".to_owned(),
            current: ScoreElement::new("current".to_owned()),
            best: ScoreElement::new("best".to_owned()),
            death: ScoreElement::new("death".to_owned()),
        }
    }

    /// One point scored: bump the running count and track the best.
    pub fn update_score(&mut self)
        requires
            old(self).current.count < u32::MAX,
        ensures
            final (self).current.count == old(self).current.count + 1,
            final (self).best.count == if old(self).best.count >= old(self).current.count + 1 {
                old(self).best.count as int
            } else {
                old(self).current.count + 1
            },
            final (self).death == old(self).death,
            final (self).title == old(self).title,
            final (self).current.title == old(self).current.title,
            final (self).best.title == old(self).best.title,
            final (self).wf(),
    {
        self.current.count = self.current.count + 1;
        if self.current.count > self.best.count {
            self.best.count = self.current.count;
        }
    }

    /// One death: bump the death count and start the running count over.
    pub fn reset(&mut self)
        requires
            old(self).death.count < u32::MAX,
        ensures
            final (self).death.count == old(self).death.count + 1,
            final (self).current.count == 0,
            final (self).best == old(self).best,
            final (self).title == old(self).title,
            final (self).current.title == old(self).current.title,
            final (self).death.title == old(self).death.title,
            final (self).wf(),
    {
        self.death.count = self.death.count + 1;
        self.current.count = 0;
    }
}

} // verus!
