use vstd::prelude::*;

use crate::jobs::{Job, Jobs, State};
use crate::units::{decimal, push_decimal};

verus! {

/// The colour in which a job's row is drawn.
#[derive(Debug, Clone, Copy, PartialEq, Eq, Structural)]
pub enum Tint {
    Plain,
    Blue,
    Yellow,
    Red,
    Green,
}

/// How a job's row is drawn: its colour, and whether in bold.
#[derive(Debug, Clone, Copy, PartialEq, Eq, Structural)]
pub struct Look {
    pub tint: Tint,
    pub bold: bool,
}

/// The look of a row for a job in `state`: waiting and finished jobs plain,
/// the others bold, downloading blue, booting yellow, failed red, reported
/// green.
pub open spec fn look_of(state: State) -> Look {
    match state {
        State::Unassigned => Look { tint: Tint::Plain, bold: false },
        State::Finished(_) => Look { tint: Tint::Plain, bold: false },
        State::Assigned(_) => Look { tint: Tint::Plain, bold: true },
        State::Downloading(_) => Look { tint: Tint::Blue, bold: true },
        State::Booting(_) => Look { tint: Tint::Yellow, bold: true },
        State::Failed(_) => Look { tint: Tint::Red, bold: true },
        State::Reported(_) => Look { tint: Tint::Green, bold: true },
    }
}

/// The symbol shown for a job in `state`.
pub open spec fn emoji_of(state: State) -> Seq<char> {
    match state {
        State::Unassigned => seq!['\u{23F3}'],
        State::Assigned(_) => seq!['\u{1F4CC}'],
        State::Downloading(_) => seq!['\u{1F4E5}'],
        State::Booting(_) => seq!['\u{26A1}'],
        State::Reported(_) => seq!['\u{1F4DD}'],
        State::Failed(_) => seq!['\u{274C}'],
        State::Finished(_) => seq!['\u{1F3C1}'],
    }
}

impl State {
    /// The symbol shown for a job in this state.
    pub fn emoji(&self) -> (s: &'static str)
        ensures
            s@ == emoji_of(*self),
    {
        proof {
            reveal_strlit("\u{23F3}");
            reveal_strlit("\u{1F4CC}");
            reveal_strlit("\u{1F4E5}");
            reveal_strlit("\u{26A1}");
            reveal_strlit("\u{1F4DD}");
            reveal_strlit("\u{274C}");
            reveal_strlit("\u{1F3C1}");
        }
        match self {
            State::Unassigned => "\u{23F3}",
            State::Assigned(..) => "\u{1F4CC}",
            State::Downloading(..) => "\u{1F4E5}",
            State::Booting(..) => "\u{26A1}",
            State::Reported(..) => "\u{1F4DD}",
            State::Failed(..) => "\u{274C}",
            State::Finished(..) => "\u{1F3C1}",
        }
    }
}

impl Job {
    /// The look of this job's row.
    pub fn style(&self) -> (l: Look)
        ensures
            l == look_of(self.state),
    {
        match self.state {
            State::Unassigned | State::Finished(..) => Look { tint: Tint::Plain, bold: false },
            State::Assigned(..) => Look { tint: Tint::Plain, bold: true },
            State::Downloading(..) => Look { tint: Tint::Blue, bold: true },
            State::Booting(..) => Look { tint: Tint::Yellow, bold: true },
            State::Failed(..) => Look { tint: Tint::Red, bold: true },
            State::Reported(..) => Look { tint: Tint::Green, bold: true },
        }
    }
}

/// The number of jobs in `jobs` whose state satisfies `p`.
pub open spec fn count(jobs: Seq<Job>, p: spec_fn(State) -> bool) -> nat
    decreases jobs.len(),
{
    if jobs.len() == 0 {
        0
    } else {
        count(jobs.drop_last(), p) + if p(jobs.last().state) {
            1nat
        } else {
            0nat
        }
    }
}

/// The number of jobs in each state.
#[derive(Debug, Clone, Copy, PartialEq, Eq, Structural)]
pub struct Counts {
    pub unassigned: usize,
    pub assigned: usize,
    pub downloading: usize,
    pub booting: usize,
    pub reported: usize,
    pub finished: usize,
    pub failed: usize,
}

pub open spec fn is_unassigned(s: State) -> bool {
    s is Unassigned
}

pub open spec fn is_assigned(s: State) -> bool {
    s is Assigned
}

pub open spec fn is_downloading(s: State) -> bool {
    s is Downloading
}

pub open spec fn is_booting(s: State) -> bool {
    s is Booting
}

pub open spec fn is_reported(s: State) -> bool {
    s is Reported
}

pub open spec fn is_finished(s: State) -> bool {
    s is Finished
}

pub open spec fn is_failed(s: State) -> bool {
    s is Failed
}

/// `c` holds, for each state, the number of jobs of `jobs` in it.
pub open spec fn counts_of(jobs: Seq<Job>, c: Counts) -> bool {
    &&& c.unassigned == count(jobs, |s: State| is_unassigned(s))
    &&& c.assigned == count(jobs, |s: State| is_assigned(s))
    &&& c.downloading == count(jobs, |s: State| is_downloading(s))
    &&& c.booting == count(jobs, |s: State| is_booting(s))
    &&& c.reported == count(jobs, |s: State| is_reported(s))
    &&& c.finished == count(jobs, |s: State| is_finished(s))
    &&& c.failed == count(jobs, |s: State| is_failed(s))
}

/// A count never exceeds the number of jobs.
pub proof fn lemma_count_bounded(jobs: Seq<Job>, p: spec_fn(State) -> bool)
    ensures
        count(jobs, p) <= jobs.len(),
    decreases jobs.len(),
{
    if jobs.len() > 0 {
        lemma_count_bounded(jobs.drop_last(), p);
    }
}

/// The counts of all seven states add up to the number of jobs.
pub proof fn law_counts_cover_all(jobs: Seq<Job>)
    ensures
        count(jobs, |s: State| is_unassigned(s)) + count(jobs, |s: State| is_assigned(s)) + count(
            jobs,
            |s: State| is_downloading(s),
        ) + count(jobs, |s: State| is_booting(s)) + count(jobs, |s: State| is_reported(s)) + count(
            jobs,
            |s: State| is_finished(s),
        ) + count(jobs, |s: State| is_failed(s)) == jobs.len(),
    decreases jobs.len(),
{
    if jobs.len() > 0 {
        law_counts_cover_all(jobs.drop_last());
    }
}

/// Each count is the number of jobs in its own state: stated on the states
/// themselves, whatever `counts_of` says.
pub open spec fn counts_by_state(jobs: Seq<Job>, c: Counts) -> bool {
    &&& c.unassigned == count(jobs, |s: State| s is Unassigned)
    &&& c.assigned == count(jobs, |s: State| s is Assigned)
    &&& c.downloading == count(jobs, |s: State| s is Downloading)
    &&& c.booting == count(jobs, |s: State| s is Booting)
    &&& c.reported == count(jobs, |s: State| s is Reported)
    &&& c.finished == count(jobs, |s: State| s is Finished)
    &&& c.failed == count(jobs, |s: State| s is Failed)
}

/// The number of jobs whose state satisfies `p` is the length of the jobs
/// kept by that filter.
pub proof fn law_count_is_filtered_length(jobs: Seq<Job>, p: spec_fn(State) -> bool)
    ensures
        count(jobs, p) == jobs.filter(|j: Job| p(j.state)).len(),
    decreases jobs.len(),
{
    reveal(Seq::filter);
    if jobs.len() > 0 {
        law_count_is_filtered_length(jobs.drop_last(), p);
    }
}

/// Counts as `counts` gives them hold, for each state, the number of jobs in
/// that very state: finished jobs are counted as finished, failed ones as
/// failed, and so on.
pub proof fn law_counts_name_their_states(jobs: Seq<Job>, c: Counts)
    requires
        counts_of(jobs, c),
    ensures
        counts_by_state(jobs, c),
{
    assert((|s: State| is_unassigned(s)) =~= (|s: State| s is Unassigned));
    assert((|s: State| is_assigned(s)) =~= (|s: State| s is Assigned));
    assert((|s: State| is_downloading(s)) =~= (|s: State| s is Downloading));
    assert((|s: State| is_booting(s)) =~= (|s: State| s is Booting));
    assert((|s: State| is_reported(s)) =~= (|s: State| s is Reported));
    assert((|s: State| is_finished(s)) =~= (|s: State| s is Finished));
    assert((|s: State| is_failed(s)) =~= (|s: State| s is Failed));
}

impl Jobs {
    /// The number of jobs in each state.
    pub fn counts(&self) -> (c: Counts)
        ensures
            counts_of(self@, c),
            counts_by_state(self@, c),
    {
        let s = self.as_slice();
        let mut c = Counts {
            unassigned: 0,
            assigned: 0,
            downloading: 0,
            booting: 0,
            reported: 0,
            finished: 0,
            failed: 0,
        };
        let mut i: usize = 0;
        while i < s.len()
            invariant
                i <= s@.len(),
                s@ == self@,
                counts_of(s@.take(i as int), c),
            decreases s@.len() - i,
        {
            proof {
                assert(s@.take(i + 1).drop_last() =~= s@.take(i as int));
                lemma_count_bounded(s@.take(i as int), |st: State| is_unassigned(st));
                lemma_count_bounded(s@.take(i as int), |st: State| is_assigned(st));
                lemma_count_bounded(s@.take(i as int), |st: State| is_downloading(st));
                lemma_count_bounded(s@.take(i as int), |st: State| is_booting(st));
                lemma_count_bounded(s@.take(i as int), |st: State| is_reported(st));
                lemma_count_bounded(s@.take(i as int), |st: State| is_finished(st));
                lemma_count_bounded(s@.take(i as int), |st: State| is_failed(st));
            }
            match s[i].state {
                State::Unassigned => c.unassigned = c.unassigned + 1,
                State::Assigned(..) => c.assigned = c.assigned + 1,
                State::Downloading(..) => c.downloading = c.downloading + 1,
                State::Booting(..) => c.booting = c.booting + 1,
                State::Reported(..) => c.reported = c.reported + 1,
                State::Failed(..) => c.failed = c.failed + 1,
                State::Finished(..) => c.finished = c.finished + 1,
            }
            i += 1;
        }
        proof {
            assert(s@.take(s@.len() as int) =~= s@);
            law_counts_name_their_states(self@, c);
        }
        c
    }

    /// The jobs shown in the table: all but the finished ones, in order.
    pub fn visible(&self) -> (v: Vec<&Job>)
        ensures
            v@.map_values(|r: &Job| *r) == self@.filter(|j: Job| !(j.state is Finished)),
    {
        let s = self.as_slice();
        let ghost p = |j: Job| !(j.state is Finished);
        let mut v: Vec<&Job> = Vec::new();
        let mut i: usize = 0;
        while i < s.len()
            invariant
                i <= s@.len(),
                s@ == self@,
                p == (|j: Job| !(j.state is Finished)),
                v@.map_values(|r: &Job| *r) == s@.take(i as int).filter(p),
            decreases s@.len() - i,
        {
            proof {
                assert(s@.take(i + 1).drop_last() =~= s@.take(i as int));
                reveal(Seq::filter);
            }
            let ghost before = v@;
            let finished = match s[i].state {
                State::Finished(..) => true,
                _ => false,
            };
            if !finished {
                v.push(&s[i]);
                proof {
                    assert(p(s@[i as int]));
                    assert(v@.map_values(|r: &Job| *r) =~= before.map_values(|r: &Job| *r).push(
                        s@[i as int],
                    ));
                }
            } else {
                proof {
                    assert(!p(s@[i as int]));
                }
            }
            i += 1;
        }
        proof {
            assert(s@.take(s@.len() as int) =~= s@);
        }
        v
    }
}

/// The status line: the symbol and number of jobs of each state, then the
/// hint that `q` quits.
pub open spec fn counts_line_spec(c: Counts) -> Seq<char> {
    emoji_of(State::Unassigned) + seq![' '] + decimal(c.unassigned as nat) + seq![' ']
        + emoji_of(State::Assigned(crate::net::Ip::V4(0))) + seq![' '] + decimal(
        c.assigned as nat,
    ) + seq![' '] + emoji_of(State::Downloading(crate::net::Ip::V4(0))) + seq![' '] + decimal(
        c.downloading as nat,
    ) + seq![' '] + emoji_of(State::Booting(crate::net::Ip::V4(0))) + seq![' '] + decimal(
        c.booting as nat,
    ) + seq![' '] + emoji_of(State::Reported(crate::net::Ip::V4(0))) + seq![' '] + decimal(
        c.reported as nat,
    ) + seq![' '] + emoji_of(State::Finished(crate::net::Ip::V4(0))) + seq![' '] + decimal(
        c.finished as nat,
    ) + seq![' '] + emoji_of(State::Failed(crate::net::Ip::V4(0))) + seq![' '] + decimal(
        c.failed as nat,
    ) + seq![' ', '\u{1F6AA}', ' ', 'q']
}

/// Appends an emoji, a space, a number and a space.
fn push_count(line: &mut String, state: State, n: usize)
    ensures
        final(line)@ == old(line)@ + emoji_of(state) + seq![' '] + decimal(n as nat) + seq![' '],
{
    line.append(state.emoji());
    line.append(" ");
    push_decimal(line, n as u128);
    line.append(" ");
    proof {
        reveal_strlit(" ");
        assert(final(line)@ =~= old(line)@ + emoji_of(state) + seq![' '] + decimal(n as nat)
            + seq![' ']);
    }
}

/// The status line for counts `c`.
pub fn counts_line(c: &Counts) -> (line: String)
    ensures
        line@ == counts_line_spec(*c),
{
    let ip = crate::net::Ip::V4(0);
    let mut line = String::new();
    push_count(&mut line, State::Unassigned, c.unassigned);
    push_count(&mut line, State::Assigned(ip), c.assigned);
    push_count(&mut line, State::Downloading(ip), c.downloading);
    push_count(&mut line, State::Booting(ip), c.booting);
    push_count(&mut line, State::Reported(ip), c.reported);
    push_count(&mut line, State::Finished(ip), c.finished);
    push_count(&mut line, State::Failed(ip), c.failed);
    line.append("\u{1F6AA} q");
    proof {
        reveal_strlit("\u{1F6AA} q");
        assert(line@ =~= counts_line_spec(*c));
    }
    line
}

/// The address line: a globe, then the service's URL.
pub open spec fn url_line_spec(addr: Seq<char>, path: Seq<char>) -> Seq<char> {
    seq!['\u{1F310}', ' '] + "http://"@ + addr + path
}

/// The address line for socket address `addr` (as text) and served `path`.
pub fn url_line(addr: &str, path: &str) -> (line: String)
    ensures
        line@ == url_line_spec(addr@, path@),
{
    let mut line = String::from_str("\u{1F310} ");
    line.append("http://");
    line.append(addr);
    line.append(path);
    proof {
        reveal_strlit("\u{1F310} ");
        assert(line@ =~= url_line_spec(addr@, path@));
    }
    line
}

} // verus!
