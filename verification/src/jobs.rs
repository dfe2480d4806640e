use vstd::prelude::*;

use crate::clock::{elapsed_since, elapsed_spec, now_nanos, MAX_DURATION_NANOS, TIMEOUT_NANOS};
use crate::net::Ip;

verus! {

/// A release asset: an image that one machine boots and tests.
#[derive(Debug)]
pub struct Asset {
    pub id: u64,
    pub name: String,
    pub size: u64,
    pub url: String,
    pub content_type: String,
}

impl Clone for Asset {
    fn clone(&self) -> (r: Self)
        ensures
            r == *self,
    {
        Asset {
            id: self.id,
            name: self.name.clone(),
            size: self.size,
            url: self.url.clone(),
            content_type: self.content_type.clone(),
        }
    }
}

/// Where a job stands, and which machine holds it.
#[derive(Debug, Clone, Copy, PartialEq, Eq, Structural)]
pub enum State {
    Unassigned,
    Assigned(Ip),
    Downloading(Ip),
    Booting(Ip),
    Reported(Ip),
    Finished(Ip),
    Failed(Ip),
}

impl State {
    /// The machine that holds the job, if any.
    pub open spec fn ip_spec(self) -> Option<Ip> {
        match self {
            State::Unassigned => None,
            State::Assigned(ip) => Some(ip),
            State::Downloading(ip) => Some(ip),
            State::Booting(ip) => Some(ip),
            State::Reported(ip) => Some(ip),
            State::Finished(ip) => Some(ip),
            State::Failed(ip) => Some(ip),
        }
    }

    pub fn ip(&self) -> (r: Option<Ip>)
        ensures
            r == self.ip_spec(),
    {
        match self {
            State::Unassigned => None,
            State::Assigned(ip) => Some(*ip),
            State::Downloading(ip) => Some(*ip),
            State::Booting(ip) => Some(*ip),
            State::Reported(ip) => Some(*ip),
            State::Finished(ip) => Some(*ip),
            State::Failed(ip) => Some(*ip),
        }
    }
}

/// One asset, its state, and when its machine was last heard from
/// (nanoseconds since the Unix epoch).
#[derive(Debug)]
pub struct Job {
    pub asset: Asset,
    pub state: State,
    pub seen: Option<i128>,
}

impl Job {
    /// Time since the job was last seen at clock reading `now`.
    pub fn elapsed(&self, now: i128) -> (d: u128)
        ensures
            d == elapsed_spec(self.seen, now),
    {
        elapsed_since(self.seen, now)
    }
}

/// The job as it stands after its machine was heard from at `now`, in `state`.
pub open spec fn touched(job: Job, state: State, now: i128) -> Job {
    Job { asset: job.asset, state, seen: Some(now) }
}

/// `i` is the first index of `jobs` whose job satisfies `p`.
pub open spec fn is_first(jobs: Seq<Job>, i: int, p: spec_fn(Job) -> bool) -> bool {
    &&& 0 <= i < jobs.len()
    &&& p(jobs[i])
    &&& forall|k: int| 0 <= k < i ==> !p(#[trigger] jobs[k])
}

/// The first index of `jobs` whose job satisfies `p`, if there is one.
pub open spec fn first(jobs: Seq<Job>, p: spec_fn(Job) -> bool) -> Option<int> {
    if exists|i: int| is_first(jobs, i, p) {
        Some(choose|i: int| is_first(jobs, i, p))
    } else {
        None
    }
}

/// The job is in exactly the state `target`.
pub open spec fn state_is(target: State) -> spec_fn(Job) -> bool {
    |j: Job| j.state == target
}

/// The job may be handed to a machine at clock reading `now`: nobody holds
/// it, or its holder has been silent past the timeout while it was assigned
/// or downloading.
pub open spec fn claimable(now: i128) -> spec_fn(Job) -> bool {
    |j: Job|
        j.state is Unassigned || ((j.state is Assigned || j.state is Downloading) && elapsed_spec(
            j.seen,
            now,
        ) > TIMEOUT_NANOS)
}

/// The job can be closed by machine `ip`: assigned to, booting on, or
/// reported by it.
pub open spec fn closable_by(ip: Ip) -> spec_fn(Job) -> bool {
    |j: Job|
        j.state == State::Assigned(ip) || j.state == State::Booting(ip) || j.state
            == State::Reported(ip)
}

/// The state in which `ip` closes a job: finished after a report, failed
/// otherwise.
pub open spec fn closed_state(state: State, ip: Ip) -> State {
    if state == State::Reported(ip) {
        State::Finished(ip)
    } else {
        State::Failed(ip)
    }
}

/// `jobs` with the job at `at` (if any) moved to `state` and seen at `now`.
pub open spec fn moved(jobs: Seq<Job>, at: Option<int>, state: State, now: i128) -> Seq<Job> {
    match at {
        Some(i) => jobs.update(i, touched(jobs[i], state, now)),
        None => jobs,
    }
}

/// The job that `ip` gets when it asks at `now`: the first job already
/// assigned to it, else the first claimable job.
pub open spec fn assign_target(jobs: Seq<Job>, ip: Ip, now: i128) -> Option<int> {
    match first(jobs, state_is(State::Assigned(ip))) {
        Some(i) => Some(i),
        None => first(jobs, claimable(now)),
    }
}

/// The table after `ip` asks for a job at `now`.
pub open spec fn after_assign(jobs: Seq<Job>, ip: Ip, now: i128) -> Seq<Job> {
    moved(jobs, assign_target(jobs, ip, now), State::Assigned(ip), now)
}

/// The asset that `ip` gets when it asks at `now`.
pub open spec fn assigned_asset(jobs: Seq<Job>, ip: Ip, now: i128) -> Option<Asset> {
    match assign_target(jobs, ip, now) {
        Some(i) => Some(jobs[i].asset),
        None => None,
    }
}

/// The table after `ip` starts downloading at `now`.
pub open spec fn after_downloading(jobs: Seq<Job>, ip: Ip, now: i128) -> Seq<Job> {
    moved(jobs, first(jobs, state_is(State::Assigned(ip))), State::Downloading(ip), now)
}

/// The table after `ip` signals that it boots, at `now`.
pub open spec fn after_booting(jobs: Seq<Job>, ip: Ip, now: i128) -> Seq<Job> {
    moved(jobs, first(jobs, state_is(State::Downloading(ip))), State::Booting(ip), now)
}

/// The table after `ip` reports, at `now`.
pub open spec fn after_report(jobs: Seq<Job>, ip: Ip, now: i128) -> Seq<Job> {
    moved(jobs, first(jobs, state_is(State::Booting(ip))), State::Reported(ip), now)
}

/// The table after `ip` closes its job, at `now`.
pub open spec fn after_finish(jobs: Seq<Job>, ip: Ip, now: i128) -> Seq<Job> {
    match first(jobs, closable_by(ip)) {
        Some(i) => jobs.update(i, touched(jobs[i], closed_state(jobs[i].state, ip), now)),
        None => jobs,
    }
}

/// No two jobs of `jobs` share an asset.
pub open spec fn distinct_assets(jobs: Seq<Job>) -> bool {
    forall|i: int, j: int| 0 <= i < j < jobs.len() ==> jobs[i].asset != jobs[j].asset
}

/// The first index is the only index that is first.
pub proof fn lemma_first_at(jobs: Seq<Job>, p: spec_fn(Job) -> bool, i: int)
    requires
        is_first(jobs, i, p),
    ensures
        first(jobs, p) == Some(i),
{
    let k = choose|k: int| is_first(jobs, k, p);
    assert(is_first(jobs, k, p));
    if k < i {
        assert(!p(jobs[k]));
    } else if k > i {
        assert(!p(jobs[i]));
    }
}

/// With no job satisfying `p`, there is no first one.
pub proof fn lemma_first_none(jobs: Seq<Job>, p: spec_fn(Job) -> bool)
    requires
        forall|k: int| 0 <= k < jobs.len() ==> !p(#[trigger] jobs[k]),
    ensures
        first(jobs, p) is None,
{
    if exists|i: int| is_first(jobs, i, p) {
        let i = choose|i: int| is_first(jobs, i, p);
        assert(p(jobs[i]));
    }
}

/// The table of jobs, one per asset, in the order the assets were given.
#[derive(Debug)]
pub struct Jobs(Vec<Job>);

impl View for Jobs {
    type V = Seq<Job>;

    closed spec fn view(&self) -> Seq<Job> {
        self.0@
    }
}

impl Jobs {
    /// A table with one unassigned, never seen job per asset, in order; the
    /// assets are a set, so no two are equal.
    pub fn from(assets: Vec<Asset>) -> (jobs: Jobs)
        requires
            forall|i: int, j: int| 0 <= i < j < assets@.len() ==> assets@[i] != assets@[j],
        ensures
            distinct_assets(jobs@),
            jobs@.len() == assets@.len(),
            forall|i: int|
                0 <= i < assets@.len() ==> #[trigger] jobs@[i] == (Job {
                    asset: assets@[i],
                    state: State::Unassigned,
                    seen: None,
                }),
    {
        let mut assets = assets;
        let ghost all = assets@;
        let mut rev: Vec<Job> = Vec::new();
        while assets.len() > 0
            invariant
                assets@.len() + rev@.len() == all.len(),
                assets@ == all.take(assets@.len() as int),
                forall|k: int|
                    0 <= k < rev@.len() ==> #[trigger] rev@[k] == (Job {
                        asset: all[all.len() - 1 - k],
                        state: State::Unassigned,
                        seen: None,
                    }),
            decreases assets@.len(),
        {
            let asset = assets.pop().unwrap();
            rev.push(Job { asset, state: State::Unassigned, seen: None });
        }
        let mut jobs: Vec<Job> = Vec::new();
        while rev.len() > 0
            invariant
                rev@.len() + jobs@.len() == all.len(),
                forall|k: int|
                    0 <= k < rev@.len() ==> #[trigger] rev@[k] == (Job {
                        asset: all[all.len() - 1 - k],
                        state: State::Unassigned,
                        seen: None,
                    }),
                forall|k: int|
                    0 <= k < jobs@.len() ==> #[trigger] jobs@[k] == (Job {
                        asset: all[k],
                        state: State::Unassigned,
                        seen: None,
                    }),
            decreases rev@.len(),
        {
            let job = rev.pop().unwrap();
            jobs.push(job);
        }
        Jobs(jobs)
    }

    /// The jobs, in order.
    pub fn as_slice(&self) -> (s: &[Job])
        ensures
            s@ == self@,
    {
        self.0.as_slice()
    }

    /// An iterator over the jobs, in order.
    pub fn iter(&self) -> (it: std::slice::Iter<'_, Job>)
        ensures
            vstd::std_specs::iter::IteratorSpec::remaining(&it).unref() == self@,
    {
        broadcast use vstd::std_specs::slice::axiom_spec_slice_iter;
        let it = self.0.as_slice().iter();
        proof {
            assert(vstd::std_specs::iter::IteratorSpec::remaining(&it).unref() =~= self@);
        }
        it
    }

    /// The number of jobs.
    pub fn len(&self) -> (n: usize)
        ensures
            n == self@.len(),
    {
        self.0.len()
    }

    /// The first job whose state is `target`.
    fn position(&self, target: State) -> (r: Option<usize>)
        ensures
            match r {
                Some(i) => first(self@, state_is(target)) == Some(i as int),
                None => first(self@, state_is(target)) is None,
            },
    {
        let mut i: usize = 0;
        while i < self.0.len()
            invariant
                i <= self.0@.len(),
                forall|k: int| 0 <= k < i ==> !state_is(target)(#[trigger] self.0@[k]),
            decreases self.0@.len() - i,
        {
            if self.0[i].state == target {
                proof {
                    lemma_first_at(self.0@, state_is(target), i as int);
                }
                return Some(i);
            }
            i += 1;
        }
        proof {
            lemma_first_none(self.0@, state_is(target));
        }
        None
    }

    /// The first job that may be handed out at `now`.
    fn position_claimable(&self, now: i128) -> (r: Option<usize>)
        ensures
            match r {
                Some(i) => first(self@, claimable(now)) == Some(i as int),
                None => first(self@, claimable(now)) is None,
            },
    {
        let mut i: usize = 0;
        while i < self.0.len()
            invariant
                i <= self.0@.len(),
                forall|k: int| 0 <= k < i ==> !claimable(now)(#[trigger] self.0@[k]),
            decreases self.0@.len() - i,
        {
            let take = match self.0[i].state {
                State::Unassigned => true,
                State::Assigned(..) | State::Downloading(..) => self.0[i].elapsed(now)
                    > TIMEOUT_NANOS,
                _ => false,
            };
            if take {
                proof {
                    lemma_first_at(self.0@, claimable(now), i as int);
                }
                return Some(i);
            }
            i += 1;
        }
        proof {
            lemma_first_none(self.0@, claimable(now));
        }
        None
    }

    /// The first job that `ip` can close.
    fn position_closable(&self, ip: Ip) -> (r: Option<usize>)
        ensures
            match r {
                Some(i) => first(self@, closable_by(ip)) == Some(i as int),
                None => first(self@, closable_by(ip)) is None,
            },
    {
        let mut i: usize = 0;
        while i < self.0.len()
            invariant
                i <= self.0@.len(),
                forall|k: int| 0 <= k < i ==> !closable_by(ip)(#[trigger] self.0@[k]),
            decreases self.0@.len() - i,
        {
            let s = self.0[i].state;
            if s == State::Assigned(ip) || s == State::Booting(ip) || s == State::Reported(ip) {
                proof {
                    lemma_first_at(self.0@, closable_by(ip), i as int);
                }
                return Some(i);
            }
            i += 1;
        }
        proof {
            lemma_first_none(self.0@, closable_by(ip));
        }
        None
    }

    /// Hands machine `ip` a job at clock reading `now`: the job already
    /// assigned to it if there is one, else the first job nobody holds or
    /// whose holder went silent past the timeout. The job becomes assigned
    /// to `ip`, seen at `now`, and its asset comes back; `None` when no job
    /// is available.
    pub fn assign_at(&mut self, ip: Ip, now: i128) -> (r: Option<Asset>)
        ensures
            final(self)@ == after_assign(old(self)@, ip, now),
            r == assigned_asset(old(self)@, ip, now),
            crate::laws::hands_out(old(self)@, ip, now, final(self)@, r),
    {
        proof {
            crate::laws::law_assign_hands_out(self@, ip, now);
        }
        let at = match self.position(State::Assigned(ip)) {
            Some(i) => Some(i),
            None => self.position_claimable(now),
        };
        match at {
            Some(i) => {
                self.touch(i, State::Assigned(ip), now);
                Some(self.0[i].asset.clone())
            },
            None => None,
        }
    }

    /// `assign_at` at the current clock reading.
    pub fn assign(&mut self, ip: Ip) -> (r: Option<Asset>)
        ensures
            exists|now: i128|
                -MAX_DURATION_NANOS <= now <= MAX_DURATION_NANOS && final(self)@ == after_assign(
                    old(self)@,
                    ip,
                    now,
                ) && r == assigned_asset(old(self)@, ip, now) && crate::laws::hands_out(
                    old(self)@,
                    ip,
                    now,
                    final(self)@,
                    r,
                ),
    {
        let now = now_nanos();
        self.assign_at(ip, now)
    }

    /// Machine `ip` starts downloading: its first assigned job becomes
    /// downloading, seen at `now`, and its asset comes back; `None`, and no
    /// change, when no job is assigned to `ip`.
    pub fn downloading_at(&mut self, ip: Ip, now: i128) -> (r: Option<&Asset>)
        ensures
            final(self)@ == after_downloading(old(self)@, ip, now),
            match first(old(self)@, state_is(State::Assigned(ip))) {
                Some(i) => r == Some(&old(self)@[i].asset),
                None => r is None,
            },
    {
        match self.position(State::Assigned(ip)) {
            Some(i) => {
                self.touch(i, State::Downloading(ip), now);
                Some(&self.0[i].asset)
            },
            None => None,
        }
    }

    /// `downloading_at` at the current clock reading.
    pub fn downloading(&mut self, ip: Ip) -> (r: Option<&Asset>)
        ensures
            exists|now: i128|
                -MAX_DURATION_NANOS <= now <= MAX_DURATION_NANOS && final(self)@ == after_downloading(
                    old(self)@,
                    ip,
                    now,
                ),
            match first(old(self)@, state_is(State::Assigned(ip))) {
                Some(i) => r == Some(&old(self)@[i].asset),
                None => r is None,
            },
    {
        let now = now_nanos();
        self.downloading_at(ip, now)
    }

    /// Machine `ip` signals that it boots: its first downloading job becomes
    /// booting, seen at `now`. `false`, and no change, when `ip` downloads
    /// nothing.
    pub fn booting_at(&mut self, ip: Ip, now: i128) -> (r: bool)
        ensures
            final(self)@ == after_booting(old(self)@, ip, now),
            r == first(old(self)@, state_is(State::Downloading(ip))) is Some,
    {
        match self.position(State::Downloading(ip)) {
            Some(i) => {
                self.touch(i, State::Booting(ip), now);
                true
            },
            None => false,
        }
    }

    /// `booting_at` at the current clock reading.
    pub fn booting(&mut self, ip: Ip) -> (r: bool)
        ensures
            exists|now: i128|
                -MAX_DURATION_NANOS <= now <= MAX_DURATION_NANOS && final(self)@ == after_booting(
                    old(self)@,
                    ip,
                    now,
                ),
            r == first(old(self)@, state_is(State::Downloading(ip))) is Some,
    {
        let now = now_nanos();
        self.booting_at(ip, now)
    }

    /// Machine `ip` reports: its first booting job becomes reported, seen at
    /// `now`. `false`, and no change, when nothing boots on `ip`.
    pub fn report_at(&mut self, ip: Ip, now: i128) -> (r: bool)
        ensures
            final(self)@ == after_report(old(self)@, ip, now),
            r == first(old(self)@, state_is(State::Booting(ip))) is Some,
    {
        match self.position(State::Booting(ip)) {
            Some(i) => {
                self.touch(i, State::Reported(ip), now);
                true
            },
            None => false,
        }
    }

    /// `report_at` at the current clock reading.
    pub fn report(&mut self, ip: Ip) -> (r: bool)
        ensures
            exists|now: i128|
                -MAX_DURATION_NANOS <= now <= MAX_DURATION_NANOS && final(self)@ == after_report(
                    old(self)@,
                    ip,
                    now,
                ),
            r == first(old(self)@, state_is(State::Booting(ip))) is Some,
    {
        let now = now_nanos();
        self.report_at(ip, now)
    }

    /// Machine `ip` closes its first job that is assigned, booting or
    /// reported: a reported job finishes, the others fail; seen at `now`.
    /// `false`, and no change, when `ip` holds no such job.
    pub fn finish_at(&mut self, ip: Ip, now: i128) -> (r: bool)
        ensures
            final(self)@ == after_finish(old(self)@, ip, now),
            r == first(old(self)@, closable_by(ip)) is Some,
    {
        match self.position_closable(ip) {
            Some(i) => {
                let next = if self.0[i].state == State::Reported(ip) {
                    State::Finished(ip)
                } else {
                    State::Failed(ip)
                };
                self.touch(i, next, now);
                true
            },
            None => false,
        }
    }

    /// `finish_at` at the current clock reading.
    pub fn finish(&mut self, ip: Ip) -> (r: bool)
        ensures
            exists|now: i128|
                -MAX_DURATION_NANOS <= now <= MAX_DURATION_NANOS && final(self)@ == after_finish(
                    old(self)@,
                    ip,
                    now,
                ),
            r == first(old(self)@, closable_by(ip)) is Some,
    {
        let now = now_nanos();
        self.finish_at(ip, now)
    }

    /// Moves job `i` to `state`, seen at `now`.
    fn touch(&mut self, i: usize, state: State, now: i128)
        requires
            i < old(self)@.len(),
        ensures
            final(self)@ == old(self)@.update(i as int, touched(old(self)@[i as int], state, now)),
    {
        self.0[i].state = state;
        self.0[i].seen = Some(now);
    }
}

} // verus!
