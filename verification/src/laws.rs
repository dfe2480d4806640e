use vstd::prelude::*;

use crate::jobs::{
    after_assign, after_booting, after_downloading, after_finish, after_report, assign_target,
    assigned_asset, claimable, closable_by, Asset, distinct_assets, first, moved, is_first, lemma_first_at, state_is, touched, Job,
    State,
};
use crate::clock::{elapsed_spec, TIMEOUT_NANOS};
use crate::net::Ip;

verus! {

/// Some job satisfies `p` exactly when there is a first one, and the first
/// one is the first.
pub proof fn lemma_first_spec(jobs: Seq<Job>, p: spec_fn(Job) -> bool)
    ensures
        match first(jobs, p) {
            Some(i) => is_first(jobs, i, p),
            None => forall|k: int| 0 <= k < jobs.len() ==> !p(#[trigger] jobs[k]),
        },
{
    if exists|i: int| is_first(jobs, i, p) {
        let i = choose|i: int| is_first(jobs, i, p);
        assert(is_first(jobs, i, p));
    } else {
        assert forall|k: int| 0 <= k < jobs.len() implies !p(#[trigger] jobs[k]) by {
            if p(jobs[k]) {
                lemma_some_first(jobs, p, k);
            }
        }
    }
}

proof fn lemma_some_first(jobs: Seq<Job>, p: spec_fn(Job) -> bool, k: int)
    requires
        0 <= k < jobs.len(),
        p(jobs[k]),
    ensures
        exists|i: int| is_first(jobs, i, p),
    decreases k,
{
    if forall|j: int| 0 <= j < k ==> !p(#[trigger] jobs[j]) {
        assert(is_first(jobs, k, p));
    } else {
        let j = choose|j: int| 0 <= j < k && p(#[trigger] jobs[j]);
        lemma_some_first(jobs, p, j);
    }
}

/// `after` is `before` with at most the job at `at` changed, and that one
/// keeping its asset.
pub open spec fn changes_only(before: Seq<Job>, after: Seq<Job>, at: Option<int>) -> bool {
    &&& after.len() == before.len()
    &&& forall|k: int| 0 <= k < before.len() ==> (#[trigger] after[k]).asset == before[k].asset
    &&& forall|k: int|
        0 <= k < before.len() && at != Some(k) ==> #[trigger] after[k] == before[k]
}

/// The job is finished or failed.
pub open spec fn is_closed(job: Job) -> bool {
    job.state is Finished || job.state is Failed
}

/// Every operation keeps the table's assets in their order and changes at
/// most one job: the one it picks.
pub proof fn law_one_job_moves(jobs: Seq<Job>, ip: Ip, now: i128)
    ensures
        changes_only(jobs, after_assign(jobs, ip, now), assign_target(jobs, ip, now)),
        changes_only(
            jobs,
            after_downloading(jobs, ip, now),
            first(jobs, state_is(State::Assigned(ip))),
        ),
        changes_only(
            jobs,
            after_booting(jobs, ip, now),
            first(jobs, state_is(State::Downloading(ip))),
        ),
        changes_only(jobs, after_report(jobs, ip, now), first(jobs, state_is(State::Booting(ip)))),
        changes_only(jobs, after_finish(jobs, ip, now), first(jobs, closable_by(ip))),
{
    lemma_first_spec(jobs, state_is(State::Assigned(ip)));
    lemma_first_spec(jobs, state_is(State::Downloading(ip)));
    lemma_first_spec(jobs, state_is(State::Booting(ip)));
    lemma_first_spec(jobs, closable_by(ip));
    lemma_first_spec(jobs, claimable(now));
}

/// Finished and failed jobs are final: no operation changes them.
pub proof fn law_closed_jobs_stay(jobs: Seq<Job>, ip: Ip, now: i128, k: int)
    requires
        0 <= k < jobs.len(),
        is_closed(jobs[k]),
    ensures
        after_assign(jobs, ip, now)[k] == jobs[k],
        after_downloading(jobs, ip, now)[k] == jobs[k],
        after_booting(jobs, ip, now)[k] == jobs[k],
        after_report(jobs, ip, now)[k] == jobs[k],
        after_finish(jobs, ip, now)[k] == jobs[k],
{
    law_one_job_moves(jobs, ip, now);
    lemma_first_spec(jobs, state_is(State::Assigned(ip)));
    lemma_first_spec(jobs, state_is(State::Downloading(ip)));
    lemma_first_spec(jobs, state_is(State::Booting(ip)));
    lemma_first_spec(jobs, closable_by(ip));
    lemma_first_spec(jobs, claimable(now));
}

/// A machine that asks again gets the same job and asset back, whenever it
/// asks: asking is idempotent but for the time last seen.
pub proof fn law_assign_again(jobs: Seq<Job>, ip: Ip, now: i128, later: i128)
    requires
        assign_target(jobs, ip, now) is Some,
    ensures
        assign_target(after_assign(jobs, ip, now), ip, later) == assign_target(jobs, ip, now),
        assigned_asset(after_assign(jobs, ip, now), ip, later) == assigned_asset(jobs, ip, now),
        after_assign(after_assign(jobs, ip, now), ip, later) == jobs.update(
            assign_target(jobs, ip, now)->0,
            touched(jobs[assign_target(jobs, ip, now)->0], State::Assigned(ip), later),
        ),
{
    let i = assign_target(jobs, ip, now)->0;
    let a = after_assign(jobs, ip, now);
    lemma_first_spec(jobs, state_is(State::Assigned(ip)));
    lemma_first_spec(jobs, claimable(now));
    law_one_job_moves(jobs, ip, now);
    assert(is_first(a, i, state_is(State::Assigned(ip)))) by {
        assert(a[i].state == State::Assigned(ip));
        assert forall|k: int| 0 <= k < i implies !state_is(State::Assigned(ip))(#[trigger] a[k]) by {
            assert(a[k] == jobs[k]);
            if first(jobs, state_is(State::Assigned(ip))) is None {
            } else {
                assert(first(jobs, state_is(State::Assigned(ip))) == Some(i));
            }
        }
    }
    lemma_first_at(a, state_is(State::Assigned(ip)), i);
    assert(after_assign(a, ip, later) =~= jobs.update(
        i,
        touched(jobs[i], State::Assigned(ip), later),
    ));
}

/// Downloading picks the very job that the machine was just handed.
pub proof fn law_download_takes_assigned(jobs: Seq<Job>, ip: Ip, now: i128)
    requires
        assign_target(jobs, ip, now) is Some,
    ensures
        first(after_assign(jobs, ip, now), state_is(State::Assigned(ip))) == assign_target(
            jobs,
            ip,
            now,
        ),
{
    law_assign_again(jobs, ip, now, now);
}

/// A machine that holds no job downloading, booting or reported, and is
/// handed a job, sees every step of the cycle accepted (download, boot beacon,
/// report, finish), and the job it was handed ends finished by it, with the
/// same asset.
pub proof fn law_full_cycle(jobs: Seq<Job>, ip: Ip, t1: i128, t2: i128, t3: i128, t4: i128, t5: i128)
    requires
        assign_target(jobs, ip, t1) is Some,
        forall|k: int|
            0 <= k < jobs.len() ==> (#[trigger] jobs[k]).state != State::Downloading(ip)
                && jobs[k].state != State::Booting(ip) && jobs[k].state != State::Reported(ip),
    ensures
        ({
            let i = assign_target(jobs, ip, t1)->0;
            let s1 = after_assign(jobs, ip, t1);
            let s2 = after_downloading(s1, ip, t2);
            let s3 = after_booting(s2, ip, t3);
            let s4 = after_report(s3, ip, t4);
            let s5 = after_finish(s4, ip, t5);
            &&& first(s1, state_is(State::Assigned(ip))) == Some(i)
            &&& first(s2, state_is(State::Downloading(ip))) == Some(i)
            &&& first(s3, state_is(State::Booting(ip))) == Some(i)
            &&& first(s4, closable_by(ip)) == Some(i)
            &&& s5[i] == (Job { asset: jobs[i].asset, state: State::Finished(ip), seen: Some(t5) })
        }),
{
    let i = assign_target(jobs, ip, t1)->0;
    let s1 = after_assign(jobs, ip, t1);
    let s2 = after_downloading(s1, ip, t2);
    let s3 = after_booting(s2, ip, t3);
    let s4 = after_report(s3, ip, t4);
    law_download_takes_assigned(jobs, ip, t1);
    law_one_job_moves(jobs, ip, t1);
    lemma_first_spec(jobs, state_is(State::Assigned(ip)));
    // Before `i`, no job is assigned to `ip` either.
    assert forall|k: int| 0 <= k < i implies (#[trigger] jobs[k]).state != State::Assigned(ip) by {
        if first(jobs, state_is(State::Assigned(ip))) is Some {
            assert(first(jobs, state_is(State::Assigned(ip))) == Some(i));
        }
    }
    assert(s2 =~= s1.update(i, touched(s1[i], State::Downloading(ip), t2)));
    assert(is_first(s2, i, state_is(State::Downloading(ip)))) by {
        assert forall|k: int| 0 <= k < i implies !state_is(State::Downloading(ip))(
            #[trigger] s2[k],
        ) by {
            assert(s2[k] == jobs[k]);
        }
    }
    lemma_first_at(s2, state_is(State::Downloading(ip)), i);
    assert(s3 =~= s2.update(i, touched(s2[i], State::Booting(ip), t3)));
    assert(is_first(s3, i, state_is(State::Booting(ip)))) by {
        assert forall|k: int| 0 <= k < i implies !state_is(State::Booting(ip))(#[trigger] s3[k]) by {
            assert(s3[k] == jobs[k]);
        }
    }
    lemma_first_at(s3, state_is(State::Booting(ip)), i);
    assert(s4 =~= s3.update(i, touched(s3[i], State::Reported(ip), t4)));
    assert(is_first(s4, i, closable_by(ip))) by {
        assert forall|k: int| 0 <= k < i implies !closable_by(ip)(#[trigger] s4[k]) by {
            assert(s4[k] == jobs[k]);
        }
    }
    lemma_first_at(s4, closable_by(ip), i);
}

/// A request that is refused (no job, or `false`) leaves the table as it was.
pub proof fn law_refusal_changes_nothing(jobs: Seq<Job>, ip: Ip, now: i128)
    ensures
        assigned_asset(jobs, ip, now) is None ==> after_assign(jobs, ip, now) == jobs,
        first(jobs, state_is(State::Assigned(ip))) is None ==> after_downloading(jobs, ip, now)
            == jobs,
        first(jobs, state_is(State::Downloading(ip))) is None ==> after_booting(jobs, ip, now)
            == jobs,
        first(jobs, state_is(State::Booting(ip))) is None ==> after_report(jobs, ip, now) == jobs,
        first(jobs, closable_by(ip)) is None ==> after_finish(jobs, ip, now) == jobs,
{
}

/// A machine is handed only a job that it holds already, that nobody holds,
/// or whose holder went silent past the timeout while it was assigned or
/// downloading; a job that boots or was reported is never handed out again.
pub proof fn law_assign_takes_free_or_expired(jobs: Seq<Job>, ip: Ip, now: i128)
    ensures
        match assign_target(jobs, ip, now) {
            Some(i) => 0 <= i < jobs.len() && (jobs[i].state == State::Assigned(ip) || claimable(
                now,
            )(jobs[i])),
            None => forall|k: int|
                0 <= k < jobs.len() ==> (#[trigger] jobs[k]).state != State::Assigned(ip)
                    && !claimable(now)(jobs[k]),
        },
{
    lemma_first_spec(jobs, state_is(State::Assigned(ip)));
    lemma_first_spec(jobs, claimable(now));
}

/// No operation makes two jobs share an asset: the assets stay a set.
pub proof fn law_assets_stay_distinct(jobs: Seq<Job>, ip: Ip, now: i128)
    requires
        distinct_assets(jobs),
    ensures
        distinct_assets(after_assign(jobs, ip, now)),
        distinct_assets(after_downloading(jobs, ip, now)),
        distinct_assets(after_booting(jobs, ip, now)),
        distinct_assets(after_report(jobs, ip, now)),
        distinct_assets(after_finish(jobs, ip, now)),
{
    law_one_job_moves(jobs, ip, now);
}

/// One operation on the table, by the machine it names.
#[derive(Debug, Clone, Copy, PartialEq, Eq, Structural)]
pub enum Op {
    Assign(Ip),
    Downloading(Ip),
    Booting(Ip),
    Report(Ip),
    Finish(Ip),
}

/// The table after operation `op` at clock reading `now`: what
/// `Jobs::assign_at`, `downloading_at`, `booting_at`, `report_at` and
/// `finish_at` make of it.
pub open spec fn apply(jobs: Seq<Job>, op: Op, now: i128) -> Seq<Job> {
    match op {
        Op::Assign(ip) => after_assign(jobs, ip, now),
        Op::Downloading(ip) => after_downloading(jobs, ip, now),
        Op::Booting(ip) => after_booting(jobs, ip, now),
        Op::Report(ip) => after_report(jobs, ip, now),
        Op::Finish(ip) => after_finish(jobs, ip, now),
    }
}

/// The table after the operations `ops`, each with its clock reading, in
/// order.
pub open spec fn run(jobs: Seq<Job>, ops: Seq<(Op, i128)>) -> Seq<Job>
    decreases ops.len(),
{
    if ops.len() == 0 {
        jobs
    } else {
        run(apply(jobs, ops[0].0, ops[0].1), ops.drop_first())
    }
}

/// Over any sequence of operations, at any clock readings, the table keeps
/// its length and its assets in order, the assets stay a set, and a finished
/// or failed job keeps its state and its time last seen: it is never handed
/// out, downloaded, booted, reported or closed again.
pub proof fn law_closed_jobs_stay_closed(jobs: Seq<Job>, ops: Seq<(Op, i128)>, k: int)
    requires
        0 <= k < jobs.len(),
        is_closed(jobs[k]),
    ensures
        run(jobs, ops).len() == jobs.len(),
        run(jobs, ops)[k] == jobs[k],
        forall|m: int| 0 <= m < jobs.len() ==> (#[trigger] run(jobs, ops)[m]).asset == jobs[m].asset,
        distinct_assets(jobs) ==> distinct_assets(run(jobs, ops)),
    decreases ops.len(),
{
    if ops.len() > 0 {
        let (op, now) = ops[0];
        let next = apply(jobs, op, now);
        let ip = match op {
            Op::Assign(ip) => ip,
            Op::Downloading(ip) => ip,
            Op::Booting(ip) => ip,
            Op::Report(ip) => ip,
            Op::Finish(ip) => ip,
        };
        law_closed_jobs_stay(jobs, ip, now, k);
        law_one_job_moves(jobs, ip, now);
        if distinct_assets(jobs) {
            law_assets_stay_distinct(jobs, ip, now);
        }
        assert(next.len() == jobs.len());
        assert(next[k] == jobs[k]);
        law_closed_jobs_stay_closed(next, ops.drop_first(), k);
        assert forall|m: int| 0 <= m < jobs.len() implies (#[trigger] run(jobs, ops)[m]).asset
            == jobs[m].asset by {
            assert(run(next, ops.drop_first())[m].asset == next[m].asset);
            assert(next[m].asset == jobs[m].asset);
        }
    }
}

/// No machine has two jobs assigned to it.
pub open spec fn one_assignment_per_machine(jobs: Seq<Job>) -> bool {
    forall|i: int, j: int|
        0 <= i < j < jobs.len() && (#[trigger] jobs[i]).state is Assigned ==> jobs[i].state
            != (#[trigger] jobs[j]).state
}

/// Moving the job at `at` to a state other than assigned keeps every
/// machine at one assigned job at most.
proof fn lemma_move_out_of_assigned(jobs: Seq<Job>, at: Option<int>, state: State, now: i128)
    requires
        one_assignment_per_machine(jobs),
        !(state is Assigned),
        at matches Some(k) ==> 0 <= k < jobs.len(),
    ensures
        one_assignment_per_machine(moved(jobs, at, state, now)),
{
    let a = moved(jobs, at, state, now);
    assert forall|i: int, j: int|
        0 <= i < j < a.len() && (#[trigger] a[i]).state is Assigned implies a[i].state != (
        #[trigger] a[j]).state by {
        if at == Some(i) || at == Some(j) {
        } else {
            assert(a[i] == jobs[i] && a[j] == jobs[j]);
        }
    }
}

/// Every operation keeps each machine at one assigned job at most: the job a
/// machine is handed is its only one.
pub proof fn law_one_assignment_per_machine(jobs: Seq<Job>, ip: Ip, now: i128)
    requires
        one_assignment_per_machine(jobs),
    ensures
        one_assignment_per_machine(after_assign(jobs, ip, now)),
        one_assignment_per_machine(after_downloading(jobs, ip, now)),
        one_assignment_per_machine(after_booting(jobs, ip, now)),
        one_assignment_per_machine(after_report(jobs, ip, now)),
        one_assignment_per_machine(after_finish(jobs, ip, now)),
{
    lemma_first_spec(jobs, state_is(State::Assigned(ip)));
    lemma_first_spec(jobs, state_is(State::Downloading(ip)));
    lemma_first_spec(jobs, state_is(State::Booting(ip)));
    lemma_first_spec(jobs, closable_by(ip));
    lemma_first_spec(jobs, claimable(now));
    lemma_move_out_of_assigned(
        jobs,
        first(jobs, state_is(State::Assigned(ip))),
        State::Downloading(ip),
        now,
    );
    lemma_move_out_of_assigned(
        jobs,
        first(jobs, state_is(State::Downloading(ip))),
        State::Booting(ip),
        now,
    );
    lemma_move_out_of_assigned(jobs, first(jobs, state_is(State::Booting(ip))), State::Reported(ip), now);
    // Closing moves to finished or failed.
    let f = after_finish(jobs, ip, now);
    assert forall|i: int, j: int|
        0 <= i < j < f.len() && (#[trigger] f[i]).state is Assigned implies f[i].state != (
        #[trigger] f[j]).state by {
        let c = first(jobs, closable_by(ip));
        if c == Some(i) || c == Some(j) {
        } else {
            assert(f[i] == jobs[i] && f[j] == jobs[j]);
        }
    }
    // Assigning moves to `ip`'s own job, or to one when `ip` had none.
    let a = after_assign(jobs, ip, now);
    assert forall|i: int, j: int|
        0 <= i < j < a.len() && (#[trigger] a[i]).state is Assigned implies a[i].state != (
        #[trigger] a[j]).state by {
        let t = assign_target(jobs, ip, now);
        if t == Some(i) {
            assert(a[i].state == State::Assigned(ip));
            if a[j].state == State::Assigned(ip) {
                assert(a[j] == jobs[j]);
                if first(jobs, state_is(State::Assigned(ip))) is Some {
                    assert(jobs[i].state == State::Assigned(ip));
                } else {
                    assert(!state_is(State::Assigned(ip))(jobs[j]));
                }
            }
        } else if t == Some(j) {
            assert(a[j].state == State::Assigned(ip));
            if a[i].state == State::Assigned(ip) {
                assert(a[i] == jobs[i]);
                if first(jobs, state_is(State::Assigned(ip))) is Some {
                    assert(jobs[j].state == State::Assigned(ip));
                } else {
                    assert(!state_is(State::Assigned(ip))(jobs[i]));
                }
            }
        } else {
            assert(a[i] == jobs[i] && a[j] == jobs[j]);
        }
    }
}

/// A table where nothing is assigned yet, such as a fresh one, has no
/// machine with two assigned jobs.
pub proof fn law_fresh_table_assigns_nothing(jobs: Seq<Job>)
    requires
        forall|k: int| 0 <= k < jobs.len() ==> (#[trigger] jobs[k]).state is Unassigned,
    ensures
        one_assignment_per_machine(jobs),
{
}

/// Over any sequence of operations, at any clock readings, no machine ever
/// holds two assigned jobs.
pub proof fn law_one_assignment_over_runs(jobs: Seq<Job>, ops: Seq<(Op, i128)>)
    requires
        one_assignment_per_machine(jobs),
    ensures
        one_assignment_per_machine(run(jobs, ops)),
    decreases ops.len(),
{
    if ops.len() > 0 {
        let (op, now) = ops[0];
        let ip = match op {
            Op::Assign(ip) => ip,
            Op::Downloading(ip) => ip,
            Op::Booting(ip) => ip,
            Op::Report(ip) => ip,
            Op::Finish(ip) => ip,
        };
        law_one_assignment_per_machine(jobs, ip, now);
        law_one_assignment_over_runs(apply(jobs, op, now), ops.drop_first());
    }
}

/// The job may be handed to another machine at clock reading `now`: nobody
/// holds it, or it is assigned or downloading and its machine has not been
/// heard from for more than the timeout (a job never seen counts from the
/// epoch). A job that boots, was reported, finished or failed never is.
pub open spec fn free_to_hand_out(job: Job, now: i128) -> bool {
    let last: int = match job.seen {
        Some(t) => t as int,
        None => 0,
    };
    job.state == State::Unassigned || ((job.state is Assigned || job.state is Downloading) && now
        - last > TIMEOUT_NANOS)
}

/// Job `i` is the one that machine `ip` is handed at `now`: its own assigned
/// job, the first one, when it has one; else the first job free to hand out.
pub open spec fn handed_job(jobs: Seq<Job>, ip: Ip, now: i128, i: int) -> bool {
    &&& 0 <= i < jobs.len()
    &&& if exists|k: int| 0 <= k < jobs.len() && (#[trigger] jobs[k]).state == State::Assigned(ip) {
        &&& jobs[i].state == State::Assigned(ip)
        &&& forall|k: int| 0 <= k < i ==> (#[trigger] jobs[k]).state != State::Assigned(ip)
    } else {
        &&& free_to_hand_out(jobs[i], now)
        &&& forall|k: int| 0 <= k < i ==> !free_to_hand_out(#[trigger] jobs[k], now)
    }
}

/// Asking for a job at `now` turned table `jobs` into `after` and answered
/// `r`: the handed job (see `handed_job`) became assigned to `ip`, seen at
/// `now`, all else unchanged, and its asset came back; or, when `ip` holds
/// no assigned job and none is free to hand out, nothing changed and
/// nothing came back.
pub open spec fn hands_out(jobs: Seq<Job>, ip: Ip, now: i128, after: Seq<Job>, r: Option<Asset>) -> bool {
    match r {
        Some(a) => exists|i: int|
            #![trigger jobs[i]]
            handed_job(jobs, ip, now, i) && a == jobs[i].asset && after == jobs.update(
                i,
                Job { asset: jobs[i].asset, state: State::Assigned(ip), seen: Some(now) },
            ),
        None => after == jobs && forall|k: int|
            0 <= k < jobs.len() ==> (#[trigger] jobs[k]).state != State::Assigned(ip)
                && !free_to_hand_out(jobs[k], now),
    }
}

/// What asking for a job does, on the jobs' states and times: a machine gets
/// its own assigned job back, else the first job nobody holds or whose
/// assigned or downloading machine went silent past the timeout, else
/// nothing; the job it gets becomes assigned to it and stamped `now`. So a
/// booting, reported, finished or failed job is never handed out.
pub proof fn law_assign_hands_out(jobs: Seq<Job>, ip: Ip, now: i128)
    ensures
        hands_out(jobs, ip, now, after_assign(jobs, ip, now), assigned_asset(jobs, ip, now)),
        match assign_target(jobs, ip, now) {
            Some(i) => 0 <= i < jobs.len() && !(jobs[i].state is Booting) && !(
            jobs[i].state is Reported) && !(jobs[i].state is Finished) && !(
            jobs[i].state is Failed),
            None => true,
        },
{
    lemma_first_spec(jobs, state_is(State::Assigned(ip)));
    lemma_first_spec(jobs, claimable(now));
    assert forall|j: Job| #[trigger] claimable(now)(j) == free_to_hand_out(j, now) by {
        let last: int = match j.seen {
            Some(t) => t as int,
            None => 0,
        };
        assert(elapsed_spec(j.seen, now) > TIMEOUT_NANOS <==> now - last > TIMEOUT_NANOS);
    }
    match assign_target(jobs, ip, now) {
        Some(i) => {
            if first(jobs, state_is(State::Assigned(ip))) is None {
                assert(!exists|k: int|
                    0 <= k < jobs.len() && (#[trigger] jobs[k]).state == State::Assigned(ip)) by {
                    assert forall|k: int| 0 <= k < jobs.len() implies (#[trigger] jobs[k]).state
                        != State::Assigned(ip) by {
                        assert(!state_is(State::Assigned(ip))(jobs[k]));
                    }
                }
                assert forall|k: int| 0 <= k < i implies !free_to_hand_out(#[trigger] jobs[k], now) by {
                    assert(!claimable(now)(jobs[k]));
                }
            } else {
                assert(jobs[i].state == State::Assigned(ip));
                assert forall|k: int| 0 <= k < i implies (#[trigger] jobs[k]).state
                    != State::Assigned(ip) by {
                    assert(!state_is(State::Assigned(ip))(jobs[k]));
                }
            }
            assert(handed_job(jobs, ip, now, i));
        },
        None => {
            assert forall|k: int| 0 <= k < jobs.len() implies (#[trigger] jobs[k]).state
                != State::Assigned(ip) && !free_to_hand_out(jobs[k], now) by {
                assert(!state_is(State::Assigned(ip))(jobs[k]));
                assert(!claimable(now)(jobs[k]));
            }
        },
    }
}

} // verus!
