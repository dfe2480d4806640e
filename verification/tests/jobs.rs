use dispatch::clock::TIMEOUT_NANOS;
use dispatch::jobs::{Asset, Job, Jobs, State};
use dispatch::net::Ip;

fn asset(id: u64, name: &str) -> Asset {
    Asset {
        id,
        name: name.to_string(),
        size: 1000 + id,
        url: format!("https://example.com/{name}"),
        content_type: "application/efi".to_string(),
    }
}

fn table(n: u64) -> Jobs {
    Jobs::from((0..n).map(|i| asset(i, &format!("img{i}"))).collect())
}

fn states(jobs: &Jobs) -> Vec<State> {
    jobs.iter().map(|j| j.state).collect()
}

const A: Ip = Ip::V4(0x0a00_0001);
const B: Ip = Ip::V4(0x0a00_0002);
const C: Ip = Ip::V6(1);

#[test]
fn new_table_is_unassigned_in_order() {
    let jobs = table(3);
    assert_eq!(jobs.len(), 3);
    let names: Vec<&str> = jobs.iter().map(|j| j.asset.name.as_str()).collect();
    assert_eq!(names, vec!["img0", "img1", "img2"]);
    assert!(jobs.iter().all(|j| j.state == State::Unassigned && j.seen.is_none()));
}

#[test]
fn assign_hands_out_jobs_in_order() {
    let mut jobs = table(2);
    assert_eq!(jobs.assign_at(A, 10).map(|a| a.id), Some(0));
    assert_eq!(jobs.assign_at(B, 11).map(|a| a.id), Some(1));
    assert_eq!(jobs.assign_at(C, 12).map(|a| a.id), None);
    assert_eq!(states(&jobs), vec![State::Assigned(A), State::Assigned(B)]);
    assert_eq!(jobs.as_slice()[0].seen, Some(10));
    assert_eq!(jobs.as_slice()[1].seen, Some(11));
}

#[test]
fn assign_again_returns_same_job() {
    let mut jobs = table(3);
    let first = jobs.assign_at(A, 10).unwrap();
    let again = jobs.assign_at(A, 20).unwrap();
    assert_eq!(first.id, again.id);
    assert_eq!(first.name, again.name);
    assert_eq!(states(&jobs), vec![State::Assigned(A), State::Unassigned, State::Unassigned]);
    assert_eq!(jobs.as_slice()[0].seen, Some(20));
}

#[test]
fn expired_jobs_are_taken_over() {
    let mut jobs = table(1);
    jobs.assign_at(A, 1_000).unwrap();
    // Within the timeout the job stays with A.
    assert!(jobs.assign_at(B, 1_000 + (TIMEOUT_NANOS as i128)).is_none());
    // Past it, B takes it.
    assert_eq!(jobs.assign_at(B, 1_001 + (TIMEOUT_NANOS as i128)).map(|a| a.id), Some(0));
    assert_eq!(states(&jobs), vec![State::Assigned(B)]);
}

#[test]
fn expired_download_is_taken_over_but_booting_is_not() {
    let mut jobs = table(2);
    jobs.assign_at(A, 0).unwrap();
    jobs.downloading_at(A, 0).unwrap();
    jobs.assign_at(B, 0).unwrap();
    jobs.downloading_at(B, 0).unwrap();
    assert!(jobs.booting_at(B, 0));
    let late = 1 + (TIMEOUT_NANOS as i128);
    assert_eq!(jobs.assign_at(C, late).map(|a| a.id), Some(0));
    assert!(jobs.assign_at(Ip::V6(2), late + 1).is_none());
    assert_eq!(states(&jobs), vec![State::Assigned(C), State::Booting(B)]);
}

#[test]
fn clock_before_seen_counts_as_no_time() {
    let job = Job { asset: asset(0, "x"), state: State::Assigned(A), seen: Some(50) };
    assert_eq!(job.elapsed(40), 0);
    assert_eq!(job.elapsed(75), 25);
    let never = Job { asset: asset(0, "x"), state: State::Unassigned, seen: None };
    assert_eq!(never.elapsed(75), 75);
    // Times before the epoch are negative and count as usual.
    let early = Job { asset: asset(0, "x"), state: State::Assigned(A), seen: Some(-1_000) };
    assert_eq!(early.elapsed(-400), 600);
    assert_eq!(early.elapsed(500), 1_500);
    assert_eq!(never.elapsed(-5), 0);
    let far = Job { asset: asset(0, "x"), state: State::Assigned(A), seen: Some(i128::MIN) };
    assert_eq!(far.elapsed(i128::MAX), u128::MAX);
}

#[test]
fn jobs_expire_before_the_epoch_too() {
    let mut jobs = table(1);
    let start: i128 = -10 * (TIMEOUT_NANOS as i128);
    jobs.assign_at(A, start).unwrap();
    assert!(jobs.assign_at(B, start + (TIMEOUT_NANOS as i128)).is_none());
    assert_eq!(jobs.assign_at(B, start + (TIMEOUT_NANOS as i128) + 1).map(|a| a.id), Some(0));
}

#[test]
fn one_assigned_job_per_machine() {
    let mut jobs = table(3);
    jobs.assign_at(A, 0).unwrap();
    jobs.assign_at(B, 0).unwrap();
    // Asking again after B's job expired still gives A its own job.
    let late = 1 + (TIMEOUT_NANOS as i128);
    assert_eq!(jobs.assign_at(A, late).map(|a| a.id), Some(0));
    let assigned_to_a = jobs.iter().filter(|j| j.state == State::Assigned(A)).count();
    assert_eq!(assigned_to_a, 1);
    jobs.downloading_at(A, late).unwrap();
    // A's download went silent; asking again takes the first free job, its own.
    assert_eq!(jobs.assign_at(A, 2 * late).map(|a| a.id), Some(0));
    let assigned_to_a = jobs.iter().filter(|j| j.state == State::Assigned(A)).count();
    assert_eq!(assigned_to_a, 1);
}

#[test]
fn full_cycle_finishes_job() {
    let mut jobs = table(2);
    let a = jobs.assign_at(A, 1).unwrap();
    assert_eq!(jobs.downloading_at(A, 2).map(|x| x.id), Some(a.id));
    assert!(jobs.booting_at(A, 3));
    assert!(jobs.report_at(A, 4));
    assert!(jobs.finish_at(A, 5));
    assert_eq!(states(&jobs), vec![State::Finished(A), State::Unassigned]);
    assert_eq!(jobs.as_slice()[0].seen, Some(5));
    // The finished job is never handed out again.
    assert_eq!(jobs.assign_at(A, 6 + (TIMEOUT_NANOS as i128)).map(|x| x.id), Some(1));
}

#[test]
fn steps_out_of_order_are_refused() {
    let mut jobs = table(1);
    assert!(jobs.downloading_at(A, 1).is_none());
    assert!(!jobs.booting_at(A, 1));
    assert!(!jobs.report_at(A, 1));
    assert!(!jobs.finish_at(A, 1));
    jobs.assign_at(A, 1).unwrap();
    assert!(!jobs.booting_at(A, 2));
    assert!(!jobs.report_at(A, 2));
    assert!(jobs.downloading_at(B, 2).is_none());
    assert_eq!(states(&jobs), vec![State::Assigned(A)]);
    assert_eq!(jobs.as_slice()[0].seen, Some(1));
}

#[test]
fn finish_fails_unreported_jobs() {
    let mut jobs = table(3);
    jobs.assign_at(A, 1).unwrap();
    assert!(jobs.finish_at(A, 2));
    jobs.assign_at(B, 3).unwrap();
    jobs.downloading_at(B, 3).unwrap();
    assert!(!jobs.finish_at(B, 4));
    assert!(jobs.booting_at(B, 5));
    assert!(jobs.finish_at(B, 6));
    assert_eq!(states(&jobs), vec![State::Failed(A), State::Failed(B), State::Unassigned]);
}

#[test]
fn clock_reading_operations_stamp_the_job() {
    let mut jobs = table(1);
    let a = jobs.assign(C).unwrap();
    assert_eq!(a.id, 0);
    assert!(jobs.as_slice()[0].seen.unwrap() > 0);
    assert!(jobs.downloading(C).is_some());
    assert!(jobs.booting(C));
    assert!(jobs.report(C));
    assert!(jobs.finish(C));
    assert_eq!(states(&jobs), vec![State::Finished(C)]);
}

#[test]
fn state_ip() {
    assert_eq!(State::Unassigned.ip(), None);
    assert_eq!(State::Assigned(A).ip(), Some(A));
    assert_eq!(State::Downloading(A).ip(), Some(A));
    assert_eq!(State::Booting(B).ip(), Some(B));
    assert_eq!(State::Reported(B).ip(), Some(B));
    assert_eq!(State::Finished(C).ip(), Some(C));
    assert_eq!(State::Failed(C).ip(), Some(C));
}

#[test]
fn asset_clone_is_equal() {
    let a = asset(7, "seven");
    let b = a.clone();
    assert_eq!((a.id, a.name, a.size, a.url, a.content_type), (b.id, b.name, b.size, b.url, b.content_type));
}

#[test]
fn closed_jobs_stay_closed_over_many_steps() {
    let mut jobs = table(2);
    jobs.assign_at(A, 1).unwrap();
    jobs.finish_at(A, 2);
    assert_eq!(states(&jobs), vec![State::Failed(A), State::Unassigned]);
    let late = 10 * (TIMEOUT_NANOS as i128);
    for (k, ip) in [A, B, C, A, B].into_iter().enumerate() {
        let t = late + k as i128;
        jobs.assign_at(ip, t);
        jobs.downloading_at(ip, t);
        jobs.booting_at(ip, t);
        jobs.report_at(ip, t);
        jobs.finish_at(ip, t);
        assert_eq!(jobs.as_slice()[0].state, State::Failed(A));
        assert_eq!(jobs.as_slice()[0].seen, Some(2));
    }
    let names: Vec<&str> = jobs.iter().map(|j| j.asset.name.as_str()).collect();
    assert_eq!(names, vec!["img0", "img1"]);
}
