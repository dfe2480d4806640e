use dispatch::jobs::{Asset, Jobs, State};
use dispatch::net::Ip;
use dispatch::service::{
    asset_url, served_content_type, header_to_send, step_at, upstream_method, Action, Event, Method, Stage,
};

fn table(n: u64) -> Jobs {
    Jobs::from(
        (0..n)
            .map(|i| Asset {
                id: 100 + i,
                name: format!("img{i}"),
                size: 4096,
                url: format!("https://github.com/o/r/releases/download/v1/img{i}"),
                content_type: "application/efi".to_string(),
            })
            .collect(),
    )
}

const A: Ip = Ip::V4(0xc0a8_0001);

fn arrive(method: Method) -> Event {
    Event::Arrived { path_matches: true, method }
}

fn states(jobs: &Jobs) -> Vec<State> {
    jobs.iter().map(|j| j.state).collect()
}

#[test]
fn wrong_path_is_not_found() {
    let mut jobs = table(1);
    let (stage, action) =
        step_at(&mut jobs, A, Stage::Start, Event::Arrived { path_matches: false, method: Method::Get }, 1);
    assert_eq!(stage, Stage::Done);
    assert!(matches!(action, Action::Respond(404)));
    assert_eq!(states(&jobs), vec![State::Unassigned]);
}

#[test]
fn other_methods_not_allowed() {
    let mut jobs = table(1);
    let (stage, action) = step_at(&mut jobs, A, Stage::Start, arrive(Method::Other), 1);
    assert_eq!(stage, Stage::Done);
    assert!(matches!(action, Action::RespondNotAllowed));
}

#[test]
fn get_fetches_then_marks_downloading() {
    let mut jobs = table(1);
    let (stage, action) = step_at(&mut jobs, A, Stage::Start, arrive(Method::Get), 1);
    assert_eq!(stage, Stage::Fetching { head: false });
    match action {
        Action::Fetch { asset, head } => {
            assert_eq!(asset.id, 100);
            assert!(!head);
        }
        _ => panic!("expected a fetch"),
    }
    assert_eq!(states(&jobs), vec![State::Assigned(A)]);
    let (stage, action) = step_at(&mut jobs, A, stage, Event::Fetched, 2);
    assert_eq!(stage, Stage::Done);
    assert!(matches!(action, Action::Forward));
    assert_eq!(states(&jobs), vec![State::Downloading(A)]);
}

#[test]
fn head_fetches_without_downloading() {
    let mut jobs = table(1);
    let (stage, action) = step_at(&mut jobs, A, Stage::Start, arrive(Method::Head), 1);
    assert_eq!(stage, Stage::Fetching { head: true });
    assert!(matches!(action, Action::Fetch { head: true, .. }));
    let (_, action) = step_at(&mut jobs, A, stage, Event::Fetched, 2);
    assert!(matches!(action, Action::Forward));
    assert_eq!(states(&jobs), vec![State::Assigned(A)]);
}

#[test]
fn no_job_gets_poweroff() {
    let mut jobs = table(0);
    let (stage, action) = step_at(&mut jobs, A, Stage::Start, arrive(Method::Get), 1);
    assert_eq!(stage, Stage::Done);
    assert!(matches!(action, Action::SendPoweroff { head: false }));
    let (_, action) = step_at(&mut jobs, A, Stage::Start, arrive(Method::Head), 1);
    assert!(matches!(action, Action::SendPoweroff { head: true }));
}

#[test]
fn boot_beacon() {
    let mut jobs = table(1);
    let (_, action) = step_at(&mut jobs, A, Stage::Start, arrive(Method::Post), 1);
    assert!(matches!(action, Action::Respond(417)));
    jobs.assign_at(A, 1).unwrap();
    jobs.downloading_at(A, 1).unwrap();
    let (stage, action) = step_at(&mut jobs, A, Stage::Start, arrive(Method::Post), 2);
    assert_eq!(stage, Stage::Done);
    assert!(matches!(action, Action::Respond(200)));
    assert_eq!(states(&jobs), vec![State::Booting(A)]);
}

#[test]
fn report_flow() {
    let mut jobs = table(1);
    let (stage, action) = step_at(&mut jobs, A, Stage::Start, arrive(Method::Put), 1);
    assert_eq!(stage, Stage::ReadingReport);
    assert!(matches!(action, Action::ReadReport));
    // Unparsable body.
    let (s, a) = step_at(&mut jobs, A, stage, Event::BodyRead { parsed: false }, 1);
    assert_eq!(s, Stage::Done);
    assert!(matches!(a, Action::Respond(400)));
    // Nothing boots on A.
    let (s, a) = step_at(&mut jobs, A, stage, Event::BodyRead { parsed: true }, 1);
    assert_eq!(s, Stage::Done);
    assert!(matches!(a, Action::Respond(417)));
    jobs.assign_at(A, 1).unwrap();
    jobs.downloading_at(A, 1).unwrap();
    jobs.booting_at(A, 1);
    let (s, a) = step_at(&mut jobs, A, stage, Event::BodyRead { parsed: true }, 2);
    assert_eq!(s, Stage::Filing);
    assert!(matches!(a, Action::FileReport));
    assert_eq!(states(&jobs), vec![State::Reported(A)]);
    let (s2, a2) = step_at(&mut jobs, A, s, Event::Filed { ok: false }, 3);
    assert_eq!(s2, Stage::Done);
    assert!(matches!(a2, Action::Respond(500)));
    let (s3, a3) = step_at(&mut jobs, A, s, Event::Filed { ok: true }, 3);
    assert_eq!(s3, Stage::Done);
    assert!(matches!(a3, Action::RespondThenFinish));
}

#[test]
fn upstream_request() {
    assert_eq!(upstream_method(Method::Head), Method::Head);
    assert_eq!(upstream_method(Method::Get), Method::Get);
    assert_eq!(upstream_method(Method::Post), Method::Get);
    let jobs = table(1);
    let a = &jobs.as_slice()[0].asset;
    assert_eq!(asset_url(true, "owner", "repo", a), "https://api.github.com/repos/owner/repo/releases/assets/100");
    assert_eq!(asset_url(false, "owner", "repo", a), "https://github.com/o/r/releases/download/v1/img0");
}

#[test]
fn content_type_is_replaced() {
    let ct = b"application/efi";
    assert_eq!(header_to_send(&"content-type".to_string(), b"application/octet-stream", ct), ct);
    assert_eq!(header_to_send(&"content-length".to_string(), b"12", ct), b"12");
}

#[test]
fn content_type_of_assets() {
    assert_eq!(served_content_type("boot.efi", "application/octet-stream"), "application/efi");
    assert_eq!(served_content_type(".efi", "x/y"), "application/efi");
    assert_eq!(served_content_type("disk.img", "application/octet-stream"), "application/octet-stream");
    assert_eq!(served_content_type("efi", "text/plain"), "text/plain");
    assert_eq!(served_content_type("boot.EFI", "text/plain"), "text/plain");
    assert_eq!(served_content_type("é.efi", "text/plain"), "application/efi");
}
