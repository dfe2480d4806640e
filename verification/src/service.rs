use vstd::prelude::*;

use crate::jobs::{
    after_assign, after_booting, after_downloading, after_report, assigned_asset, first, state_is,
    Asset, Jobs, State,
};
use crate::clock::MAX_DURATION_NANOS;
use crate::net::Ip;
use crate::units::{decimal, is_digit, law_decimal_reads_back, push_decimal, read_decimal};

verus! {

/// The HTTP status codes that the service answers with.
pub const OK: u16 = 200;

pub const BAD_REQUEST: u16 = 400;

pub const NOT_FOUND: u16 = 404;

pub const METHOD_NOT_ALLOWED: u16 = 405;

pub const EXPECTATION_FAILED: u16 = 417;

pub const INTERNAL_SERVER_ERROR: u16 = 500;

/// The methods that a machine may use; all others fall under `Other`.
#[derive(Debug, Clone, Copy, PartialEq, Eq, Structural)]
pub enum Method {
    Get,
    Head,
    Post,
    Put,
    Other,
}

/// Where one request stands.
#[derive(Debug, Clone, Copy, PartialEq, Eq, Structural)]
pub enum Stage {
    /// Nothing seen yet.
    Start,
    /// A report was accepted in principle; its body is being read.
    ReadingReport,
    /// The report is being filed upstream.
    Filing,
    /// The asset is being fetched upstream; `head` when only its headers
    /// are wanted.
    Fetching { head: bool },
    /// The answer is out.
    Done,
}

/// What happened to a request.
#[derive(Debug, Clone, Copy, PartialEq, Eq, Structural)]
pub enum Event {
    /// The request arrived: whether its path is the served one, and its
    /// method.
    Arrived { path_matches: bool, method: Method },
    /// The report's body was read: whether it parsed as a report.
    BodyRead { parsed: bool },
    /// Filing the report upstream succeeded or not.
    Filed { ok: bool },
    /// The upstream answer for the asset arrived.
    Fetched,
}

/// What the service does next.
#[derive(Debug)]
pub enum Action {
    /// Answer with this status and an empty body.
    Respond(u16),
    /// Answer 405, naming the allowed methods.
    RespondNotAllowed,
    /// Read the request's body as a report.
    ReadReport,
    /// File the report upstream.
    FileReport,
    /// Answer 200 and, a few seconds later, close the machine's job.
    RespondThenFinish,
    /// Answer with the built-in power-off program (headers only for `head`).
    SendPoweroff { head: bool },
    /// Ask upstream for the asset (HEAD for `head`, else GET).
    Fetch { asset: Asset, head: bool },
    /// Pass the upstream answer on.
    Forward,
}

/// `event` can happen to a request in `stage`.
pub open spec fn expects(stage: Stage, event: Event) -> bool {
    match stage {
        Stage::Start => event is Arrived,
        Stage::ReadingReport => event is BodyRead,
        Stage::Filing => event is Filed,
        Stage::Fetching { .. } => event is Fetched,
        Stage::Done => false,
    }
}

/// The table and the next stage after `event` at clock reading `now`, for
/// machine `remote`; what the service does is `action_spec`.
pub open spec fn table_after(jobs: Seq<crate::jobs::Job>, remote: Ip, stage: Stage, event: Event, now: i128) -> Seq<crate::jobs::Job> {
    match (stage, event) {
        (Stage::Start, Event::Arrived { path_matches, method }) => if !path_matches {
            jobs
        } else {
            match method {
                Method::Post => after_booting(jobs, remote, now),
                Method::Head => after_assign(jobs, remote, now),
                Method::Get => after_assign(jobs, remote, now),
                _ => jobs,
            }
        },
        (Stage::ReadingReport, Event::BodyRead { parsed }) => if parsed {
            after_report(jobs, remote, now)
        } else {
            jobs
        },
        (Stage::Fetching { head }, Event::Fetched) => if head {
            jobs
        } else {
            after_downloading(jobs, remote, now)
        },
        _ => jobs,
    }
}

/// The stage after `event`.
pub open spec fn stage_after(jobs: Seq<crate::jobs::Job>, remote: Ip, stage: Stage, event: Event, now: i128) -> Stage {
    match (stage, event) {
        (Stage::Start, Event::Arrived { path_matches, method }) => if !path_matches {
            Stage::Done
        } else {
            match method {
                Method::Put => Stage::ReadingReport,
                Method::Head => if assigned_asset(jobs, remote, now) is Some {
                    Stage::Fetching { head: true }
                } else {
                    Stage::Done
                },
                Method::Get => if assigned_asset(jobs, remote, now) is Some {
                    Stage::Fetching { head: false }
                } else {
                    Stage::Done
                },
                _ => Stage::Done,
            }
        },
        (Stage::ReadingReport, Event::BodyRead { parsed }) => if parsed && first(
            jobs,
            state_is(State::Booting(remote)),
        ) is Some {
            Stage::Filing
        } else {
            Stage::Done
        },
        _ => Stage::Done,
    }
}

/// What the service does after `event`.
pub open spec fn action_spec(jobs: Seq<crate::jobs::Job>, remote: Ip, stage: Stage, event: Event, now: i128, action: Action) -> bool {
    match (stage, event) {
        (Stage::Start, Event::Arrived { path_matches, method }) => if !path_matches {
            action == Action::Respond(NOT_FOUND)
        } else {
            match method {
                Method::Post => action == Action::Respond(
                    if first(jobs, state_is(State::Downloading(remote))) is Some {
                        OK
                    } else {
                        EXPECTATION_FAILED
                    },
                ),
                Method::Put => action == Action::ReadReport,
                Method::Head => match assigned_asset(jobs, remote, now) {
                    Some(asset) => action == (Action::Fetch { asset, head: true }),
                    None => action == (Action::SendPoweroff { head: true }),
                },
                Method::Get => match assigned_asset(jobs, remote, now) {
                    Some(asset) => action == (Action::Fetch { asset, head: false }),
                    None => action == (Action::SendPoweroff { head: false }),
                },
                Method::Other => action == Action::RespondNotAllowed,
            }
        },
        (Stage::ReadingReport, Event::BodyRead { parsed }) => if !parsed {
            action == Action::Respond(BAD_REQUEST)
        } else if first(jobs, state_is(State::Booting(remote))) is Some {
            action == Action::FileReport
        } else {
            action == Action::Respond(EXPECTATION_FAILED)
        },
        (Stage::Filing, Event::Filed { ok }) => if ok {
            action == Action::RespondThenFinish
        } else {
            action == Action::Respond(INTERNAL_SERVER_ERROR)
        },
        (Stage::Fetching { .. }, Event::Fetched) => action == Action::Forward,
        _ => false,
    }
}

/// The steps of a request that leave the table alone: a request to another
/// path (404), a report whose body does not parse (400), a PUT before its
/// body is read, a method other than GET, HEAD, POST and PUT (405), the
/// outcome of filing a report, and the answer to an upstream HEAD.
pub open spec fn leaves_table(stage: Stage, event: Event) -> bool {
    ||| event matches Event::Arrived { path_matches: false, .. }
    ||| event == (Event::Arrived { path_matches: true, method: Method::Put })
    ||| event == (Event::Arrived { path_matches: true, method: Method::Other })
    ||| event == (Event::BodyRead { parsed: false })
    ||| event is Filed
    ||| (stage == (Stage::Fetching { head: true }) && event is Fetched)
}

/// The answers that those steps give, on the request alone.
pub open spec fn plain_answer(stage: Stage, event: Event, r: (Stage, Action)) -> bool {
    &&& event matches Event::Arrived { path_matches: false, .. } ==> r.0 == Stage::Done && r.1
        == Action::Respond(NOT_FOUND)
    &&& event == (Event::BodyRead { parsed: false }) ==> r.0 == Stage::Done && r.1
        == Action::Respond(BAD_REQUEST)
    &&& event == (Event::Arrived { path_matches: true, method: Method::Other }) ==> r.0
        == Stage::Done && r.1 == Action::RespondNotAllowed
    &&& event == (Event::Arrived { path_matches: true, method: Method::Put }) ==> r.0
        == Stage::ReadingReport && r.1 == Action::ReadReport
    &&& event == (Event::Filed { ok: false }) ==> r.0 == Stage::Done && r.1 == Action::Respond(
        INTERNAL_SERVER_ERROR,
    )
    &&& event == (Event::Filed { ok: true }) ==> r.0 == Stage::Done && r.1
        == Action::RespondThenFinish
}

/// A request to another path, a report that does not parse, a PUT before
/// its body, an unknown method, the outcome of filing, and an upstream HEAD
/// answer never change the job table; the first five get their fixed
/// answers (404, 400, reading the body, 405, 200 or 500).
pub proof fn law_step_leaves_table(jobs: Seq<crate::jobs::Job>, remote: Ip, stage: Stage, event: Event, now: i128)
    requires
        expects(stage, event),
    ensures
        leaves_table(stage, event) ==> table_after(jobs, remote, stage, event, now) == jobs,
        forall|action: Action|
            action_spec(jobs, remote, stage, event, now, action) ==> plain_answer(
                stage,
                event,
                (stage_after(jobs, remote, stage, event, now), action),
            ),
{
}

/// Decides what a request gets, step by step, at clock reading `now`: a
/// request to another path gets 404; POST is the boot beacon (200 when the
/// machine was downloading, 417 otherwise); PUT is the report, read from the
/// body (400 when it does not parse, 417 when nothing boots on the machine,
/// 500 when filing fails, else 200 and the job is closed later); HEAD and GET
/// hand the machine its job and fetch its asset, or the power-off program
/// when there is no job, and a GET marks the job downloading once the asset
/// answers; other methods get 405.
pub fn step_at(jobs: &mut Jobs, remote: Ip, stage: Stage, event: Event, now: i128) -> (r: (Stage, Action))
    requires
        expects(stage, event),
    ensures
        final(jobs)@ == table_after(old(jobs)@, remote, stage, event, now),
        r.0 == stage_after(old(jobs)@, remote, stage, event, now),
        action_spec(old(jobs)@, remote, stage, event, now, r.1),
        leaves_table(stage, event) ==> final(jobs)@ == old(jobs)@,
        plain_answer(stage, event, r),
{
    proof {
        law_step_leaves_table(jobs@, remote, stage, event, now);
    }
    match event {
        Event::Arrived { path_matches, method } => {
            if !path_matches {
                return (Stage::Done, Action::Respond(NOT_FOUND));
            }
            match method {
                Method::Post => {
                    if jobs.booting_at(remote, now) {
                        (Stage::Done, Action::Respond(OK))
                    } else {
                        (Stage::Done, Action::Respond(EXPECTATION_FAILED))
                    }
                },
                Method::Put => (Stage::ReadingReport, Action::ReadReport),
                Method::Head => match jobs.assign_at(remote, now) {
                    Some(asset) => (Stage::Fetching { head: true }, Action::Fetch { asset, head: true }),
                    None => (Stage::Done, Action::SendPoweroff { head: true }),
                },
                Method::Get => match jobs.assign_at(remote, now) {
                    Some(asset) => (Stage::Fetching { head: false }, Action::Fetch { asset, head: false }),
                    None => (Stage::Done, Action::SendPoweroff { head: false }),
                },
                Method::Other => (Stage::Done, Action::RespondNotAllowed),
            }
        },
        Event::BodyRead { parsed } => {
            if !parsed {
                (Stage::Done, Action::Respond(BAD_REQUEST))
            } else if jobs.report_at(remote, now) {
                (Stage::Filing, Action::FileReport)
            } else {
                (Stage::Done, Action::Respond(EXPECTATION_FAILED))
            }
        },
        Event::Filed { ok } => {
            if ok {
                (Stage::Done, Action::RespondThenFinish)
            } else {
                (Stage::Done, Action::Respond(INTERNAL_SERVER_ERROR))
            }
        },
        Event::Fetched => {
            match stage {
                Stage::Fetching { head } => {
                    if !head {
                        jobs.downloading_at(remote, now);
                    }
                },
                _ => {},
            }
            (Stage::Done, Action::Forward)
        },
    }
}

/// `step_at` at the current clock reading.
pub fn step(jobs: &mut Jobs, remote: Ip, stage: Stage, event: Event) -> (r: (Stage, Action))
    requires
        expects(stage, event),
    ensures
        exists|now: i128|
            -MAX_DURATION_NANOS <= now <= MAX_DURATION_NANOS && final(jobs)@ == table_after(old(jobs)@, remote, stage, event, now) && r.0
                == stage_after(old(jobs)@, remote, stage, event, now) && action_spec(
                old(jobs)@,
                remote,
                stage,
                event,
                now,
                r.1,
            ),
{
    let now = crate::clock::now_nanos();
    step_at(jobs, remote, stage, event, now)
}

/// The method of the request made upstream for an asset: HEAD for a HEAD
/// request, GET for any other.
pub fn upstream_method(method: Method) -> (m: Method)
    ensures
        m == if method == Method::Head {
            Method::Head
        } else {
            Method::Get
        },
{
    match method {
        Method::Head => Method::Head,
        _ => Method::Get,
    }
}

/// Where an asset is fetched from: through the API, by its id, when the
/// repository is private; else at its public download address.
pub open spec fn asset_url_spec(private: bool, owner: Seq<char>, repo: Seq<char>, asset: Asset) -> Seq<char> {
    if private {
        "https://api.github.com/repos/"@ + owner + "/"@ + repo + "/releases/assets/"@ + decimal(
            asset.id as nat,
        )
    } else {
        asset.url@
    }
}

/// `url` fetches `asset`: for a private repository, the API address of the
/// repository's release asset whose id the trailing decimal digits spell,
/// which is the asset's own full id; else the asset's public address.
pub open spec fn fetches_asset(private: bool, owner: Seq<char>, repo: Seq<char>, asset: Asset, url: Seq<char>) -> bool {
    if private {
        exists|digits: Seq<char>|
            #![trigger read_decimal(digits)]
            url == "https://api.github.com/repos/"@ + owner + "/"@ + repo + "/releases/assets/"@
                + digits && digits.len() > 0 && (forall|i: int|
                0 <= i < digits.len() ==> is_digit(#[trigger] digits[i])) && read_decimal(digits)
                == asset.id
    } else {
        url == asset.url@
    }
}

/// The address an asset is fetched from names that very asset: through the
/// API by its whole id for a private repository, at its own public address
/// otherwise.
pub proof fn law_url_names_the_asset(private: bool, owner: Seq<char>, repo: Seq<char>, asset: Asset)
    ensures
        fetches_asset(private, owner, repo, asset, asset_url_spec(private, owner, repo, asset)),
{
    law_decimal_reads_back(asset.id as nat);
    let digits = decimal(asset.id as nat);
    assert(read_decimal(digits) == asset.id);
}

/// Where an asset is fetched from (see `asset_url_spec`).
pub fn asset_url(private: bool, owner: &str, repo: &str, asset: &Asset) -> (url: String)
    ensures
        url@ == asset_url_spec(private, owner@, repo@, *asset),
        fetches_asset(private, owner@, repo@, *asset, url@),
{
    proof {
        law_url_names_the_asset(private, owner@, repo@, *asset);
    }
    if private {
        let mut url = String::from_str("https://api.github.com/repos/");
        url.append(owner);
        url.append("/");
        url.append(repo);
        url.append("/releases/assets/");
        push_decimal(&mut url, asset.id as u128);
        url
    } else {
        asset.url.clone()
    }
}

/// The value sent for a header of the upstream answer: the asset's content
/// type in place of the upstream `content-type`, every other value as it came.
pub fn header_to_send<'a>(key: &String, value: &'a [u8], content_type: &'a [u8]) -> (v: &'a [u8])
    ensures
        v@ == if key@ == "content-type"@ {
            content_type@
        } else {
            value@
        },
{
    if *key == String::from_str("content-type") {
        content_type
    } else {
        value
    }
}

/// The content type of EFI programs.
pub const EFI_CONTENT_TYPE: &'static str = "application/efi";

/// `name` ends in `.efi`.
pub open spec fn is_efi_name(name: Seq<char>) -> bool {
    name.len() >= 4 && name.subrange(name.len() - 4, name.len() as int) == ".efi"@
}

/// The content type an asset is served with: EFI programs (names ending in
/// `.efi`) as `application/efi`, whatever the listing says, since listings
/// label them as octet streams; every other asset as listed.
pub open spec fn served_content_type_spec(name: Seq<char>, listed: Seq<char>) -> Seq<char> {
    if is_efi_name(name) {
        EFI_CONTENT_TYPE@
    } else {
        listed
    }
}

/// The content type an asset named `name`, listed as `listed`, is served
/// with (see `served_content_type_spec`).
pub fn served_content_type(name: &str, listed: &str) -> (ct: String)
    ensures
        ct@ == served_content_type_spec(name@, listed@),
{
    let n = name.unicode_len();
    let efi = if n >= 4 {
        let tail = name.substring_char(n - 4, n);
        String::from_str(tail) == String::from_str(".efi")
    } else {
        false
    };
    if efi {
        String::from_str(EFI_CONTENT_TYPE)
    } else {
        String::from_str(listed)
    }
}

} // verus!
