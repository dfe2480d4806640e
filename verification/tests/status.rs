use dispatch::jobs::{Asset, Jobs, State};
use dispatch::net::Ip;
use dispatch::status::{counts_line, url_line, Counts, Look, Tint};
use dispatch::units::{pad_left, size_cell};

fn table(n: u64) -> Jobs {
    Jobs::from(
        (0..n)
            .map(|i| Asset {
                id: i,
                name: format!("img{i}"),
                size: i * 1024,
                url: String::new(),
                content_type: String::new(),
            })
            .collect(),
    )
}

const A: Ip = Ip::V4(1);
const B: Ip = Ip::V4(2);

#[test]
fn counts_by_state() {
    let mut jobs = table(5);
    jobs.assign_at(A, 1).unwrap();
    jobs.downloading_at(A, 1).unwrap();
    jobs.assign_at(B, 1).unwrap();
    let c = jobs.counts();
    assert_eq!(
        c,
        Counts { unassigned: 3, assigned: 1, downloading: 1, booting: 0, reported: 0, finished: 0, failed: 0 }
    );
    let total = c.unassigned + c.assigned + c.downloading + c.booting + c.reported + c.finished + c.failed;
    assert_eq!(total, jobs.len());
}

#[test]
fn counts_line_text() {
    let c = Counts { unassigned: 3, assigned: 1, downloading: 12, booting: 0, reported: 0, finished: 7, failed: 2 };
    assert_eq!(counts_line(&c), "⏳ 3 📌 1 📥 12 ⚡ 0 📝 0 🏁 7 ❌ 2 🚪 q");
}

#[test]
fn finished_jobs_are_hidden() {
    let mut jobs = table(3);
    jobs.assign_at(A, 1).unwrap();
    jobs.downloading_at(A, 1).unwrap();
    jobs.booting_at(A, 1);
    jobs.report_at(A, 1);
    jobs.finish_at(A, 1);
    jobs.assign_at(B, 1).unwrap();
    jobs.finish_at(B, 1);
    let shown: Vec<u64> = jobs.visible().iter().map(|j| j.asset.id).collect();
    assert_eq!(shown, vec![1, 2]);
}

#[test]
fn emoji_and_style() {
    assert_eq!(State::Unassigned.emoji(), "⏳");
    assert_eq!(State::Assigned(A).emoji(), "📌");
    assert_eq!(State::Downloading(A).emoji(), "📥");
    assert_eq!(State::Booting(A).emoji(), "⚡");
    assert_eq!(State::Reported(A).emoji(), "📝");
    assert_eq!(State::Failed(A).emoji(), "❌");
    assert_eq!(State::Finished(A).emoji(), "🏁");
    let mut jobs = table(2);
    assert_eq!(jobs.as_slice()[0].style(), Look { tint: Tint::Plain, bold: false });
    jobs.assign_at(A, 1).unwrap();
    assert_eq!(jobs.as_slice()[0].style(), Look { tint: Tint::Plain, bold: true });
    jobs.downloading_at(A, 1).unwrap();
    assert_eq!(jobs.as_slice()[0].style(), Look { tint: Tint::Blue, bold: true });
    jobs.booting_at(A, 1);
    assert_eq!(jobs.as_slice()[0].style(), Look { tint: Tint::Yellow, bold: true });
    jobs.report_at(A, 1);
    assert_eq!(jobs.as_slice()[0].style(), Look { tint: Tint::Green, bold: true });
    jobs.finish_at(A, 1);
    assert_eq!(jobs.as_slice()[0].style(), Look { tint: Tint::Plain, bold: false });
    jobs.assign_at(B, 1).unwrap();
    jobs.finish_at(B, 1);
    assert_eq!(jobs.as_slice()[1].style(), Look { tint: Tint::Red, bold: true });
}

#[test]
fn padding_and_size_cell() {
    assert_eq!(pad_left("Size", 10), "      Size");
    assert_eq!(pad_left("longer than ten", 10), "longer than ten");
    assert_eq!(pad_left("⏳", 3), "  ⏳");
    assert_eq!(size_cell(1536), "   1.5 KiB");
    assert_eq!(size_cell(0), format!("{:>10}", "0.0 B"));
}

#[test]
fn url_line_text() {
    assert_eq!(url_line("0.0.0.0:8080", "/dispatch"), "🌐 http://0.0.0.0:8080/dispatch");
}
