use ar5iv_util::{MAX_ATTEMPTS, USER_AGENT};
use ar5iv_util::remote::{
    check_ids_http, find_fatal, fish_out_article_version, journal_line, judge_check, BatchEnd,
    CheckRequest, Fatal, ProbeEnd, Probed, UrlCheck, ABS_URL, BACKOFF_SECS, CHECK_WIDTH,
    COURTESY_SECS,
};

fn tasks(items: &[&str]) -> Vec<String> {
    items.iter().map(|s| s.to_string()).collect()
}

fn check(url: &str, pause_secs: u64) -> Option<CheckRequest> {
    Some(CheckRequest { url: url.to_string(), pause_secs })
}

fn journal(lines: &[&str]) -> BatchEnd {
    BatchEnd::Journal { lines: tasks(lines), pause_secs: 1 }
}

#[test]
fn request_constants() {
    assert_eq!(MAX_ATTEMPTS, 3);
    assert_eq!(USER_AGENT, "ar5iv (https://ar5iv.labs.arxiv.org)");
}

#[test]
fn probe_constants() {
    assert_eq!(ABS_URL, "https://export.arxiv.org/abs/");
    assert_eq!(CHECK_WIDTH, 4);
    assert_eq!(COURTESY_SECS, 1);
    assert_eq!(BACKOFF_SECS, 10);
}

#[test]
fn success_confirms_the_revision() {
    assert_eq!(judge_check(Probed::Status(200)), UrlCheck::Exists);
}

#[test]
fn not_found_and_bad_request_deny_the_revision() {
    assert_eq!(judge_check(Probed::Status(404)), UrlCheck::Absent);
    assert_eq!(judge_check(Probed::Status(400)), UrlCheck::Absent);
}

#[test]
fn server_errors_are_repeated_after_a_pause() {
    assert_eq!(judge_check(Probed::Status(500)), UrlCheck::Retry { pause_secs: 10 });
    assert_eq!(judge_check(Probed::Status(503)), UrlCheck::Retry { pause_secs: 10 });
}

#[test]
fn unknown_answers_are_repeated_at_once() {
    for status in [201u16, 301, 302, 401, 418, 429, 502, 504] {
        assert_eq!(judge_check(Probed::Status(status)), UrlCheck::Retry { pause_secs: 0 });
    }
    assert_eq!(judge_check(Probed::OtherFailure), UrlCheck::Retry { pause_secs: 0 });
}

#[test]
fn denial_of_access_stops_the_run() {
    assert_eq!(judge_check(Probed::Status(403)), UrlCheck::Fatal(Fatal::Forbidden));
}

#[test]
fn failed_connection_stops_the_run() {
    assert_eq!(judge_check(Probed::ConnectFailure), UrlCheck::Fatal(Fatal::ConnectFailed));
}

#[test]
fn probe_starts_with_the_second_revision() {
    let probe = fish_out_article_version("2301.00001");
    assert_eq!(probe.id(), "2301.00001");
    assert_eq!(probe.end(), None);
    assert_eq!(probe.request(), check("https://export.arxiv.org/abs/2301.00001v2", 0));
}

#[test]
fn article_without_second_revision_has_revision_one() {
    let probe = fish_out_article_version("2301.00001").record(Probed::Status(404));
    assert_eq!(probe.end(), Some(ProbeEnd::Latest(1)));
    assert_eq!(probe.request(), None);
}

#[test]
fn probe_goes_on_while_revisions_exist() {
    let probe = fish_out_article_version("math/0607467").record(Probed::Status(200));
    assert_eq!(probe.end(), None);
    assert_eq!(probe.request(), check("https://export.arxiv.org/abs/math/0607467v3", 1));
    let probe = probe.record(Probed::Status(200));
    assert_eq!(probe.request(), check("https://export.arxiv.org/abs/math/0607467v4", 1));
    let probe = probe.record(Probed::Status(404));
    assert_eq!(probe.end(), Some(ProbeEnd::Latest(3)));
}

#[test]
fn probe_reports_the_last_confirmed_revision() {
    for k in 1u64..=12 {
        let mut probe = fish_out_article_version("2301.00001");
        for _ in 2..=k {
            probe = probe.record(Probed::Status(200));
            assert_eq!(probe.end(), None);
        }
        probe = probe.record(Probed::Status(404));
        assert_eq!(probe.end(), Some(ProbeEnd::Latest(k)));
    }
}

#[test]
fn revision_numbers_are_written_in_decimal() {
    let mut probe = fish_out_article_version("2301.00001");
    for _ in 2..=10 {
        probe = probe.record(Probed::Status(200));
    }
    assert_eq!(probe.request(), check("https://export.arxiv.org/abs/2301.00001v11", 1));
}

#[test]
fn server_error_repeats_the_same_check() {
    let probe = fish_out_article_version("2301.00001").record(Probed::Status(503));
    assert_eq!(probe.end(), None);
    assert_eq!(probe.request(), check("https://export.arxiv.org/abs/2301.00001v2", 10));
    let probe = probe.record(Probed::OtherFailure);
    assert_eq!(probe.request(), check("https://export.arxiv.org/abs/2301.00001v2", 0));
    let probe = probe.record(Probed::Status(200));
    assert_eq!(probe.request(), check("https://export.arxiv.org/abs/2301.00001v3", 1));
}

#[test]
fn three_silent_checks_end_the_probe() {
    let probe = fish_out_article_version("2301.00001")
        .record(Probed::Status(200))
        .record(Probed::Status(500))
        .record(Probed::Status(418))
        .record(Probed::OtherFailure);
    assert_eq!(probe.end(), Some(ProbeEnd::Latest(2)));
    assert_eq!(probe.request(), None);
}

#[test]
fn budget_is_fresh_for_every_revision() {
    let probe = fish_out_article_version("2301.00001")
        .record(Probed::Status(500))
        .record(Probed::Status(500))
        .record(Probed::Status(200))
        .record(Probed::Status(500))
        .record(Probed::Status(500))
        .record(Probed::Status(200))
        .record(Probed::Status(404));
    assert_eq!(probe.end(), Some(ProbeEnd::Latest(3)));
}

#[test]
fn denial_of_access_ends_the_probe_without_revision() {
    let probe = fish_out_article_version("2301.00001")
        .record(Probed::Status(200))
        .record(Probed::Status(403));
    assert_eq!(probe.end(), Some(ProbeEnd::Stopped(Fatal::Forbidden)));
    assert_eq!(probe.request(), None);
}

#[test]
fn failed_connection_is_not_taken_for_not_found() {
    let probe = fish_out_article_version("2301.00001").record(Probed::ConnectFailure);
    assert_eq!(probe.end(), Some(ProbeEnd::Stopped(Fatal::ConnectFailed)));
}

#[test]
fn finished_probe_takes_nothing_more_in() {
    let probe = fish_out_article_version("2301.00001")
        .record(Probed::Status(404))
        .record(Probed::Status(200))
        .record(Probed::Status(403));
    assert_eq!(probe.end(), Some(ProbeEnd::Latest(1)));
}

#[test]
fn journal_line_is_identifier_comma_revision() {
    assert_eq!(journal_line("2301.00001", 1), "2301.00001,1");
    assert_eq!(journal_line("math/0607467", 12), "math/0607467,12");
}

#[test]
fn first_stop_is_found() {
    let ends = vec![
        ProbeEnd::Latest(1),
        ProbeEnd::Stopped(Fatal::ConnectFailed),
        ProbeEnd::Stopped(Fatal::Forbidden),
    ];
    assert_eq!(find_fatal(&ends), Some(Fatal::ConnectFailed));
    assert_eq!(find_fatal(&vec![ProbeEnd::Latest(1), ProbeEnd::Latest(2)]), None);
    assert_eq!(find_fatal(&Vec::new()), None);
}

#[test]
fn version_checks_run_in_batches_of_four() {
    let mut run = check_ids_http(tasks(&["a", "b", "c", "d", "e"]));
    assert!(!run.is_finished());
    assert_eq!(run.next_batch(), tasks(&["a", "b", "c", "d"]));
    let ends = vec![
        ProbeEnd::Latest(1),
        ProbeEnd::Latest(2),
        ProbeEnd::Latest(10),
        ProbeEnd::Latest(3),
    ];
    assert_eq!(run.complete_batch(&ends), journal(&["a,1", "b,2", "c,10", "d,3"]));
    assert_eq!(run.next_batch(), tasks(&["e"]));
    assert_eq!(run.complete_batch(&vec![ProbeEnd::Latest(7)]), journal(&["e,7"]));
    assert!(run.is_finished());
}

#[test]
fn stopped_probe_aborts_the_batch() {
    let mut run = check_ids_http(tasks(&["a", "b", "c"]));
    let ends =
        vec![ProbeEnd::Latest(1), ProbeEnd::Stopped(Fatal::Forbidden), ProbeEnd::Latest(2)];
    assert_eq!(run.complete_batch(&ends), BatchEnd::Abort(Fatal::Forbidden));
    assert!(!run.is_finished());
    assert_eq!(run.next_batch(), tasks(&["a", "b", "c"]));
}

#[test]
fn batch_of_probes_is_closed_as_a_whole() {
    let mut run = check_ids_http(tasks(&["a", "b", "c"]));
    assert_eq!(run.complete_batch(&vec![ProbeEnd::Latest(1)]), BatchEnd::Incomplete);
    assert_eq!(
        run.complete_batch(&vec![ProbeEnd::Stopped(Fatal::Forbidden)]),
        BatchEnd::Incomplete
    );
    assert_eq!(run.next_batch(), tasks(&["a", "b", "c"]));
}

#[test]
fn run_without_tasks_is_finished() {
    let run = check_ids_http(Vec::new());
    assert!(run.is_finished());
    assert_eq!(run.next_batch(), Vec::<String>::new());
}
