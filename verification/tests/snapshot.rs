use ar5iv_util::snapshot::{
    is_revised_since, later, revision, revision_at, Instant, Revision, FIRST_VERSION,
    LAST_UPDATE_SECONDS,
};

fn at(seconds: i64) -> Instant {
    Instant { seconds, nanos: 0 }
}

fn dated(version: &str, seconds: i64) -> Revision {
    Revision { version: version.to_string(), created: Some(at(seconds)) }
}

#[test]
fn snapshot_constants() {
    assert_eq!(FIRST_VERSION, "v1");
    assert_eq!(LAST_UPDATE_SECONDS, 1667260800);
}

#[test]
fn dates_are_read_as_points_in_time() {
    let read = revision("v2".to_string(), "Mon, 2 Jan 2023 10:00:00 GMT");
    assert_eq!(read, dated("v2", 1672653600));
    let read = revision("v1".to_string(), "Mon, 2 Apr 2007 19:18:42 GMT");
    assert_eq!(read, dated("v1", 1175541522));
}

#[test]
fn offsets_are_taken_into_account() {
    let read = revision("v3".to_string(), "Tue, 1 Nov 2022 02:00:00 +0200");
    assert_eq!(read.created, Some(at(LAST_UPDATE_SECONDS)));
    let read = revision("v3".to_string(), "Sat, 5 Nov 2022 12:30:00 -0500");
    assert_eq!(read.created, Some(at(1667669400)));
}

#[test]
fn unreadable_date_gives_no_point_in_time() {
    assert_eq!(revision("v2".to_string(), "yesterday").created, None);
    assert_eq!(revision("v2".to_string(), "").created, None);
    assert_eq!(revision("v2".to_string(), "2023-01-02T10:00:00Z").created, None);
}

#[test]
fn revision_from_seconds_and_nanoseconds() {
    let made = revision_at("v2".to_string(), Some((5, 7)));
    assert_eq!(made.created, Some(Instant { seconds: 5, nanos: 7 }));
    assert_eq!(made.version, "v2");
    assert_eq!(revision_at("v2".to_string(), None).created, None);
}

#[test]
fn later_compares_seconds_then_nanoseconds() {
    assert!(later(at(2), at(1)));
    assert!(!later(at(1), at(2)));
    assert!(!later(at(1), at(1)));
    assert!(later(Instant { seconds: 1, nanos: 5 }, Instant { seconds: 1, nanos: 4 }));
    assert!(!later(Instant { seconds: 1, nanos: 4 }, Instant { seconds: 1, nanos: 5 }));
    assert!(later(Instant { seconds: 2, nanos: 0 }, Instant { seconds: 1, nanos: 999_999_999 }));
    assert!(later(at(-1), at(-2)));
}

#[test]
fn new_second_revision_makes_a_candidate() {
    let revisions = vec![dated("v1", 1175541522), dated("v2", 1672653600)];
    assert_eq!(is_revised_since(&revisions, at(LAST_UPDATE_SECONDS)), Some(true));
}

#[test]
fn new_first_revision_makes_no_candidate() {
    let revisions = vec![dated("v1", 1672653600)];
    assert_eq!(is_revised_since(&revisions, at(LAST_UPDATE_SECONDS)), Some(false));
}

#[test]
fn old_revisions_make_no_candidate() {
    let revisions = vec![dated("v1", 1175541522), dated("v2", 1175541523)];
    assert_eq!(is_revised_since(&revisions, at(LAST_UPDATE_SECONDS)), Some(false));
}

#[test]
fn revision_at_the_last_update_is_not_later() {
    let revisions = vec![dated("v1", 1), dated("v2", LAST_UPDATE_SECONDS)];
    assert_eq!(is_revised_since(&revisions, at(LAST_UPDATE_SECONDS)), Some(false));
    let revisions = vec![dated("v1", 1), dated("v2", LAST_UPDATE_SECONDS + 1)];
    assert_eq!(is_revised_since(&revisions, at(LAST_UPDATE_SECONDS)), Some(true));
}

#[test]
fn article_without_revisions_is_no_candidate() {
    assert_eq!(is_revised_since(&Vec::new(), at(LAST_UPDATE_SECONDS)), Some(false));
}

#[test]
fn unreadable_date_before_a_new_revision_gives_no_answer() {
    let revisions = vec![
        Revision { version: "v1".to_string(), created: None },
        dated("v2", 1672653600),
    ];
    assert_eq!(is_revised_since(&revisions, at(LAST_UPDATE_SECONDS)), None);
}

#[test]
fn unreadable_date_behind_a_new_revision_is_not_reached() {
    let revisions = vec![
        dated("v1", 1),
        dated("v2", 1672653600),
        Revision { version: "v3".to_string(), created: None },
    ];
    assert_eq!(is_revised_since(&revisions, at(LAST_UPDATE_SECONDS)), Some(true));
}

#[test]
fn candidates_of_a_snapshot() {
    let last = at(LAST_UPDATE_SECONDS);
    let first = vec![
        revision("v1".to_string(), "Mon, 2 Apr 2007 19:18:42 GMT"),
        revision("v2".to_string(), "Mon, 2 Jan 2023 10:00:00 GMT"),
    ];
    let second = vec![revision("v1".to_string(), "Mon, 2 Jan 2023 10:00:00 GMT")];
    let third = vec![
        revision("v1".to_string(), "Mon, 2 Apr 2007 19:18:42 GMT"),
        revision("v2".to_string(), "Tue, 1 Nov 2022 00:00:00 GMT"),
        revision("v3".to_string(), "Tue, 1 Nov 2022 00:00:01 GMT"),
    ];
    assert_eq!(is_revised_since(&first, last), Some(true));
    assert_eq!(is_revised_since(&second, last), Some(false));
    assert_eq!(is_revised_since(&third, last), Some(true));
}
