use ar5iv_util::config::{
    Config, ConfigError, BATCH_DELAY_SECS, OPTION_CORPUS_ROOT, OPTION_DELAY, OPTION_JOURNAL,
    OPTION_LOCAL_IDS, OPTION_RECORD_EXHAUSTED, OPTION_TIMEOUT, OPTION_WIDTH, OPTION_WORK_LIST,
    TIMEOUT_SECS,
};
use ar5iv_util::fetch::Outcome;

#[test]
fn default_settings() {
    let config = Config::default();
    assert_eq!(config.corpus_root, "/data/arxmliv");
    assert_eq!(config.work_list_path, "ids_to_update.txt");
    assert_eq!(config.journal_path, "already_updated.log");
    assert_eq!(config.local_ids_path, None);
    assert_eq!(config.width, 4);
    assert_eq!(config.timeout_secs, 120);
    assert_eq!(config.batch_delay_secs, 1);
    assert!(config.record_exhausted);
    assert_eq!(TIMEOUT_SECS, 120);
    assert_eq!(BATCH_DELAY_SECS, 1);
}

#[test]
fn option_names() {
    assert_eq!(OPTION_CORPUS_ROOT, "corpus-root");
    assert_eq!(OPTION_WORK_LIST, "work-list");
    assert_eq!(OPTION_JOURNAL, "journal");
    assert_eq!(OPTION_LOCAL_IDS, "local-ids");
    assert_eq!(OPTION_WIDTH, "width");
    assert_eq!(OPTION_TIMEOUT, "timeout");
    assert_eq!(OPTION_DELAY, "delay");
    assert_eq!(OPTION_RECORD_EXHAUSTED, "record-exhausted");
}

#[test]
fn paths_are_overridden() {
    let config = Config::default()
        .set("corpus-root", "/srv/corpus")
        .unwrap()
        .set("work-list", "todo.txt")
        .unwrap()
        .set("journal", "done.log")
        .unwrap()
        .set("local-ids", "unchecked_ids.txt")
        .unwrap();
    let expected = Config {
        corpus_root: "/srv/corpus".to_string(),
        work_list_path: "todo.txt".to_string(),
        journal_path: "done.log".to_string(),
        local_ids_path: Some("unchecked_ids.txt".to_string()),
        ..Config::default()
    };
    assert_eq!(config, expected);
}

#[test]
fn numbers_are_overridden() {
    let config = Config::default()
        .set("width", "8")
        .unwrap()
        .set("timeout", "60")
        .unwrap()
        .set("delay", "0")
        .unwrap();
    let expected =
        Config { width: 8, timeout_secs: 60, batch_delay_secs: 0, ..Config::default() };
    assert_eq!(config, expected);
}

#[test]
fn recording_of_exhausted_identifiers_is_switched() {
    let off = Config::default().set("record-exhausted", "no").unwrap();
    assert!(!off.record_exhausted);
    let on = off.set("record-exhausted", "yes").unwrap();
    assert_eq!(on, Config::default());
}

#[test]
fn width_zero_is_refused() {
    assert_eq!(Config::default().set("width", "0"), Err(ConfigError::ZeroWidth));
    assert_eq!(Config::default().set("width", "000"), Err(ConfigError::ZeroWidth));
}

#[test]
fn what_is_no_number_is_no_setting() {
    assert_eq!(Config::default().set("width", "four"), Err(ConfigError::NotANumber));
    assert_eq!(Config::default().set("width", ""), Err(ConfigError::NotANumber));
    assert_eq!(Config::default().set("width", "-4"), Err(ConfigError::NotANumber));
    assert_eq!(Config::default().set("timeout", "1.5"), Err(ConfigError::NotANumber));
    assert_eq!(Config::default().set("delay", "1s"), Err(ConfigError::NotANumber));
}

#[test]
fn number_that_does_not_fit_is_no_setting() {
    assert_eq!(
        Config::default().set("timeout", "18446744073709551616"),
        Err(ConfigError::NotANumber)
    );
    assert_eq!(
        Config::default().set("width", "99999999999999999999999999"),
        Err(ConfigError::NotANumber)
    );
    let largest = Config::default().set("timeout", "18446744073709551615").unwrap();
    assert_eq!(largest.timeout_secs, u64::MAX);
}

#[test]
fn neither_yes_nor_no_is_refused() {
    assert_eq!(Config::default().set("record-exhausted", "maybe"), Err(ConfigError::NotYesOrNo));
    assert_eq!(Config::default().set("record-exhausted", ""), Err(ConfigError::NotYesOrNo));
    assert_eq!(Config::default().set("record-exhausted", "YES"), Err(ConfigError::NotYesOrNo));
}

#[test]
fn unknown_option_is_refused() {
    assert_eq!(Config::default().set("threads", "4"), Err(ConfigError::UnknownOption));
    assert_eq!(Config::default().set("", "4"), Err(ConfigError::UnknownOption));
    assert_eq!(Config::default().set("Width", "4"), Err(ConfigError::UnknownOption));
}

#[test]
fn pipeline_takes_width_and_recording_from_the_settings() {
    let config =
        Config::default().set("width", "2").unwrap().set("record-exhausted", "no").unwrap();
    let work = vec!["a".to_string(), "b".to_string(), "c".to_string()];
    let mut run = config.pipeline(work).unwrap();
    assert_eq!(run.next_batch(), vec!["a".to_string(), "b".to_string()]);
    let closed = run.complete_batch(&vec![Outcome::Exhausted, Outcome::Fetched]).unwrap();
    assert_eq!(closed.lines, vec!["b".to_string()]);
    assert_eq!(closed.pause_secs, 1);
}

#[test]
fn settings_with_width_zero_give_no_pipeline() {
    let config = Config { width: 0, ..Config::default() };
    assert!(config.pipeline(vec!["a".to_string()]).is_none());
}
