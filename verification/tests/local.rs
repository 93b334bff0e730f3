use ar5iv_util::local::{
    archive_path, create_list_of_ids, entry_id, filter_list_to_check, repackage_arxiv_download,
    single_file_transfer, ArchiveEntry, EntryHeader, RawStream, Repackaging, SkipReason,
    CHECKED_IDS_FILEPATH, CORPUS_ROOT_PATH, IDS_TO_UPDATE_FILEPATH, UNCHECKED_IDS_FILEPATH,
};

fn names(items: &[&str]) -> Vec<String> {
    items.iter().map(|s| s.to_string()).collect()
}

fn entry(name: &str, data: &[u8]) -> ArchiveEntry {
    ArchiveEntry { name: name.to_string(), header: None, data: data.to_vec() }
}

fn read_entry(name: &str, mode: u32, modified: i64, data: &[u8]) -> ArchiveEntry {
    let header = EntryHeader { mode, modified, link: None };
    ArchiveEntry { name: name.to_string(), header: Some(header), data: data.to_vec() }
}

#[test]
fn default_paths() {
    assert_eq!(UNCHECKED_IDS_FILEPATH, "unchecked_ids.txt");
    assert_eq!(IDS_TO_UPDATE_FILEPATH, "ids_to_update.txt");
    assert_eq!(CHECKED_IDS_FILEPATH, "checked_ids.csv");
    assert_eq!(CORPUS_ROOT_PATH, "/data/arxmliv");
}

#[test]
fn old_style_directory_names_get_their_slash() {
    let listed = create_list_of_ids(false, &names(&["math0607467", "hep-th9901001"]));
    assert_eq!(listed, Some(names(&["math/0607467", "hep-th/9901001"])));
}

#[test]
fn new_style_directory_names_stay() {
    let listed = create_list_of_ids(false, &names(&["2301.00001", "0704.0001"]));
    assert_eq!(listed, Some(names(&["2301.00001", "0704.0001"])));
}

#[test]
fn names_that_the_pattern_does_not_match_stay() {
    let listed = create_list_of_ids(false, &names(&["math", "math0", "", "0math1"]));
    assert_eq!(listed, Some(names(&["math", "math0", "", "0math1"])));
}

#[test]
fn list_is_in_the_order_of_the_names() {
    let listed = create_list_of_ids(false, &names(&["2301.00002", "cs0001001", "2301.00001"]));
    assert_eq!(listed, Some(names(&["2301.00002", "cs/0001001", "2301.00001"])));
}

#[test]
fn existing_list_is_not_made_again() {
    assert_eq!(create_list_of_ids(true, &names(&["math0607467"])), None);
    assert_eq!(create_list_of_ids(true, &Vec::new()), None);
}

#[test]
fn empty_corpus_gives_an_empty_list() {
    assert_eq!(create_list_of_ids(false, &Vec::new()), Some(Vec::new()));
}

#[test]
fn entry_id_joins_the_parts_with_a_slash() {
    let parts = Some(("math".to_string(), "0607467".to_string()));
    assert_eq!(entry_id("math0607467", parts), "math/0607467");
    assert_eq!(entry_id("2301.00001", None), "2301.00001");
}

#[test]
fn work_list_without_the_journaled_identifier() {
    let work = names(&["2301.00001", "2301.00002"]);
    let journal = names(&["2301.00001"]);
    assert_eq!(filter_list_to_check(&work, &journal), names(&["2301.00002"]));
}

#[test]
fn checked_identifiers_with_revision_are_left_out() {
    let work = names(&["2301.00001", "math/0607467", "2301.00003"]);
    let journal = names(&["math/0607467,2", "2301.00001,1"]);
    assert_eq!(filter_list_to_check(&work, &journal), names(&["2301.00003"]));
}

#[test]
fn without_journal_the_whole_list_is_to_check() {
    let work = names(&["b", "a"]);
    assert_eq!(filter_list_to_check(&work, &Vec::new()), names(&["b", "a"]));
}

#[test]
fn empty_lines_are_never_to_check() {
    let work = names(&["", "a", ""]);
    assert_eq!(filter_list_to_check(&work, &Vec::new()), names(&["a"]));
}

#[test]
fn journaled_identifiers_stay_out_in_every_later_run() {
    let mut journal = names(&["a,1"]);
    let first = filter_list_to_check(&names(&["a", "b", "c"]), &journal);
    assert_eq!(first, names(&["b", "c"]));
    journal.push("b,4".to_string());
    let second = filter_list_to_check(&names(&["c", "b", "a", "d"]), &journal);
    assert_eq!(second, names(&["c", "d"]));
    for id in ["a", "b"] {
        assert!(!second.contains(&id.to_string()));
    }
}

#[test]
fn archive_path_is_directory_name_and_extension() {
    assert_eq!(
        archive_path("/data/arxmliv/2301", "2301.00001"),
        "/data/arxmliv/2301/2301.00001.zip"
    );
    assert_eq!(archive_path("", ""), "/.zip");
}

#[test]
fn single_file_entry_holds_the_stream() {
    let made = single_file_transfer("2301.00001.tex", b"\\documentclass{article}".to_vec());
    assert_eq!(made, entry("2301.00001.tex", b"\\documentclass{article}"));
}

#[test]
fn payload_without_bytes_gives_no_archive() {
    let state = repackage_arxiv_download(&[], "/tmp/x".to_string(), "2301.00001".to_string());
    assert!(matches!(state, Repackaging::Skip(SkipReason::EmptyPayload)));
    let state = state.with_entries(Some(vec![entry("a.tex", b"a")]));
    assert!(matches!(state, Repackaging::Skip(SkipReason::EmptyPayload)));
    let state = state.with_raw(RawStream::Data(b"a".to_vec()));
    assert!(matches!(state, Repackaging::Skip(SkipReason::EmptyPayload)));
}

#[test]
fn payload_is_first_opened_as_an_archive() {
    let state = repackage_arxiv_download(&[1], "/tmp/x".to_string(), "2301.00001".to_string());
    match state {
        Repackaging::OpenArchive { to_dir, base_name } => {
            assert_eq!(to_dir, "/tmp/x");
            assert_eq!(base_name, "2301.00001");
        },
        _ => panic!("the payload is not opened as an archive"),
    }
}

#[test]
fn entries_of_an_archive_are_carried_over() {
    let files = vec![
        entry("main.tex", b"\\input{sections/intro}"),
        entry("sections/intro.tex", b"Hello"),
        entry("figure.png", &[0x89, 0x50, 0x4e, 0x47, 0, 255]),
    ];
    let state = repackage_arxiv_download(
        &[31, 139, 8],
        "/data/arxmliv/2301".to_string(),
        "2301.00001".to_string(),
    )
    .with_entries(Some(files.clone()));
    match state {
        Repackaging::Write(archive) => {
            assert_eq!(archive.path(), "/data/arxmliv/2301/2301.00001.zip");
            assert_eq!(archive.entries(), &files);
        },
        _ => panic!("no canonical archive"),
    }
}

#[test]
fn archive_without_entries_falls_back_to_the_single_stream() {
    let state = repackage_arxiv_download(&[31, 139, 8], "/d".to_string(), "math0607467".to_string())
        .with_entries(Some(Vec::new()));
    match state {
        Repackaging::OpenRaw { to_dir, base_name } => {
            assert_eq!(to_dir, "/d");
            assert_eq!(base_name, "math0607467");
        },
        _ => panic!("the payload is not opened as a single stream"),
    }
}

#[test]
fn single_stream_becomes_one_tex_file() {
    let text = b"\\documentclass{article}\\begin{document}x\\end{document}";
    let state =
        repackage_arxiv_download(&[31, 139, 8], "/d/0607".to_string(), "math0607467".to_string())
            .with_entries(None)
            .with_raw(RawStream::Data(text.to_vec()));
    match state {
        Repackaging::Write(archive) => {
            assert_eq!(archive.path(), "/d/0607/math0607467.zip");
            assert_eq!(archive.entries(), &vec![entry("math0607467.tex", text)]);
        },
        _ => panic!("no canonical archive"),
    }
}

#[test]
fn stream_without_bytes_is_still_one_file() {
    let state = repackage_arxiv_download(&[1], "/d".to_string(), "x".to_string())
        .with_entries(None)
        .with_raw(RawStream::Data(Vec::new()));
    match state {
        Repackaging::Write(archive) => assert_eq!(archive.entries(), &vec![entry("x.tex", b"")]),
        _ => panic!("no canonical archive"),
    }
}

#[test]
fn unreadable_payload_is_skipped() {
    let state = repackage_arxiv_download(&[1, 2, 3], "/d".to_string(), "x".to_string())
        .with_entries(None)
        .with_raw(RawStream::Unrecognized);
    assert!(matches!(state, Repackaging::Skip(SkipReason::Unrecognized)));
}

#[test]
fn stream_without_content_is_skipped() {
    let state = repackage_arxiv_download(&[1, 2, 3], "/d".to_string(), "x".to_string())
        .with_entries(Some(Vec::new()))
        .with_raw(RawStream::NoContent);
    assert!(matches!(state, Repackaging::Skip(SkipReason::NoContent)));
}

#[test]
fn archive_content_is_never_mixed_with_the_stream() {
    let files = vec![entry("a.tex", b"a")];
    let state = repackage_arxiv_download(&[1], "/d".to_string(), "x".to_string())
        .with_entries(Some(files.clone()))
        .with_raw(RawStream::Data(b"other".to_vec()));
    match state {
        Repackaging::Write(archive) => assert_eq!(archive.entries(), &files),
        _ => panic!("no canonical archive"),
    }
}

#[test]
fn stream_is_not_taken_before_the_archive_was_tried() {
    let state = repackage_arxiv_download(&[1], "/d".to_string(), "x".to_string())
        .with_raw(RawStream::Data(b"other".to_vec()));
    assert!(matches!(state, Repackaging::OpenArchive { .. }));
}

#[test]
fn headers_of_an_archive_are_carried_over() {
    let link = EntryHeader {
        mode: 0o120777,
        modified: 1672653600,
        link: Some("main.tex".to_string()),
    };
    let files = vec![
        read_entry("figures/", 0o040755, 1672653600, b""),
        read_entry("figures/plot.eps", 0o100644, 1175541522, b"%!PS"),
        read_entry("run.sh", 0o100755, 0, b"#!/bin/sh"),
        ArchiveEntry { name: "paper.tex".to_string(), header: Some(link), data: Vec::new() },
    ];
    let state = repackage_arxiv_download(&[31, 139, 8], "/d".to_string(), "x".to_string())
        .with_entries(Some(files.clone()));
    match state {
        Repackaging::Write(archive) => {
            assert_eq!(archive.entries(), &files);
            assert_eq!(archive.entries()[0].header.as_ref().unwrap().mode, 0o040755);
            assert_eq!(archive.entries()[1].header.as_ref().unwrap().modified, 1175541522);
        },
        _ => panic!("no canonical archive"),
    }
}

#[test]
fn single_stream_gets_a_header_of_its_own() {
    let state = repackage_arxiv_download(&[1], "/d".to_string(), "x".to_string())
        .with_entries(None)
        .with_raw(RawStream::Data(b"text".to_vec()));
    match state {
        Repackaging::Write(archive) => assert_eq!(archive.entries()[0].header, None),
        _ => panic!("no canonical archive"),
    }
}
