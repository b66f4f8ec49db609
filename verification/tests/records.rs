use registry_proxy::record::{list_packages, list_records, name_of_record, uri_of_record};

#[test]
fn record_name_is_base64_with_suffix() {
    assert_eq!(name_of_record("left-pad"), Some("bGVmdC1wYWQ=.bin".to_string()));
    assert_eq!(name_of_record(""), Some(".bin".to_string()));
    assert_eq!(name_of_record("a"), Some("YQ==.bin".to_string()));
    assert_eq!(name_of_record("abc"), Some("YWJj.bin".to_string()));
}

#[test]
fn record_name_of_file_identifier() {
    assert_eq!(
        name_of_record("left-pad/-/left-pad-1.0.0.tgz"),
        Some("bGVmdC1wYWQvLS9sZWZ0LXBhZC0xLjAuMC50Z3o=.bin".to_string())
    );
}

#[test]
fn record_name_turns_back_into_identifier() {
    assert_eq!(uri_of_record("bGVmdC1wYWQ=.bin"), Some("left-pad".to_string()));
    assert_eq!(uri_of_record(".bin"), Some(String::new()));
    assert_eq!(uri_of_record("YQ==.bin"), Some("a".to_string()));
}

#[test]
fn round_trip_of_every_identifier_form() {
    let identifiers = [
        "left-pad",
        "%40scope%2Fpkg",
        "left-pad/-/left-pad-1.0.0.tgz",
        "%40scope%2Fpkg/-/pkg-2.0.0.tgz",
        "-/package/left-pad/dist-tags",
        "",
        "héllo/wörld",
        "a",
        "ab",
        "abc",
        "abcd",
    ];
    for identifier in identifiers {
        let name = name_of_record(identifier).unwrap();
        assert!(name.ends_with(".bin"));
        assert_ne!(name, identifier);
        assert_eq!(uri_of_record(&name), Some(identifier.to_string()));
    }
}

#[test]
fn name_without_suffix_is_no_record() {
    assert_eq!(uri_of_record("bGVmdC1wYWQ="), None);
    assert_eq!(uri_of_record("bGVmdC1wYWQ=.bi"), None);
    assert_eq!(uri_of_record("bGVmdC1wYWQ=.bin.tmp"), None);
    assert_eq!(uri_of_record(""), None);
    assert_eq!(uri_of_record("bin"), None);
}

#[test]
fn name_that_is_not_base64_is_no_record() {
    assert_eq!(uri_of_record("not base64!.bin"), None);
    assert_eq!(uri_of_record("YQ.bin"), None);
    assert_eq!(uri_of_record("YQ=.bin"), None);
    assert_eq!(uri_of_record("YR==.bin"), None);
}

#[test]
fn name_of_bytes_that_are_no_text_is_no_record() {
    // "/w==" is the byte 0xff, which is not UTF-8.
    assert_eq!(uri_of_record("/w==.bin"), None);
}

#[test]
fn listing_passes_over_what_is_no_record() {
    let names = vec![
        "bGVmdC1wYWQ=.bin".to_string(),
        "README.md".to_string(),
        "bGVmdC1wYWQvLS9sZWZ0LXBhZC0xLjAuMC50Z3o=.bin".to_string(),
        "???.bin".to_string(),
        "/w==.bin".to_string(),
        "YQ==.bin".to_string(),
    ];
    assert_eq!(
        list_records(&names),
        vec![
            "left-pad".to_string(),
            "left-pad/-/left-pad-1.0.0.tgz".to_string(),
            "a".to_string(),
        ]
    );
}

#[test]
fn listing_of_nothing_is_empty() {
    assert_eq!(list_records(&Vec::new()), Vec::<String>::new());
    assert_eq!(list_packages(&Vec::new()), Vec::<String>::new());
}

#[test]
fn packages_are_the_records_of_metadata_form() {
    let names = vec![
        name_of_record("left-pad").unwrap(),
        name_of_record("left-pad/-/left-pad-1.0.0.tgz").unwrap(),
        name_of_record("-/package/left-pad/dist-tags").unwrap(),
        name_of_record("%40scope%2Fpkg").unwrap(),
        "garbage".to_string(),
    ];
    assert_eq!(
        list_packages(&names),
        vec!["left-pad".to_string(), "%40scope%2Fpkg".to_string()]
    );
}
