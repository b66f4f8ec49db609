use registry_proxy::identifier::{
    dist_tags_identifier, file_identifier, has_metadata_form, metadata_identifier,
    scoped_package_name,
};

#[test]
fn metadata_identifier_of_plain_name() {
    assert_eq!(metadata_identifier("left-pad"), "left-pad");
}

#[test]
fn metadata_identifier_of_scoped_name() {
    assert_eq!(metadata_identifier("@scope/pkg"), "%40scope%2Fpkg");
}

#[test]
fn metadata_identifier_of_empty_name() {
    assert_eq!(metadata_identifier(""), "");
}

#[test]
fn unreserved_characters_are_kept() {
    assert_eq!(
        metadata_identifier("AZaz09-_.~"),
        "AZaz09-_.~"
    );
}

#[test]
fn reserved_characters_are_escaped_in_upper_case() {
    assert_eq!(metadata_identifier("a b"), "a%20b");
    assert_eq!(metadata_identifier("a/b"), "a%2Fb");
    assert_eq!(metadata_identifier("100%"), "100%25");
    assert_eq!(metadata_identifier("a+b?c=d&e"), "a%2Bb%3Fc%3Dd%26e");
}

#[test]
fn text_outside_ascii_is_escaped_byte_by_byte() {
    assert_eq!(metadata_identifier("é"), "%C3%A9");
    assert_eq!(metadata_identifier("日本"), "%E6%97%A5%E6%9C%AC");
}

#[test]
fn file_identifier_joins_with_separator() {
    assert_eq!(
        file_identifier("left-pad", "left-pad-1.0.0.tgz"),
        "left-pad/-/left-pad-1.0.0.tgz"
    );
}

#[test]
fn file_identifier_escapes_both_segments() {
    assert_eq!(file_identifier("a/b", "c d"), "a%2Fb/-/c%20d");
}

#[test]
fn file_identifier_of_scoped_package() {
    let package = scoped_package_name("scope", "pkg");
    assert_eq!(package, "@scope/pkg");
    assert_eq!(
        file_identifier(&package, "pkg-2.0.0.tgz"),
        "%40scope%2Fpkg/-/pkg-2.0.0.tgz"
    );
}

#[test]
fn dist_tags_identifier_wraps_name() {
    assert_eq!(dist_tags_identifier("left-pad"), "-/package/left-pad/dist-tags");
}

#[test]
fn dist_tags_identifier_escapes_name() {
    assert_eq!(
        dist_tags_identifier("@scope/pkg"),
        "-/package/%40scope%2Fpkg/dist-tags"
    );
}

#[test]
fn metadata_form_has_no_separator() {
    assert!(has_metadata_form("%40scope%2Fpkg"));
    assert!(has_metadata_form("left-pad"));
    assert!(has_metadata_form(""));
    assert!(!has_metadata_form("left-pad/-/left-pad-1.0.0.tgz"));
    assert!(!has_metadata_form("-/package/left-pad/dist-tags"));
    assert!(!has_metadata_form("/"));
}

#[test]
fn built_identifiers_have_their_forms() {
    let names = ["left-pad", "@scope/pkg", "", "a/b/c", "-"];
    for name in names {
        assert!(has_metadata_form(&metadata_identifier(name)));
        assert!(!has_metadata_form(&file_identifier(name, "f.tgz")));
        assert!(!has_metadata_form(&dist_tags_identifier(name)));
    }
}

#[test]
fn forms_do_not_collide() {
    assert_ne!(file_identifier("-", "package"), dist_tags_identifier(""));
    assert_ne!(metadata_identifier("a/-/b"), file_identifier("a", "b"));
    assert_ne!(
        metadata_identifier("-/package/a/dist-tags"),
        dist_tags_identifier("a")
    );
}
