use cargit::version::{
    bump, parse_parts, parse_u32, render, split_parts_from_version, split_version_from_cargo_toml,
    update_manifest_version, ParseFailure, Version, VersionPart,
};

#[test]
fn version_renders_as_three_dotted_parts() {
    let v = Version { major: 1, minor: 2, patch: 3 };
    assert_eq!(v.to_string(), "1.2.3");
}

#[test]
fn version_renders_zeros_and_large_numbers() {
    assert_eq!(Version { major: 0, minor: 0, patch: 0 }.to_string(), "0.0.0");
    assert_eq!(
        Version { major: 4294967295, minor: 10, patch: 307 }.to_string(),
        "4294967295.10.307"
    );
}

#[test]
fn parse_u32_reads_digits() {
    assert_eq!(parse_u32("0"), Ok(0));
    assert_eq!(parse_u32("42"), Ok(42));
    assert_eq!(parse_u32("4294967295"), Ok(4294967295));
}

#[test]
fn parse_u32_rejects_empty_signs_and_overflow() {
    assert_eq!(parse_u32(""), Err(ParseFailure::NumericFormat));
    assert_eq!(parse_u32("+1"), Err(ParseFailure::NumericFormat));
    assert_eq!(parse_u32("12a"), Err(ParseFailure::NumericFormat));
    assert_eq!(parse_u32("4294967296"), Err(ParseFailure::NumericFormat));
}

#[test]
fn split_parts_takes_the_first_two_dots() {
    let (major, minor, patch) = split_parts_from_version("10.20.30").unwrap();
    assert_eq!(major, "10");
    assert_eq!(minor, "20");
    assert_eq!(patch, "30");
}

#[test]
fn split_parts_without_two_dots_fails() {
    assert_eq!(
        split_parts_from_version("123").unwrap_err(),
        ParseFailure::SeparatorNotFound
    );
    assert_eq!(
        split_parts_from_version("1.2").unwrap_err(),
        ParseFailure::SeparatorNotFound
    );
}

#[test]
fn parse_parts_reads_a_version() {
    assert_eq!(
        parse_parts("1.2.3").unwrap(),
        Version { major: 1, minor: 2, patch: 3 }
    );
}

#[test]
fn parse_parts_rejects_bad_numbers() {
    assert_eq!(parse_parts("a.2.3").unwrap_err(), ParseFailure::NumericFormat);
    assert_eq!(parse_parts("1..3").unwrap_err(), ParseFailure::NumericFormat);
    assert_eq!(
        parse_parts("4294967296.0.0").unwrap_err(),
        ParseFailure::NumericFormat
    );
}

#[test]
fn bump_major_raises_major_and_zeroes_the_rest() {
    let v = Version { major: 1, minor: 2, patch: 3 };
    assert_eq!(bump(v, VersionPart::Major), Version { major: 2, minor: 0, patch: 0 });
}

#[test]
fn bump_minor_raises_minor_and_zeroes_patch() {
    let v = Version { major: 1, minor: 2, patch: 3 };
    assert_eq!(bump(v, VersionPart::Minor), Version { major: 1, minor: 3, patch: 0 });
}

#[test]
fn bump_patch_raises_patch_only() {
    let v = Version { major: 1, minor: 2, patch: 3 };
    assert_eq!(bump(v, VersionPart::Patch), Version { major: 1, minor: 2, patch: 4 });
}

#[test]
fn manifest_split_surrounds_the_version() {
    let doc = "name = \"tool\"\nversion = \"1.2.3\"\nedition = \"2021\"\n";
    let (before, version, after) = split_version_from_cargo_toml(doc).unwrap();
    assert_eq!(before, "name = \"tool\"\nversion = \"");
    assert_eq!(version, "1.2.3");
    assert_eq!(after, "\"\nedition = \"2021\"\n");
}

#[test]
fn manifest_without_marker_fails() {
    assert_eq!(
        split_version_from_cargo_toml("name = \"tool\"\n").unwrap_err(),
        ParseFailure::MarkerNotFound
    );
}

#[test]
fn manifest_without_closing_quote_fails() {
    assert_eq!(
        split_version_from_cargo_toml("version = \"1.2.3").unwrap_err(),
        ParseFailure::TerminatorNotFound
    );
}

#[test]
fn render_round_trips_through_extract_and_parse() {
    let v = Version { major: 7, minor: 0, patch: 12 };
    let prefix = "name = \"tool\"\nversion = \"";
    let suffix = "\"\nedition = \"2021\"\n";
    let doc = render(prefix, &v, suffix);
    let (before, version, after) = split_version_from_cargo_toml(doc.as_str()).unwrap();
    assert_eq!(before, prefix);
    assert_eq!(after, suffix);
    assert_eq!(parse_parts(version).unwrap(), v);
}

#[test]
fn update_bumps_the_version_inside_the_document() {
    let doc = "name = \"tool\"\nversion = \"1.2.3\"\n";
    let (new_doc, new_version) = update_manifest_version(doc, VersionPart::Patch).unwrap();
    assert_eq!(new_doc, "name = \"tool\"\nversion = \"1.2.4\"\n");
    assert_eq!(new_version, Version { major: 1, minor: 2, patch: 4 });
}

#[test]
fn update_with_major_zeroes_the_lesser_parts() {
    let doc = "version = \"1.2.3\"";
    let (new_doc, new_version) = update_manifest_version(doc, VersionPart::Major).unwrap();
    assert_eq!(new_doc, "version = \"2.0.0\"");
    assert_eq!(new_version, Version { major: 2, minor: 0, patch: 0 });
}

#[test]
fn update_propagates_parse_failures() {
    assert_eq!(
        update_manifest_version("no marker here", VersionPart::Patch).unwrap_err(),
        ParseFailure::MarkerNotFound
    );
    assert_eq!(
        update_manifest_version("version = \"1.2\"", VersionPart::Patch).unwrap_err(),
        ParseFailure::SeparatorNotFound
    );
}

#[test]
fn update_refuses_a_part_at_its_limit() {
    let doc = "version = \"1.2.4294967295\"";
    assert_eq!(
        update_manifest_version(doc, VersionPart::Patch).unwrap_err(),
        ParseFailure::NumericFormat
    );
}

#[test]
fn parse_failure_messages_name_the_cause() {
    assert_eq!(
        ParseFailure::MarkerNotFound.message(),
        "could not locate the version marker"
    );
    assert_eq!(
        ParseFailure::NumericFormat.message(),
        "could not parse a version part into a 32-bit number"
    );
}
