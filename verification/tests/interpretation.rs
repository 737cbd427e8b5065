use playground_sandbox::interpret::{
    crate_block_of, crate_from_members, crates_from_output, parse_crate_list, parse_version,
    version_from_output,
};
use playground_sandbox::sandbox::{vec_to_str, SandboxError};

fn pair(name: &str, value: &str) -> (String, String) {
    (name.to_string(), value.to_string())
}

#[test]
fn version_banner_is_read() {
    let version =
        parse_version("release: 1.70.0\ncommit-hash: abcdef\ncommit-date: 2023-06-01\n").unwrap();
    assert_eq!(version.release, "1.70.0");
    assert_eq!(version.commit_hash, "abcdef");
    assert_eq!(version.commit_date, "2023-06-01");
}

#[test]
fn version_banner_without_commit_date() {
    let result = parse_version("release: 1.70.0\ncommit-hash: abcdef\n");
    assert!(matches!(result, Err(SandboxError::VersionDateMissing)));
}

#[test]
fn version_banner_without_commit_hash() {
    let result = parse_version("release: 1.70.0\ncommit-date: 2023-06-01\n");
    assert!(matches!(result, Err(SandboxError::VersionHashMissing)));
}

#[test]
fn version_banner_without_release() {
    let result = parse_version("commit-hash: abcdef\ncommit-date: 2023-06-01\n");
    assert!(matches!(result, Err(SandboxError::VersionReleaseMissing)));
    assert!(matches!(parse_version(""), Err(SandboxError::VersionReleaseMissing)));
    assert!(matches!(parse_version("rustc 1.70.0"), Err(SandboxError::VersionReleaseMissing)));
}

#[test]
fn version_banner_reports_the_first_missing_field() {
    assert!(matches!(
        parse_version("commit-date: 2023-06-01\n"),
        Err(SandboxError::VersionReleaseMissing)
    ));
    assert!(matches!(parse_version("release: 1.70.0\n"), Err(SandboxError::VersionHashMissing)));
}

#[test]
fn version_banner_field_without_value_is_missing() {
    assert!(matches!(
        parse_version("release:\ncommit-hash: abcdef\ncommit-date: 2023-06-01\n"),
        Err(SandboxError::VersionReleaseMissing)
    ));
    assert!(matches!(
        parse_version("release: 1.70.0\ncommit-hash:   \ncommit-date: 2023-06-01\n"),
        Err(SandboxError::VersionHashMissing)
    ));
    assert!(matches!(
        parse_version("release: 1.70.0\ncommit-hash: abcdef\ncommit-date:"),
        Err(SandboxError::VersionDateMissing)
    ));
}

#[test]
fn version_banner_in_any_order_among_other_lines() {
    let text = "rustc 1.72.0 (5680fa18f 2023-08-23)\r\nbinary: rustc\r\n  commit-date :  2023-08-23  \r\nhost: x86_64-unknown-linux-gnu\r\ncommit-hash:5680fa18f\r\nrelease:\t1.72.0\r\nLLVM version: 16.0.5";
    let version = parse_version(text).unwrap();
    assert_eq!(version.release, "1.72.0");
    assert_eq!(version.commit_hash, "5680fa18f");
    assert_eq!(version.commit_date, "2023-08-23");
}

#[test]
fn version_banner_takes_the_first_line_of_a_name() {
    let text = "release: 1.70.0\nrelease: 1.71.0\ncommit-hash: abc\ncommit-date: d: e\n";
    let version = parse_version(text).unwrap();
    assert_eq!(version.release, "1.70.0");
    assert_eq!(version.commit_date, "d: e");
    assert!(matches!(
        parse_version("release:\nrelease: 1.71.0\ncommit-hash: abc\ncommit-date: d\n"),
        Err(SandboxError::VersionReleaseMissing)
    ));
}

#[test]
fn version_banner_keeps_characters_outside_ascii() {
    let version =
        parse_version("release: 1.70.0-\u{3b2}\ncommit-hash: \u{e9}\u{1f600}\ncommit-date: \u{65e5}\n")
            .unwrap();
    assert_eq!(version.release, "1.70.0-\u{3b2}");
    assert_eq!(version.commit_hash, "\u{e9}\u{1f600}");
    assert_eq!(version.commit_date, "\u{65e5}");
}

#[test]
fn crate_list_is_read_in_order() {
    let text = "{\"name\":\"serde\",\"version\":\"1.0.0\",\"id\":\"serde-1.0.0\"}\n{\"name\":\"libc\",\"version\":\"0.2.0\",\"id\":\"libc-0.2.0\"}\n";
    let crates = parse_crate_list(text).unwrap();
    assert_eq!(crates.len(), 2);
    assert_eq!(crates[0].name, "serde");
    assert_eq!(crates[0].version, "1.0.0");
    assert_eq!(crates[0].id, "serde-1.0.0");
    assert_eq!(crates[1].name, "libc");
    assert_eq!(crates[1].version, "0.2.0");
    assert_eq!(crates[1].id, "libc-0.2.0");
}

#[test]
fn crate_list_is_not_sorted() {
    let text = "{\"name\":\"zed\",\"version\":\"2\",\"id\":\"z\"}\n{\"name\":\"abc\",\"version\":\"1\",\"id\":\"a\"}\n{\"name\":\"zed\",\"version\":\"2\",\"id\":\"z\"}";
    let crates = parse_crate_list(text).unwrap();
    let names: Vec<&str> = crates.iter().map(|c| c.name.as_str()).collect();
    assert_eq!(names, vec!["zed", "abc", "zed"]);
}

#[test]
fn crate_list_passes_over_blank_lines() {
    let text = "\n  \r\n{ \"id\" : \"a-1\", \"name\" : \"a\", \"version\" : \"1\" }\r\n\t\n{\"version\":\"2\",\"extra\":\"x\",\"name\":\"b\",\"id\":\"b-2\"}\n\n";
    let crates = parse_crate_list(text).unwrap();
    assert_eq!(crates.len(), 2);
    assert_eq!(crates[0].name, "a");
    assert_eq!(crates[0].version, "1");
    assert_eq!(crates[0].id, "a-1");
    assert_eq!(crates[1].name, "b");
    assert_eq!(crates[1].version, "2");
    assert_eq!(crates[1].id, "b-2");
}

#[test]
fn crate_list_decodes_json_strings() {
    let text = "{\"name\":\"a\\\"b\",\"version\":\"\\u00e9\",\"id\":\"tab\\there\"}";
    let crates = parse_crate_list(text).unwrap();
    assert_eq!(crates[0].name, "a\"b");
    assert_eq!(crates[0].version, "\u{e9}");
    assert_eq!(crates[0].id, "tab\there");
}

#[test]
fn crate_list_without_records_is_missing() {
    assert!(matches!(parse_crate_list(""), Err(SandboxError::OutputMissing)));
    assert!(matches!(parse_crate_list("\n\n"), Err(SandboxError::OutputMissing)));
    assert!(matches!(parse_crate_list("  \r\n\t"), Err(SandboxError::OutputMissing)));
}

#[test]
fn crate_list_with_an_invalid_line() {
    let good = "{\"name\":\"serde\",\"version\":\"1.0.0\",\"id\":\"serde-1.0.0\"}";
    for bad in [
        "not json",
        "{\"name\":\"serde\",\"version\":\"1.0.0\"",
        "[\"serde\",\"1.0.0\",\"serde-1.0.0\"]",
        "{\"name\":\"serde\",\"version\":1,\"id\":\"serde-1.0.0\"}",
        "{\"name\":\"serde\",\"version\":\"1.0.0\",\"id\":\"serde-1.0.0\"} trailing",
        "\"serde\"",
        "null",
    ] {
        let text = format!("{}\n{}\n{}\n", good, bad, good);
        let result = parse_crate_list(&text);
        assert!(matches!(result, Err(SandboxError::UnableToParseCrateInformation(_))), "{}", bad);
        assert!(matches!(
            parse_crate_list(bad),
            Err(SandboxError::UnableToParseCrateInformation(_))
        ));
    }
}

#[test]
fn crate_list_with_a_lacking_member() {
    let cases = [
        ("{\"version\":\"1\",\"id\":\"a\"}", "name"),
        ("{\"name\":\"a\",\"id\":\"a\"}", "version"),
        ("{\"name\":\"a\",\"version\":\"1\"}", "id"),
        ("{}", "name"),
        ("{\"id\":\"a\"}", "name"),
    ];
    for (line, lacking) in cases {
        match parse_crate_list(line) {
            Err(SandboxError::UnableToParseCrateInformation(cause)) => {
                assert_eq!(cause.to_string(), format!("missing field `{}`", lacking));
            }
            other => panic!("{:?}", other),
        }
    }
}

#[test]
fn crate_from_members_takes_the_first_of_each_name() {
    let members = vec![
        pair("other", "x"),
        pair("id", "a-1"),
        pair("name", "a"),
        pair("version", "1"),
        pair("name", "b"),
    ];
    let found = crate_from_members(&members).unwrap();
    assert_eq!(found.name, "a");
    assert_eq!(found.version, "1");
    assert_eq!(found.id, "a-1");
}

#[test]
fn crate_from_members_names_what_is_lacking() {
    assert_eq!(crate_from_members(&vec![]).unwrap_err(), "name");
    assert_eq!(crate_from_members(&vec![pair("id", "a"), pair("version", "1")]).unwrap_err(), "name");
    assert_eq!(crate_from_members(&vec![pair("name", "a"), pair("id", "a")]).unwrap_err(), "version");
    assert_eq!(crate_from_members(&vec![pair("name", "a"), pair("version", "1")]).unwrap_err(), "id");
    assert_eq!(crate_from_members(&vec![pair("Name", "a"), pair("version", "1"), pair("id", "a")]).unwrap_err(), "name");
}

#[test]
fn bytes_that_are_utf8_are_decoded() {
    assert_eq!(vec_to_str(Vec::new()).unwrap(), "");
    assert_eq!(vec_to_str(b"hello\n".to_vec()).unwrap(), "hello\n");
    assert_eq!(vec_to_str(vec![0xce, 0xb2, 0xf0, 0x9f, 0x98, 0x80]).unwrap(), "\u{3b2}\u{1f600}");
}

#[test]
fn invalid_continuation_byte_is_not_utf8() {
    let bytes = vec![b'o', b'k', 0xe2, 0x28, 0xa1, b'!'];
    match vec_to_str(bytes.clone()) {
        Err(SandboxError::OutputNotUtf8(cause)) => {
            assert_eq!(cause.utf8_error().valid_up_to(), 2);
            assert_eq!(cause.into_bytes(), bytes);
        }
        other => panic!("{:?}", other),
    }
}

#[test]
fn bytes_that_are_not_utf8_are_rejected() {
    for bytes in [vec![0xff], vec![0xc3], vec![b'a', 0x80], vec![0xed, 0xa0, 0x80], vec![0xc0, 0xaf]] {
        assert!(matches!(vec_to_str(bytes), Err(SandboxError::OutputNotUtf8(_))));
    }
}

const BEGIN: &str = "-----BEGIN CRATE INFORMATION-----";
const END: &str = "-----END CRATE INFORMATION-----";
const SERDE: &str = "{\"name\":\"serde\",\"version\":\"1.0.0\",\"id\":\"serde-1.0.0\"}";
const LIBC: &str = "{\"name\":\"libc\",\"version\":\"0.2.0\",\"id\":\"libc-0.2.0\"}";

#[test]
fn block_is_cut_out_between_its_markers() {
    let output = format!("warning: unused\n{}\n{}\n\n{}\n{}\nFinished\n", BEGIN, SERDE, LIBC, END);
    assert_eq!(
        crate_block_of(&output),
        Some(vec![SERDE.to_string(), String::new(), LIBC.to_string()])
    );
    assert_eq!(crate_block_of(&format!("{}\n{}", BEGIN, END)), Some(Vec::new()));
    assert_eq!(
        crate_block_of(&format!("  {} \r\nx\r\n\t{}\r\n", BEGIN, END)),
        Some(vec!["x\r".to_string()])
    );
}

#[test]
fn block_ends_at_the_first_end_marker_after_the_first_begin_marker() {
    let output = format!("{}\n{}\na\n{}\nb\n{}\nc\n{}\n", END, BEGIN, BEGIN, END, END);
    assert_eq!(crate_block_of(&output), Some(vec!["a".to_string(), BEGIN.to_string(), "b".to_string()]));
}

#[test]
fn block_is_absent_without_both_markers() {
    assert_eq!(crate_block_of(""), None);
    assert_eq!(crate_block_of(&format!("{}\n", SERDE)), None);
    assert_eq!(crate_block_of(&format!("{}\n{}\n", BEGIN, SERDE)), None);
    assert_eq!(crate_block_of(&format!("{}\n{}\n", SERDE, END)), None);
    assert_eq!(crate_block_of(&format!("{}\n{}\n", END, BEGIN)), None);
    assert_eq!(crate_block_of(&format!("x{}\n{}\n", BEGIN, END)), None);
    assert_eq!(crate_block_of(&format!("{} {}\n", BEGIN, END)), None);
    assert_eq!(crate_block_of("-----begin crate information-----\n-----end crate information-----\n"), None);
}

#[test]
fn crates_are_read_from_mixed_output() {
    let output = format!(
        "   Compiling playground v0.0.1\nwarning: unused variable\n{}\n{}\n{}\n{}\nerror: aborting\n",
        BEGIN, SERDE, LIBC, END
    );
    let crates = crates_from_output(output.into_bytes()).unwrap();
    assert_eq!(crates.len(), 2);
    assert_eq!(crates[0].name, "serde");
    assert_eq!(crates[0].version, "1.0.0");
    assert_eq!(crates[0].id, "serde-1.0.0");
    assert_eq!(crates[1].name, "libc");
    assert_eq!(crates[1].version, "0.2.0");
    assert_eq!(crates[1].id, "libc-0.2.0");
}

#[test]
fn crates_are_missing_from_output_without_the_block() {
    for output in [
        String::new(),
        format!("{}\n{}\n", SERDE, LIBC),
        format!("{}\n{}\n", BEGIN, SERDE),
        format!("{}\n{}\n", SERDE, END),
        format!("{}\n{}\n", BEGIN, END),
        format!("{}\n \n\n{}\n", BEGIN, END),
    ] {
        let result = crates_from_output(output.clone().into_bytes());
        assert!(matches!(result, Err(SandboxError::OutputMissing)), "{}", output);
    }
}

#[test]
fn crates_are_not_read_from_a_block_with_an_invalid_line() {
    let output = format!("{}\n{}\nwarning: unused\n{}\n", BEGIN, SERDE, END);
    assert!(matches!(
        crates_from_output(output.into_bytes()),
        Err(SandboxError::UnableToParseCrateInformation(_))
    ));
    let output = format!("{}\n{{\"name\":\"a\"}}\n{}\n", BEGIN, END);
    match crates_from_output(output.into_bytes()) {
        Err(SandboxError::UnableToParseCrateInformation(cause)) => {
            assert_eq!(cause.to_string(), "missing field `version`")
        }
        other => panic!("{:?}", other),
    }
}

#[test]
fn crates_are_not_read_from_bytes_that_are_not_utf8() {
    let mut bytes = format!("{}\n{}\n{}\n", BEGIN, SERDE, END).into_bytes();
    bytes.push(0xff);
    match crates_from_output(bytes) {
        Err(SandboxError::OutputNotUtf8(cause)) => {
            assert_eq!(cause.utf8_error().valid_up_to(), cause.as_bytes().len() - 1)
        }
        other => panic!("{:?}", other),
    }
}

#[test]
fn version_is_read_from_captured_bytes() {
    let version =
        version_from_output(b"release: 1.70.0\ncommit-hash: abcdef\ncommit-date: 2023-06-01\n".to_vec())
            .unwrap();
    assert_eq!(version.release, "1.70.0");
    assert_eq!(version.commit_hash, "abcdef");
    assert_eq!(version.commit_date, "2023-06-01");
    assert!(matches!(
        version_from_output(b"release: 1.70.0\ncommit-hash: abcdef\n".to_vec()),
        Err(SandboxError::VersionDateMissing)
    ));
    assert!(matches!(
        version_from_output(vec![b'r', 0xc3, 0x28]),
        Err(SandboxError::OutputNotUtf8(_))
    ));
}
