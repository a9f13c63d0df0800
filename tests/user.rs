use knast::user::{etc_group_entries, etc_passwd_entries, find_user_by_name, parse, UserError};

const PASSWD: &str = "# The password database of the fixture root filesystem\n\
root:*:0:0:Charlie &:/root:/bin/sh\n\
door:*:1:1:Owner of many system processes:/root:/usr/sbin/nologin\n\
akhramov:*:1001:1001:Artem Khramov:/home/akhramov:/bin/sh\n\
tests:x:977:977:Test runner:/home/tests:/bin/sh\n";

const GROUP: &str = "# The group database of the fixture root filesystem\n\
wheel:*:0:root,akhramov,donald_watson\n\
games:x:13:\n\
tests:x:977:\n";

fn do_parse(user: &str) -> (u32, u32) {
    parse(user, PASSWD.as_bytes(), GROUP.as_bytes()).unwrap()
}

#[test]
fn test_uid_gid_parsing() {
    assert_eq!(do_parse("1001:1002"), (1001, 1002));
}

#[test]
fn test_resolve_gid_from_name() {
    assert_eq!(do_parse("1337:tests"), (1337, 977));
}

#[test]
fn test_only_username_supplied() {
    assert_eq!(do_parse("akhramov"), (1001, 1001));
}

#[test]
fn test_only_uid_supplied() {
    assert_eq!(do_parse("977"), (977, 977));
}

#[test]
fn test_username_groupname_supplied() {
    assert_eq!(do_parse("tests:games"), (977, 13));
}

#[test]
fn test_username_gid_supplied() {
    assert_eq!(do_parse("tests:13"), (977, 13));
}

#[test]
fn test_invalid_username() {
    let result = parse("testsa:13", PASSWD.as_bytes(), GROUP.as_bytes());
    assert_eq!(result, Err(UserError::Unresolved));
}

#[test]
fn user_test_malformed_file() {
    let passwd = "tests;x;977;977\nnot a record at all\n";
    let result = parse("tests:13", passwd.as_bytes(), GROUP.as_bytes());
    assert!(result.is_err());
}

#[test]
fn test_nonexistent_file() {
    let result = parse("tests:13", b"", b"");
    assert!(result.is_err());
}

#[test]
fn test_etc_passwd_enumeration() {
    let result = etc_passwd_entries(PASSWD.as_bytes());
    let second_user = &result[1];
    assert_eq!(second_user.username, b"door".to_vec());
}

#[test]
fn test_etc_group_enumeration() {
    let result = etc_group_entries(GROUP.as_bytes());
    let first_group = &result[0];
    let expected: Vec<Vec<u8>> =
        vec![b"root".to_vec(), b"akhramov".to_vec(), b"donald_watson".to_vec()];
    assert_eq!(first_group.users, expected);
}

#[test]
fn numeric_pair_needs_no_database() {
    assert_eq!(parse("1001:1002", b"", b""), Ok((1001, 1002)));
    assert_eq!(parse("0:0", b"", b""), Ok((0, 0)));
}

#[test]
fn scenario_user_resolution_from_fixtures() {
    assert_eq!(do_parse("tests:games"), (977, 13));
    assert_eq!(parse("1001:1002", b"", b""), Ok((1001, 1002)));
    assert!(parse("testsa:13", PASSWD.as_bytes(), GROUP.as_bytes()).is_err());
}

#[test]
fn uid_too_large_is_a_name() {
    // 4294967296 does not fit a u32, so it can only be a user name.
    assert_eq!(parse("4294967296", PASSWD.as_bytes(), GROUP.as_bytes()), Err(UserError::Unresolved));
    assert_eq!(parse("4294967295:7", b"", b""), Ok((4294967295, 7)));
}

#[test]
fn text_after_the_identifiers_is_ignored() {
    assert_eq!(do_parse("akhramov:nosuchgroup"), (1001, 1001));
    assert_eq!(do_parse("12:34-extra"), (12, 34));
}

#[test]
fn empty_user_string_is_refused() {
    assert_eq!(parse("", PASSWD.as_bytes(), GROUP.as_bytes()), Err(UserError::Unresolved));
    assert_eq!(parse(":13", PASSWD.as_bytes(), GROUP.as_bytes()), Err(UserError::Unresolved));
}

#[test]
fn comments_and_short_lines_are_skipped() {
    let entries = etc_passwd_entries(b"#tests:x:1:1\nshort:x:5\nok:x:7:8\n");
    assert_eq!(entries.len(), 1);
    assert_eq!(entries[0].username, b"ok".to_vec());
    assert_eq!((entries[0].uid, entries[0].gid), (7, 8));
    assert_eq!(find_user_by_name(&entries, b"ok"), Some((7, 8)));
    assert_eq!(find_user_by_name(&entries, b"short"), None);
}
