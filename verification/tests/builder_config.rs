use gitsplode::Header;

const PREFIX: &str = "#define NO_GETTEXT 1";

fn filter_flags(flags: &[String]) -> Vec<String> {
    flags
        .iter()
        .filter(|f| f.starts_with("--allowlist") || f.starts_with("--blocklist"))
        .cloned()
        .collect()
}

#[test]
fn whitelist_function_issues_exactly_one_allow_mutation() {
    let h = Header::new("header = \"void foo();\"\n[whitelist]\nfoo = \"function\"", PREFIX)
        .unwrap();
    let flags = h.into_builder("desc.h").command_line_flags();
    let count = flags.iter().filter(|f| *f == "--allowlist-function").count();
    assert_eq!(count, 1);
    let pos = flags.iter().position(|f| f == "--allowlist-function").unwrap();
    assert_eq!(flags[pos + 1], "foo");
    assert!(!flags.iter().any(|f| f.starts_with("--blocklist")));
}

#[test]
fn no_filters_leave_the_configuration_untouched() {
    let h = Header::new("header = \"int x;\"", PREFIX).unwrap();
    let flags = h.into_builder("desc.h").command_line_flags();
    assert_eq!(filter_flags(&flags), Vec::<String>::new());
}

#[test]
fn blacklist_entries_issue_deny_mutations() {
    let h = Header::new(
        "header = \"int x;\"\n[blacklist]\nfoo = \"function\"\nbar = \"type\"\nbaz = \"item\"",
        PREFIX,
    )
    .unwrap();
    let flags = h.into_builder("desc.h").command_line_flags();
    assert_eq!(flags.iter().filter(|f| *f == "--blocklist-function").count(), 1);
    assert_eq!(flags.iter().filter(|f| *f == "--blocklist-type").count(), 1);
    assert_eq!(flags.iter().filter(|f| *f == "--blocklist-item").count(), 1);
    assert!(!flags.iter().any(|f| f.starts_with("--allowlist")));
}

#[test]
fn header_text_reaches_the_generator_input() {
    let h = Header::new("header = \"void marker_decl(void);\"", PREFIX).unwrap();
    let b = h.into_builder("desc.h");
    let shown = format!("{:?}", b);
    assert!(shown.contains("void marker_decl(void);"));
    assert!(shown.contains(PREFIX));
}
