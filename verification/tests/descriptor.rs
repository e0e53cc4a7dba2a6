use gitsplode::text::parse_document;
use gitsplode::text::parse_line;
use gitsplode::text::split_lines;
use gitsplode::text::str_eq;
use gitsplode::text::ParsedLine;
use gitsplode::DecodeError;
use gitsplode::Error;
use gitsplode::Header;
use gitsplode::Item;

const PREFIX: &str = "#define NO_GETTEXT 1";

#[test]
fn parses_a_full_descriptor() {
    let raw = "header = \"void foo();\"\n[whitelist]\nfoo = \"function\"\nbar = \"type\"\nbaz = \"item\"";
    let h = Header::new(raw, PREFIX).unwrap();
    assert_eq!(h.header_text(), "#define NO_GETTEXT 1\nvoid foo();");
    let white = h.whitelist().as_ref().unwrap();
    assert_eq!(white.len(), 3);
    assert_eq!(white[0].name(), "foo");
    assert!(matches!(white[0].item(), Item::Function));
    assert_eq!(white[1].name(), "bar");
    assert!(matches!(white[1].item(), Item::Type));
    assert_eq!(white[2].name(), "baz");
    assert!(matches!(white[2].item(), Item::Item));
    assert!(h.blacklist().is_none());
}

#[test]
fn dual_filters_are_rejected() {
    let raw = "header = \"int x;\"\n[whitelist]\nfoo = \"function\"\n[blacklist]\nbar = \"type\"";
    let r = Header::new(raw, PREFIX);
    assert!(matches!(r, Err(Error::DualFilters)));
}

#[test]
fn dual_filters_rejected_in_either_order() {
    let raw = "header = \"int x;\"\n[blacklist]\nbar = \"type\"\n[whitelist]\nfoo = \"function\"";
    let r = Header::new(raw, PREFIX);
    assert!(matches!(r, Err(Error::DualFilters)));
}

#[test]
fn missing_header_field_fails() {
    let r = parse_document("[whitelist]\nfoo = \"function\"");
    assert!(matches!(r, Err(DecodeError::MissingHeader)));
}

#[test]
fn empty_text_fails_with_missing_header() {
    assert!(matches!(parse_document(""), Err(DecodeError::MissingHeader)));
}

#[test]
fn malformed_line_is_a_syntax_error() {
    let r = parse_document("header = \"h\"\n???");
    assert!(matches!(r, Err(DecodeError::Syntax { line: 2 })));
}

#[test]
fn unclosed_value_is_a_syntax_error() {
    let r = parse_document("header = \"h");
    assert!(matches!(r, Err(DecodeError::Syntax { line: 1 })));
}

#[test]
fn unknown_escape_is_a_syntax_error() {
    let r = parse_document("header = \"a\\qb\"");
    assert!(matches!(r, Err(DecodeError::Syntax { line: 1 })));
}

#[test]
fn unknown_table_is_rejected() {
    let r = parse_document("header = \"h\"\n[weird]");
    assert!(matches!(r, Err(DecodeError::UnknownTable { line: 2 })));
}

#[test]
fn unknown_top_level_field_is_rejected() {
    let r = parse_document("other = \"h\"");
    assert!(matches!(r, Err(DecodeError::UnknownField { line: 1 })));
}

#[test]
fn duplicate_filter_name_is_rejected() {
    let r = parse_document("header = \"h\"\n[whitelist]\nfoo = \"function\"\nfoo = \"type\"");
    assert!(matches!(r, Err(DecodeError::Duplicate { line: 4 })));
}

#[test]
fn duplicate_header_field_is_rejected() {
    let r = parse_document("header = \"h\"\nheader = \"g\"");
    assert!(matches!(r, Err(DecodeError::Duplicate { line: 2 })));
}

#[test]
fn duplicate_table_is_rejected() {
    let r = parse_document("header = \"h\"\n[whitelist]\n[whitelist]");
    assert!(matches!(r, Err(DecodeError::Duplicate { line: 3 })));
}

#[test]
fn bad_kind_is_rejected() {
    let r = parse_document("header = \"h\"\n[whitelist]\nfoo = \"banana\"");
    assert!(matches!(r, Err(DecodeError::BadKind { line: 3 })));
}

#[test]
fn comments_blanks_and_crlf_are_tolerated() {
    let raw = "# a comment\r\n\r\n  header = \"h\"  \r\n[whitelist]\r\n# another\r\nfoo = \"function\"\r\n";
    let d = parse_document(raw).unwrap();
    assert_eq!(d.header, "h");
    assert_eq!(d.whitelist.as_ref().unwrap().len(), 1);
}

#[test]
fn escapes_are_decoded() {
    let d = parse_document("header = \"line1\\nline2\\t\\\"x\\\\\"").unwrap();
    assert_eq!(d.header, "line1\nline2\t\"x\\");
}

#[test]
fn prefix_is_prepended() {
    let h = Header::new("header = \"struct s;\"", "#define A 1").unwrap();
    assert_eq!(h.header_text(), "#define A 1\nstruct s;");
}

#[test]
fn lines_split_at_breaks_and_drop_carriage_returns() {
    assert_eq!(split_lines("a\nb\r\nc"), vec!["a", "b", "c"]);
    assert_eq!(split_lines(""), vec![""]);
    assert_eq!(split_lines("a\n"), vec!["a", ""]);
}

#[test]
fn lines_are_classified() {
    assert!(matches!(parse_line("   "), ParsedLine::Blank));
    assert!(matches!(parse_line("# note"), ParsedLine::Blank));
    match parse_line("[whitelist]") {
        ParsedLine::Table(name) => assert_eq!(name, "whitelist"),
        _ => panic!("expected a table heading"),
    }
    match parse_line("  key = \"va\\nlue\"  ") {
        ParsedLine::Pair(key, value) => {
            assert_eq!(key, "key");
            assert_eq!(value, "va\nlue");
        },
        _ => panic!("expected a key and value"),
    }
    assert!(matches!(parse_line("[unclosed"), ParsedLine::Bad));
    assert!(matches!(parse_line("no equals"), ParsedLine::Bad));
}

#[test]
fn text_equality_is_by_characters() {
    assert!(str_eq("same", "same"));
    assert!(!str_eq("same", "sane"));
    assert!(!str_eq("same", "sam"));
}

#[test]
fn decode_error_converts_to_deserialize() {
    let e = Error::from(DecodeError::MissingHeader);
    assert!(matches!(e, Error::Deserialize(DecodeError::MissingHeader)));
    assert_eq!(e.message(), "cannot decode the descriptor text");
}

#[test]
fn io_error_converts_to_read() {
    let io = std::io::Error::new(std::io::ErrorKind::Other, "gone");
    let e = Error::from(io);
    assert!(matches!(e, Error::Read(_)));
    assert_eq!(e.message(), "cannot read the descriptor source");
}

#[test]
fn error_messages_name_each_case() {
    assert_eq!(
        Error::DualFilters.message(),
        "both an allow and a deny filter set are specified"
    );
    assert_eq!(
        Error::Filename.message(),
        "no valid name can be derived from the file name"
    );
}
