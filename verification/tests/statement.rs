use zarr_cli::statement::{
    classify_statement, described_table, is_ddl, parse_describe_query, statement_with,
    upper_defines, Statement,
};

fn describe(s: &str) -> Option<String> {
    parse_describe_query(s)
}

#[test]
fn describe_forms() {
    assert_eq!(describe("DESCRIBE table"), Some("table".to_string()));
    assert_eq!(describe("DESCRIBE table;"), Some("table".to_string()));
    assert_eq!(describe("DESC table"), Some("table".to_string()));
    assert_eq!(describe("  desc  weather ;; "), Some("weather".to_string()));
    assert_eq!(describe("dEsCrIbE t extra words"), Some("t".to_string()));
}

#[test]
fn describe_needs_a_keyword_and_a_table() {
    assert_eq!(describe("DESCRIBE"), None);
    assert_eq!(describe("DESCRIBE "), None);
    assert_eq!(describe("DESC ;"), None);
    assert_eq!(describe("DESCRIBED t"), None);
    assert_eq!(describe("DESC\tt"), None);
    assert_eq!(describe("SELECT 1"), None);
    assert_eq!(describe(""), None);
}

#[test]
fn describe_keyword_is_sought_in_unicode_upper_case() {
    // The long s is an S in upper case.
    assert_eq!(describe("de\u{17f}c t"), Some("t".to_string()));
    assert_eq!(describe("DESC tablé"), Some("tablé".to_string()));
    assert_eq!(describe("DÉSC t"), None);
}

#[test]
fn ascii_upper_case_is_a_prefix_of_unicode_upper_case() {
    for n in 0..128u8 {
        let c = n as char;
        assert_eq!(c.to_string().to_uppercase(), c.to_ascii_uppercase().to_string());
        let s = format!("{c}z\u{df}\u{149}");
        assert!(s.to_uppercase().starts_with(&format!("{}Z", c.to_ascii_uppercase())));
    }
}

#[test]
fn described_table_takes_the_upper_case_as_given() {
    assert_eq!(described_table("a b c", "DESC X"), Some("b".to_string()));
    assert_eq!(described_table("a b c", "DESCRIBE X"), Some("b".to_string()));
    assert_eq!(described_table("desc b", "desc b"), None);
    assert_eq!(described_table("a", "DESC X"), None);
}

#[test]
fn definitions_are_told_by_their_keyword() {
    assert!(is_ddl("create external table t"));
    assert!(is_ddl("DROP TABLE t"));
    assert!(is_ddl("Alter table t"));
    assert!(!is_ddl("CREATED x"));
    assert!(!is_ddl("DROP"));
    assert!(!is_ddl(" CREATE x"));
    assert!(!is_ddl("SELECT 'CREATE '"));
    assert!(upper_defines("ALTER X"));
    assert!(!upper_defines("alter x"));
}

#[test]
fn statements_are_classified() {
    assert!(matches!(classify_statement(" \n"), Statement::Blank));
    for line in ["\\d", "\\dt+", " show tables ", "SHOW TABLES"] {
        match classify_statement(line) {
            Statement::Show(sql) => assert_eq!(sql, "SHOW TABLES"),
            other => panic!("{other:?}"),
        }
    }
    match classify_statement("describe era5;") {
        Statement::Show(sql) => assert_eq!(sql, "SELECT * FROM zarr_describe('era5')"),
        other => panic!("{other:?}"),
    }
    match classify_statement("show tables;") {
        Statement::Run { sql, ddl } => assert_eq!((sql.as_str(), ddl), ("show tables;", false)),
        other => panic!("{other:?}"),
    }
    match classify_statement(" create table t ") {
        Statement::Run { sql, ddl } => assert_eq!((sql.as_str(), ddl), ("create table t", true)),
        other => panic!("{other:?}"),
    }
}

#[test]
fn surrounding_space_is_ignored() {
    for line in [" SELECT 1 ", "\tdesc t\n", "  "] {
        let a = format!("{:?}", classify_statement(line));
        let b = format!("{:?}", classify_statement(line.trim()));
        assert_eq!(a, b);
    }
}

#[test]
fn statement_with_takes_what_was_found() {
    match statement_with("x", Some("t".to_string()), true) {
        Statement::Show(sql) => assert_eq!(sql, "SELECT * FROM zarr_describe('t')"),
        other => panic!("{other:?}"),
    }
    match statement_with("\\d", Some("t".to_string()), true) {
        Statement::Show(sql) => assert_eq!(sql, "SHOW TABLES"),
        other => panic!("{other:?}"),
    }
    match statement_with(" x ", None, true) {
        Statement::Run { sql, ddl } => assert_eq!((sql.as_str(), ddl), ("x", true)),
        other => panic!("{other:?}"),
    }
}
