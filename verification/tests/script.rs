use zarr_cli::script::split_sql_statements;

fn split(s: &str) -> Vec<String> {
    split_sql_statements(s)
}

#[test]
fn splits_on_semicolons() {
    assert_eq!(split("SELECT 1; SELECT 2"), vec!["SELECT 1", "SELECT 2"]);
    assert_eq!(split("SELECT 1; SELECT 2;"), vec!["SELECT 1", "SELECT 2"]);
}

#[test]
fn blank_statements_are_dropped() {
    assert!(split("").is_empty());
    assert!(split(" \n\t ").is_empty());
    assert_eq!(split(";; a ;\u{3000};"), vec!["a"]);
    assert!(split("-- nothing but a comment").is_empty());
}

#[test]
fn statements_may_span_lines() {
    assert_eq!(split("SELECT *\nFROM\tt\r\nWHERE x"), vec!["SELECT * FROM t  WHERE x"]);
}

#[test]
fn comments_run_to_the_end_of_the_line() {
    assert_eq!(
        split("SELECT 1 -- one; 'two\n, 3; SELECT 4 -- end"),
        vec!["SELECT 1   , 3", "SELECT 4"]
    );
    assert_eq!(split("a--b\rc\nd"), vec!["a  d"]);
    assert_eq!(split("a---b"), vec!["a"]);
}

#[test]
fn comment_text_does_not_matter() {
    assert_eq!(split("a --x;y\n b"), split("a  \n b"));
    assert_eq!(split("a --x;y"), split("a  "));
}

#[test]
fn a_single_dash_is_kept() {
    assert_eq!(split("SELECT 3 - 2"), vec!["SELECT 3 - 2"]);
    assert_eq!(split("SELECT 3 - -2"), vec!["SELECT 3 - -2"]);
    assert_eq!(split("a -"), vec!["a -"]);
    assert_eq!(split("a -;- b"), vec!["a -", "- b"]);
}

#[test]
fn quoted_text_is_left_alone() {
    assert_eq!(
        split("SELECT 'a;b--c\n\td'; SELECT \"x;y--z\""),
        vec!["SELECT 'a;b--c\n\td'", "SELECT \"x;y--z\""]
    );
    assert_eq!(split("SELECT 'it''s; fine'"), vec!["SELECT 'it''s; fine'"]);
    assert_eq!(split("SELECT '\"'; SELECT \"'\""), vec!["SELECT '\"'", "SELECT \"'\""]);
}

#[test]
fn a_literal_is_one_statement() {
    assert_eq!(split("'; -- ;'"), vec!["'; -- ;'"]);
    assert_eq!(split("\"; -- ;\""), vec!["\"; -- ;\""]);
}

#[test]
fn an_open_literal_runs_to_the_end() {
    assert_eq!(split("SELECT 'a; SELECT b -- "), vec!["SELECT 'a; SELECT b --"]);
}

#[test]
fn statements_split_to_themselves() {
    let script = "a - b; 'x;\n--' \n-- c\n; \"; \" ;d\t'open ;  ";
    let all = split(script);
    assert_eq!(all, vec!["a - b", "'x;\n--'", "\"; \"", "d 'open ;"]);
    for s in all {
        assert_eq!(split(&s), vec![s.clone()]);
    }
}

#[test]
fn parts_around_a_semicolon_are_read_alone() {
    let a = "SELECT 1 -- c\n, ';' ";
    let b = " SELECT 2; 'x'";
    let mut both = split(a);
    both.extend(split(b));
    assert_eq!(split(&format!("{a};{b}")), both);
}

/// Whether `s` has no `;`, `--`, line break or tab outside its literals, and whether
/// its literals are closed.
fn clean_and_closed(s: &str) -> (bool, bool) {
    let chars: Vec<char> = s.chars().collect();
    let mut open: Option<char> = None;
    let mut clean = true;
    for (i, &c) in chars.iter().enumerate() {
        match open {
            Some(q) if q == c => open = None,
            Some(_) => {}
            None if c == '\'' || c == '"' => open = Some(c),
            None => {
                let dashes = c == '-' && chars.get(i + 1) == Some(&'-');
                clean = clean && !dashes && !matches!(c, ';' | '\n' | '\r' | '\t');
            }
        }
    }
    (clean, open.is_none())
}

const SCRIPTS: [&str; 6] = [
    "",
    " ; ;-- x\n;",
    "a - b; 'x;\n--' \n-- c\n; \"; \" ;d\t'open ;  ",
    "SELECT 'it''s; fine';\tSELECT\n2 -- \";\r\n;- - -",
    "a -;- b; \"'\"; '\"'",
    "x; \"open -- ;\n",
];

#[test]
fn statements_are_clean_and_all_but_the_last_closed() {
    for script in SCRIPTS {
        let all = split(script);
        for (i, s) in all.iter().enumerate() {
            let (clean, closed) = clean_and_closed(s);
            assert!(clean, "{s}");
            assert!(closed || i + 1 == all.len(), "{s}");
        }
    }
    assert_eq!(clean_and_closed(split(SCRIPTS[5]).last().unwrap()), (true, false));
}

#[test]
fn joined_statements_split_again() {
    for script in SCRIPTS {
        let all = split(script);
        assert_eq!(split(&all.join(";")), all);
    }
}
