//! What a single statement asks for.

use vstd::prelude::*;

use crate::text::{
    ascii_head, ascii_upper, chars_of, end_without, eq_ignore_ascii_case, lemma_trim_start_front,
    only_copies_are_taken_off, opt_text, same_but_ascii_case, starts_with, string_of, texts,
    to_uppercase, trim, trim_bounds, trim_end_char, trim_start, trimmed, trimming_is_idempotent,
    trimming_keeps_trimmed, trimming_takes_only_the_space_around, upper_case, white_space,
};

verus! {

/// The number of characters of `s` before its first white space.
pub open spec fn word_len(s: Seq<char>) -> nat
    decreases s.len(),
{
    if s.len() == 0 || white_space(s[0]) {
        0
    } else {
        1 + word_len(s.skip(1))
    }
}

/// A word ends within the text.
pub proof fn lemma_word_len_bound(s: Seq<char>)
    ensures
        word_len(s) <= s.len(),
    decreases s.len(),
{
    if s.len() > 0 && !white_space(s[0]) {
        lemma_word_len_bound(s.skip(1));
    }
}

/// The words of `s`: what white space leaves between it.
pub open spec fn words(s: Seq<char>) -> Seq<Seq<char>>
    decreases s.len(),
{
    proof {
        lemma_trim_start_front(s);
        lemma_word_len_bound(trim_start(s));
    }
    let t = trim_start(s);
    if t.len() == 0 {
        seq![]
    } else {
        seq![t.take(word_len(t) as int)] + words(t.skip(word_len(t) as int))
    }
}

/// The words of `v`.
fn split_words(v: &Vec<char>) -> (r: Vec<String>)
    ensures
        texts(r@) == words(v@),
{
    let mut r: Vec<String> = Vec::new();
    let mut i: usize = 0;
    assert(v@.skip(0) =~= v@);
    assert(texts(r@) + words(v@.skip(0)) =~= words(v@));
    while i < v.len()
        invariant
            i <= v@.len(),
            texts(r@) + words(v@.skip(i as int)) == words(v@),
        decreases v@.len() - i,
    {
        let ghost s = v@.skip(i as int);
        let ghost from = i as int;
        while i < v.len() && v[i].is_whitespace()
            invariant
                from <= i <= v@.len(),
                s == v@.skip(from),
                trim_start(s) == trim_start(v@.skip(i as int)),
            decreases v@.len() - i,
        {
            assert(v@.skip(i as int).skip(1) =~= v@.skip(i + 1));
            i = i + 1;
        }
        let ghost t = v@.skip(i as int);
        assert(trim_start(s) == t);
        if i < v.len() {
            let start: usize = i;
            assert(t.skip(0) =~= t);
            while i < v.len() && !v[i].is_whitespace()
                invariant
                    start <= i <= v@.len(),
                    t == v@.skip(start as int),
                    word_len(t) == (i - start) + word_len(v@.skip(i as int)),
                decreases v@.len() - i,
            {
                assert(v@.skip(i as int).skip(1) =~= v@.skip(i + 1));
                i = i + 1;
            }
            assert(word_len(v@.skip(i as int)) == 0);
            assert(word_len(t) == i - start);
            let ghost before = texts(r@);
            let w = string_of(v, start, i);
            r.push(w);
            proof {
                assert(t.take(i - start) =~= v@.subrange(start as int, i as int));
                assert(t.skip(i - start) =~= v@.skip(i as int));
                assert(texts(r@) =~= before + seq![t.take(i - start)]);
                assert(texts(r@) + words(v@.skip(i as int)) =~= before + (seq![t.take(i - start)]
                    + words(v@.skip(i as int))));
            }
        } else {
            assert(words(s) =~= seq![]);
            assert(words(v@.skip(i as int)) =~= seq![]);
        }
    }
    assert(words(v@.skip(v@.len() as int)) =~= seq![]);
    assert(texts(r@) + words(v@.skip(i as int)) =~= texts(r@));
    r
}

/// A line without the white space around it and the `;` that end it.
pub open spec fn unterminated(line: Seq<char>) -> Seq<char> {
    trimmed(trim_end_char(trimmed(line), ';'))
}

/// The second word of `s`.
pub open spec fn second_word(s: Seq<char>) -> Option<Seq<char>> {
    if words(s).len() >= 2 {
        Some(words(s)[1])
    } else {
        None
    }
}

/// The table that `text` describes, where `upper` is `text` in upper case.
pub open spec fn described(text: Seq<char>, upper: Seq<char>) -> Option<Seq<char>> {
    if "DESCRIBE "@.is_prefix_of(upper) || "DESC "@.is_prefix_of(upper) {
        second_word(text)
    } else {
        None
    }
}

/// The table that a line describes.
pub open spec fn described_by(line: Seq<char>) -> Option<Seq<char>> {
    described(unterminated(line), upper_case(unterminated(line)))
}

/// `s` begins with `keyword`, in capital or small ASCII letters.
pub open spec fn has_keyword(s: Seq<char>, keyword: Seq<char>) -> bool {
    &&& keyword.len() <= s.len()
    &&& forall|i: int| 0 <= i < keyword.len() ==> ascii_upper(#[trigger] s[i]) == keyword[i]
}

/// Whether the first `n` characters of `s`, or all where there are fewer, are ASCII.
pub open spec fn ascii_start(s: Seq<char>, n: int) -> bool {
    ascii_head(s, if n <= s.len() { n } else { s.len() as int })
}

/// `s` begins with `DESCRIBE` or `DESC` and a space.
pub open spec fn describe_keyword(s: Seq<char>) -> bool {
    has_keyword(s, "DESCRIBE "@) || has_keyword(s, "DESC "@)
}

proof fn lemma_keyword_in_upper(s: Seq<char>, upper: Seq<char>, keyword: Seq<char>, n: int)
    requires
        keyword.len() <= n,
        forall|i: int| 0 <= i < keyword.len() ==> (#[trigger] keyword[i] as u32) < 128,
        forall|k: int| #[trigger]
            ascii_head(s, k) ==> upper.len() >= k && forall|i: int|
                0 <= i < k ==> #[trigger] upper[i] == ascii_upper(s[i]),
        ascii_head(s, s.len() as int) ==> upper.len() == s.len(),
    ensures
        has_keyword(s, keyword) ==> keyword.is_prefix_of(upper),
        ascii_start(s, n) && !has_keyword(s, keyword) ==> !keyword.is_prefix_of(upper),
{
    let m = keyword.len() as int;
    if has_keyword(s, keyword) {
        assert forall|i: int| 0 <= i < m implies (#[trigger] s[i] as u32) < 128 by {
            assert(ascii_upper(s[i]) == keyword[i]);
            assert((keyword[i] as u32) < 128);
        }
        assert(ascii_head(s, m));
        assert(upper.subrange(0, m) =~= keyword);
    } else if ascii_start(s, n) {
        if m > s.len() {
            assert(ascii_head(s, s.len() as int));
        } else {
            assert(ascii_head(s, m));
            if keyword.is_prefix_of(upper) {
                assert forall|i: int| 0 <= i < m implies ascii_upper(#[trigger] s[i])
                    == keyword[i] by {
                    assert(upper[i] == ascii_upper(s[i]));
                    assert(upper.subrange(0, m)[i] == keyword[i]);
                }
            }
        }
    }
}

/// The table that `text` describes, where `upper` is `text` in upper case.
pub fn described_table(text: &str, upper: &str) -> (r: Option<String>)
    ensures
        opt_text(r) == described(text@, upper@),
{
    if starts_with(upper, "DESCRIBE ") || starts_with(upper, "DESC ") {
        let v = chars_of(text);
        let parts = split_words(&v);
        if parts.len() >= 2 {
            assert(texts(parts@)[1] == parts@[1]@);
            return Some(parts[1].clone());
        }
    }
    None
}

/// A line without the white space around it and the `;` that end it.
fn without_terminator(line: &str) -> (r: String)
    ensures
        r@ == unterminated(line@),
{
    let v = chars_of(line);
    let (a, b) = trim_bounds(&v);
    let c = end_without(&v, a, b, ';');
    trim(string_of(&v, a, c).as_str())
}

/// The table that a `DESCRIBE` line names: `DESCRIBE table`, `DESCRIBE table;`,
/// `DESC table`, in any case. The keyword is sought in the line's upper case; for
/// ASCII text that is the keyword in ASCII letters of either case.
pub fn parse_describe_query(line: &str) -> (r: Option<String>)
    ensures
        opt_text(r) == described_by(line@),
        describe_keyword(unterminated(line@)) ==> opt_text(r) == second_word(
            unterminated(line@),
        ),
        ascii_start(unterminated(line@), 9) && !describe_keyword(unterminated(line@)) ==> r is None,
{
    let text = without_terminator(line);
    let upper = to_uppercase(text.as_str());
    proof {
        reveal_strlit("DESCRIBE ");
        reveal_strlit("DESC ");
        lemma_keyword_in_upper(text@, upper@, "DESCRIBE "@, 9);
        lemma_keyword_in_upper(text@, upper@, "DESC "@, 9);
    }
    described_table(text.as_str(), upper.as_str())
}

/// A statement whose upper case is `upper` defines something, and gives no rows.
pub open spec fn defines(upper: Seq<char>) -> bool {
    "CREATE "@.is_prefix_of(upper) || "DROP "@.is_prefix_of(upper) || "ALTER "@.is_prefix_of(upper)
}

/// `s` begins with `CREATE`, `DROP` or `ALTER` and a space.
pub open spec fn ddl_keyword(s: Seq<char>) -> bool {
    has_keyword(s, "CREATE "@) || has_keyword(s, "DROP "@) || has_keyword(s, "ALTER "@)
}

/// Whether a statement whose upper case is `upper` defines something.
pub fn upper_defines(upper: &str) -> (r: bool)
    ensures
        r == defines(upper@),
{
    starts_with(upper, "CREATE ") || starts_with(upper, "DROP ") || starts_with(upper, "ALTER ")
}

/// Whether a statement defines something (`CREATE`, `DROP` or `ALTER`) and so gives
/// no rows to show.
pub fn is_ddl(line: &str) -> (r: bool)
    ensures
        r == defines(upper_case(line@)),
        ddl_keyword(line@) ==> r,
        ascii_start(line@, 7) && !ddl_keyword(line@) ==> !r,
{
    let upper = to_uppercase(line);
    proof {
        reveal_strlit("CREATE ");
        reveal_strlit("DROP ");
        reveal_strlit("ALTER ");
        lemma_keyword_in_upper(line@, upper@, "CREATE "@, 7);
        lemma_keyword_in_upper(line@, upper@, "DROP "@, 7);
        lemma_keyword_in_upper(line@, upper@, "ALTER "@, 7);
    }
    upper_defines(upper.as_str())
}

/// What is to be done for a statement.
#[derive(Debug)]
pub enum Statement {
    /// Nothing.
    Blank,
    /// Show the result of a query that stands for a command.
    Show(String),
    /// Run SQL; `ddl` where it gives no rows.
    Run { sql: String, ddl: bool },
}

/// [`Statement`], over texts.
pub ghost enum StatementView {
    Blank,
    Show(Seq<char>),
    Run { sql: Seq<char>, ddl: bool },
}

impl View for Statement {
    type V = StatementView;

    open spec fn view(&self) -> StatementView {
        match self {
            Statement::Blank => StatementView::Blank,
            Statement::Show(sql) => StatementView::Show(sql@),
            Statement::Run { sql, ddl } => StatementView::Run { sql: sql@, ddl: *ddl },
        }
    }
}

/// The command `\d`, with anything behind it, or `show tables`.
pub open spec fn lists_tables(s: Seq<char>) -> bool {
    "\\d"@.is_prefix_of(s) || same_but_ascii_case(s, "show tables"@)
}

/// The query that describes a table.
pub open spec fn describe_query(table: Seq<char>) -> Seq<char> {
    "SELECT * FROM zarr_describe('"@ + table + "')"@
}

/// What is to be done for `line`, where `table` is the table that it describes and
/// `ddl` says whether it defines something.
pub open spec fn classified(
    line: Seq<char>,
    table: Option<Seq<char>>,
    ddl: bool,
) -> StatementView {
    let s = trimmed(line);
    if s.len() == 0 {
        StatementView::Blank
    } else if lists_tables(s) {
        StatementView::Show("SHOW TABLES"@)
    } else {
        match table {
            Some(name) => StatementView::Show(describe_query(name)),
            None => StatementView::Run { sql: s, ddl },
        }
    }
}

/// What is to be done for `line`, where `table` is the table that it describes and
/// `ddl` says whether it defines something.
pub fn statement_with(line: &str, table: Option<String>, ddl: bool) -> (r: Statement)
    ensures
        r@ == classified(line@, opt_text(table), ddl),
{
    let s = trim(line);
    if s.as_str().is_empty() {
        Statement::Blank
    } else if starts_with(s.as_str(), "\\d") || eq_ignore_ascii_case(s.as_str(), "show tables") {
        Statement::Show("SHOW TABLES".to_owned())
    } else {
        match table {
            Some(name) => {
                let mut query = "SELECT * FROM zarr_describe('".to_owned();
                query.append(name.as_str());
                query.append("')");
                Statement::Show(query)
            },
            None => Statement::Run { sql: s, ddl },
        }
    }
}

/// What is to be done for a statement: a blank one is passed over, `\d` and
/// `show tables` list the tables, `DESCRIBE` shows a table's metadata, and anything
/// else is SQL. Where the line begins with ASCII text, keywords are told by their
/// ASCII letters alone.
pub fn classify_statement(line: &str) -> (r: Statement)
    ensures
        r@ == classified(line@, described_by(line@), defines(upper_case(trimmed(line@)))),
        describe_keyword(unterminated(line@)) ==> described_by(line@) == second_word(
            unterminated(line@),
        ),
        ascii_start(unterminated(line@), 9) && !describe_keyword(unterminated(line@))
            ==> described_by(line@) is None,
        ddl_keyword(trimmed(line@)) ==> defines(upper_case(trimmed(line@))),
        ascii_start(trimmed(line@), 7) && !ddl_keyword(trimmed(line@)) ==> !defines(
            upper_case(trimmed(line@)),
        ),
{
    let s = trim(line);
    proof {
        trimming_is_idempotent(line@);
    }
    let table = parse_describe_query(s.as_str());
    let ddl = is_ddl(s.as_str());
    statement_with(line, table, ddl)
}

/// White space around a statement changes nothing.
pub proof fn surrounding_space_is_ignored(line: Seq<char>, table: Option<Seq<char>>, ddl: bool)
    ensures
        classified(trimmed(line), table, ddl) == classified(line, table, ddl),
        described_by(trimmed(line)) == described_by(line),
{
    trimming_is_idempotent(line);
}

/// A text without white space.
pub open spec fn is_word(t: Seq<char>) -> bool {
    t.len() > 0 && forall|i: int| 0 <= i < t.len() ==> !white_space(#[trigger] t[i])
}

proof fn lemma_word_len_at(s: Seq<char>, n: int)
    requires
        0 <= n <= s.len(),
        forall|i: int| 0 <= i < n ==> !white_space(#[trigger] s[i]),
        n < s.len() ==> white_space(s[n]),
    ensures
        word_len(s) == n,
    decreases n,
{
    if n > 0 {
        assert(!white_space(s[0]));
        assert forall|i: int| 0 <= i < n - 1 implies !white_space(#[trigger] s.skip(1)[i]) by {
            assert(s.skip(1)[i] == s[i + 1]);
        }
        lemma_word_len_at(s.skip(1), n - 1);
    }
}

proof fn lemma_two_words(a: Seq<char>, b: Seq<char>)
    requires
        is_word(a),
        is_word(b),
    ensures
        second_word(a + seq![' '] + b) == Some(b),
{
    let s = a + seq![' '] + b;
    let rest = seq![' '] + b;
    let e = Seq::<char>::empty();
    assert(s[0] == a[0]);
    assert forall|i: int| 0 <= i < a.len() implies !white_space(#[trigger] s[i]) by {
        assert(s[i] == a[i]);
    }
    assert(s[a.len() as int] == ' ');
    lemma_word_len_at(s, a.len() as int);
    assert(s.skip(a.len() as int) =~= rest);
    assert(rest[0] == ' ');
    assert(rest.skip(1) =~= b);
    assert(trim_start(b) == b);
    assert(trim_start(rest) == b);
    lemma_word_len_at(b, b.len() as int);
    assert(b.skip(b.len() as int) =~= e);
    assert(b.take(b.len() as int) =~= b);
    assert(words(e) =~= seq![]);
    assert(words(rest) =~= seq![b]);
    assert(words(s) == seq![s.take(a.len() as int)] + words(rest));
}

proof fn lemma_drop_semicolons(a: Seq<char>, semis: Seq<char>)
    requires
        a.len() > 0,
        a.last() != ';',
        forall|i: int| 0 <= i < semis.len() ==> #[trigger] semis[i] == ';',
    ensures
        trim_end_char(a + semis, ';') == a,
    decreases semis.len(),
{
    if semis.len() == 0 {
        assert(a + semis =~= a);
    } else {
        assert((a + semis).last() == semis[semis.len() - 1]);
        assert((a + semis).drop_last() =~= a + semis.drop_last());
        lemma_drop_semicolons(a, semis.drop_last());
    }
}

/// `DESCRIBE table` and `DESC table`, in letters of either case and with or without
/// `;` behind, describe that table.
pub proof fn describe_names_its_table(keyword: Seq<char>, table: Seq<char>, semis: Seq<char>)
    requires
        same_but_ascii_case(keyword, "DESCRIBE"@) || same_but_ascii_case(keyword, "DESC"@),
        is_word(table),
        table.last() != ';',
        forall|i: int| 0 <= i < semis.len() ==> #[trigger] semis[i] == ';',
    ensures
        ({
            let line = keyword + seq![' '] + table + semis;
            &&& describe_keyword(unterminated(line))
            &&& second_word(unterminated(line)) == Some(table)
        }),
{
    let text = keyword + seq![' '] + table;
    let line = text + semis;
    reveal_strlit("DESCRIBE");
    reveal_strlit("DESC");
    reveal_strlit("DESCRIBE ");
    reveal_strlit("DESC ");
    assert forall|i: int| 0 <= i < keyword.len() implies !white_space(#[trigger] keyword[i]) by {
        let c = keyword[i];
        if keyword.len() == 8 {
            assert(ascii_upper(keyword[i]) == ascii_upper("DESCRIBE"@[i]));
        } else {
            assert(ascii_upper(keyword[i]) == ascii_upper("DESC"@[i]));
        }
    }
    assert(text[0] == keyword[0]);
    assert(line[0] == keyword[0]);
    assert(text.last() == table.last());
    assert(!white_space(table[table.len() - 1]));
    if semis.len() > 0 {
        assert(line.last() == semis[semis.len() - 1]);
    } else {
        assert(line =~= text);
    }
    trimming_keeps_trimmed(line);
    lemma_drop_semicolons(text, semis);
    trimming_keeps_trimmed(text);
    assert(unterminated(line) == text);
    lemma_two_words(keyword, table);
    if keyword.len() == 8 {
        assert forall|i: int| 0 <= i < 9 implies ascii_upper(#[trigger] text[i])
            == "DESCRIBE "@[i] by {
            if i < 8 {
                assert(text[i] == keyword[i]);
                assert(ascii_upper(keyword[i]) == ascii_upper("DESCRIBE"@[i]));
                assert("DESCRIBE"@[i] == "DESCRIBE "@[i]);
            } else {
                assert(text[i] == ' ');
            }
        }
        assert(has_keyword(text, "DESCRIBE "@));
    } else {
        assert forall|i: int| 0 <= i < 5 implies ascii_upper(#[trigger] text[i])
            == "DESC "@[i] by {
            if i < 4 {
                assert(text[i] == keyword[i]);
                assert(ascii_upper(keyword[i]) == ascii_upper("DESC"@[i]));
                assert("DESC"@[i] == "DESC "@[i]);
            } else {
                assert(text[i] == ' ');
            }
        }
        assert(has_keyword(text, "DESC "@));
    }
}

proof fn lemma_words_front(s: Seq<char>, c: char)
    requires
        white_space(c),
    ensures
        words(seq![c] + s) == words(s),
{
    let t = seq![c] + s;
    assert(t[0] == c);
    assert(t.skip(1) =~= s);
    assert(trim_start(t) == trim_start(s));
}

proof fn lemma_words_word(w: Seq<char>, rest: Seq<char>)
    requires
        is_word(w),
        rest.len() > 0 ==> white_space(rest[0]),
    ensures
        words(w + rest) == seq![w] + words(rest),
{
    let s = w + rest;
    let n = w.len() as int;
    assert forall|i: int| 0 <= i < n implies !white_space(#[trigger] s[i]) by {
        assert(s[i] == w[i]);
    }
    assert(!white_space(s[0]));
    assert(trim_start(s) == s);
    if rest.len() > 0 {
        assert(s[n] == rest[0]);
    }
    lemma_word_len_at(s, n);
    assert(s.take(n) =~= w);
    assert(s.skip(n) =~= rest);
}

proof fn lemma_word_then(s: Seq<char>)
    requires
        s.len() > 0,
        !white_space(s[0]),
    ensures
        0 < word_len(s) <= s.len(),
        is_word(s.take(word_len(s) as int)),
        word_len(s) < s.len() ==> white_space(s[word_len(s) as int]),
    decreases s.len(),
{
    let r = s.skip(1);
    if r.len() > 0 && !white_space(r[0]) {
        lemma_word_then(r);
        let n = word_len(s) as int;
        assert forall|i: int| 0 <= i < n implies !white_space(#[trigger] s.take(n)[i]) by {
            if i > 0 {
                assert(r.take(n - 1)[i - 1] == s[i]);
                assert(!white_space(r.take(n - 1)[i - 1]));
            }
        }
        if n < s.len() {
            assert(r[n - 1] == s[n]);
        }
    } else {
        assert(word_len(r) == 0);
        if r.len() > 0 {
            assert(r[0] == s[1]);
        }
    }
}

/// A text without white space is one word, itself, and white space between two texts parts
/// their words: no word is lost, joined with another or cut.
pub proof fn white_space_parts_words(a: Seq<char>, c: char, b: Seq<char>)
    requires
        white_space(c),
    ensures
        words(seq![]) == Seq::<Seq<char>>::empty(),
        a.len() > 0 && (forall|i: int| 0 <= i < a.len() ==> !white_space(#[trigger] a[i]))
            ==> words(a) == seq![a],
        words(a + seq![c] + b) == words(a) + words(b),
    decreases a.len(),
{
    let e = Seq::<char>::empty();
    assert(words(e) =~= seq![]);
    if is_word(a) {
        lemma_words_word(a, e);
        assert(a + e =~= a);
        assert(seq![a] + words(e) =~= seq![a]);
    }
    let t = seq![c] + b;
    lemma_words_front(b, c);
    if a.len() == 0 {
        assert(a + seq![c] + b =~= t);
        assert(words(a) =~= seq![]);
        assert(words(a) + words(b) =~= words(b));
    } else if white_space(a[0]) {
        let r = a.skip(1);
        white_space_parts_words(r, c, b);
        lemma_words_front(r, a[0]);
        lemma_words_front(r + seq![c] + b, a[0]);
        assert(seq![a[0]] + r =~= a);
        assert(seq![a[0]] + (r + seq![c] + b) =~= a + seq![c] + b);
    } else {
        lemma_word_then(a);
        let n = word_len(a) as int;
        let w = a.take(n);
        let r = a.skip(n);
        white_space_parts_words(r, c, b);
        lemma_words_word(w, r);
        let tail = r + seq![c] + b;
        assert(tail[0] == (if r.len() > 0 {
            r[0]
        } else {
            c
        }));
        lemma_words_word(w, tail);
        assert(w + r =~= a);
        assert(w + tail =~= a + seq![c] + b);
        assert(seq![w] + (words(r) + words(b)) =~= (seq![w] + words(r)) + words(b));
    }
}

/// The second word is the second that white space parts, whatever follows it.
pub proof fn second_words_stand_behind_the_first(
    a: Seq<char>,
    c: char,
    b: Seq<char>,
    d: char,
    rest: Seq<char>,
)
    requires
        is_word(a),
        is_word(b),
        white_space(c),
        white_space(d),
    ensures
        second_word(a) is None,
        second_word(seq![]) is None,
        second_word(a + seq![c] + b) == Some(b),
        second_word(a + seq![c] + b + seq![d] + rest) == Some(b),
{
    white_space_parts_words(a, c, b);
    white_space_parts_words(b, c, rest);
    white_space_parts_words(a + seq![c] + b, d, rest);
    assert(words(a + seq![c] + b) =~= seq![a, b]);
    assert(words(a + seq![c] + b + seq![d] + rest) =~= seq![a, b] + words(rest));
    assert((seq![a, b] + words(rest))[1] == b);
}

/// Exactly where a text has two words or more it has a second one.
pub proof fn second_words_are_found(s: Seq<char>)
    ensures
        words(s).len() >= 2 ==> second_word(s) == Some(words(s)[1]),
        words(s).len() < 2 ==> second_word(s) is None,
{
}

/// Of a line, the white space around it goes, and `;` at its end, and the white space before
/// those; what is left is the line's text as it stands.
pub proof fn terminators_are_taken_off(
    a: Seq<char>,
    t: Seq<char>,
    b: Seq<char>,
    semis: Seq<char>,
    c: Seq<char>,
)
    requires
        forall|i: int| 0 <= i < a.len() ==> white_space(#[trigger] a[i]),
        forall|i: int| 0 <= i < b.len() ==> white_space(#[trigger] b[i]),
        forall|i: int| 0 <= i < c.len() ==> white_space(#[trigger] c[i]),
        forall|i: int| 0 <= i < semis.len() ==> #[trigger] semis[i] == ';',
        t.len() > 0 ==> !white_space(t[0]) && !white_space(t[t.len() - 1]),
        t.len() > 0 && t[t.len() - 1] == ';' ==> b.len() > 0 && semis.len() > 0,
        t.len() == 0 ==> b.len() == 0,
    ensures
        unterminated(a + t + b + semis + c) == t,
{
    let line = a + t + b + semis + c;
    let e = Seq::<char>::empty();
    if semis.len() == 0 {
        let bc = b + c;
        assert forall|i: int| 0 <= i < bc.len() implies white_space(#[trigger] bc[i]) by {
            if i < b.len() {
                assert(bc[i] == b[i]);
            } else {
                assert(bc[i] == c[i - b.len()]);
            }
        }
        assert(line =~= a + t + bc);
        trimming_takes_only_the_space_around(a, t, bc);
        only_copies_are_taken_off(t, ';', e);
        assert(t + e =~= t);
        trimming_keeps_trimmed(t);
    } else {
        let m = t + b + semis;
        assert(m[m.len() - 1] == semis[semis.len() - 1]);
        if t.len() > 0 {
            assert(m[0] == t[0]);
        } else {
            assert(m[0] == semis[0]);
        }
        assert(line =~= a + m + c);
        trimming_takes_only_the_space_around(a, m, c);
        let tb = t + b;
        if b.len() > 0 {
            assert(tb[tb.len() - 1] == b[b.len() - 1]);
        } else {
            assert(tb =~= t);
        }
        only_copies_are_taken_off(tb, ';', semis);
        trimming_takes_only_the_space_around(e, t, b);
        assert(e + t + b =~= tb);
    }
}

/// `s` begins with `word` in letters of either case, and a space behind it.
pub open spec fn leads(s: Seq<char>, word: Seq<char>) -> bool {
    &&& s.len() > word.len()
    &&& same_but_ascii_case(s.take(word.len() as int), word)
    &&& s[word.len() as int] == ' '
}

proof fn lemma_keyword_leads(s: Seq<char>, word: Seq<char>, keyword: Seq<char>)
    requires
        keyword == word + seq![' '],
        forall|i: int| 0 <= i < word.len() ==> 'A' <= #[trigger] word[i] <= 'Z',
    ensures
        has_keyword(s, keyword) <==> leads(s, word),
{
    let n = word.len() as int;
    assert(keyword[n] == ' ');
    if has_keyword(s, keyword) {
        assert forall|i: int| 0 <= i < n implies ascii_upper(#[trigger] s.take(n)[i])
            == ascii_upper(word[i]) by {
            assert(ascii_upper(s[i]) == keyword[i]);
            assert(keyword[i] == word[i]);
        }
        assert(ascii_upper(s[n]) == ' ');
        lemma_space_has_no_case(s[n]);
    }
    if leads(s, word) {
        assert forall|i: int| 0 <= i < keyword.len() implies ascii_upper(#[trigger] s[i])
            == keyword[i] by {
            if i < n {
                assert(s.take(n)[i] == s[i]);
                assert(keyword[i] == word[i]);
                assert(ascii_upper(s.take(n)[i]) == ascii_upper(word[i]));
            }
        }
    }
}

proof fn lemma_space_has_no_case(c: char)
    requires
        ascii_upper(c) == ' ',
    ensures
        c == ' ',
{
}

/// A line describes a table where it begins with `DESCRIBE` or `DESC`, and defines something
/// where it begins with `CREATE`, `DROP` or `ALTER`, in letters of either case and with a space
/// behind; no other beginning counts.
pub proof fn keywords_lead_a_statement(s: Seq<char>)
    ensures
        describe_keyword(s) <==> leads(s, "DESCRIBE"@) || leads(s, "DESC"@),
        ddl_keyword(s) <==> leads(s, "CREATE"@) || leads(s, "DROP"@) || leads(s, "ALTER"@),
{
    reveal_strlit("DESCRIBE");
    reveal_strlit("DESCRIBE ");
    reveal_strlit("DESC");
    reveal_strlit("DESC ");
    reveal_strlit("CREATE");
    reveal_strlit("CREATE ");
    reveal_strlit("DROP");
    reveal_strlit("DROP ");
    reveal_strlit("ALTER");
    reveal_strlit("ALTER ");
    assert("DESCRIBE "@ =~= "DESCRIBE"@ + seq![' ']);
    assert("DESC "@ =~= "DESC"@ + seq![' ']);
    assert("CREATE "@ =~= "CREATE"@ + seq![' ']);
    assert("DROP "@ =~= "DROP"@ + seq![' ']);
    assert("ALTER "@ =~= "ALTER"@ + seq![' ']);
    lemma_keyword_leads(s, "DESCRIBE"@, "DESCRIBE "@);
    lemma_keyword_leads(s, "DESC"@, "DESC "@);
    lemma_keyword_leads(s, "CREATE"@, "CREATE "@);
    lemma_keyword_leads(s, "DROP"@, "DROP "@);
    lemma_keyword_leads(s, "ALTER"@, "ALTER "@);
}

/// The keyword is sought in the upper case alone and the table taken from the text alone: it
/// is the text's second word, spelled as in the text.
pub proof fn tables_keep_their_spelling(text: Seq<char>, upper: Seq<char>, line: Seq<char>)
    ensures
        upper.len() >= 9 && upper.take(9) == "DESCRIBE "@ ==> described(text, upper)
            == second_word(text),
        upper.len() >= 5 && upper.take(5) == "DESC "@ ==> described(text, upper) == second_word(
            text,
        ),
        described(text, upper) is Some ==> upper.len() >= 5 && (upper.take(5) == "DESC "@ || (
        upper.len() >= 9 && upper.take(9) == "DESCRIBE "@)),
        described_by(line) == described(unterminated(line), upper_case(unterminated(line))),
{
    reveal_strlit("DESCRIBE ");
    reveal_strlit("DESC ");
    if upper.len() >= 5 {
        assert(upper.subrange(0, 5) =~= upper.take(5));
    }
    if upper.len() >= 9 {
        assert(upper.subrange(0, 9) =~= upper.take(9));
    }
}

/// What defines something begins, in upper case, with one of three words and a space.
pub proof fn definitions_begin_with_their_verb(upper: Seq<char>)
    ensures
        defines(upper) <==> (upper.len() >= 7 && upper.take(7) == "CREATE "@) || (upper.len() >= 5
            && upper.take(5) == "DROP "@) || (upper.len() >= 6 && upper.take(6) == "ALTER "@),
{
    reveal_strlit("CREATE ");
    reveal_strlit("DROP ");
    reveal_strlit("ALTER ");
    if upper.len() >= 5 {
        assert(upper.subrange(0, 5) =~= upper.take(5));
    }
    if upper.len() >= 6 {
        assert(upper.subrange(0, 6) =~= upper.take(6));
    }
    if upper.len() >= 7 {
        assert(upper.subrange(0, 7) =~= upper.take(7));
    }
}

/// Blank lines do nothing; `\d` with anything behind it, and `show tables` in letters of either
/// case, list the tables, whatever else the line may be taken for.
pub proof fn commands_list_the_tables(line: Seq<char>, table: Option<Seq<char>>, ddl: bool)
    ensures
        classified(line, table, ddl) is Blank <==> trimmed(line).len() == 0,
        trimmed(line).len() >= 2 && trimmed(line)[0] == '\\' && trimmed(line)[1] == 'd'
            ==> classified(line, table, ddl) == StatementView::Show("SHOW TABLES"@),
        same_but_ascii_case(trimmed(line), "show tables"@) ==> classified(line, table, ddl)
            == StatementView::Show("SHOW TABLES"@),
{
    reveal_strlit("\\d");
    reveal_strlit("show tables");
    let s = trimmed(line);
    if s.len() >= 2 && s[0] == '\\' && s[1] == 'd' {
        assert(s.subrange(0, 2) =~= "\\d"@);
    }
}

/// Any other line that names a table to describe shows that table, by its name; and any that
/// names none is run, word for word, without the white space around it.
pub proof fn everything_else_is_described_or_run(
    line: Seq<char>,
    table: Option<Seq<char>>,
    ddl: bool,
)
    requires
        trimmed(line).len() > 0,
        trimmed(line)[0] != '\\' || trimmed(line).len() == 1 || trimmed(line)[1] != 'd',
        !same_but_ascii_case(trimmed(line), "show tables"@),
    ensures
        table matches Some(name) ==> classified(line, table, ddl) == StatementView::Show(
            "SELECT * FROM zarr_describe('"@ + name + "')"@,
        ),
        table is None ==> classified(line, table, ddl) == (StatementView::Run {
            sql: trimmed(line),
            ddl,
        }),
{
    reveal_strlit("\\d");
    let s = trimmed(line);
    if "\\d"@.is_prefix_of(s) {
        assert(s.subrange(0, 2)[0] == s[0] && s.subrange(0, 2)[1] == s[1]);
    }
}

/// The view shows a statement as it is.
pub proof fn statements_are_shown_whole(s: String, ddl: bool)
    ensures
        Statement::Blank@ is Blank,
        Statement::Show(s)@ == StatementView::Show(s@),
        (Statement::Run { sql: s, ddl })@ == (StatementView::Run { sql: s@, ddl }),
{
}

} // verus!
