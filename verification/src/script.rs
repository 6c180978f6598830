//! Cutting a SQL script into its statements.

use vstd::prelude::*;

use crate::text::{
    chars_of, is_trimmed, string_of, texts, trim_bounds, trim_end, trim_start, trimmed,
    trimmed_is_trimmed, trimming_keeps_trimmed, trimming_takes_only_the_space_around, white_space,
};

verus! {

/// Where a character of a script stands: outside any literal, in a `'...'`
/// string or in a `"..."` identifier.
#[derive(Clone, Copy)]
pub enum Quote {
    Outside,
    Single,
    Double,
}

/// What a script is made of once comments and line breaks are gone: characters
/// of statements, and the ends of statements.
pub enum Piece {
    Keep(char),
    Cut,
}

/// The number of characters of `s` before its first line feed.
pub open spec fn line_end(s: Seq<char>) -> nat
    decreases s.len(),
{
    if s.len() == 0 || s[0] == '\n' {
        0
    } else {
        1 + line_end(s.skip(1))
    }
}

/// A line ends within the text.
pub proof fn lemma_line_end_bound(s: Seq<char>)
    ensures
        line_end(s) <= s.len(),
    decreases s.len(),
{
    if s.len() > 0 && s[0] != '\n' {
        lemma_line_end_bound(s.skip(1));
    }
}

/// A `--` comment starts at the front of `s`.
pub open spec fn comment_starts(s: Seq<char>) -> bool {
    s.len() > 1 && s[0] == '-' && s[1] == '-'
}

/// The state after `c` was read in a literal: the quote that opened it closes it.
pub open spec fn after_quoted(c: char, q: Quote) -> Quote {
    match q {
        Quote::Single if c == '\'' => Quote::Outside,
        Quote::Double if c == '"' => Quote::Outside,
        _ => q,
    }
}

/// The character `c`, and then `rest`.
pub open spec fn kept(c: char, rest: Seq<Piece>) -> Seq<Piece> {
    seq![Piece::Keep(c)] + rest
}

/// The end of a statement, and then `rest`.
pub open spec fn cut(rest: Seq<Piece>) -> Seq<Piece> {
    seq![Piece::Cut] + rest
}

/// The pieces of `s`, read from a place in state `q`. In a literal every
/// character is kept, up to and with the closing quote. Outside, a comment and a
/// line break or tab each become one space, and `;` ends a statement.
pub open spec fn pieces(s: Seq<char>, q: Quote) -> Seq<Piece>
    decreases s.len(),
{
    if s.len() == 0 {
        seq![]
    } else {
        let c = s[0];
        let rest = s.skip(1);
        match q {
            Quote::Single => kept(c, pieces(rest, after_quoted(c, q))),
            Quote::Double => kept(c, pieces(rest, after_quoted(c, q))),
            Quote::Outside => if c == '\'' {
                kept(c, pieces(rest, Quote::Single))
            } else if c == '"' {
                kept(c, pieces(rest, Quote::Double))
            } else if comment_starts(s) {
                proof {
                    lemma_line_end_bound(s);
                }
                kept(' ', pieces(s.skip(line_end(s) as int), Quote::Outside))
            } else if c == ';' {
                cut(pieces(rest, Quote::Outside))
            } else if c == '\n' || c == '\r' || c == '\t' {
                kept(' ', pieces(rest, Quote::Outside))
            } else {
                kept(c, pieces(rest, Quote::Outside))
            },
        }
    }
}

/// The statement that `text` holds: none where it is blank.
pub open spec fn emitted(text: Seq<char>) -> Seq<Seq<char>> {
    if trimmed(text).len() == 0 {
        seq![]
    } else {
        seq![trimmed(text)]
    }
}

/// The statements of `p`, the first of which has begun with `open`.
pub open spec fn statements(p: Seq<Piece>, open: Seq<char>) -> Seq<Seq<char>>
    decreases p.len(),
{
    if p.len() == 0 {
        emitted(open)
    } else {
        match p[0] {
            Piece::Keep(c) => statements(p.skip(1), open.push(c)),
            Piece::Cut => emitted(open) + statements(p.skip(1), seq![]),
        }
    }
}

/// The statements of a script.
pub open spec fn script_statements(s: Seq<char>) -> Seq<Seq<char>> {
    statements(pieces(s, Quote::Outside), seq![])
}

proof fn lemma_keep_first(c: char, rest: Seq<Piece>, open: Seq<char>)
    ensures
        statements(kept(c, rest), open) == statements(rest, open.push(c)),
{
    let p = kept(c, rest);
    assert(p.skip(1) =~= rest);
    assert(p[0] == Piece::Keep(c));
}

proof fn lemma_cut_first(rest: Seq<Piece>, open: Seq<char>)
    ensures
        statements(cut(rest), open) == emitted(open) + statements(rest, seq![]),
{
    let p = cut(rest);
    assert(p.skip(1) =~= rest);
    assert(p[0] == Piece::Cut);
}

proof fn lemma_quoted(s: Seq<char>, c: char, q: Quote)
    requires
        s.len() > 0,
        s[0] == c,
        q !is Outside,
    ensures
        pieces(s, q) == kept(c, pieces(s.skip(1), after_quoted(c, q))),
{
}

proof fn lemma_plain(s: Seq<char>, c: char)
    requires
        s.len() > 0,
        s[0] == c,
        c != '\'' && c != '"' && c != ';' && c != '\n' && c != '\r' && c != '\t',
        !comment_starts(s),
    ensures
        pieces(s, Quote::Outside) == kept(c, pieces(s.skip(1), Quote::Outside)),
{
}

/// Ends the statement `cur`: adds it to `stmts` unless it is blank.
fn emit(stmts: &mut Vec<String>, cur: &Vec<char>)
    ensures
        texts(final(stmts)@) == texts(old(stmts)@) + emitted(cur@),
{
    let (a, b) = trim_bounds(cur);
    if a < b {
        let s = string_of(cur, a, b);
        stmts.push(s);
    }
    assert(texts(stmts@) =~= texts(old(stmts)@) + emitted(cur@));
}

/// Split a SQL script into individual statements: `--` comments are dropped,
/// line breaks and tabs become spaces, and `;` separates statements, except
/// inside single-quoted strings and double-quoted identifiers.
pub fn split_sql_statements(input: &str) -> (stmts: Vec<String>)
    ensures
        texts(stmts@) == script_statements(input@),
{
    let v = chars_of(input);
    let mut stmts: Vec<String> = Vec::new();
    let mut cur: Vec<char> = Vec::new();
    let mut quote = Quote::Outside;
    let mut i: usize = 0;
    assert(v@.skip(0) =~= v@);
    assert(texts(stmts@) =~= seq![]);
    while i < v.len()
        invariant
            i <= v@.len(),
            script_statements(v@) == texts(stmts@) + statements(
                pieces(v@.skip(i as int), quote),
                cur@,
            ),
        decreases v@.len() - i,
    {
        let c = v[i];
        let ghost s = v@.skip(i as int);
        let ghost rest = s.skip(1);
        assert(rest =~= v@.skip(i + 1));
        assert(s[0] == c);
        let ghost before = texts(stmts@);
        match quote {
            Quote::Single => {
                proof {
                    lemma_quoted(s, c, quote);
                    lemma_keep_first(c, pieces(rest, after_quoted(c, quote)), cur@);
                }
                cur.push(c);
                if c == '\'' {
                    quote = Quote::Outside;
                }
                i = i + 1;
            },
            Quote::Double => {
                proof {
                    lemma_quoted(s, c, quote);
                    lemma_keep_first(c, pieces(rest, after_quoted(c, quote)), cur@);
                }
                cur.push(c);
                if c == '"' {
                    quote = Quote::Outside;
                }
                i = i + 1;
            },
            Quote::Outside => {
                if c == '\'' {
                    proof {
                        lemma_keep_first(c, pieces(rest, Quote::Single), cur@);
                    }
                    quote = Quote::Single;
                    cur.push(c);
                    i = i + 1;
                } else if c == '"' {
                    proof {
                        lemma_keep_first(c, pieces(rest, Quote::Double), cur@);
                    }
                    quote = Quote::Double;
                    cur.push(c);
                    i = i + 1;
                } else if c == '-' && i + 1 < v.len() && v[i + 1] == '-' {
                    let from: usize = i;
                    assert(s[1] == v@[i + 1]);
                    assert(comment_starts(s));
                    while i < v.len() && v[i] != '\n'
                        invariant
                            from <= i <= v@.len(),
                            line_end(v@.skip(from as int)) == (i - from) + line_end(
                                v@.skip(i as int),
                            ),
                        decreases v@.len() - i,
                    {
                        assert(v@.skip(i as int).skip(1) =~= v@.skip(i + 1));
                        i = i + 1;
                    }
                    assert(line_end(v@.skip(i as int)) == 0);
                    assert(s.skip(line_end(s) as int) =~= v@.skip(i as int));
                    proof {
                        lemma_keep_first(' ', pieces(v@.skip(i as int), Quote::Outside), cur@);
                    }
                    // Keeps the words on either side apart.
                    cur.push(' ');
                } else {
                    assert(!comment_starts(s)) by {
                        if s.len() > 1 {
                            assert(s[1] == v@[i + 1]);
                        }
                    }
                    if c == ';' {
                        proof {
                            lemma_cut_first(pieces(rest, Quote::Outside), cur@);
                        }
                        emit(&mut stmts, &cur);
                        assert(texts(stmts@) + statements(pieces(rest, Quote::Outside), seq![])
                            =~= before + (emitted(cur@) + statements(
                            pieces(rest, Quote::Outside),
                            seq![],
                        )));
                        cur = Vec::new();
                        assert(cur@ =~= seq![]);
                    } else if c == '\n' || c == '\r' || c == '\t' {
                        proof {
                            lemma_keep_first(' ', pieces(rest, Quote::Outside), cur@);
                        }
                        cur.push(' ');
                    } else {
                        proof {
                            lemma_plain(s, c);
                            lemma_keep_first(c, pieces(rest, Quote::Outside), cur@);
                        }
                        cur.push(c);
                    }
                    i = i + 1;
                }
            },
        }
    }
    emit(&mut stmts, &cur);
    stmts
}

/// Every character of `t`, kept.
pub open spec fn whole(t: Seq<char>) -> Seq<Piece>
    decreases t.len(),
{
    if t.len() == 0 {
        seq![]
    } else {
        kept(t[0], whole(t.skip(1)))
    }
}

/// Reading `s` from state `q` ends outside any literal and any comment.
pub open spec fn ends_outside(s: Seq<char>, q: Quote) -> bool
    decreases s.len(),
{
    if s.len() == 0 {
        q is Outside
    } else {
        let rest = s.skip(1);
        match q {
            Quote::Outside => if s[0] == '\'' {
                ends_outside(rest, Quote::Single)
            } else if s[0] == '"' {
                ends_outside(rest, Quote::Double)
            } else if comment_starts(s) {
                proof {
                    lemma_line_end_bound(s);
                }
                line_end(s) < s.len() && ends_outside(s.skip(line_end(s) as int), Quote::Outside)
            } else {
                ends_outside(rest, Quote::Outside)
            },
            _ => ends_outside(rest, after_quoted(s[0], q)),
        }
    }
}

/// No `--` comes about where `a` and `b` meet.
pub open spec fn meet_apart(a: Seq<char>, b: Seq<char>) -> bool {
    a.len() > 0 && b.len() > 0 && a.last() == '-' ==> b[0] != '-'
}

proof fn lemma_line_end_prefix(a: Seq<char>, b: Seq<char>)
    requires
        line_end(a) < a.len(),
    ensures
        line_end(a + b) == line_end(a),
    decreases a.len(),
{
    if a[0] != '\n' {
        assert((a + b).skip(1) =~= a.skip(1) + b);
        lemma_line_end_prefix(a.skip(1), b);
    }
}

proof fn lemma_kept_concat(c: char, p: Seq<Piece>, r: Seq<Piece>)
    ensures
        kept(c, p) + r == kept(c, p + r),
{
    assert(kept(c, p) + r =~= kept(c, p + r));
}

proof fn lemma_pieces_concat(a: Seq<char>, b: Seq<char>, q: Quote)
    requires
        ends_outside(a, q),
        meet_apart(a, b),
    ensures
        pieces(a + b, q) == pieces(a, q) + pieces(b, Quote::Outside),
    decreases a.len(),
{
    let ab = a + b;
    if a.len() == 0 {
        assert(ab =~= b);
        assert(pieces(a, q) + pieces(b, Quote::Outside) =~= pieces(b, Quote::Outside));
    } else {
        let c = a[0];
        let ra = a.skip(1);
        assert(ab.skip(1) =~= ra + b);
        assert(ab[0] == c);
        assert(ra.len() > 0 ==> ra.last() == a.last());
        let pb = pieces(b, Quote::Outside);
        if q !is Outside {
            let n = after_quoted(c, q);
            lemma_quoted(a, c, q);
            lemma_quoted(ab, c, q);
            lemma_pieces_concat(ra, b, n);
            lemma_kept_concat(c, pieces(ra, n), pb);
        } else if c == '\'' {
            lemma_pieces_concat(ra, b, Quote::Single);
            lemma_kept_concat(c, pieces(ra, Quote::Single), pb);
        } else if c == '"' {
            lemma_pieces_concat(ra, b, Quote::Double);
            lemma_kept_concat(c, pieces(ra, Quote::Double), pb);
        } else if comment_starts(a) {
            let n = line_end(a) as int;
            lemma_line_end_bound(a);
            lemma_line_end_prefix(a, b);
            assert(comment_starts(ab));
            assert(ab.skip(n) =~= a.skip(n) + b);
            assert(a.skip(n).last() == a.last());
            lemma_pieces_concat(a.skip(n), b, Quote::Outside);
            lemma_kept_concat(' ', pieces(a.skip(n), Quote::Outside), pb);
        } else {
            assert(!comment_starts(ab)) by {
                if comment_starts(ab) {
                    if a.len() == 1 {
                        assert(ab[1] == b[0]);
                    } else {
                        assert(ab[1] == a[1]);
                    }
                }
            }
            let pa = pieces(ra, Quote::Outside);
            lemma_pieces_concat(ra, b, Quote::Outside);
            if c == ';' {
                assert(cut(pa) + pb =~= cut(pa + pb));
            } else if c == '\n' || c == '\r' || c == '\t' {
                lemma_kept_concat(' ', pa, pb);
            } else {
                lemma_plain(a, c);
                lemma_plain(ab, c);
                lemma_kept_concat(c, pa, pb);
            }
        }
    }
}

proof fn lemma_statements_cut(p: Seq<Piece>, r: Seq<Piece>, open: Seq<char>)
    ensures
        statements(p + cut(r), open) == statements(p, open) + statements(r, seq![]),
    decreases p.len(),
{
    let all = p + cut(r);
    if p.len() == 0 {
        assert(all =~= cut(r));
        lemma_cut_first(r, open);
    } else {
        assert(all[0] == p[0]);
        assert(all.skip(1) =~= p.skip(1) + cut(r));
        match p[0] {
            Piece::Keep(c) => {
                lemma_statements_cut(p.skip(1), r, open.push(c));
            },
            Piece::Cut => {
                lemma_statements_cut(p.skip(1), r, seq![]);
                assert((emitted(open) + statements(p.skip(1), seq![])) + statements(r, seq![])
                    =~= emitted(open) + (statements(p.skip(1), seq![]) + statements(r, seq![])));
            },
        }
    }
}

/// A `;` outside literals and comments separates statements: the script on its
/// left and the one on its right are read on their own.
pub proof fn semicolon_separates(a: Seq<char>, b: Seq<char>)
    requires
        ends_outside(a, Quote::Outside),
    ensures
        script_statements(a + seq![';'] + b) == script_statements(a) + script_statements(b),
{
    let t = seq![';'] + b;
    assert(a + seq![';'] + b =~= a + t);
    lemma_pieces_concat(a, t, Quote::Outside);
    assert(t.skip(1) =~= b);
    assert(t[0] == ';');
    lemma_statements_cut(pieces(a, Quote::Outside), pieces(b, Quote::Outside), seq![]);
}

spec fn all_solid(r: Seq<Seq<char>>) -> bool {
    forall|i: int| 0 <= i < r.len() ==> (#[trigger] r[i]).len() > 0 && is_trimmed(r[i])
}

proof fn lemma_statements_solid(p: Seq<Piece>, open: Seq<char>)
    ensures
        all_solid(statements(p, open)),
    decreases p.len(),
{
    trimmed_is_trimmed(open);
    if p.len() > 0 {
        match p[0] {
            Piece::Keep(c) => lemma_statements_solid(p.skip(1), open.push(c)),
            Piece::Cut => lemma_statements_solid(p.skip(1), seq![]),
        }
    }
}

/// No statement is empty, and none has white space at either end.
pub proof fn statements_are_solid(s: Seq<char>, i: int)
    requires
        0 <= i < script_statements(s).len(),
    ensures
        script_statements(s)[i].len() > 0,
        is_trimmed(script_statements(s)[i]),
{
    lemma_statements_solid(pieces(s, Quote::Outside), seq![]);
}

/// The text of a literal: `x` between two copies of the quote `mark`.
pub open spec fn literal(mark: char, x: Seq<char>) -> Seq<char> {
    seq![mark] + x + seq![mark]
}

proof fn lemma_whole_first(c: char, t: Seq<char>)
    ensures
        whole(seq![c] + t) == kept(c, whole(t)),
{
    let s = seq![c] + t;
    assert(s[0] == c);
    assert(s.skip(1) =~= t);
}

proof fn lemma_in_literal(x: Seq<char>, mark: char, b: Seq<char>, q: Quote)
    requires
        q is Single && mark == '\'' || q is Double && mark == '"',
        !x.contains(mark),
    ensures
        pieces(x + seq![mark] + b, q) == whole(x + seq![mark]) + pieces(b, Quote::Outside),
    decreases x.len(),
{
    let s = x + seq![mark] + b;
    let pb = pieces(b, Quote::Outside);
    if x.len() == 0 {
        assert(s[0] == mark);
        assert(s.skip(1) =~= b);
        lemma_quoted(s, mark, q);
        let e = Seq::<char>::empty();
        assert(x + seq![mark] =~= seq![mark] + e);
        lemma_whole_first(mark, e);
        lemma_kept_concat(mark, whole(e), pb);
        assert(whole(e) + pb =~= pb);
    } else {
        let c = x[0];
        let rx = x.skip(1);
        assert(x.contains(c));
        assert(!rx.contains(mark)) by {
            if rx.contains(mark) {
                let k = choose|k: int| 0 <= k < rx.len() && rx[k] == mark;
                assert(x[k + 1] == mark);
            }
        }
        assert(s.skip(1) =~= rx + seq![mark] + b);
        lemma_quoted(s, c, q);
        lemma_in_literal(rx, mark, b, q);
        assert(x + seq![mark] =~= seq![c] + (rx + seq![mark]));
        lemma_whole_first(c, rx + seq![mark]);
        lemma_kept_concat(c, whole(rx + seq![mark]), pb);
    }
}

/// A literal is kept character by character, whatever stands in it: a `;` or
/// `--` between quotes neither ends nor truncates a statement.
pub proof fn literals_stay_whole(a: Seq<char>, mark: char, x: Seq<char>, b: Seq<char>)
    requires
        ends_outside(a, Quote::Outside),
        mark == '\'' || mark == '"',
        !x.contains(mark),
    ensures
        pieces(a + literal(mark, x) + b, Quote::Outside) == pieces(a, Quote::Outside) + whole(
            literal(mark, x),
        ) + pieces(b, Quote::Outside),
{
    let t = literal(mark, x) + b;
    let inner = x + seq![mark] + b;
    let q = if mark == '\'' {
        Quote::Single
    } else {
        Quote::Double
    };
    assert(a + literal(mark, x) + b =~= a + t);
    lemma_pieces_concat(a, t, Quote::Outside);
    assert(t[0] == mark);
    assert(t.skip(1) =~= inner);
    lemma_in_literal(x, mark, b, q);
    assert(pieces(t, Quote::Outside) == kept(mark, pieces(inner, q)));
    lemma_kept_concat(mark, whole(x + seq![mark]), pieces(b, Quote::Outside));
    lemma_whole_first(mark, x + seq![mark]);
    assert(literal(mark, x) =~= seq![mark] + (x + seq![mark]));
    assert(pieces(a, Quote::Outside) + whole(literal(mark, x)) + pieces(b, Quote::Outside)
        =~= pieces(a, Quote::Outside) + (whole(literal(mark, x)) + pieces(b, Quote::Outside)));
}

proof fn lemma_statements_whole(t: Seq<char>, open: Seq<char>)
    ensures
        statements(whole(t), open) == emitted(open + t),
    decreases t.len(),
{
    if t.len() == 0 {
        assert(open + t =~= open);
    } else {
        let c = t[0];
        lemma_keep_first(c, whole(t.skip(1)), open);
        lemma_statements_whole(t.skip(1), open.push(c));
        assert(open.push(c) + t.skip(1) =~= open + t);
    }
}

/// A script that is one literal is one statement.
pub proof fn literal_is_one_statement(mark: char, x: Seq<char>)
    requires
        mark == '\'' || mark == '"',
        !x.contains(mark),
    ensures
        script_statements(literal(mark, x)) == seq![literal(mark, x)],
{
    let e = Seq::<char>::empty();
    let t = literal(mark, x);
    literals_stay_whole(e, mark, x, e);
    assert(e + t + e =~= t);
    assert(pieces(e, Quote::Outside) + whole(t) + pieces(e, Quote::Outside) =~= whole(t));
    lemma_statements_whole(t, e);
    assert(e + t =~= t);
    trimming_keeps_trimmed(t);
}

proof fn lemma_line_end_at(c: Seq<char>, tail: Seq<char>)
    requires
        !c.contains('\n'),
        tail.len() > 0 ==> tail[0] == '\n',
    ensures
        line_end(c + tail) == c.len(),
    decreases c.len(),
{
    let s = c + tail;
    if c.len() == 0 {
        assert(s =~= tail);
    } else {
        assert(c.contains(c[0]));
        let rc = c.skip(1);
        assert(!rc.contains('\n')) by {
            if rc.contains('\n') {
                let k = choose|k: int| 0 <= k < rc.len() && rc[k] == '\n';
                assert(c[k + 1] == '\n');
            }
        }
        assert(s.skip(1) =~= rc + tail);
        lemma_line_end_at(rc, tail);
    }
}

/// A `--` comment, whatever it says, counts as one space; it ends at the line's
/// end or with the script.
pub proof fn comments_count_as_spaces(a: Seq<char>, c: Seq<char>, tail: Seq<char>)
    requires
        ends_outside(a, Quote::Outside),
        meet_apart(a, seq!['-']),
        !c.contains('\n'),
        tail.len() > 0 ==> tail[0] == '\n',
    ensures
        script_statements(a + seq!['-', '-'] + c + tail) == script_statements(
            a + seq![' '] + tail,
        ),
{
    let dashes = seq!['-', '-'];
    let t = dashes + c + tail;
    let u = seq![' '] + tail;
    assert(a + dashes + c + tail =~= a + t);
    assert(a + seq![' '] + tail =~= a + u);
    lemma_pieces_concat(a, t, Quote::Outside);
    lemma_pieces_concat(a, u, Quote::Outside);
    assert(!(dashes + c).contains('\n')) by {
        if (dashes + c).contains('\n') {
            let k = choose|k: int| 0 <= k < (dashes + c).len() && (dashes + c)[k] == '\n';
            if k >= 2 {
                assert(c[k - 2] == '\n');
            }
        }
    }
    lemma_line_end_at(dashes + c, tail);
    assert(comment_starts(t));
    assert(t.skip(line_end(t) as int) =~= tail);
    assert(u.skip(1) =~= tail);
    assert(u[0] == ' ');
    lemma_plain(u, ' ');
}

/// A line feed, carriage return or tab outside literals and comments counts as a
/// space.
pub proof fn line_breaks_count_as_spaces(a: Seq<char>, c: char, b: Seq<char>)
    requires
        ends_outside(a, Quote::Outside),
        c == '\n' || c == '\r' || c == '\t',
    ensures
        script_statements(a + seq![c] + b) == script_statements(a + seq![' '] + b),
{
    let t = seq![c] + b;
    let u = seq![' '] + b;
    assert(a + seq![c] + b =~= a + t);
    assert(a + seq![' '] + b =~= a + u);
    lemma_pieces_concat(a, t, Quote::Outside);
    lemma_pieces_concat(a, u, Quote::Outside);
    assert(t.skip(1) =~= b);
    assert(u.skip(1) =~= b);
    assert(t[0] == c);
    assert(u[0] == ' ');
    lemma_plain(u, ' ');
}

/// The state after `c` was read in state `q`, in text without comments.
pub open spec fn next_quote(q: Quote, c: char) -> Quote {
    match q {
        Quote::Outside => if c == '\'' {
            Quote::Single
        } else if c == '"' {
            Quote::Double
        } else {
            Quote::Outside
        },
        _ => after_quoted(c, q),
    }
}

/// The state after `u`, text without comments, was read.
pub open spec fn quote_after(u: Seq<char>) -> Quote
    decreases u.len(),
{
    if u.len() == 0 {
        Quote::Outside
    } else {
        next_quote(quote_after(u.drop_last()), u.last())
    }
}

/// Outside literals, the character at `i` is kept as it is: it is no `;`, line feed,
/// carriage return or tab, and begins no `--`.
pub open spec fn stays(u: Seq<char>, i: int) -> bool {
    &&& u[i] != ';' && u[i] != '\n' && u[i] != '\r' && u[i] != '\t'
    &&& u[i] == '-' && i + 1 < u.len() ==> u[i + 1] != '-'
}

/// `u` has no `;`, `--`, line break or tab outside its literals.
pub open spec fn clean(u: Seq<char>) -> bool {
    forall|i: int|
        0 <= i < u.len() && quote_after(#[trigger] u.take(i)) is Outside ==> stays(u, i)
}

proof fn lemma_clean_whole(u: Seq<char>, k: int)
    requires
        clean(u),
        0 <= k <= u.len(),
    ensures
        pieces(u.skip(k), quote_after(u.take(k))) == whole(u.skip(k)),
    decreases u.len() - k,
{
    if k < u.len() {
        let s = u.skip(k);
        let c = u[k];
        let q = quote_after(u.take(k));
        assert(s[0] == c);
        assert(s.skip(1) =~= u.skip(k + 1));
        assert(u.take(k + 1).drop_last() =~= u.take(k));
        assert(u.take(k + 1).last() == c);
        lemma_clean_whole(u, k + 1);
        if q !is Outside {
            lemma_quoted(s, c, q);
        } else {
            assert(stays(u, k));
            if s.len() > 1 {
                assert(s[1] == u[k + 1]);
            }
            if c != '\'' && c != '"' {
                lemma_plain(s, c);
            }
        }
    }
}

proof fn lemma_clean_push(u: Seq<char>, c: char)
    requires
        clean(u),
        quote_after(u) is Outside ==> {
            &&& c != ';' && c != '\n' && c != '\r' && c != '\t'
            &&& u.len() > 0 && u.last() == '-' ==> c != '-'
        },
    ensures
        clean(u.push(c)),
        quote_after(u.push(c)) == next_quote(quote_after(u), c),
{
    let w = u.push(c);
    assert(w.drop_last() =~= u);
    assert forall|i: int|
        0 <= i < w.len() && quote_after(#[trigger] w.take(i)) is Outside implies stays(w, i) by {
        if i < u.len() {
            assert(w.take(i) =~= u.take(i));
            assert(stays(u, i));
            if i + 1 == u.len() && u[i] == '-' {
                assert(u.take(i) =~= u.drop_last());
                assert(quote_after(u) is Outside);
            }
        } else {
            assert(w.take(i) =~= u);
        }
    }
}

proof fn lemma_quote_after_skip(u: Seq<char>)
    requires
        u.len() > 0,
        u[0] != '\'',
        u[0] != '"',
    ensures
        quote_after(u.skip(1)) == quote_after(u),
    decreases u.len(),
{
    if u.len() == 1 {
        assert(u.drop_last() =~= seq![]);
        assert(u.skip(1) =~= seq![]);
    } else {
        assert(u.skip(1).drop_last() =~= u.drop_last().skip(1));
        assert(u.skip(1).last() == u.last());
        lemma_quote_after_skip(u.drop_last());
    }
}

proof fn lemma_clean_trim_start(u: Seq<char>)
    requires
        clean(u),
    ensures
        clean(trim_start(u)),
        quote_after(trim_start(u)) == quote_after(u),
    decreases u.len(),
{
    if u.len() > 0 && white_space(u[0]) {
        let w = u.skip(1);
        assert forall|i: int|
            0 <= i < w.len() && quote_after(#[trigger] w.take(i)) is Outside implies stays(
            w,
            i,
        ) by {
            assert(w.take(i) =~= u.take(i + 1).skip(1));
            lemma_quote_after_skip(u.take(i + 1));
            assert(stays(u, i + 1));
        }
        lemma_quote_after_skip(u);
        lemma_clean_trim_start(w);
    }
}

proof fn lemma_clean_trim_end(u: Seq<char>)
    requires
        clean(u),
    ensures
        clean(trim_end(u)),
        quote_after(trim_end(u)) == quote_after(u),
    decreases u.len(),
{
    if u.len() > 0 && white_space(u.last()) {
        let w = u.drop_last();
        assert forall|i: int|
            0 <= i < w.len() && quote_after(#[trigger] w.take(i)) is Outside implies stays(
            w,
            i,
        ) by {
            assert(w.take(i) =~= u.take(i));
            assert(stays(u, i));
        }
        lemma_clean_trim_end(w);
    }
}

/// `s` is clean, and as a script it is one statement: itself.
spec fn stable(s: Seq<char>) -> bool {
    clean(s) && script_statements(s) == seq![s]
}

/// Every text is [`stable`], and every one but the last has its literals closed.
spec fn orderly(r: Seq<Seq<char>>) -> bool {
    &&& forall|i: int| 0 <= i < r.len() ==> stable(#[trigger] r[i])
    &&& forall|i: int| 0 <= i < r.len() - 1 ==> quote_after(#[trigger] r[i]) is Outside
}

proof fn lemma_emitted_orderly(open: Seq<char>)
    requires
        clean(open),
    ensures
        orderly(emitted(open)),
        emitted(open).len() > 0 ==> quote_after(emitted(open)[0]) == quote_after(open),
{
    let t = trimmed(open);
    lemma_clean_trim_start(open);
    lemma_clean_trim_end(trim_start(open));
    lemma_clean_whole(t, 0);
    assert(t.skip(0) =~= t);
    assert(t.take(0) =~= seq![]);
    lemma_statements_whole(t, seq![]);
    assert(Seq::<char>::empty() + t =~= t);
    trimmed_is_trimmed(open);
    trimming_keeps_trimmed(t);
}

proof fn lemma_statements_orderly(s: Seq<char>, q: Quote, open: Seq<char>)
    requires
        clean(open),
        quote_after(open) == q,
        q is Outside ==> meet_apart(open, s),
    ensures
        orderly(statements(pieces(s, q), open)),
    decreases s.len(),
{
    if s.len() == 0 {
        lemma_emitted_orderly(open);
    } else {
        let c = s[0];
        let rest = s.skip(1);
        if q !is Outside {
            let n = after_quoted(c, q);
            lemma_clean_push(open, c);
            lemma_quoted(s, c, q);
            lemma_keep_first(c, pieces(rest, n), open);
            lemma_statements_orderly(rest, n, open.push(c));
        } else if c == '\'' || c == '"' {
            let n = next_quote(q, c);
            lemma_clean_push(open, c);
            lemma_keep_first(c, pieces(rest, n), open);
            lemma_statements_orderly(rest, n, open.push(c));
        } else if comment_starts(s) {
            let tail = s.skip(line_end(s) as int);
            lemma_line_end_bound(s);
            lemma_clean_push(open, ' ');
            lemma_keep_first(' ', pieces(tail, q), open);
            lemma_statements_orderly(tail, q, open.push(' '));
        } else if c == ';' {
            lemma_cut_first(pieces(rest, q), open);
            lemma_emitted_orderly(open);
            lemma_statements_orderly(rest, q, seq![]);
            let first = emitted(open);
            let later = statements(pieces(rest, q), seq![]);
            let r = first + later;
            assert forall|i: int| 0 <= i < r.len() implies stable(#[trigger] r[i]) by {
                if i >= first.len() {
                    assert(r[i] == later[i - first.len()]);
                }
            }
            assert forall|i: int| 0 <= i < r.len() - 1 implies quote_after(
                #[trigger] r[i],
            ) is Outside by {
                if i >= first.len() {
                    assert(r[i] == later[i - first.len()]);
                }
            }
        } else if c == '\n' || c == '\r' || c == '\t' {
            lemma_clean_push(open, ' ');
            lemma_keep_first(' ', pieces(rest, q), open);
            lemma_statements_orderly(rest, q, open.push(' '));
        } else {
            lemma_plain(s, c);
            lemma_clean_push(open, c);
            lemma_keep_first(c, pieces(rest, q), open);
            lemma_statements_orderly(rest, q, open.push(c));
        }
    }
}

/// A statement that came out of a script is a script of one statement: itself.
pub proof fn statements_split_to_themselves(s: Seq<char>, i: int)
    requires
        0 <= i < script_statements(s).len(),
    ensures
        script_statements(script_statements(s)[i]) == seq![script_statements(s)[i]],
{
    lemma_statements_orderly(s, Quote::Outside, seq![]);
    assert(stable(script_statements(s)[i]));
}

/// No statement has a `;`, `--`, line break or tab outside its literals, and every one
/// but the last has its literals closed.
pub proof fn statements_are_clean(s: Seq<char>, i: int)
    requires
        0 <= i < script_statements(s).len(),
    ensures
        clean(script_statements(s)[i]),
        i + 1 < script_statements(s).len() ==> quote_after(script_statements(s)[i]) is Outside,
{
    lemma_statements_orderly(s, Quote::Outside, seq![]);
    assert(stable(script_statements(s)[i]));
}

proof fn lemma_clean_ends_outside(u: Seq<char>, k: int)
    requires
        clean(u),
        quote_after(u) is Outside,
        0 <= k <= u.len(),
    ensures
        ends_outside(u.skip(k), quote_after(u.take(k))),
    decreases u.len() - k,
{
    if k == u.len() {
        assert(u.take(k) =~= u);
    } else {
        let s = u.skip(k);
        let q = quote_after(u.take(k));
        assert(s[0] == u[k]);
        assert(s.skip(1) =~= u.skip(k + 1));
        assert(u.take(k + 1).drop_last() =~= u.take(k));
        assert(u.take(k + 1).last() == u[k]);
        lemma_clean_ends_outside(u, k + 1);
        if q is Outside {
            assert(stays(u, k));
            if s.len() > 1 {
                assert(s[1] == u[k + 1]);
            }
        }
    }
}

/// The texts of `v`, with a `;` between each and the next.
pub open spec fn joined(v: Seq<Seq<char>>) -> Seq<char>
    decreases v.len(),
{
    if v.len() == 0 {
        seq![]
    } else if v.len() == 1 {
        v[0]
    } else {
        v[0] + seq![';'] + joined(v.skip(1))
    }
}

proof fn lemma_joined_splits(v: Seq<Seq<char>>)
    requires
        orderly(v),
    ensures
        script_statements(joined(v)) == v,
    decreases v.len(),
{
    if v.len() == 0 {
        assert(script_statements(joined(v)) =~= v);
    } else if v.len() == 1 {
        assert(stable(v[0]));
        assert(seq![v[0]] =~= v);
    } else {
        let rest = v.skip(1);
        assert(stable(v[0]));
        assert(quote_after(v[0]) is Outside);
        assert forall|i: int| 0 <= i < rest.len() implies stable(#[trigger] rest[i]) by {
            assert(rest[i] == v[i + 1]);
        }
        assert forall|i: int| 0 <= i < rest.len() - 1 implies quote_after(
            #[trigger] rest[i],
        ) is Outside by {
            assert(rest[i] == v[i + 1]);
        }
        lemma_joined_splits(rest);
        lemma_clean_ends_outside(v[0], 0);
        assert(v[0].skip(0) =~= v[0]);
        assert(v[0].take(0) =~= seq![]);
        semicolon_separates(v[0], joined(rest));
        assert(seq![v[0]] + rest =~= v);
    }
}

/// The statements of a script, joined by `;`, are a script of the same statements.
pub proof fn joined_statements_split_again(s: Seq<char>)
    ensures
        script_statements(joined(script_statements(s))) == script_statements(s),
{
    lemma_statements_orderly(s, Quote::Outside, seq![]);
    lemma_joined_splits(script_statements(s));
}

/// No statement is lost or altered: a text without `;`, `--`, line break or tab outside its
/// literals and without white space at its ends is, as a script, one statement, itself,
/// whatever its length.
pub proof fn clean_text_is_one_statement(t: Seq<char>)
    requires
        clean(t),
        t.len() > 0,
        !white_space(t[0]),
        !white_space(t[t.len() - 1]),
    ensures
        script_statements(t) == seq![t],
{
    lemma_clean_script(t);
    trimming_keeps_trimmed(t);
}

proof fn lemma_clean_script(u: Seq<char>)
    requires
        clean(u),
    ensures
        script_statements(u) == emitted(u),
{
    lemma_clean_whole(u, 0);
    assert(u.skip(0) =~= u);
    assert(u.take(0) =~= seq![]);
    lemma_statements_whole(u, seq![]);
    assert(Seq::<char>::empty() + u =~= u);
}

/// White space around a statement is all that is taken off it.
pub proof fn space_around_a_statement_is_dropped(a: Seq<char>, t: Seq<char>, b: Seq<char>)
    requires
        clean(a + t + b),
        forall|i: int| 0 <= i < a.len() ==> white_space(#[trigger] a[i]),
        forall|i: int| 0 <= i < b.len() ==> white_space(#[trigger] b[i]),
        t.len() > 0,
        !white_space(t[0]),
        !white_space(t[t.len() - 1]),
    ensures
        script_statements(a + t + b) == seq![t],
{
    lemma_clean_script(a + t + b);
    trimming_takes_only_the_space_around(a, t, b);
}

proof fn lemma_blank(s: Seq<char>, open: Seq<char>)
    requires
        forall|i: int| 0 <= i < s.len() ==> white_space(#[trigger] s[i]),
        forall|i: int| 0 <= i < open.len() ==> white_space(#[trigger] open[i]),
    ensures
        statements(pieces(s, Quote::Outside), open) == Seq::<Seq<char>>::empty(),
    decreases s.len(),
{
    if s.len() == 0 {
        let e = Seq::<char>::empty();
        trimming_takes_only_the_space_around(open, e, e);
        assert(open + e + e =~= open);
    } else {
        let c = s[0];
        let rest = s.skip(1);
        assert(white_space(s[0]));
        assert forall|i: int| 0 <= i < rest.len() implies white_space(#[trigger] rest[i]) by {
            assert(rest[i] == s[i + 1]);
        }
        let k = if c == '\n' || c == '\r' || c == '\t' {
            ' '
        } else {
            c
        };
        if k == c {
            lemma_plain(s, c);
        }
        assert(pieces(s, Quote::Outside) == kept(k, pieces(rest, Quote::Outside)));
        lemma_keep_first(k, pieces(rest, Quote::Outside), open);
        lemma_blank(rest, open.push(k));
    }
}

/// White space alone holds no statement.
pub proof fn blank_scripts_hold_nothing(s: Seq<char>)
    requires
        forall|i: int| 0 <= i < s.len() ==> white_space(#[trigger] s[i]),
    ensures
        script_statements(s) == Seq::<Seq<char>>::empty(),
{
    lemma_blank(s, seq![]);
}

/// `p` has neither quotes nor two dashes side by side.
pub open spec fn unquoted(p: Seq<char>) -> bool {
    &&& forall|i: int| 0 <= i < p.len() ==> #[trigger] p[i] != '\'' && p[i] != '"'
    &&& forall|i: int, j: int|
        0 <= i < p.len() && j == i + 1 && j < p.len() && #[trigger] p[i] == '-' ==> #[trigger] p[j]
            != '-'
}

proof fn lemma_ends_outside_concat(a: Seq<char>, b: Seq<char>, q: Quote)
    requires
        ends_outside(a, q),
        meet_apart(a, b),
        ends_outside(b, Quote::Outside),
    ensures
        ends_outside(a + b, q),
    decreases a.len(),
{
    let ab = a + b;
    if a.len() == 0 {
        assert(ab =~= b);
    } else {
        let ra = a.skip(1);
        assert(ab.skip(1) =~= ra + b);
        assert(ab[0] == a[0]);
        assert(ra.len() > 0 ==> ra.last() == a.last());
        if q !is Outside {
            lemma_ends_outside_concat(ra, b, after_quoted(a[0], q));
        } else if a[0] == '\'' {
            lemma_ends_outside_concat(ra, b, Quote::Single);
        } else if a[0] == '"' {
            lemma_ends_outside_concat(ra, b, Quote::Double);
        } else if comment_starts(a) {
            let n = line_end(a) as int;
            lemma_line_end_prefix(a, b);
            assert(comment_starts(ab));
            assert(ab.skip(n) =~= a.skip(n) + b);
            assert(a.skip(n).last() == a.last());
            lemma_ends_outside_concat(a.skip(n), b, Quote::Outside);
        } else {
            assert(!comment_starts(ab)) by {
                if comment_starts(ab) {
                    if a.len() == 1 {
                        assert(ab[1] == b[0]);
                    } else {
                        assert(ab[1] == a[1]);
                    }
                }
            }
            lemma_ends_outside_concat(ra, b, Quote::Outside);
        }
    }
}

proof fn lemma_unquoted_ends_outside(p: Seq<char>)
    requires
        unquoted(p),
    ensures
        ends_outside(p, Quote::Outside),
    decreases p.len(),
{
    if p.len() > 0 {
        let r = p.skip(1);
        assert forall|i: int| 0 <= i < r.len() implies #[trigger] r[i] != '\'' && r[i] != '"' by {
            assert(r[i] == p[i + 1]);
        }
        assert forall|i: int, j: int|
            0 <= i < r.len() && j == i + 1 && j < r.len() && #[trigger] r[i]
                == '-' implies #[trigger] r[j] != '-' by {
            assert(r[i] == p[i + 1] && r[j] == p[j + 1]);
        }
        lemma_unquoted_ends_outside(r);
        assert(p[0] != '\'' && p[0] != '"');
        assert(!comment_starts(p));
    }
}

proof fn lemma_in_literal_ends(x: Seq<char>, mark: char, q: Quote)
    requires
        q is Single && mark == '\'' || q is Double && mark == '"',
        !x.contains(mark),
    ensures
        ends_outside(x + seq![mark], q),
    decreases x.len(),
{
    let s = x + seq![mark];
    if x.len() == 0 {
        assert(s[0] == mark);
        assert(s.skip(1) =~= seq![]);
        assert(after_quoted(mark, q) is Outside);
        assert(ends_outside(s.skip(1), Quote::Outside));
    } else {
        let rx = x.skip(1);
        assert(x.contains(x[0]));
        assert(!rx.contains(mark)) by {
            if rx.contains(mark) {
                let k = choose|k: int| 0 <= k < rx.len() && rx[k] == mark;
                assert(x[k + 1] == mark);
            }
        }
        assert(s.skip(1) =~= rx + seq![mark]);
        assert(s[0] == x[0]);
        lemma_in_literal_ends(rx, mark, q);
    }
}

/// A script is outside literals and comments at its start, still is so behind text without
/// quotes and comments, behind a literal that was closed, and behind a comment with its line
/// feed.
pub proof fn scripts_get_outside_again(a: Seq<char>, p: Seq<char>, mark: char, x: Seq<char>)
    requires
        ends_outside(a, Quote::Outside),
    ensures
        ends_outside(seq![], Quote::Outside),
        unquoted(p) && (a.len() > 0 && p.len() > 0 && a.last() == '-' ==> p[0] != '-')
            ==> ends_outside(a + p, Quote::Outside),
        (mark == '\'' || mark == '"') && !x.contains(mark) ==> ends_outside(
            a + seq![mark] + x + seq![mark],
            Quote::Outside,
        ),
        !x.contains('\n') && (a.len() > 0 ==> a.last() != '-') ==> ends_outside(
            a + seq!['-', '-'] + x + seq!['\n'],
            Quote::Outside,
        ),
{
    if unquoted(p) && meet_apart(a, p) {
        lemma_unquoted_ends_outside(p);
        lemma_ends_outside_concat(a, p, Quote::Outside);
    }
    if (mark == '\'' || mark == '"') && !x.contains(mark) {
        let q = if mark == '\'' {
            Quote::Single
        } else {
            Quote::Double
        };
        let t = seq![mark] + (x + seq![mark]);
        lemma_in_literal_ends(x, mark, q);
        assert(t[0] == mark);
        assert(t.skip(1) =~= x + seq![mark]);
        assert(ends_outside(t, Quote::Outside));
        lemma_ends_outside_concat(a, t, Quote::Outside);
        assert(a + t =~= a + seq![mark] + x + seq![mark]);
    }
    if !x.contains('\n') && meet_apart(a, seq!['-']) {
        let dashes = seq!['-', '-'];
        let feed = seq!['\n'];
        let t = dashes + x + feed;
        assert(!(dashes + x).contains('\n')) by {
            if (dashes + x).contains('\n') {
                let k = choose|k: int| 0 <= k < (dashes + x).len() && (dashes + x)[k] == '\n';
                if k >= 2 {
                    assert(x[k - 2] == '\n');
                }
            }
        }
        lemma_line_end_at(dashes + x, feed);
        assert(t[0] == '-' && t[1] == '-');
        assert(t.skip(line_end(t) as int) =~= feed);
        assert(unquoted(feed));
        lemma_unquoted_ends_outside(feed);
        assert(ends_outside(t, Quote::Outside));
        lemma_ends_outside_concat(a, t, Quote::Outside);
        assert(a + t =~= a + dashes + x + feed);
    }
}

proof fn lemma_clean_plain(a: Seq<char>, p: Seq<char>)
    requires
        clean(a),
        quote_after(a) is Outside,
        unquoted(p),
        forall|i: int|
            0 <= i < p.len() ==> #[trigger] p[i] != ';' && p[i] != '\n' && p[i] != '\r' && p[i]
                != '\t',
        meet_apart(a, p),
    ensures
        clean(a + p),
        quote_after(a + p) is Outside,
    decreases p.len(),
{
    if p.len() == 0 {
        assert(a + p =~= a);
    } else {
        let r = p.drop_last();
        let c = p[p.len() - 1];
        assert forall|i: int| 0 <= i < r.len() implies #[trigger] r[i] == p[i] by {}
        lemma_clean_plain(a, r);
        assert(a + p =~= (a + r).push(c));
        if (a + r).len() > 0 && (a + r).last() == '-' {
            if r.len() > 0 {
                assert(p[p.len() - 2] == '-');
            }
        }
        lemma_clean_push(a + r, c);
    }
}

proof fn lemma_clean_inside(u: Seq<char>, x: Seq<char>, mark: char)
    requires
        clean(u),
        quote_after(u) is Single && mark == '\'' || quote_after(u) is Double && mark == '"',
        !x.contains(mark),
    ensures
        clean(u + x),
        quote_after(u + x) == quote_after(u),
    decreases x.len(),
{
    if x.len() == 0 {
        assert(u + x =~= u);
    } else {
        let r = x.drop_last();
        let c = x[x.len() - 1];
        assert(x.contains(c));
        assert(!r.contains(mark)) by {
            if r.contains(mark) {
                let k = choose|k: int| 0 <= k < r.len() && r[k] == mark;
                assert(x[k] == mark);
            }
        }
        lemma_clean_inside(u, r, mark);
        assert(u + x =~= (u + r).push(c));
        lemma_clean_push(u + r, c);
    }
}

/// What is clean: text without quotes, `;`, `--`, line breaks and tabs; and behind clean text
/// whose literals are closed also a literal, whatever it holds, closed or running to the end.
pub proof fn plain_text_and_literals_are_clean(
    a: Seq<char>,
    p: Seq<char>,
    mark: char,
    x: Seq<char>,
)
    requires
        clean(a),
        quote_after(a) is Outside,
    ensures
        clean(seq![]) && quote_after(seq![]) is Outside,
        unquoted(p) && (forall|i: int|
            0 <= i < p.len() ==> #[trigger] p[i] != ';' && p[i] != '\n' && p[i] != '\r' && p[i]
                != '\t') && (a.len() > 0 && p.len() > 0 && a.last() == '-' ==> p[0] != '-')
            ==> clean(a + p) && quote_after(a + p) is Outside,
        (mark == '\'' || mark == '"') && !x.contains(mark) ==> {
            &&& clean(a + seq![mark] + x)
            &&& clean(a + seq![mark] + x + seq![mark])
            &&& quote_after(a + seq![mark] + x + seq![mark]) is Outside
        },
{
    if unquoted(p) && (forall|i: int|
        0 <= i < p.len() ==> #[trigger] p[i] != ';' && p[i] != '\n' && p[i] != '\r' && p[i]
            != '\t') && meet_apart(a, p) {
        lemma_clean_plain(a, p);
    }
    if (mark == '\'' || mark == '"') && !x.contains(mark) {
        lemma_clean_push(a, mark);
        assert(a + seq![mark] =~= a.push(mark));
        lemma_clean_inside(a.push(mark), x, mark);
        let u = a + seq![mark] + x;
        lemma_clean_push(u, mark);
        assert(u + seq![mark] =~= u.push(mark));
    }
}

} // verus!
