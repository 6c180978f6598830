//! Text as a sequence of characters: white space, trimming, prefixes, ASCII
//! case and decimal numerals.

use vstd::prelude::*;

verus! {

/// The characters with Unicode's `White_Space` property.
pub open spec fn white_space(c: char) -> bool {
    let n = c as u32;
    ||| 0x09 <= n <= 0x0d
    ||| n == 0x20
    ||| n == 0x85
    ||| n == 0xa0
    ||| n == 0x1680
    ||| 0x2000 <= n <= 0x200a
    ||| n == 0x2028
    ||| n == 0x2029
    ||| n == 0x202f
    ||| n == 0x205f
    ||| n == 0x3000
}

/// `char::is_whitespace` is documented as the test for `White_Space`, the
/// property that Unicode's PropList.txt gives to exactly the characters of
/// [`white_space`].
pub assume_specification[ char::is_whitespace ](c: char) -> (r: bool)
    ensures
        r == white_space(c),
;

/// `String::push` is documented to append the character at the end.
pub assume_specification[ String::push ](s: &mut String, c: char)
    ensures
        final(s)@ == old(s)@.push(c),
;

/// The texts of a sequence of strings.
pub open spec fn texts(v: Seq<String>) -> Seq<Seq<char>> {
    v.map_values(|s: String| s@)
}

/// `s` without the white space at its front.
pub open spec fn trim_start(s: Seq<char>) -> Seq<char>
    decreases s.len(),
{
    if s.len() > 0 && white_space(s[0]) {
        trim_start(s.skip(1))
    } else {
        s
    }
}

/// `s` without the white space at its end.
pub open spec fn trim_end(s: Seq<char>) -> Seq<char>
    decreases s.len(),
{
    if s.len() > 0 && white_space(s.last()) {
        trim_end(s.drop_last())
    } else {
        s
    }
}

/// `s` without the white space around it.
pub open spec fn trimmed(s: Seq<char>) -> Seq<char> {
    trim_end(trim_start(s))
}

/// `s` without the copies of `c` at its end.
pub open spec fn trim_end_char(s: Seq<char>, c: char) -> Seq<char>
    decreases s.len(),
{
    if s.len() > 0 && s.last() == c {
        trim_end_char(s.drop_last(), c)
    } else {
        s
    }
}

/// Neither end of `s` is white space.
pub open spec fn is_trimmed(s: Seq<char>) -> bool {
    s.len() > 0 ==> !white_space(s[0]) && !white_space(s.last())
}

proof fn lemma_trim_start_at(s: Seq<char>, a: int)
    requires
        0 <= a <= s.len(),
        forall|i: int| 0 <= i < a ==> white_space(#[trigger] s[i]),
        a < s.len() ==> !white_space(s[a]),
    ensures
        trim_start(s) == s.skip(a),
    decreases a,
{
    if a > 0 {
        assert(white_space(s[0]));
        assert forall|i: int| 0 <= i < a - 1 implies white_space(#[trigger] s.skip(1)[i]) by {
            assert(s.skip(1)[i] == s[i + 1]);
        }
        lemma_trim_start_at(s.skip(1), a - 1);
        assert(s.skip(1).skip(a - 1) =~= s.skip(a));
    } else {
        assert(s.skip(0) =~= s);
    }
}

proof fn lemma_trim_end_at(s: Seq<char>, b: int)
    requires
        0 <= b <= s.len(),
        forall|i: int| b <= i < s.len() ==> white_space(#[trigger] s[i]),
        b > 0 ==> !white_space(s[b - 1]),
    ensures
        trim_end(s) == s.take(b),
    decreases s.len() - b,
{
    if b < s.len() {
        assert(white_space(s[s.len() - 1]));
        lemma_trim_end_at(s.drop_last(), b);
        assert(s.drop_last().take(b) =~= s.take(b));
    } else {
        assert(s.take(b) =~= s);
    }
}

/// Trimming leaves no white space at either end.
pub proof fn trimmed_is_trimmed(s: Seq<char>)
    ensures
        is_trimmed(trimmed(s)),
{
    lemma_trim_start_front(s);
    lemma_trim_end_back(trim_start(s));
}

/// A text without white space at its ends is left as it is.
pub proof fn trimming_keeps_trimmed(s: Seq<char>)
    requires
        is_trimmed(s),
    ensures
        trimmed(s) == s,
{
}

/// Trimming twice is trimming once.
pub proof fn trimming_is_idempotent(s: Seq<char>)
    ensures
        trimmed(trimmed(s)) == trimmed(s),
{
    trimmed_is_trimmed(s);
    trimming_keeps_trimmed(trimmed(s));
}

/// Trimming the front makes no text longer and leaves no white space there.
pub proof fn lemma_trim_start_front(s: Seq<char>)
    ensures
        trim_start(s).len() <= s.len(),
        trim_start(s).len() > 0 ==> !white_space(trim_start(s)[0]),
    decreases s.len(),
{
    if s.len() > 0 && white_space(s[0]) {
        lemma_trim_start_front(s.skip(1));
    }
}

proof fn lemma_trim_end_back(s: Seq<char>)
    ensures
        trim_end(s).len() > 0 ==> !white_space(trim_end(s).last()) && s.len() > 0 && trim_end(s)[0]
            == s[0],
    decreases s.len(),
{
    if s.len() > 0 && white_space(s.last()) {
        lemma_trim_end_back(s.drop_last());
    }
}

/// The characters of `s`, in order.
pub fn chars_of(s: &str) -> (v: Vec<char>)
    ensures
        v@ == s@,
{
    let mut v: Vec<char> = Vec::new();
    for c in it: s.chars()
        invariant
            v@ == it.seq().take(it.index() as int),
            it.seq() == s@,
    {
        v.push(c);
    }
    v
}

/// The text of `v` from `from` up to `to`.
pub fn string_of(v: &Vec<char>, from: usize, to: usize) -> (s: String)
    requires
        from <= to <= v@.len(),
    ensures
        s@ == v@.subrange(from as int, to as int),
{
    let mut s = String::new();
    let mut i: usize = from;
    while i < to
        invariant
            from <= i <= to <= v@.len(),
            s@ == v@.subrange(from as int, i as int),
        decreases to - i,
    {
        s.push(v[i]);
        i = i + 1;
    }
    s
}

/// Where the white space at the front of `v` ends and the one at its end begins.
pub fn trim_bounds(v: &Vec<char>) -> (r: (usize, usize))
    ensures
        r.0 <= r.1 <= v@.len(),
        v@.subrange(r.0 as int, r.1 as int) == trimmed(v@),
{
    let mut a: usize = 0;
    while a < v.len() && v[a].is_whitespace()
        invariant
            a <= v@.len(),
            forall|i: int| 0 <= i < a ==> white_space(#[trigger] v@[i]),
        decreases v@.len() - a,
    {
        a = a + 1;
    }
    let mut b: usize = v.len();
    while b > a && v[b - 1].is_whitespace()
        invariant
            a <= b <= v@.len(),
            forall|i: int| b <= i < v@.len() ==> white_space(#[trigger] v@[i]),
        decreases b,
    {
        b = b - 1;
    }
    proof {
        lemma_trim_start_at(v@, a as int);
        let t = v@.skip(a as int);
        assert forall|i: int| b - a <= i < t.len() implies white_space(#[trigger] t[i]) by {
            assert(t[i] == v@[i + a]);
        }
        lemma_trim_end_at(t, b - a);
        assert(t.take(b - a) =~= v@.subrange(a as int, b as int));
    }
    (a, b)
}

/// Where the copies of `c` at the end of `v`'s first `to` characters begin.
pub fn end_without(v: &Vec<char>, from: usize, to: usize, c: char) -> (r: usize)
    requires
        from <= to <= v@.len(),
    ensures
        from <= r <= to,
        v@.subrange(from as int, r as int) == trim_end_char(
            v@.subrange(from as int, to as int),
            c,
        ),
{
    let mut b: usize = to;
    while b > from && v[b - 1] == c
        invariant
            from <= b <= to <= v@.len(),
            trim_end_char(v@.subrange(from as int, to as int), c) == trim_end_char(
                v@.subrange(from as int, b as int),
                c,
            ),
        decreases b,
    {
        assert(v@.subrange(from as int, b as int).drop_last() =~= v@.subrange(
            from as int,
            b - 1,
        ));
        b = b - 1;
    }
    b
}

/// `s` without the white space around it.
pub fn trim(s: &str) -> (r: String)
    ensures
        r@ == trimmed(s@),
{
    let v = chars_of(s);
    let (a, b) = trim_bounds(&v);
    string_of(&v, a, b)
}

/// The character of a decimal digit.
pub open spec fn digit(d: nat) -> char {
    ('0' as nat + d) as char
}

/// The decimal numeral of `n`, without leading zeros.
pub open spec fn decimal(n: nat) -> Seq<char>
    decreases n,
{
    if n < 10 {
        seq![digit(n)]
    } else {
        decimal(n / 10).push(digit(n % 10))
    }
}

/// A numeral is not empty and holds digits only.
pub proof fn numerals_hold_digits(n: nat)
    ensures
        decimal(n).len() > 0,
        forall|i: int| 0 <= i < decimal(n).len() ==> '0' <= #[trigger] decimal(n)[i] <= '9',
    decreases n,
{
    if n >= 10 {
        numerals_hold_digits(n / 10);
    }
}

/// Different numbers have different numerals.
pub proof fn numerals_tell_numbers(a: nat, b: nat)
    requires
        decimal(a) == decimal(b),
    ensures
        a == b,
    decreases a,
{
    numerals_hold_digits(a / 10);
    numerals_hold_digits(b / 10);
    let x = decimal(a);
    let y = decimal(b);
    assert(x.last() == y.last());
    assert(x.last() == digit(a % 10));
    assert(y.last() == digit(b % 10));
    if a >= 10 && b >= 10 {
        assert(x.drop_last() =~= decimal(a / 10));
        assert(y.drop_last() =~= decimal(b / 10));
        numerals_tell_numbers(a / 10, b / 10);
    }
}

/// Appends the decimal numeral of `n`.
pub fn push_decimal(s: &mut String, n: u64)
    ensures
        final(s)@ == old(s)@ + decimal(n as nat),
    decreases n,
{
    if n >= 10 {
        push_decimal(s, n / 10);
    }
    let d: u8 = (n % 10) as u8;
    s.push((48 + d) as char);
    assert(s@ =~= old(s)@ + decimal(n as nat));
}

/// The text of a string that may be missing.
pub open spec fn opt_text(s: Option<String>) -> Option<Seq<char>> {
    match s {
        Some(t) => Some(t@),
        None => None,
    }
}

/// The two texts are the same.
pub fn same_text(a: &str, b: &str) -> (r: bool)
    ensures
        r == (a@ == b@),
{
    let x = chars_of(a);
    let y = chars_of(b);
    if x.len() != y.len() {
        return false;
    }
    let mut i: usize = 0;
    while i < x.len()
        invariant
            x@ == a@,
            y@ == b@,
            i <= x@.len() == y@.len(),
            forall|j: int| 0 <= j < i ==> x@[j] == y@[j],
        decreases x@.len() - i,
    {
        if x[i] != y[i] {
            assert(x@[i as int] != y@[i as int]);
            return false;
        }
        i = i + 1;
    }
    assert(x@ =~= y@);
    true
}

/// `p` stands at the front of `s`.
pub fn starts_with(s: &str, p: &str) -> (r: bool)
    ensures
        r == p@.is_prefix_of(s@),
{
    let x = chars_of(s);
    let y = chars_of(p);
    if y.len() > x.len() {
        return false;
    }
    let mut i: usize = 0;
    while i < y.len()
        invariant
            x@ == s@,
            y@ == p@,
            i <= y@.len() <= x@.len(),
            forall|j: int| 0 <= j < i ==> x@[j] == y@[j],
        decreases y@.len() - i,
    {
        if x[i] != y[i] {
            assert(x@.subrange(0, y@.len() as int)[i as int] != y@[i as int]);
            return false;
        }
        i = i + 1;
    }
    assert(x@.subrange(0, y@.len() as int) =~= y@);
    true
}

/// `c` with an ASCII small letter made the capital one.
pub open spec fn ascii_upper(c: char) -> char {
    if 'a' <= c <= 'z' {
        (c as u32 - 32) as char
    } else {
        c
    }
}

/// `c` with an ASCII small letter made the capital one.
pub fn to_ascii_upper(c: char) -> (r: char)
    ensures
        r == ascii_upper(c),
{
    if 'a' <= c && c <= 'z' {
        (c as u8 - 32) as char
    } else {
        c
    }
}

/// `s` and `t` differ at most in the case of ASCII letters.
pub open spec fn same_but_ascii_case(s: Seq<char>, t: Seq<char>) -> bool {
    &&& s.len() == t.len()
    &&& forall|i: int| 0 <= i < s.len() ==> ascii_upper(#[trigger] s[i]) == ascii_upper(t[i])
}

/// `s` and `t` differ at most in the case of ASCII letters.
pub fn eq_ignore_ascii_case(s: &str, t: &str) -> (r: bool)
    ensures
        r == same_but_ascii_case(s@, t@),
{
    let x = chars_of(s);
    let y = chars_of(t);
    if x.len() != y.len() {
        return false;
    }
    let mut i: usize = 0;
    while i < x.len()
        invariant
            x@ == s@,
            y@ == t@,
            i <= x@.len() == y@.len(),
            forall|j: int| 0 <= j < i ==> ascii_upper(#[trigger] x@[j]) == ascii_upper(y@[j]),
        decreases x@.len() - i,
    {
        if to_ascii_upper(x[i]) != to_ascii_upper(y[i]) {
            assert(ascii_upper(x@[i as int]) != ascii_upper(y@[i as int]));
            return false;
        }
        i = i + 1;
    }
    true
}

/// The first `k` characters of `s` are ASCII.
pub open spec fn ascii_head(s: Seq<char>, k: int) -> bool {
    &&& 0 <= k <= s.len()
    &&& forall|i: int| 0 <= i < k ==> (#[trigger] s[i] as u32) < 128
}

/// The text that `str::to_uppercase` makes of a text.
pub uninterp spec fn upper_case(s: Seq<char>) -> Seq<char>;

/// `str::to_uppercase`, the upper case that Unicode gives to each character on its
/// own. Which characters that is, is only named here, except that ASCII text at the
/// front keeps its length and has its small letters made capital ones.
#[verifier::external_body]
pub(crate) fn to_uppercase(s: &str) -> (r: String)
    ensures
        r@ == upper_case(s@),
        forall|k: int| #[trigger]
            ascii_head(s@, k) ==> r@.len() >= k && forall|i: int|
                0 <= i < k ==> #[trigger] r@[i] == ascii_upper(s@[i]),
        ascii_head(s@, s@.len() as int) ==> r@.len() == s@.len(),
{
    s.to_uppercase()
}

/// Of the ASCII characters, the space, the tab, the line breaks and the two characters
/// between them are white space, and none else, so no visible one.
pub proof fn visible_characters_are_no_space(c: char)
    requires
        (c as u32) < 128,
    ensures
        white_space(c) <==> c == ' ' || '\t' <= c <= '\r',
        0x21 <= c as u32 <= 0x7e ==> !white_space(c),
{
}

/// Of a text with white space on either side, trimming leaves just that text, whatever
/// it holds; of white space alone it leaves nothing.
pub proof fn trimming_takes_only_the_space_around(a: Seq<char>, t: Seq<char>, b: Seq<char>)
    requires
        forall|i: int| 0 <= i < a.len() ==> white_space(#[trigger] a[i]),
        forall|i: int| 0 <= i < b.len() ==> white_space(#[trigger] b[i]),
        t.len() > 0 ==> !white_space(t[0]) && !white_space(t[t.len() - 1]),
    ensures
        trimmed(a + t + b) == t,
{
    let s = a + t + b;
    let n = a.len() as int;
    if t.len() == 0 {
        assert forall|i: int| 0 <= i < s.len() implies white_space(#[trigger] s[i]) by {
            if i < n {
                assert(s[i] == a[i]);
            } else {
                assert(s[i] == b[i - n]);
            }
        }
        lemma_trim_start_at(s, s.len() as int);
        assert(trimmed(s) =~= t);
    } else {
        assert forall|i: int| 0 <= i < n implies white_space(#[trigger] s[i]) by {
            assert(s[i] == a[i]);
        }
        assert(s[n] == t[0]);
        lemma_trim_start_at(s, n);
        let r = s.skip(n);
        let m = t.len() as int;
        assert forall|i: int| m <= i < r.len() implies white_space(#[trigger] r[i]) by {
            assert(r[i] == b[i - m]);
        }
        assert(r[m - 1] == t[m - 1]);
        lemma_trim_end_at(r, m);
        assert(r.take(m) =~= t);
    }
}

/// Copies of a character behind a text that does not end in it are taken off, and
/// nothing else.
pub proof fn only_copies_are_taken_off(t: Seq<char>, c: char, copies: Seq<char>)
    requires
        t.len() > 0 ==> t[t.len() - 1] != c,
        forall|i: int| 0 <= i < copies.len() ==> #[trigger] copies[i] == c,
    ensures
        trim_end_char(t + copies, c) == t,
    decreases copies.len(),
{
    if copies.len() == 0 {
        assert(t + copies =~= t);
    } else {
        assert((t + copies).last() == copies[copies.len() - 1]);
        assert((t + copies).drop_last() =~= t + copies.drop_last());
        only_copies_are_taken_off(t, c, copies.drop_last());
    }
}

/// The number that digits stand for, read from the left.
pub open spec fn numeral_value(s: Seq<char>) -> nat
    decreases s.len(),
{
    if s.len() == 0 {
        0
    } else {
        10 * numeral_value(s.drop_last()) + (s.last() as u32 - 48) as nat
    }
}

/// Reading a numeral gives the number back, and no numeral begins with a zero but that of
/// zero.
pub proof fn numerals_read_back(n: nat)
    ensures
        numeral_value(decimal(n)) == n,
        n > 0 ==> decimal(n)[0] != '0',
    decreases n,
{
    let s = decimal(n);
    assert(s.last() == digit(n % 10));
    assert(digit(n % 10) as u32 - 48 == n % 10);
    if n >= 10 {
        numerals_hold_digits(n / 10);
        numerals_read_back(n / 10);
        assert(s.drop_last() =~= decimal(n / 10));
        assert(s[0] == decimal(n / 10)[0]);
    } else {
        assert(s.drop_last() =~= seq![]);
        assert(numeral_value(s.drop_last()) == 0);
    }
}

/// `c` is a capital ASCII letter and `d` its small one.
pub open spec fn letter_pair(c: char, d: char) -> bool {
    'A' <= c <= 'Z' && d as u32 == c as u32 + 32
}

/// Two texts differ at most in ASCII case exactly where each pair of characters is the
/// same or a capital letter and its small one. No other characters are held equal.
pub proof fn only_letters_have_case(s: Seq<char>, t: Seq<char>)
    ensures
        same_but_ascii_case(s, t) <==> s.len() == t.len() && forall|i: int|
            0 <= i < s.len() ==> #[trigger] s[i] == t[i] || letter_pair(s[i], t[i]) || letter_pair(
                t[i],
                s[i],
            ),
{
    if same_but_ascii_case(s, t) {
        assert forall|i: int| 0 <= i < s.len() implies #[trigger] s[i] == t[i] || letter_pair(
            s[i],
            t[i],
        ) || letter_pair(t[i], s[i]) by {
            lemma_upper_letters(s[i]);
            lemma_upper_letters(t[i]);
            assert(ascii_upper(s[i]) == ascii_upper(t[i]));
        }
    } else if s.len() == t.len() {
        let i = choose|i: int|
            0 <= i < s.len() && ascii_upper(#[trigger] s[i]) != ascii_upper(t[i]);
        lemma_upper_letters(s[i]);
        lemma_upper_letters(t[i]);
    }
}

proof fn lemma_upper_letters(c: char)
    ensures
        'a' <= c <= 'z' ==> ascii_upper(c) as u32 == c as u32 - 32,
        !('a' <= c <= 'z') ==> ascii_upper(c) == c,
{
}

/// The texts of strings are those strings', one for one; so is the text of a string that
/// may be missing.
pub proof fn texts_are_the_strings(v: Seq<String>, s: Option<String>)
    ensures
        texts(v).len() == v.len(),
        forall|i: int| 0 <= i < v.len() ==> #[trigger] texts(v)[i] == v[i]@,
        s is None <==> opt_text(s) is None,
        s matches Some(t) ==> opt_text(s) == Some(t@),
{
}

} // verus!
