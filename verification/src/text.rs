//! Text as sequences of characters: the string operations that the rest of the crate is built on.
use vstd::prelude::*;

verus! {

/// `String::push` appends the character at the end.
pub assume_specification[ String::push ](s: &mut String, c: char)
    ensures
        final(s)@ == old(s)@.push(c),
;

/// The Unicode property `White_Space`.
pub open spec fn white_space(c: char) -> bool {
    ||| '\u{9}' <= c <= '\u{d}'
    ||| c == ' ' || c == '\u{85}' || c == '\u{a0}' || c == '\u{1680}'
    ||| '\u{2000}' <= c <= '\u{200a}'
    ||| c == '\u{2028}' || c == '\u{2029}' || c == '\u{202f}' || c == '\u{205f}' || c
        == '\u{3000}'
}

/// `char::is_whitespace` tells whether a character has the property `White_Space`.
pub assume_specification[ char::is_whitespace ](c: char) -> (white: bool)
    ensures
        white == white_space(c),
;

/// What `str::to_lowercase` makes of a text.
pub uninterp spec fn lowercase(s: Seq<char>) -> Seq<char>;

/// `str::to_lowercase` is a fixed function of the text. Each character becomes one or more, so
/// only the empty text becomes empty.
#[verifier::external_body]
pub(crate) fn to_lowercase(s: &str) -> (r: String)
    ensures
        r@ == lowercase(s@),
        r@.len() == 0 <==> s@.len() == 0,
{
    s.to_lowercase()
}

// ── What the operations mean ──

/// The text without the white space at its start.
pub open spec fn trim_start(s: Seq<char>) -> Seq<char>
    decreases s.len(),
{
    if s.len() > 0 && white_space(s[0]) {
        trim_start(s.drop_first())
    } else {
        s
    }
}

/// The text without the white space at its end.
pub open spec fn trim_end(s: Seq<char>) -> Seq<char>
    decreases s.len(),
{
    if s.len() > 0 && white_space(s.last()) {
        trim_end(s.drop_last())
    } else {
        s
    }
}

/// The text without the white space at either end.
pub open spec fn trim(s: Seq<char>) -> Seq<char> {
    trim_end(trim_start(s))
}

/// The text up to its first white space.
pub open spec fn upto_white(s: Seq<char>) -> Seq<char>
    decreases s.len(),
{
    if s.len() == 0 || white_space(s[0]) {
        Seq::empty()
    } else {
        seq![s[0]] + upto_white(s.drop_first())
    }
}

/// The first word of a text; empty where there is none.
pub open spec fn first_word(s: Seq<char>) -> Seq<char> {
    upto_white(trim_start(s))
}

pub open spec fn starts_with(s: Seq<char>, prefix: Seq<char>) -> bool {
    prefix.len() <= s.len() && s.take(prefix.len() as int) == prefix
}

/// Whether `part` stands in `s` at `at`.
pub open spec fn found_at(s: Seq<char>, part: Seq<char>, at: int) -> bool {
    0 <= at && at + part.len() <= s.len() && s.subrange(at, at + part.len()) == part
}

pub open spec fn contains(s: Seq<char>, part: Seq<char>) -> bool {
    exists|at: int| found_at(s, part, at)
}

/// Whether `part` stands in `s` at `at`, and nowhere before.
pub open spec fn is_first_at(s: Seq<char>, part: Seq<char>, at: int) -> bool {
    found_at(s, part, at) && forall|k: int| 0 <= k < at ==> !found_at(s, part, k)
}

/// Where `part` stands in `s` first.
pub open spec fn first_at(s: Seq<char>, part: Seq<char>) -> Option<int> {
    if exists|at: int| is_first_at(s, part, at) {
        Some(choose|at: int| is_first_at(s, part, at))
    } else {
        None
    }
}

/// Where the first line of a text ends: at its first line feed, or at the end of the text.
pub open spec fn line_end(s: Seq<char>) -> int
    decreases s.len(),
{
    if s.len() == 0 || s[0] == '\n' {
        0
    } else {
        1 + line_end(s.drop_first())
    }
}

/// A line without the carriage return that belongs to its line feed.
pub open spec fn drop_return(s: Seq<char>) -> Seq<char> {
    if s.len() > 0 && s.last() == '\r' {
        s.drop_last()
    } else {
        s
    }
}

/// The lines of a text. A line feed at the very end starts no further line.
pub open spec fn lines(s: Seq<char>) -> Seq<Seq<char>>
    decreases s.len(),
    via lines_decreases
{
    if s.len() == 0 {
        Seq::empty()
    } else if line_end(s) == s.len() {
        seq![s]
    } else {
        seq![drop_return(s.take(line_end(s)))] + lines(s.skip(line_end(s) + 1))
    }
}

#[via_fn]
proof fn lines_decreases(s: Seq<char>) {
    lemma_line_end_bounds(s);
}

/// The parts one after the other, with `sep` between any two.
pub open spec fn join(parts: Seq<Seq<char>>, sep: Seq<char>) -> Seq<char>
    decreases parts.len(),
{
    if parts.len() == 0 {
        Seq::empty()
    } else if parts.len() == 1 {
        parts[0]
    } else {
        join(parts.drop_last(), sep) + sep + parts.last()
    }
}

/// `n` times the same character.
pub open spec fn repeated(c: char, n: nat) -> Seq<char> {
    Seq::new(n, |i: int| c)
}

/// The text with spaces after it, up to `width` characters.
pub open spec fn pad_end(s: Seq<char>, width: nat) -> Seq<char> {
    if s.len() >= width {
        s
    } else {
        s + repeated(' ', (width - s.len()) as nat)
    }
}

/// The text with spaces before it, up to `width` characters.
pub open spec fn pad_start(s: Seq<char>, width: nat) -> Seq<char> {
    if s.len() >= width {
        s
    } else {
        repeated(' ', (width - s.len()) as nat) + s
    }
}

/// A number with zeros in front, so that it has `width` digits.
pub open spec fn zero_padded(n: nat, width: nat) -> Seq<char> {
    let d = decimal(n);
    if d.len() < width {
        repeated('0', (width - d.len()) as nat) + d
    } else {
        d
    }
}

/// The first `n` characters, or all where there are fewer.
pub open spec fn first_chars(s: Seq<char>, n: nat) -> Seq<char> {
    if s.len() <= n {
        s
    } else {
        s.take(n as int)
    }
}

pub open spec fn digit(n: int) -> char {
    (48 + n) as char
}

/// A number in decimal.
pub open spec fn decimal(n: nat) -> Seq<char>
    decreases n,
{
    if n < 10 {
        seq![digit(n as int)]
    } else {
        decimal(n / 10).push(digit((n % 10) as int))
    }
}

/// A hexadecimal digit in lower case.
pub open spec fn hex_digit(n: int) -> char {
    if n < 10 {
        (48 + n) as char
    } else {
        (87 + n) as char
    }
}

/// Each byte as two hexadecimal digits.
pub open spec fn hex(bytes: Seq<u8>) -> Seq<char>
    decreases bytes.len(),
{
    if bytes.len() == 0 {
        Seq::empty()
    } else {
        hex(bytes.drop_last()) + seq![
            hex_digit(bytes.last() as int / 16),
            hex_digit(bytes.last() as int % 16),
        ]
    }
}

/// What follows the last `c` in a text, or all of it where there is none.
pub open spec fn after_last(s: Seq<char>, c: char) -> Seq<char>
    decreases s.len(),
{
    if s.len() == 0 || s.last() == c {
        Seq::empty()
    } else {
        after_last(s.drop_last(), c).push(s.last())
    }
}

/// A list of texts, each as its characters.
pub open spec fn texts(v: Seq<String>) -> Seq<Seq<char>> {
    v.map_values(|s: String| s@)
}

/// A text that may be missing, as its characters.
pub open spec fn opt_text(s: Option<&str>) -> Option<Seq<char>> {
    match s {
        Some(s) => Some(s@),
        None => None,
    }
}

// ── The operations ──

/// The characters of a text, one by one.
pub fn chars_of(s: &str) -> (v: Vec<char>)
    ensures
        v@ == s@,
{
    let mut v: Vec<char> = Vec::new();
    for c in it: s.chars()
        invariant
            v@ == s@.take(it.index()),
            it.seq() == s@,
    {
        v.push(c);
    }
    v
}

/// The text made of the characters from `from` up to `to`.
pub fn text_of(v: &Vec<char>, from: usize, to: usize) -> (s: String)
    requires
        from <= to <= v@.len(),
    ensures
        s@ == v@.subrange(from as int, to as int),
{
    let mut s = String::new();
    let mut i: usize = from;
    while i < to
        invariant
            from <= i <= to <= v@.len(),
            s@ == v@.subrange(from as int, i as int),
        decreases to - i,
    {
        s.push(v[i]);
        i += 1;
    }
    s
}

/// Whether two texts are equal.
pub fn same(a: &str, b: &str) -> (r: bool)
    ensures
        r == (a@ == b@),
{
    a.to_string() == b.to_string()
}

/// Truncate a string to at most `max_chars` characters, respecting char boundaries.
pub fn truncate_chars(s: &str, max_chars: usize) -> (r: &str)
    ensures
        r@ == first_chars(s@, max_chars as nat),
{
    if s.unicode_len() <= max_chars {
        s
    } else {
        s.substring_char(0, max_chars)
    }
}

pub fn cat2(a: &str, b: &str) -> (r: String)
    ensures
        r@ == a@ + b@,
{
    a.to_string().concat(b)
}

pub fn cat3(a: &str, b: &str, c: &str) -> (r: String)
    ensures
        r@ == a@ + b@ + c@,
{
    a.to_string().concat(b).concat(c)
}

pub fn cat4(a: &str, b: &str, c: &str, d: &str) -> (r: String)
    ensures
        r@ == a@ + b@ + c@ + d@,
{
    a.to_string().concat(b).concat(c).concat(d)
}

pub fn cat5(a: &str, b: &str, c: &str, d: &str, e: &str) -> (r: String)
    ensures
        r@ == a@ + b@ + c@ + d@ + e@,
{
    a.to_string().concat(b).concat(c).concat(d).concat(e)
}

/// The text without the white space at either end.
pub fn trimmed(s: &str) -> (r: &str)
    ensures
        r@ == trim(s@),
{
    let v = chars_of(s);
    let n: usize = v.len();
    let mut i: usize = 0;
    assert(s@.skip(0) == s@);
    while i < n && v[i].is_whitespace()
        invariant
            i <= n,
            n == v@.len(),
            v@ == s@,
            trim_start(s@) == trim_start(s@.skip(i as int)),
        decreases n - i,
    {
        assert(s@.skip(i as int).drop_first() == s@.skip(i + 1));
        i += 1;
    }
    assert(trim_start(s@) == s@.skip(i as int));
    let mut j: usize = n;
    assert(s@.skip(i as int) == s@.subrange(i as int, n as int));
    while j > i && v[j - 1].is_whitespace()
        invariant
            i <= j <= n,
            n == v@.len(),
            v@ == s@,
            trim(s@) == trim_end(s@.subrange(i as int, j as int)),
        decreases j,
    {
        assert(s@.subrange(i as int, j as int).drop_last() == s@.subrange(i as int, j - 1));
        j -= 1;
    }
    assert(trim(s@) == s@.subrange(i as int, j as int));
    s.substring_char(i, j)
}

/// The text without the white space at its start.
pub fn trimmed_start(s: &str) -> (r: &str)
    ensures
        r@ == trim_start(s@),
{
    let v = chars_of(s);
    let n: usize = v.len();
    let mut i: usize = 0;
    assert(s@.skip(0) == s@);
    while i < n && v[i].is_whitespace()
        invariant
            i <= n,
            n == v@.len(),
            v@ == s@,
            trim_start(s@) == trim_start(s@.skip(i as int)),
        decreases n - i,
    {
        assert(s@.skip(i as int).drop_first() == s@.skip(i + 1));
        i += 1;
    }
    assert(s@.skip(i as int) == s@.subrange(i as int, n as int));
    s.substring_char(i, n)
}

/// The text without the white space at its end.
pub fn trimmed_end(s: &str) -> (r: &str)
    ensures
        r@ == trim_end(s@),
{
    let v = chars_of(s);
    let n: usize = v.len();
    let mut j: usize = n;
    assert(s@ == s@.subrange(0, n as int));
    while j > 0 && v[j - 1].is_whitespace()
        invariant
            j <= n,
            n == v@.len(),
            v@ == s@,
            trim_end(s@) == trim_end(s@.subrange(0, j as int)),
        decreases j,
    {
        assert(s@.subrange(0, j as int).drop_last() == s@.subrange(0, j - 1));
        j -= 1;
    }
    s.substring_char(0, j)
}

/// The first word of a text; empty where there is none.
pub fn word(s: &str) -> (r: &str)
    ensures
        r@ == first_word(s@),
{
    let t = trimmed_start(s);
    let v = chars_of(t);
    let n: usize = v.len();
    let mut j: usize = 0;
    assert(t@.skip(0) == t@);
    while j < n && !v[j].is_whitespace()
        invariant
            j <= n,
            n == v@.len(),
            v@ == t@,
            upto_white(t@) == t@.subrange(0, j as int) + upto_white(t@.skip(j as int)),
        decreases n - j,
    {
        assert(t@.skip(j as int).drop_first() == t@.skip(j + 1));
        assert(t@.subrange(0, j as int) + seq![t@[j as int]] == t@.subrange(0, j + 1));
        j += 1;
    }
    t.substring_char(0, j)
}

pub fn begins(s: &str, prefix: &str) -> (r: bool)
    ensures
        r == starts_with(s@, prefix@),
{
    let n: usize = prefix.unicode_len();
    if s.unicode_len() < n {
        return false;
    }
    same(s.substring_char(0, n), prefix)
}

/// What follows `prefix`, where the text begins with it.
pub fn after_prefix<'a>(s: &'a str, prefix: &str) -> (r: Option<&'a str>)
    ensures
        match r {
            Some(rest) => starts_with(s@, prefix@) && rest@ == s@.skip(prefix@.len() as int),
            None => !starts_with(s@, prefix@),
        },
{
    if begins(s, prefix) {
        let n: usize = s.unicode_len();
        Some(s.substring_char(prefix.unicode_len(), n))
    } else {
        None
    }
}

/// Where `part` stands in `s` first.
pub fn find(s: &str, part: &str) -> (r: Option<usize>)
    ensures
        match r {
            Some(at) => first_at(s@, part@) == Some(at as int) && found_at(s@, part@, at as int),
            None => first_at(s@, part@) is None && !contains(s@, part@),
        },
{
    let v = chars_of(s);
    let p = chars_of(part);
    let n: usize = v.len();
    let m: usize = p.len();
    if m > n {
        return None;
    }
    let mut at: usize = 0;
    while at <= n - m
        invariant
            n == v@.len(),
            m == p@.len(),
            m <= n,
            at <= n - m + 1,
            v@ == s@,
            p@ == part@,
            forall|k: int| 0 <= k < at ==> !found_at(s@, part@, k),
        decreases n - m + 1 - at,
    {
        let mut i: usize = 0;
        while i < m && v[at + i] == p[i]
            invariant
                i <= m,
                n == v@.len(),
                m == p@.len(),
                at + m <= n,
                forall|k: int| 0 <= k < i ==> v@[at + k] == p@[k],
            decreases m - i,
        {
            i += 1;
        }
        if i == m {
            assert(s@.subrange(at as int, at + m) == part@);
            assert(is_first_at(s@, part@, at as int));
            let ghost k = choose|k: int| is_first_at(s@, part@, k);
            assert(k == at as int);
            return Some(at);
        }
        assert(s@.subrange(at as int, at + m)[i as int] != part@[i as int]);
        if at == n - m {
            return None;
        }
        at += 1;
    }
    None
}

/// Whether `part` stands anywhere in `s`.
pub fn has(s: &str, part: &str) -> (r: bool)
    ensures
        r == contains(s@, part@),
{
    find(s, part).is_some()
}

proof fn lemma_line_end_bounds(s: Seq<char>)
    ensures
        0 <= line_end(s) <= s.len(),
    decreases s.len(),
{
    if s.len() > 0 && s[0] != '\n' {
        lemma_line_end_bounds(s.drop_first());
    }
}

proof fn lemma_line_end(s: Seq<char>, n: int)
    requires
        0 <= n <= s.len(),
        forall|k: int| 0 <= k < n ==> s[k] != '\n',
        n < s.len() ==> s[n] == '\n',
    ensures
        line_end(s) == n,
    decreases s.len(),
{
    if n > 0 {
        assert forall|k: int| 0 <= k < n - 1 implies s.drop_first()[k] != '\n' by {
            assert(s[k + 1] != '\n');
        }
        lemma_line_end(s.drop_first(), n - 1);
    }
}

/// The lines of a text. A line feed at the very end starts no further line.
pub fn lines_of(s: &str) -> (r: Vec<String>)
    ensures
        texts(r@) == lines(s@),
{
    let v = chars_of(s);
    let n: usize = v.len();
    let mut r: Vec<String> = Vec::new();
    let mut start: usize = 0;
    let mut i: usize = 0;
    assert(s@.skip(0) == s@);
    while i < n
        invariant
            start <= i <= n,
            n == v@.len(),
            v@ == s@,
            lines(s@) == texts(r@) + lines(s@.skip(start as int)),
            forall|k: int| start <= k < i ==> s@[k] != '\n',
        decreases n - i,
    {
        if v[i] == '\n' {
            let ghost rest = s@.skip(start as int);
            proof {
                lemma_line_end(rest, i - start);
                assert(rest.take(i - start) == s@.subrange(start as int, i as int));
                assert(rest.skip(i - start + 1) == s@.skip(i + 1));
            }
            let end: usize = if i > start && v[i - 1] == '\r' {
                i - 1
            } else {
                i
            };
            let line = text_of(&v, start, end);
            assert(line@ == drop_return(rest.take(i - start)));
            let ghost before = texts(r@);
            r.push(line);
            assert(texts(r@) == before + seq![line@]);
            start = i + 1;
        }
        i += 1;
    }
    if start < n {
        let ghost rest = s@.skip(start as int);
        proof {
            lemma_line_end(rest, n - start);
        }
        let line = text_of(&v, start, n);
        assert(line@ == rest);
        let ghost before = texts(r@);
        r.push(line);
        assert(texts(r@) == before + seq![line@]);
    }
    r
}

/// The parts one after the other, with `sep` between any two.
pub fn joined(parts: &Vec<String>, sep: &str) -> (r: String)
    ensures
        r@ == join(texts(parts@), sep@),
{
    let mut r = String::new();
    let mut i: usize = 0;
    assert(texts(parts@).take(0) == Seq::<Seq<char>>::empty());
    while i < parts.len()
        invariant
            i <= parts@.len(),
            r@ == join(texts(parts@).take(i as int), sep@),
        decreases parts@.len() - i,
    {
        assert(texts(parts@).take(i + 1).drop_last() == texts(parts@).take(i as int));
        if i > 0 {
            r.append(sep);
        }
        r.append(parts[i].as_str());
        i += 1;
    }
    assert(texts(parts@).take(i as int) == texts(parts@));
    r
}

/// `n` times the same character.
pub fn repeat_char(c: char, n: usize) -> (r: String)
    ensures
        r@ == repeated(c, n as nat),
{
    let mut r = String::new();
    let mut i: usize = 0;
    while i < n
        invariant
            i <= n,
            r@ == repeated(c, i as nat),
        decreases n - i,
    {
        r.push(c);
        i += 1;
    }
    r
}

/// The text with spaces after it, up to `width` characters.
pub fn padded_end(s: &str, width: usize) -> (r: String)
    ensures
        r@ == pad_end(s@, width as nat),
{
    let n: usize = s.unicode_len();
    if n >= width {
        s.to_string()
    } else {
        cat2(s, repeat_char(' ', width - n).as_str())
    }
}

/// The text with spaces before it, up to `width` characters.
pub fn padded_start(s: &str, width: usize) -> (r: String)
    ensures
        r@ == pad_start(s@, width as nat),
{
    let n: usize = s.unicode_len();
    if n >= width {
        s.to_string()
    } else {
        cat2(repeat_char(' ', width - n).as_str(), s)
    }
}

/// A number in decimal.
pub fn decimal_of(n: u64) -> (r: String)
    ensures
        r@ == decimal(n as nat),
    decreases n,
{
    let mut r = if n < 10 {
        String::new()
    } else {
        decimal_of(n / 10)
    };
    let d: u8 = (n % 10) as u8;
    r.push((48 + d) as char);
    r
}

fn hex_char(n: u8) -> (c: char)
    requires
        n < 16,
    ensures
        c == hex_digit(n as int),
{
    if n < 10 {
        (48 + n) as char
    } else {
        (87 + n) as char
    }
}

/// Each byte as two hexadecimal digits.
pub fn hex_of(bytes: &Vec<u8>) -> (r: String)
    ensures
        r@ == hex(bytes@),
{
    let mut r = String::new();
    let mut i: usize = 0;
    assert(bytes@.take(0) == Seq::<u8>::empty());
    while i < bytes.len()
        invariant
            i <= bytes@.len(),
            r@ == hex(bytes@.take(i as int)),
        decreases bytes@.len() - i,
    {
        assert(bytes@.take(i + 1).drop_last() == bytes@.take(i as int));
        let ghost before = r@;
        r.push(hex_char(bytes[i] / 16));
        r.push(hex_char(bytes[i] % 16));
        assert(r@ == before + seq![
            hex_digit(bytes@[i as int] as int / 16),
            hex_digit(bytes@[i as int] as int % 16),
        ]);
        i += 1;
    }
    assert(bytes@.take(i as int) == bytes@);
    r
}

/// What follows the last `c` in a text, or all of it where there is none.
pub fn behind_last(s: &str, c: char) -> (r: &str)
    ensures
        r@ == after_last(s@, c),
{
    let v = chars_of(s);
    let n: usize = v.len();
    let mut i: usize = n;
    assert(s@.take(n as int) == s@);
    assert(after_last(s@, c) == after_last(s@.take(i as int), c) + s@.subrange(i as int, n as int));
    while i > 0 && v[i - 1] != c
        invariant
            i <= n,
            n == v@.len(),
            v@ == s@,
            after_last(s@, c) == after_last(s@.take(i as int), c) + s@.subrange(i as int, n as int),
        decreases i,
    {
        assert(s@.take(i as int).drop_last() == s@.take(i - 1));
        assert(after_last(s@.take(i - 1), c).push(s@[i - 1]) + s@.subrange(i as int, n as int)
            == after_last(s@.take(i - 1), c) + s@.subrange(i - 1, n as int));
        i -= 1;
    }
    assert(after_last(s@, c) == s@.subrange(i as int, n as int));
    s.substring_char(i, n)
}

/// Appending a text to a list.
pub proof fn lemma_texts_push(v: Seq<String>, s: String)
    ensures
        texts(v.push(s)) == texts(v).push(s@),
{
    assert(texts(v.push(s)) =~= texts(v).push(s@));
}

/// No lines.
pub fn no_lines() -> (r: Vec<String>)
    ensures
        texts(r@) == Seq::<Seq<char>>::empty(),
{
    let r: Vec<String> = Vec::new();
    assert(texts(r@) =~= Seq::<Seq<char>>::empty());
    r
}

/// A single line.
pub fn one_line(line: String) -> (r: Vec<String>)
    ensures
        texts(r@) == seq![line@],
{
    let mut r: Vec<String> = Vec::new();
    r.push(line);
    assert(texts(r@) =~= seq![line@]);
    r
}

/// A number with zeros in front, so that it has `width` digits.
pub fn zero_padded_of(n: u64, width: usize) -> (r: String)
    ensures
        r@ == zero_padded(n as nat, width as nat),
{
    let d = decimal_of(n);
    let len: usize = d.as_str().unicode_len();
    if len < width {
        cat2(repeat_char('0', width - len).as_str(), d.as_str())
    } else {
        d
    }
}

// ── Laws ──

proof fn lemma_trim_start(s: Seq<char>) -> (n: int)
    ensures
        0 <= n <= s.len(),
        trim_start(s) == s.skip(n),
        forall|i: int| 0 <= i < n ==> white_space(#[trigger] s[i]),
        n < s.len() ==> !white_space(s[n]),
    decreases s.len(),
{
    if s.len() > 0 && white_space(s[0]) {
        let rest = s.drop_first();
        let m: int = lemma_trim_start(rest);
        assert(rest.skip(m) == s.skip(m + 1));
        assert forall|i: int| 0 <= i < m + 1 implies white_space(#[trigger] s[i]) by {
            if i > 0 {
                assert(white_space(rest[i - 1]));
            }
        }
        if m + 1 < s.len() {
            assert(!white_space(rest[m]));
        }
        m + 1
    } else {
        assert(s.skip(0) == s);
        0
    }
}

proof fn lemma_trim_end(s: Seq<char>) -> (n: int)
    ensures
        0 <= n <= s.len(),
        trim_end(s) == s.take(n),
        forall|i: int| n <= i < s.len() ==> white_space(#[trigger] s[i]),
        n > 0 ==> !white_space(s[n - 1]),
    decreases s.len(),
{
    if s.len() > 0 && white_space(s.last()) {
        let rest = s.drop_last();
        let m: int = lemma_trim_end(rest);
        assert(rest.take(m) == s.take(m));
        assert forall|i: int| m <= i < s.len() implies white_space(#[trigger] s[i]) by {
            if i < rest.len() {
                assert(white_space(rest[i]));
            }
        }
        if m > 0 {
            assert(!white_space(rest[m - 1]));
        }
        m
    } else {
        assert(s.take(s.len() as int) == s);
        s.len() as int
    }
}

/// Trimming takes white space off either end, all of it, and nothing else.
pub proof fn law_trim(s: Seq<char>)
    ensures
        exists|from: int, to: int|
            {
                &&& 0 <= from <= to <= s.len()
                &&& trim(s) == #[trigger] s.subrange(from, to)
                &&& forall|i: int| 0 <= i < from ==> white_space(#[trigger] s[i])
                &&& forall|i: int| to <= i < s.len() ==> white_space(#[trigger] s[i])
            },
        trim(s).len() > 0 ==> !white_space(trim(s)[0]) && !white_space(trim(s).last()),
{
    let from: int = lemma_trim_start(s);
    let rest = s.skip(from);
    let n: int = lemma_trim_end(rest);
    let to: int = from + n;
    assert(rest.take(n) == s.subrange(from, to));
    assert forall|i: int| to <= i < s.len() implies white_space(#[trigger] s[i]) by {
        assert(rest[i - from] == s[i]);
    }
    if n > 0 {
        assert(rest[0] == s[from]);
        assert(rest[n - 1] == s[to - 1]);
        assert(trim(s)[0] == s[from]);
        assert(trim(s).last() == s[to - 1]);
    }
}

proof fn lemma_upto_white(s: Seq<char>) -> (n: int)
    ensures
        0 <= n <= s.len(),
        upto_white(s) == s.take(n),
        forall|i: int| 0 <= i < n ==> !white_space(#[trigger] s[i]),
        n < s.len() ==> white_space(s[n]),
    decreases s.len(),
{
    if s.len() == 0 || white_space(s[0]) {
        assert(s.take(0) == Seq::<char>::empty());
        0
    } else {
        let rest = s.drop_first();
        let m: int = lemma_upto_white(rest);
        assert(seq![s[0]] + rest.take(m) == s.take(m + 1));
        assert forall|i: int| 0 <= i < m + 1 implies !white_space(#[trigger] s[i]) by {
            if i > 0 {
                assert(!white_space(rest[i - 1]));
            }
        }
        if m + 1 < s.len() {
            assert(white_space(rest[m]));
        }
        m + 1
    }
}

/// The first word follows the white space at the start, goes up to the next white space or the
/// end, and holds none.
pub proof fn law_first_word(s: Seq<char>)
    ensures
        exists|from: int, to: int|
            {
                &&& 0 <= from <= to <= s.len()
                &&& first_word(s) == #[trigger] s.subrange(from, to)
                &&& forall|i: int| 0 <= i < from ==> white_space(#[trigger] s[i])
                &&& forall|i: int| from <= i < to ==> !white_space(#[trigger] s[i])
                &&& to < s.len() ==> white_space(s[to])
            },
{
    let from: int = lemma_trim_start(s);
    let rest = s.skip(from);
    let n: int = lemma_upto_white(rest);
    let to: int = from + n;
    assert(rest.take(n) == s.subrange(from, to));
    assert forall|i: int| from <= i < to implies !white_space(#[trigger] s[i]) by {
        assert(rest[i - from] == s[i]);
    }
    if to < s.len() {
        assert(rest[n] == s[to]);
    }
}

/// A text starts with another where something is left behind it.
pub proof fn law_starts_with(s: Seq<char>, prefix: Seq<char>, rest: Seq<char>)
    ensures
        starts_with(prefix + rest, prefix),
        starts_with(s, prefix) ==> s == prefix + s.skip(prefix.len() as int),
{
    assert((prefix + rest).take(prefix.len() as int) == prefix);
    if starts_with(s, prefix) {
        assert(s == s.take(prefix.len() as int) + s.skip(prefix.len() as int));
    }
}

/// The part between two others is found; and what is found stands between two parts.
pub proof fn law_contains(s: Seq<char>, a: Seq<char>, part: Seq<char>, b: Seq<char>)
    ensures
        contains(a + part + b, part),
        contains(s, part) ==> exists|before: Seq<char>, after: Seq<char>|
            s == #[trigger] (before + part + after),
{
    assert((a + part + b).subrange(a.len() as int, (a.len() + part.len()) as int) == part);
    assert(found_at(a + part + b, part, a.len() as int));
    if contains(s, part) {
        let at = choose|at: int| found_at(s, part, at);
        assert(s == s.take(at) + part + s.skip(at + part.len()));
    }
}

/// The place where a part is found first is one where it stands, and before which it stands
/// nowhere; where it stands at all there is one.
pub proof fn law_first_at(s: Seq<char>, part: Seq<char>, k: int)
    ensures
        first_at(s, part) matches Some(at) ==> found_at(s, part, at) && (found_at(s, part, k)
            ==> at <= k),
        found_at(s, part, k) ==> first_at(s, part) is Some,
    decreases k,
{
    if exists|at: int| is_first_at(s, part, at) {
        let at = choose|at: int| is_first_at(s, part, at);
        assert(first_at(s, part) == Some(at));
        if found_at(s, part, k) && k < at {
            assert(!found_at(s, part, k));
        }
    } else if found_at(s, part, k) {
        assert(!is_first_at(s, part, k));
        let j = choose|j: int| 0 <= j < k && found_at(s, part, j);
        law_first_at(s, part, j);
    }
}

/// A text is cut into lines at its line feeds: what stands before the first one is the first
/// line, without the carriage return that belongs to the line feed, and the lines of the rest
/// follow. A text without a line feed is one line, and the empty text has none.
pub proof fn law_lines_are_cut_at_line_feeds(first: Seq<char>, rest: Seq<char>)
    requires
        forall|i: int| 0 <= i < first.len() ==> #[trigger] first[i] != '\n',
    ensures
        first.len() > 0 ==> lines(first) == seq![first],
        first.len() == 0 ==> lines(first) == Seq::<Seq<char>>::empty(),
        lines(first.push('\n') + rest).len() == 1 + lines(rest).len(),
        first.len() > 0 && first.last() == '\r' ==> lines(first.push('\n') + rest)[0]
            == first.drop_last(),
        !(first.len() > 0 && first.last() == '\r') ==> lines(first.push('\n') + rest)[0] == first,
        forall|i: int|
            0 <= i < lines(rest).len() ==> lines(first.push('\n') + rest)[i + 1] == #[trigger] lines(
                rest,
            )[i],
{
    let all = first.push('\n') + rest;
    let n: int = first.len() as int;
    lemma_line_end(first, n);
    assert forall|k: int| 0 <= k < n implies all[k] != '\n' by {
        assert(first[k] != '\n');
    }
    assert(all[n] == '\n');
    lemma_line_end(all, n);
    assert(all.take(n) == first);
    assert(all.skip(n + 1) == rest);
    assert(lines(all) == seq![drop_return(first)] + lines(rest));
}

/// Joined with line feeds, the lines of a text without carriage returns are the text again, but
/// for a line feed at its end.
pub proof fn law_lines_make_up_the_text(s: Seq<char>)
    requires
        forall|i: int| 0 <= i < s.len() ==> #[trigger] s[i] != '\r',
    ensures
        s == join(lines(s), seq!['\n']) || s == join(lines(s), seq!['\n']).push('\n'),
        forall|i: int| 0 <= i < lines(s).len() ==> !(#[trigger] lines(s)[i]).contains('\n'),
    decreases s.len(),
{
    let sep = seq!['\n'];
    lemma_line_end_bounds(s);
    let n = line_end(s);
    lemma_before_line_end(s);
    if s.len() == 0 {
    } else if n == s.len() {
        assert(lines(s) == seq![s]);
        assert(!s.contains('\n'));
    } else {
        let first = s.take(n);
        let rest = s.skip(n + 1);
        assert forall|i: int| 0 <= i < rest.len() implies #[trigger] rest[i] != '\r' by {
            assert(s[i + n + 1] != '\r');
        }
        if n > 0 {
            assert(first.last() == s[n - 1]);
        }
        assert(drop_return(first) == first);
        law_lines_make_up_the_text(rest);
        let more = lines(rest);
        assert(lines(s) == seq![first] + more);
        assert forall|i: int| 0 <= i < lines(s).len() implies !(#[trigger] lines(s)[i]).contains(
            '\n',
        ) by {
            if i == 0 {
                assert(lines(s)[0] == first);
            } else {
                assert(lines(s)[i] == more[i - 1]);
            }
        }
        law_join(seq![first], more, sep, first);
        assert(s == first + sep + rest);
        if more.len() == 0 {
            assert(join(lines(s), sep) == first) by {
                assert(lines(s) == seq![first]);
            }
            assert(rest.len() == 0 || rest == sep);
            if rest.len() > 0 {
                lemma_line_end_bounds(rest);
                assert(lines(rest).len() > 0);
            }
            assert(s == first.push('\n'));
        } else {
            let joined = join(more, sep);
            assert(join(lines(s), sep) == first + sep + joined);
            if rest == joined {
                assert(s == join(lines(s), sep));
            } else {
                assert(s == join(lines(s), sep).push('\n'));
            }
        }
    }
}

proof fn lemma_before_line_end(s: Seq<char>)
    ensures
        forall|i: int| 0 <= i < line_end(s) ==> #[trigger] s[i] != '\n',
        line_end(s) < s.len() ==> s[line_end(s)] == '\n',
    decreases s.len(),
{
    if s.len() > 0 && s[0] != '\n' {
        let rest = s.drop_first();
        lemma_before_line_end(rest);
        lemma_line_end_bounds(rest);
        assert forall|i: int| 0 <= i < line_end(s) implies #[trigger] s[i] != '\n' by {
            if i > 0 {
                assert(rest[i - 1] != '\n');
            }
        }
        if line_end(s) < s.len() {
            assert(rest[line_end(rest)] == '\n');
        }
    }
}

/// Parts that are joined stand one after the other with the separator between them. A single part
/// is itself, and none make nothing.
pub proof fn law_join(a: Seq<Seq<char>>, b: Seq<Seq<char>>, sep: Seq<char>, part: Seq<char>)
    ensures
        join(Seq::empty(), sep) == Seq::<char>::empty(),
        join(seq![part], sep) == part,
        a.len() > 0 && b.len() > 0 ==> join(a + b, sep) == join(a, sep) + sep + join(b, sep),
    decreases b.len(),
{
    if a.len() > 0 && b.len() > 0 {
        assert((a + b).drop_last() == a + b.drop_last());
        assert((a + b).last() == b.last());
        if b.len() == 1 {
            assert(a + b.drop_last() == a);
        } else {
            law_join(a, b.drop_last(), sep, part);
            assert(join(a, sep) + sep + (join(b.drop_last(), sep) + sep + b.last()) == join(a, sep)
                + sep + join(b.drop_last(), sep) + sep + b.last());
        }
    }
}

/// Every part is found in what the parts are joined to.
pub proof fn law_join_has_every_part(parts: Seq<Seq<char>>, sep: Seq<char>, i: int)
    requires
        0 <= i < parts.len(),
    ensures
        contains(join(parts, sep), parts[i]),
{
    let a = parts.take(i);
    let b = parts.skip(i + 1);
    let p = parts[i];
    let none = Seq::<char>::empty();
    law_join(a, seq![p], sep, p);
    law_join(a + seq![p], b, sep, p);
    law_join(seq![p], b, sep, p);
    assert(parts == a + seq![p] + b);
    if a.len() == 0 && b.len() == 0 {
        assert(parts == seq![p]);
        assert(join(parts, sep) == none + p + none);
        law_contains(none, none, p, none);
    } else if a.len() == 0 {
        assert(parts == seq![p] + b);
        assert(join(parts, sep) == none + p + (sep + join(b, sep)));
        law_contains(none, none, p, sep + join(b, sep));
    } else if b.len() == 0 {
        assert(parts == a + seq![p]);
        assert(join(parts, sep) == (join(a, sep) + sep) + p + none);
        law_contains(none, join(a, sep) + sep, p, none);
    } else {
        assert(join(parts, sep) == (join(a, sep) + sep) + p + (sep + join(b, sep)));
        law_contains(none, join(a, sep) + sep, p, sep + join(b, sep));
    }
}

/// The first characters are the start of the text: as many as are asked for, or all.
pub proof fn law_first_chars(s: Seq<char>, n: nat)
    ensures
        first_chars(s, n).is_prefix_of(s),
        s.len() <= n ==> first_chars(s, n) == s,
        n <= s.len() ==> first_chars(s, n).len() == n,
{
}

/// Padding keeps the text at its side and fills with spaces up to the width; a text that is wider
/// stays as it is.
pub proof fn law_padding(s: Seq<char>, width: nat)
    ensures
        s.is_prefix_of(pad_end(s, width)),
        s.is_suffix_of(pad_start(s, width)),
        pad_end(s, width).len() == pad_start(s, width).len() == (if s.len() < width {
            width
        } else {
            s.len()
        }),
        forall|i: int| s.len() <= i < width ==> #[trigger] pad_end(s, width)[i] == ' ',
        forall|i: int| 0 <= i < width - s.len() ==> #[trigger] pad_start(s, width)[i] == ' ',
{
}

/// The number that some digits write.
pub open spec fn number_of(digits: Seq<char>) -> int
    decreases digits.len(),
{
    if digits.len() == 0 {
        0
    } else {
        number_of(digits.drop_last()) * 10 + (digits.last() as int - '0' as int)
    }
}

/// A number in decimal is written in digits, without a zero in front, and reads as the number.
pub proof fn law_decimal(n: nat)
    ensures
        number_of(decimal(n)) == n,
        decimal(n).len() > 0,
        forall|i: int| 0 <= i < decimal(n).len() ==> '0' <= #[trigger] decimal(n)[i] <= '9',
        decimal(n)[0] == '0' ==> n == 0,
        n < 10 ==> decimal(n).len() == 1,
    decreases n,
{
    if n < 10 {
        assert(seq![digit(n as int)].drop_last() == Seq::<char>::empty());
        assert(number_of(Seq::<char>::empty()) == 0);
        assert(number_of(decimal(n)) == 0 * 10 + (digit(n as int) as int - '0' as int));
    } else {
        law_decimal(n / 10);
        let head = decimal(n / 10);
        let last = digit((n % 10) as int);
        assert(head.push(last).drop_last() == head);
        assert(decimal(n)[0] == head[0]);
    }
}

/// Zeros in front fill a number up to its width and leave what it reads as.
pub proof fn law_zero_padded(n: nat, width: nat)
    ensures
        number_of(zero_padded(n, width)) == n,
        zero_padded(n, width).len() >= width,
        decimal(n).len() >= width ==> zero_padded(n, width) == decimal(n),
        decimal(n).len() <= width ==> zero_padded(n, width).len() == width,
{
    law_decimal(n);
    if decimal(n).len() < width {
        lemma_zeros_in_front((width - decimal(n).len()) as nat, decimal(n));
    }
}

proof fn lemma_zeros_in_front(k: nat, d: Seq<char>)
    ensures
        number_of(repeated('0', k) + d) == number_of(d),
    decreases k + d.len(),
{
    let all = repeated('0', k) + d;
    if d.len() > 0 {
        assert(all.drop_last() == repeated('0', k) + d.drop_last());
        assert(all.last() == d.last());
        lemma_zeros_in_front(k, d.drop_last());
    } else if k > 0 {
        assert(all.drop_last() == repeated('0', (k - 1) as nat) + d);
        lemma_zeros_in_front((k - 1) as nat, d);
        assert(all.last() == '0');
    }
}

/// The value of a hexadecimal digit.
pub open spec fn hex_value(c: char) -> int {
    if '0' <= c <= '9' {
        c as int - '0' as int
    } else if 'a' <= c <= 'f' {
        c as int - 'a' as int + 10
    } else {
        -1
    }
}

/// In hexadecimal every byte is two digits, the higher one first, which read as the byte.
pub proof fn law_hex(bytes: Seq<u8>, i: int)
    requires
        0 <= i < bytes.len(),
    ensures
        hex(bytes).len() == 2 * bytes.len(),
        0 <= hex_value(hex(bytes)[2 * i]) < 16,
        0 <= hex_value(hex(bytes)[2 * i + 1]) < 16,
        hex_value(hex(bytes)[2 * i]) * 16 + hex_value(hex(bytes)[2 * i + 1]) == bytes[i],
    decreases bytes.len(),
{
    let init = bytes.drop_last();
    if init.len() > 0 {
        law_hex(
            init,
            if i < init.len() {
                i
            } else {
                0
            },
        );
    } else {
        assert(hex(init).len() == 0);
    }
    let h = bytes.last() as int / 16;
    let l = bytes.last() as int % 16;
    assert(hex_value(hex_digit(h)) == h);
    assert(hex_value(hex_digit(l)) == l);
}

/// What follows the last of a character holds it no more; before it stands one, or nothing.
pub proof fn law_after_last(s: Seq<char>, c: char)
    ensures
        !after_last(s, c).contains(c),
        after_last(s, c) == s || exists|before: Seq<char>|
            s == #[trigger] before.push(c) + after_last(s, c),
    decreases s.len(),
{
    if s.len() > 0 && s.last() != c {
        let init = s.drop_last();
        law_after_last(init, c);
        let tail = after_last(init, c);
        assert forall|i: int| 0 <= i < tail.push(s.last()).len() implies tail.push(s.last())[i]
            != c by {
            if i < tail.len() {
                assert(tail.contains(tail[i]));
            }
        }
        if tail == init {
            assert(init.push(s.last()) == s);
        } else {
            let before = choose|before: Seq<char>| init == #[trigger] before.push(c) + tail;
            assert(s == init.push(s.last()));
            assert((before.push(c) + tail).push(s.last()) == before.push(c) + tail.push(s.last()));
        }
    } else if s.len() > 0 {
        assert(s == s.drop_last().push(c) + Seq::<char>::empty());
    }
}

/// The characters that one sees on a plain keyboard are no white space; a space, a tab and the ends
/// of lines are.
pub proof fn law_white_space(c: char)
    ensures
        '!' <= c <= '~' ==> !white_space(c),
        c == ' ' || c == '\t' || c == '\n' || c == '\r' ==> white_space(c),
{
}

}
