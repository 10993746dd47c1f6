//! Text helpers: the string operations the engine is made of, stated over
//! sequences of characters.
use vstd::prelude::*;

verus! {

/// The characters with the Unicode `White_Space` property.
pub open spec fn is_white(c: char) -> bool {
    ||| '\u{9}' <= c <= '\u{d}'
    ||| c == ' '
    ||| c == '\u{85}'
    ||| c == '\u{a0}'
    ||| c == '\u{1680}'
    ||| '\u{2000}' <= c <= '\u{200a}'
    ||| c == '\u{2028}'
    ||| c == '\u{2029}'
    ||| c == '\u{202f}'
    ||| c == '\u{205f}'
    ||| c == '\u{3000}'
}

/// Whether `c` is white space.
pub fn is_white_char(c: char) -> (r: bool)
    ensures
        r == is_white(c),
{
    ('\u{9}' <= c && c <= '\u{d}') || c == ' ' || c == '\u{85}' || c == '\u{a0}' || c
        == '\u{1680}' || ('\u{2000}' <= c && c <= '\u{200a}') || c == '\u{2028}' || c == '\u{2029}'
        || c == '\u{202f}' || c == '\u{205f}' || c == '\u{3000}'
}

/// `s` without its leading white space.
pub open spec fn trim_start(s: Seq<char>) -> Seq<char>
    decreases s.len(),
{
    if s.len() > 0 && is_white(s[0]) {
        trim_start(s.drop_first())
    } else {
        s
    }
}

/// `s` without its trailing white space.
pub open spec fn trim_end(s: Seq<char>) -> Seq<char>
    decreases s.len(),
{
    if s.len() > 0 && is_white(s.last()) {
        trim_end(s.drop_last())
    } else {
        s
    }
}

/// `s` without its leading and trailing white space.
pub open spec fn trim(s: Seq<char>) -> Seq<char> {
    trim_end(trim_start(s))
}

/// The length of the run of non-white characters that `s` starts with.
pub open spec fn word_len(s: Seq<char>) -> nat
    decreases s.len(),
{
    if s.len() == 0 || is_white(s[0]) {
        0
    } else {
        1 + word_len(s.drop_first())
    }
}

/// The maximal runs of non-white characters of `s`, in order.
pub open spec fn words(s: Seq<char>) -> Seq<Seq<char>>
    decreases s.len(),
{
    let t = trim_start(s);
    if t.len() == 0 {
        Seq::empty()
    } else {
        proof {
            lemma_trim_start_len(s);
            lemma_word_len(t);
        }
        seq![t.take(word_len(t) as int)] + words(t.skip(word_len(t) as int))
    }
}

/// The index of the first `c` in `s`, or the length of `s` where there is none.
pub open spec fn find(s: Seq<char>, c: char) -> nat
    decreases s.len(),
{
    if s.len() == 0 || s[0] == c {
        0
    } else {
        1 + find(s.drop_first(), c)
    }
}

/// What stands before and after the first `c` in `s`.
pub open spec fn split_once(s: Seq<char>, c: char) -> Option<(Seq<char>, Seq<char>)> {
    let n = find(s, c) as int;
    if n < s.len() {
        Some((s.take(n), s.skip(n + 1)))
    } else {
        None
    }
}

/// The pieces of `s` between the occurrences of `c`; at least one.
pub open spec fn split_on(s: Seq<char>, c: char) -> Seq<Seq<char>>
    decreases s.len(),
{
    let n = find(s, c) as int;
    if n < s.len() {
        seq![s.take(n)] + split_on(s.skip(n + 1), c)
    } else {
        seq![s]
    }
}

/// A line without the carriage return of its `\r\n` ending.
pub open spec fn chop_return(s: Seq<char>) -> Seq<char> {
    if s.len() > 0 && s.last() == '\r' {
        s.drop_last()
    } else {
        s
    }
}

/// The lines of `s`: each ends in `\n` or `\r\n`, the last one's ending is optional.
pub open spec fn lines(s: Seq<char>) -> Seq<Seq<char>>
    decreases s.len(),
{
    let n = find(s, '\n') as int;
    if s.len() == 0 {
        Seq::empty()
    } else if n < s.len() {
        seq![chop_return(s.take(n))] + lines(s.skip(n + 1))
    } else {
        seq![s]
    }
}

/// The parts in order, `sep` between each two.
pub open spec fn join(parts: Seq<Seq<char>>, sep: Seq<char>) -> Seq<char>
    decreases parts.len(),
{
    if parts.len() == 0 {
        Seq::empty()
    } else if parts.len() == 1 {
        parts[0]
    } else {
        join(parts.drop_last(), sep) + sep + parts.last()
    }
}

/// The texts of a sequence of strings.
pub open spec fn texts(v: Seq<String>) -> Seq<Seq<char>> {
    Seq::new(v.len(), |i: int| v[i]@)
}

/// Trimming never lengthens.
pub proof fn lemma_trim_start_len(s: Seq<char>)
    ensures
        trim_start(s).len() <= s.len(),
        trim_start(s).len() > 0 ==> !is_white(trim_start(s)[0]),
    decreases s.len(),
{
    if s.len() > 0 && is_white(s[0]) {
        lemma_trim_start_len(s.drop_first());
    }
}

/// A word is a prefix, and not empty where the text starts with one.
pub proof fn lemma_word_len(s: Seq<char>)
    ensures
        word_len(s) <= s.len(),
        s.len() > 0 && !is_white(s[0]) ==> word_len(s) > 0,
        word_len(s) < s.len() ==> is_white(s[word_len(s) as int]),
        forall|i: int| 0 <= i < word_len(s) ==> !is_white(#[trigger] s[i]),
    decreases s.len(),
{
    if s.len() > 0 && !is_white(s[0]) {
        let t = s.drop_first();
        lemma_word_len(t);
        assert forall|i: int| 0 <= i < word_len(s) implies !is_white(#[trigger] s[i]) by {
            if i > 0 {
                assert(s[i] == t[i - 1]);
            }
        }
    }
}

/// `find` gives the first occurrence.
pub proof fn lemma_find(s: Seq<char>, c: char)
    ensures
        find(s, c) <= s.len(),
        find(s, c) < s.len() ==> s[find(s, c) as int] == c,
        forall|i: int| 0 <= i < find(s, c) ==> #[trigger] s[i] != c,
    decreases s.len(),
{
    if s.len() > 0 && s[0] != c {
        let t = s.drop_first();
        lemma_find(t, c);
        assert forall|i: int| 0 <= i < find(s, c) implies #[trigger] s[i] != c by {
            if i > 0 {
                assert(s[i] == t[i - 1]);
            }
        }
    }
}

/// Whether two strings hold the same text.
pub fn same(a: &str, b: &str) -> (r: bool)
    ensures
        r == (a@ == b@),
{
    a.to_owned() == b.to_owned()
}

/// The characters of a string.
pub fn to_chars(s: &str) -> (r: Vec<char>)
    ensures
        r@ == s@,
{
    let mut out: Vec<char> = Vec::new();
    for c in it: s.chars()
        invariant
            it.seq() == s@,
            out@ == s@.take(it.index() as int),
    {
        out.push(c);
    }
    out
}

/// The characters of `s` from index `from` up to index `to`.
pub fn slice(s: &str, from: usize, to: usize) -> (r: String)
    requires
        from <= to <= s@.len(),
    ensures
        r@ == s@.subrange(from as int, to as int),
{
    s.substring_char(from, to).to_owned()
}

/// The index of the first character at or after `from` that is not white space.
pub(crate) fn skip_white(cs: &Vec<char>, from: usize) -> (i: usize)
    requires
        from <= cs@.len(),
    ensures
        from <= i <= cs@.len(),
        trim_start(cs@.skip(from as int)) == cs@.skip(i as int),
{
    let mut i: usize = from;
    while i < cs.len() && is_white_char(cs[i])
        invariant
            from <= i <= cs@.len(),
            trim_start(cs@.skip(from as int)) == trim_start(cs@.skip(i as int)),
        decreases cs@.len() - i,
    {
        assert(cs@.skip(i as int).drop_first() == cs@.skip(i + 1));
        i = i + 1;
    }
    i
}

/// The index after the run of non-white characters that starts at `from`.
fn skip_word(cs: &Vec<char>, from: usize) -> (i: usize)
    requires
        from <= cs@.len(),
    ensures
        from <= i <= cs@.len(),
        i == from + word_len(cs@.skip(from as int)),
{
    let mut i: usize = from;
    while i < cs.len() && !is_white_char(cs[i])
        invariant
            from <= i <= cs@.len(),
            from + word_len(cs@.skip(from as int)) == i + word_len(cs@.skip(i as int)),
        decreases cs@.len() - i,
    {
        assert(cs@.skip(i as int).drop_first() == cs@.skip(i + 1));
        i = i + 1;
    }
    i
}

/// The index of the first `c` at or after `from`, or the end.
pub(crate) fn seek(cs: &Vec<char>, from: usize, c: char) -> (i: usize)
    requires
        from <= cs@.len(),
    ensures
        from <= i <= cs@.len(),
        i == from + find(cs@.skip(from as int), c),
{
    let mut i: usize = from;
    while i < cs.len() && cs[i] != c
        invariant
            from <= i <= cs@.len(),
            from + find(cs@.skip(from as int), c) == i + find(cs@.skip(i as int), c),
        decreases cs@.len() - i,
    {
        assert(cs@.skip(i as int).drop_first() == cs@.skip(i + 1));
        i = i + 1;
    }
    i
}

/// `s` without its leading white space (`str::trim_start`).
pub fn trimmed_start(s: &str) -> (r: String)
    ensures
        r@ == trim_start(s@),
{
    let cs = to_chars(s);
    let i = skip_white(&cs, 0);
    assert(s@.skip(0) == s@);
    slice(s, i, cs.len())
}

/// `s` without its leading and trailing white space (`str::trim`).
pub fn trimmed(s: &str) -> (r: String)
    ensures
        r@ == trim(s@),
{
    let cs = to_chars(s);
    let i = skip_white(&cs, 0);
    assert(s@.skip(0) == s@);
    let mut j: usize = cs.len();
    assert(s@.subrange(i as int, j as int) == s@.skip(i as int));
    while i < j && is_white_char(cs[j - 1])
        invariant
            i <= j <= cs@.len(),
            cs@ == s@,
            trim(s@) == trim_end(s@.subrange(i as int, j as int)),
        decreases j,
    {
        assert(s@.subrange(i as int, j as int).drop_last() == s@.subrange(i as int, j - 1));
        j = j - 1;
    }
    slice(s, i, j)
}

/// The length of the run of non-white characters that `s` starts with.
pub fn first_word_len(s: &str) -> (r: usize)
    ensures
        r == word_len(s@),
        r <= s@.len(),
{
    let cs = to_chars(s);
    assert(s@.skip(0) == s@);
    skip_word(&cs, 0)
}

/// The words of `s` (`str::split_whitespace`).
pub fn split_words(s: &str) -> (r: Vec<String>)
    ensures
        texts(r@) == words(s@),
{
    let cs = to_chars(s);
    let mut out: Vec<String> = Vec::new();
    let mut i: usize = skip_white(&cs, 0);
    proof {
        assert(s@.skip(0) == s@);
        lemma_trim_start_idem(s@);
        assert(words(s@) == words(s@.skip(i as int)));
        assert(texts(out@) + words(s@.skip(i as int)) == words(s@));
    }
    while i < cs.len()
        invariant
            i <= cs@.len(),
            cs@ == s@,
            trim_start(s@.skip(i as int)) == s@.skip(i as int),
            texts(out@) + words(s@.skip(i as int)) == words(s@),
        decreases cs@.len() - i,
    {
        let ghost t = s@.skip(i as int);
        let j = skip_word(&cs, i);
        proof {
            lemma_trim_start_len(t);
            lemma_word_len(t);
        }
        let w = slice(s, i, j);
        let ghost before = out@;
        out.push(w);
        let k = skip_white(&cs, j);
        proof {
            assert(w@ == t.take(word_len(t) as int));
            assert(t.skip(word_len(t) as int) == s@.skip(j as int));
            lemma_trim_start_idem(s@.skip(j as int));
            assert(texts(out@) == texts(before).push(w@));
            assert(words(t) == seq![w@] + words(s@.skip(j as int)));
            assert(texts(before) + words(t) == texts(out@) + words(s@.skip(k as int)));
        }
        i = k;
    }
    assert(s@.skip(i as int).len() == 0);
    assert(words(s@.skip(i as int)) == Seq::<Seq<char>>::empty());
    assert(texts(out@) + Seq::<Seq<char>>::empty() == texts(out@));
    out
}

/// Leading white space is dropped once: words do not depend on it.
proof fn lemma_trim_start_idem(s: Seq<char>)
    ensures
        trim_start(trim_start(s)) == trim_start(s),
        words(trim_start(s)) == words(s),
{
    lemma_trim_start_len(s);
}

/// What stands before and after the first `c` (`str::split_once`).
pub fn split_at_char(s: &str, c: char) -> (r: Option<(String, String)>)
    ensures
        r is Some == split_once(s@, c) is Some,
        r matches Some(p) ==> (p.0@, p.1@) == split_once(s@, c).unwrap(),
{
    let cs = to_chars(s);
    let n = seek(&cs, 0, c);
    assert(s@.skip(0) == s@);
    if n < cs.len() {
        let head = slice(s, 0, n);
        let tail = slice(s, n + 1, cs.len());
        assert(head@ == s@.take(n as int));
        assert(tail@ == s@.skip(n + 1));
        Some((head, tail))
    } else {
        None
    }
}

/// The pieces of `s` between the occurrences of `c` (`str::split`).
pub fn split_pieces(s: &str, c: char) -> (r: Vec<String>)
    ensures
        texts(r@) == split_on(s@, c),
        r@.len() > 0,
{
    let cs = to_chars(s);
    let mut out: Vec<String> = Vec::new();
    let mut i: usize = 0;
    let mut n: usize = seek(&cs, 0, c);
    proof {
        assert(s@.skip(0) == s@);
        assert(texts(out@) + split_on(s@.skip(0), c) == split_on(s@, c));
    }
    while n < cs.len()
        invariant
            i <= n <= cs@.len(),
            cs@ == s@,
            n == i + find(s@.skip(i as int), c),
            texts(out@) + split_on(s@.skip(i as int), c) == split_on(s@, c),
        decreases cs@.len() - i,
    {
        let piece = slice(s, i, n);
        let ghost before = out@;
        out.push(piece);
        proof {
            let t = s@.skip(i as int);
            assert(piece@ == t.take(find(t, c) as int));
            assert(t.skip(find(t, c) as int + 1) == s@.skip(n + 1));
            assert(texts(out@) == texts(before).push(piece@));
            assert(texts(before) + split_on(t, c) == texts(out@) + split_on(s@.skip(n + 1), c));
        }
        i = n + 1;
        n = seek(&cs, i, c);
    }
    let last = slice(s, i, cs.len());
    let ghost before = out@;
    out.push(last);
    proof {
        let t = s@.skip(i as int);
        assert(last@ == t);
        assert(split_on(t, c) == seq![t]);
        assert(texts(out@) == texts(before).push(t));
        assert(texts(before) + seq![t] == texts(before).push(t));
    }
    out
}

/// The lines of `s` (`str::lines`).
pub fn split_lines(s: &str) -> (r: Vec<String>)
    ensures
        texts(r@) == lines(s@),
{
    let cs = to_chars(s);
    let mut out: Vec<String> = Vec::new();
    let mut i: usize = 0;
    proof {
        assert(s@.skip(0) == s@);
        assert(texts(out@) + lines(s@.skip(0)) == lines(s@));
    }
    while i < cs.len()
        invariant
            i <= cs@.len(),
            cs@ == s@,
            texts(out@) + lines(s@.skip(i as int)) == lines(s@),
        decreases cs@.len() - i,
    {
        let ghost t = s@.skip(i as int);
        let n = seek(&cs, i, '\n');
        let ghost before = out@;
        if n < cs.len() {
            let end: usize = if i < n && cs[n - 1] == '\r' {
                n - 1
            } else {
                n
            };
            let line = slice(s, i, end);
            out.push(line);
            proof {
                assert(t.take(find(t, '\n') as int) == s@.subrange(i as int, n as int));
                assert(line@ == chop_return(t.take(find(t, '\n') as int)));
                assert(t.skip(find(t, '\n') as int + 1) == s@.skip(n + 1));
                assert(texts(out@) == texts(before).push(line@));
                assert(texts(before) + lines(t) == texts(out@) + lines(s@.skip(n + 1)));
            }
            i = n + 1;
        } else {
            let line = slice(s, i, n);
            out.push(line);
            proof {
                assert(line@ == t);
                assert(texts(out@) == texts(before).push(line@));
                assert(s@.skip(n as int).len() == 0);
                assert(lines(s@.skip(n as int)) == Seq::<Seq<char>>::empty());
                assert(texts(before) + lines(t) == texts(out@) + lines(s@.skip(n as int)));
            }
            i = n;
        }
    }
    proof {
        assert(lines(s@.skip(i as int)) == Seq::<Seq<char>>::empty());
        assert(texts(out@) + Seq::<Seq<char>>::empty() == texts(out@));
    }
    out
}

/// The strings joined, `sep` between each two (`[String]::join`).
pub fn joined(parts: &Vec<String>, sep: &str) -> (r: String)
    ensures
        r@ == join(texts(parts@), sep@),
{
    let mut out = String::new();
    let ghost all = texts(parts@);
    let mut i: usize = 0;
    while i < parts.len()
        invariant
            i <= parts@.len(),
            all == texts(parts@),
            out@ == join(all.take(i as int), sep@),
        decreases parts@.len() - i,
    {
        if i > 0 {
            out.append(sep);
        }
        out.append(parts[i].as_str());
        proof {
            let t = all.take(i + 1);
            assert(t.drop_last() == all.take(i as int));
            assert(t.last() == parts@[i as int]@);
            if i == 0 {
                assert(out@ == t[0]);
            }
        }
        i = i + 1;
    }
    assert(all.take(i as int) == all);
    out
}

/// Whether `s` starts with `prefix` (`str::starts_with`).
pub fn begins_with(s: &str, prefix: &str) -> (r: bool)
    ensures
        r == prefix@.is_prefix_of(s@),
{
    let n = s.unicode_len();
    let m = prefix.unicode_len();
    if m > n {
        return false;
    }
    let head = slice(s, 0, m);
    assert(head@ == s@.take(m as int));
    same(head.as_str(), prefix)
}

/// `s` without the quotation marks it starts and ends with.
pub open spec fn unquote_start(s: Seq<char>) -> Seq<char>
    decreases s.len(),
{
    if s.len() > 0 && s[0] == '"' {
        unquote_start(s.drop_first())
    } else {
        s
    }
}

/// `s` without the quotation marks it ends with.
pub open spec fn unquote_end(s: Seq<char>) -> Seq<char>
    decreases s.len(),
{
    if s.len() > 0 && s.last() == '"' {
        unquote_end(s.drop_last())
    } else {
        s
    }
}

/// `s` without the quotation marks around it.
pub open spec fn unquote(s: Seq<char>) -> Seq<char> {
    unquote_end(unquote_start(s))
}

/// `s` without the quotation marks around it (`str::trim_matches`).
pub fn unquoted(s: &str) -> (r: String)
    ensures
        r@ == unquote(s@),
{
    let cs = to_chars(s);
    let mut i: usize = 0;
    assert(s@.skip(0) == s@);
    while i < cs.len() && cs[i] == '"'
        invariant
            i <= cs@.len(),
            cs@ == s@,
            unquote_start(s@) == unquote_start(s@.skip(i as int)),
        decreases cs@.len() - i,
    {
        assert(s@.skip(i as int).drop_first() == s@.skip(i + 1));
        i = i + 1;
    }
    let mut j: usize = cs.len();
    assert(s@.subrange(i as int, j as int) == s@.skip(i as int));
    while i < j && cs[j - 1] == '"'
        invariant
            i <= j <= cs@.len(),
            cs@ == s@,
            unquote(s@) == unquote_end(s@.subrange(i as int, j as int)),
        decreases j,
    {
        assert(s@.subrange(i as int, j as int).drop_last() == s@.subrange(i as int, j - 1));
        j = j - 1;
    }
    slice(s, i, j)
}

/// The character of a decimal digit.
pub open spec fn digit_char(d: nat) -> char {
    if d == 0 {
        '0'
    } else if d == 1 {
        '1'
    } else if d == 2 {
        '2'
    } else if d == 3 {
        '3'
    } else if d == 4 {
        '4'
    } else if d == 5 {
        '5'
    } else if d == 6 {
        '6'
    } else if d == 7 {
        '7'
    } else if d == 8 {
        '8'
    } else {
        '9'
    }
}

/// The digits of a number in base ten.
pub open spec fn decimal(n: nat) -> Seq<char>
    decreases n,
{
    if n < 10 {
        seq![digit_char(n)]
    } else {
        decimal(n / 10).push(digit_char(n % 10))
    }
}

/// An integer in base ten, with its sign where it is negative.
pub open spec fn decimal_int(n: int) -> Seq<char> {
    if n < 0 {
        seq!['-'] + decimal((-n) as nat)
    } else {
        decimal(n as nat)
    }
}

/// One digit as text.
fn digit_text(d: u64) -> (r: &'static str)
    requires
        d < 10,
    ensures
        r@ == seq![digit_char(d as nat)],
{
    proof {
        reveal_strlit("0");
        reveal_strlit("1");
        reveal_strlit("2");
        reveal_strlit("3");
        reveal_strlit("4");
        reveal_strlit("5");
        reveal_strlit("6");
        reveal_strlit("7");
        reveal_strlit("8");
        reveal_strlit("9");
    }
    if d == 0 {
        "0"
    } else if d == 1 {
        "1"
    } else if d == 2 {
        "2"
    } else if d == 3 {
        "3"
    } else if d == 4 {
        "4"
    } else if d == 5 {
        "5"
    } else if d == 6 {
        "6"
    } else if d == 7 {
        "7"
    } else if d == 8 {
        "8"
    } else {
        "9"
    }
}

/// A number in base ten.
pub fn u64_text(n: u64) -> (r: String)
    ensures
        r@ == decimal(n as nat),
    decreases n,
{
    if n < 10 {
        digit_text(n).to_owned()
    } else {
        let mut head = u64_text(n / 10);
        head.append(digit_text(n % 10));
        assert(head@ == decimal(n as nat / 10) + seq![digit_char(n as nat % 10)]);
        head
    }
}

/// An integer in base ten.
pub fn i64_text(n: i64) -> (r: String)
    ensures
        r@ == decimal_int(n as int),
{
    if n >= 0 {
        u64_text(n as u64)
    } else {
        let m: u64 = if n == i64::MIN {
            9223372036854775808u64
        } else {
            (-n) as u64
        };
        let mut r = String::new();
        r.append("-");
        let digits = u64_text(m);
        r.append(digits.as_str());
        proof {
            reveal_strlit("-");
            assert("-"@ == seq!['-']);
        }
        r
    }
}

/// What `str::to_lowercase` makes of a text.
pub uninterp spec fn lowercase(s: Seq<char>) -> Seq<char>;

/// A character with its ASCII letter lowered.
pub open spec fn ascii_lower(c: char) -> char {
    if 'A' <= c <= 'Z' {
        (c as u32 + 32) as char
    } else {
        c
    }
}

/// A character of the ASCII range.
pub open spec fn is_ascii_char(c: char) -> bool {
    c as u32 <= 127
}

/// Calls `str::to_lowercase`. The result depends on the text alone; of a text in ASCII the
/// letters are lowered and nothing else changes.
#[verifier::external_body]
pub(crate) fn lowered(s: &str) -> (r: String)
    ensures
        r@ == lowercase(s@),
        (forall|i: int| 0 <= i < s@.len() ==> is_ascii_char(#[trigger] s@[i])) ==> r@
            == s@.map_values(|c: char| ascii_lower(c)),
{
    s.to_lowercase()
}

/// How many bytes a character takes in UTF-8.
pub open spec fn char_width(c: char) -> nat {
    if c as u32 <= 0x7F {
        1
    } else if c as u32 <= 0x7FF {
        2
    } else if c as u32 <= 0xFFFF {
        3
    } else {
        4
    }
}

/// How many bytes a text takes in UTF-8.
pub open spec fn utf8_len(s: Seq<char>) -> nat
    decreases s.len(),
{
    if s.len() == 0 {
        0
    } else {
        utf8_len(s.drop_last()) + char_width(s.last())
    }
}

/// How often a character stands in a text.
pub open spec fn count(s: Seq<char>, c: char) -> nat
    decreases s.len(),
{
    if s.len() == 0 {
        0
    } else {
        count(s.drop_last(), c) + if s.last() == c {
            1nat
        } else {
            0
        }
    }
}

proof fn lemma_utf8_len_grows(s: Seq<char>, n: int)
    requires
        0 <= n <= s.len(),
    ensures
        utf8_len(s.take(n)) <= utf8_len(s),
    decreases s.len(),
{
    if n < s.len() {
        lemma_utf8_len_grows(s.drop_last(), n);
        assert(s.drop_last().take(n) =~= s.take(n));
    } else {
        assert(s.take(n) =~= s);
    }
}

/// Whether a text takes `n` bytes in UTF-8.
pub fn has_byte_len(s: &str, n: u32) -> (r: bool)
    ensures
        r == (utf8_len(s@) == n),
{
    let cs = to_chars(s);
    let mut total: u64 = 0;
    let mut i: usize = 0;
    while i < cs.len()
        invariant
            i <= cs@.len(),
            cs@ == s@,
            total == utf8_len(s@.take(i as int)),
            total <= n,
        decreases cs@.len() - i,
    {
        let c = cs[i] as u32;
        let w: u64 = if c <= 0x7F {
            1
        } else if c <= 0x7FF {
            2
        } else if c <= 0xFFFF {
            3
        } else {
            4
        };
        assert(s@.take(i + 1).drop_last() =~= s@.take(i as int));
        total = total + w;
        i = i + 1;
        if total > n as u64 {
            proof {
                lemma_utf8_len_grows(s@, i as int);
            }
            return false;
        }
    }
    assert(s@.take(i as int) =~= s@);
    total == n as u64
}

/// How often a character stands in a text.
pub fn count_char(s: &str, c: char) -> (r: usize)
    ensures
        r == count(s@, c),
{
    let cs = to_chars(s);
    let mut n: usize = 0;
    let mut i: usize = 0;
    while i < cs.len()
        invariant
            i <= cs@.len(),
            cs@ == s@,
            n == count(s@.take(i as int), c),
            n <= i,
        decreases cs@.len() - i,
    {
        assert(s@.take(i + 1).drop_last() =~= s@.take(i as int));
        if cs[i] == c {
            n = n + 1;
        }
        i = i + 1;
    }
    assert(s@.take(i as int) =~= s@);
    n
}

/// A text that neither starts nor ends in white space is trimmed already.
pub proof fn lemma_trim_id(s: Seq<char>)
    requires
        s.len() > 0,
        !is_white(s[0]),
        !is_white(s.last()),
    ensures
        trim(s) == s,
{
}

/// A trimmed text neither starts nor ends in white space.
pub proof fn lemma_trimmed_ends(s: Seq<char>)
    requires
        trim(s) == s,
        s.len() > 0,
    ensures
        !is_white(s[0]),
        !is_white(s.last()),
{
    lemma_trim_start_len(s);
    lemma_trim_end_len(trim_start(s));
    if is_white(s[0]) {
        lemma_trim_start_len(s.drop_first());
    }
    if is_white(s.last()) {
        lemma_trim_end_len(s.drop_last());
    }
}

proof fn lemma_trim_end_len(s: Seq<char>)
    ensures
        trim_end(s).len() <= s.len(),
    decreases s.len(),
{
    if s.len() > 0 && is_white(s.last()) {
        lemma_trim_end_len(s.drop_last());
    }
}

/// White space at the end does not matter to trimming.
pub proof fn lemma_trim_drop_last(s: Seq<char>)
    requires
        s.len() > 0,
        is_white(s.last()),
    ensures
        trim(s.drop_last()) == trim(s),
    decreases s.len(),
{
    let t = s.drop_last();
    if t.len() == 0 {
        assert(s.drop_first() =~= Seq::<char>::empty());
        assert(trim_start(s) == trim_start(s.drop_first()));
    } else if is_white(s[0]) {
        assert(t[0] == s[0]);
        assert(s.drop_first().drop_last() =~= t.drop_first());
        lemma_trim_drop_last(s.drop_first());
    } else {
        assert(t[0] == s[0]);
        assert(trim_start(s) == s);
        assert(trim_start(t) == t);
    }
}

/// What stands before the first line feed is the first line.
pub proof fn lemma_lines_cons(a: Seq<char>, rest: Seq<char>)
    requires
        !a.contains('\n'),
    ensures
        lines(a + seq!['\n'] + rest) == seq![chop_return(a)] + lines(rest),
{
    let s = a + seq!['\n'] + rest;
    lemma_find(s, '\n');
    let n = find(s, '\n') as int;
    assert(s[a.len() as int] == '\n');
    if n < a.len() {
        assert(a[n] == s[n]);
        assert(a.contains('\n'));
    }
    assert(s.take(n) =~= a);
    assert(s.skip(n + 1) =~= rest);
}

/// Joining from the front.
pub proof fn lemma_join_cons(a: Seq<char>, t: Seq<Seq<char>>, sep: Seq<char>)
    requires
        t.len() > 0,
    ensures
        join(seq![a] + t, sep) == a + sep + join(t, sep),
    decreases t.len(),
{
    let all = seq![a] + t;
    assert(all.drop_last() =~= seq![a] + t.drop_last());
    assert(all.last() == t.last());
    if t.len() == 1 {
        assert(all.drop_last() =~= seq![a]);
        assert(join(seq![a], sep) == a);
        assert(a + sep + t[0] =~= (a + sep) + t.last());
    } else {
        lemma_join_cons(a, t.drop_last(), sep);
        assert((a + sep + join(t.drop_last(), sep)) + sep + t.last() =~= a + sep + (join(
            t.drop_last(),
            sep,
        ) + sep + t.last()));
    }
}

/// Whether a list of names holds one.
pub fn name_listed(names: &Vec<String>, name: &str) -> (r: bool)
    ensures
        r == texts(names@).contains(name@),
{
    let ghost all = texts(names@);
    let mut i: usize = 0;
    while i < names.len()
        invariant
            i <= names@.len(),
            all == texts(names@),
            forall|j: int| 0 <= j < i ==> #[trigger] all[j] != name@,
        decreases names@.len() - i,
    {
        if same(names[i].as_str(), name) {
            assert(all[i as int] == name@);
            return true;
        }
        i = i + 1;
    }
    false
}

/// The number that a text of digits writes down, the first being the most significant.
pub open spec fn digits_value(s: Seq<char>) -> nat
    decreases s.len(),
{
    if s.len() == 0 {
        0
    } else {
        digits_value(s.drop_last()) * 10 + (s.last() as u32 - '0' as u32) as nat
    }
}

/// An ASCII digit.
pub open spec fn is_digit(c: char) -> bool {
    '0' <= c <= '9'
}

/// A text of at least one digit.
pub open spec fn all_digits(s: Seq<char>) -> bool {
    s.len() > 0 && forall|i: int| 0 <= i < s.len() ==> is_digit(#[trigger] s[i])
}

/// The digits of a number, without the plus sign in front.
pub open spec fn unsigned(s: Seq<char>) -> Seq<char> {
    if s.len() > 0 && s[0] == '+' {
        s.skip(1)
    } else {
        s
    }
}

/// The number that a text is, as `u32` reads it: digits, perhaps with a plus sign in
/// front, and not too large.
pub open spec fn u32_of(s: Seq<char>) -> Option<u32> {
    let d = unsigned(s);
    if all_digits(d) && digits_value(d) <= u32::MAX {
        Some(digits_value(d) as u32)
    } else {
        None
    }
}

proof fn lemma_digits_grow(s: Seq<char>, n: int)
    requires
        0 <= n <= s.len(),
        forall|i: int| 0 <= i < s.len() ==> is_digit(#[trigger] s[i]),
    ensures
        digits_value(s.take(n)) <= digits_value(s),
    decreases s.len(),
{
    if n < s.len() {
        let t = s.drop_last();
        assert forall|i: int| 0 <= i < t.len() implies is_digit(#[trigger] t[i]) by {
            assert(t[i] == s[i]);
        }
        lemma_digits_grow(t, n);
        assert(t.take(n) =~= s.take(n));
        assert(is_digit(s[s.len() - 1]));
    } else {
        assert(s.take(n) =~= s);
    }
}

/// What a number looks like in base ten: digits alone, which are the number again.
pub proof fn lemma_decimal(n: nat)
    ensures
        all_digits(decimal(n)),
        digits_value(decimal(n)) == n,
    decreases n,
{
    reveal_with_fuel(digits_value, 2);
    if n < 10 {
        assert(decimal(n).drop_last() =~= Seq::<char>::empty());
        assert(decimal(n).last() == digit_char(n));
    } else {
        assert(decimal(n).last() == digit_char(n % 10));
        lemma_decimal(n / 10);
        assert(decimal(n).drop_last() =~= decimal(n / 10));
        assert forall|i: int| 0 <= i < decimal(n).len() implies is_digit(
            #[trigger] decimal(n)[i],
        ) by {
            if i < decimal(n / 10).len() {
                assert(decimal(n)[i] == decimal(n / 10)[i]);
            }
        }
    }
}

/// A number is read back from its digits.
pub proof fn lemma_decimal_is_read(n: u32)
    ensures
        u32_of(decimal(n as nat)) == Some(n),
{
    lemma_decimal(n as nat);
    assert(is_digit(decimal(n as nat)[0]));
}

/// The number that a text is (`str::parse::<u32>`).
pub fn parse_u32(s: &str) -> (r: Option<u32>)
    ensures
        r == u32_of(s@),
{
    let cs = to_chars(s);
    let from: usize = if cs.len() > 0 && cs[0] == '+' {
        1
    } else {
        0
    };
    let ghost d = unsigned(s@);
    assert(d =~= cs@.skip(from as int));
    if from >= cs.len() {
        return None;
    }
    let mut total: u64 = 0;
    let mut too_big = false;
    let mut i: usize = from;
    assert(d.take(0) =~= Seq::<char>::empty());
    while i < cs.len()
        invariant
            from <= i <= cs@.len(),
            d == cs@.skip(from as int),
            d == unsigned(s@),
            forall|j: int| 0 <= j < i - from ==> is_digit(#[trigger] d[j]),
            !too_big ==> total == digits_value(d.take(i - from)) && total <= u32::MAX,
            too_big ==> exists|n: int|
                0 <= n <= i - from && #[trigger] digits_value(d.take(n)) > u32::MAX,
        decreases cs@.len() - i,
    {
        let c = cs[i];
        assert(d[i - from] == c);
        if !('0' <= c && c <= '9') {
            assert(!is_digit(d[i - from]));
            return None;
        }
        if !too_big {
            assert(d.take(i + 1 - from).drop_last() =~= d.take(i - from));
            total = total * 10 + (c as u32 - '0' as u32) as u64;
            assert(total == digits_value(d.take(i + 1 - from)));
            if total > u32::MAX as u64 {
                too_big = true;
            }
        }
        i = i + 1;
    }
    assert(d.take(i - from) =~= d);
    if too_big {
        proof {
            let n = choose|n: int|
                0 <= n <= i - from && #[trigger] digits_value(d.take(n)) > u32::MAX;
            lemma_digits_grow(d, n);
        }
        None
    } else {
        Some(total as u32)
    }
}

/// A path below a directory. Paths are written with slashes.
pub open spec fn path_in(dir: Seq<char>, name: Seq<char>) -> Seq<char> {
    if dir.len() == 0 {
        name
    } else if dir.last() == '/' {
        dir + name
    } else {
        dir + "/"@ + name
    }
}

/// A path below a directory.
pub fn join_path(dir: &str, name: &str) -> (r: String)
    ensures
        r@ == path_in(dir@, name@),
{
    let n = dir.unicode_len();
    if n == 0 {
        return name.to_owned();
    }
    let mut r = dir.to_owned();
    if dir.get_char(n - 1) != '/' {
        r.append("/");
    }
    r.append(name);
    r
}

/// How many characters of a path stand before its last slash; `None` where it has none.
pub open spec fn last_slash(path: Seq<char>) -> Option<nat>
    decreases path.len(),
{
    if path.len() == 0 {
        None
    } else if path.last() == '/' {
        Some((path.len() - 1) as nat)
    } else {
        last_slash(path.drop_last())
    }
}

/// A path without the slashes at its end, and without a last part that stands for the
/// directory before it.
pub open spec fn path_body(path: Seq<char>) -> Seq<char>
    decreases path.len(),
{
    if path.len() > 0 && path.last() == '/' {
        path_body(path.drop_last())
    } else if path.len() > 1 && path.last() == '.' && path[path.len() - 2] == '/' {
        path_body(path.drop_last())
    } else {
        path
    }
}

/// The directory that a file lies in: what stands before the last part of its path, or the
/// root where nothing but slashes does. A path of one part lies in the directory without a
/// name, and the root or no path at all in `.`.
pub open spec fn dir_of(path: Seq<char>) -> Seq<char> {
    let body = path_body(path);
    if body.len() == 0 {
        "."@
    } else {
        match last_slash(body) {
            Some(n) => {
                let up = path_body(body.take(n as int));
                if up.len() == 0 {
                    "/"@
                } else {
                    up
                }
            },
            None => Seq::empty(),
        }
    }
}

/// How long the body of the first characters of a path is.
fn body_len(path: &str, len: usize) -> (r: usize)
    requires
        len <= path@.len(),
    ensures
        r <= len,
        path_body(path@.take(len as int)) == path@.take(r as int),
{
    let mut n: usize = len;
    while n > 0 && (path.get_char(n - 1) == '/' || (n > 1 && path.get_char(n - 1) == '.'
        && path.get_char(n - 2) == '/'))
        invariant
            n <= len <= path@.len(),
            path_body(path@.take(len as int)) == path_body(path@.take(n as int)),
        decreases n,
    {
        assert(path@.take(n as int).drop_last() =~= path@.take(n - 1));
        n = n - 1;
    }
    n
}

/// The directory that a file lies in.
pub fn parent_dir(path: &str) -> (r: String)
    ensures
        r@ == dir_of(path@),
{
    let whole = path.unicode_len();
    assert(path@.take(whole as int) =~= path@);
    let len = body_len(path, whole);
    let ghost body = path@.take(len as int);
    if len == 0 {
        return ".".to_owned();
    }
    let mut n: usize = len;
    while n > 0
        invariant
            n <= len <= path@.len(),
            body == path@.take(len as int),
            body.len() > 0,
            body == path_body(path@),
            last_slash(body) == last_slash(path@.take(n as int)),
        decreases n,
    {
        assert(path@.take(n as int).last() == path@[n - 1]);
        if path.get_char(n - 1) == '/' {
            let up = body_len(path, n - 1);
            assert(body.take(n - 1) =~= path@.take(n - 1));
            if up == 0 {
                return "/".to_owned();
            }
            let r = slice(path, 0, up);
            assert(r@ =~= path@.take(up as int));
            return r;
        }
        assert(path@.take(n as int).drop_last() =~= path@.take(n - 1));
        n = n - 1;
    }
    String::new()
}

/// The bytes of a text.
pub fn text_bytes(s: &str) -> (r: Vec<u8>)
    ensures
        r@ == vstd::utf8::encode_utf8(s@),
{
    vstd::slice::slice_to_vec(s.as_bytes())
}

/// Whether a text comes before another: character by character, by code point.
pub open spec fn before(a: Seq<char>, b: Seq<char>) -> bool
    decreases a.len(),
{
    if b.len() == 0 {
        false
    } else if a.len() == 0 {
        true
    } else if a[0] != b[0] {
        (a[0] as int) < (b[0] as int)
    } else {
        before(a.drop_first(), b.drop_first())
    }
}

/// Of two texts, one comes before the other unless they are the same.
pub proof fn lemma_before_total(a: Seq<char>, b: Seq<char>)
    ensures
        before(a, b) || before(b, a) || a == b,
        !(before(a, b) && before(b, a)),
        before(a, b) ==> a != b,
    decreases a.len(),
{
    if a.len() > 0 && b.len() > 0 && a[0] == b[0] {
        lemma_before_total(a.drop_first(), b.drop_first());
        if a.drop_first() == b.drop_first() {
            assert(a =~= seq![a[0]] + a.drop_first());
            assert(b =~= seq![b[0]] + b.drop_first());
        }
    } else if a.len() == 0 && b.len() == 0 {
        assert(a =~= b);
    }
}

/// What comes before a text comes before whatever that comes before.
pub proof fn lemma_before_trans(a: Seq<char>, b: Seq<char>, c: Seq<char>)
    requires
        before(a, b),
        before(b, c),
    ensures
        before(a, c),
    decreases a.len(),
{
    if a.len() > 0 && a[0] == b[0] && b[0] == c[0] {
        lemma_before_trans(a.drop_first(), b.drop_first(), c.drop_first());
    }
}

/// Whether a text comes before another.
pub fn comes_before(a: &str, b: &str) -> (r: bool)
    ensures
        r == before(a@, b@),
{
    let n = a.unicode_len();
    let m = b.unicode_len();
    let mut i: usize = 0;
    assert(a@.skip(0) =~= a@ && b@.skip(0) =~= b@);
    while i < n && i < m
        invariant
            n == a@.len(),
            m == b@.len(),
            i <= n,
            i <= m,
            before(a@, b@) == before(a@.skip(i as int), b@.skip(i as int)),
        decreases n - i,
    {
        let x = a.get_char(i);
        let y = b.get_char(i);
        assert(a@.skip(i as int)[0] == x && b@.skip(i as int)[0] == y);
        if x != y {
            return (x as u32) < (y as u32);
        }
        assert(a@.skip(i as int).drop_first() =~= a@.skip(i + 1));
        assert(b@.skip(i as int).drop_first() =~= b@.skip(i + 1));
        i = i + 1;
    }
    i < m
}

/// Whether names stand in order, none of them twice.
pub open spec fn in_order(names: Seq<Seq<char>>) -> bool {
    forall|i: int, j: int|
        0 <= i < j < names.len() ==> before(#[trigger] names[i], #[trigger] names[j])
}

/// Lists of names in order are told apart by what they hold.
pub proof fn law_order_is_unique(a: Seq<Seq<char>>, b: Seq<Seq<char>>)
    requires
        in_order(a),
        in_order(b),
        forall|t: Seq<char>| a.contains(t) == b.contains(t),
    ensures
        a == b,
    decreases a.len(),
{
    if a.len() == 0 {
        if b.len() > 0 {
            assert(b.contains(b[0]));
        }
        assert(a =~= b);
    } else {
        assert(a.contains(a[0]));
        assert(b.len() > 0);
        let (m, n) = (a.len() - 1, b.len() - 1);
        assert(a.contains(a[m]));
        assert(b.contains(b[n]));
        let i = choose|i: int| 0 <= i < a.len() && a[i] == b[n];
        let j = choose|j: int| 0 <= j < b.len() && b[j] == a[m];
        lemma_before_total(a[m], b[n]);
        if a[m] != b[n] {
            assert(before(a[i], a[m]));
            assert(before(b[j], b[n]));
        }
        let (x, y) = (a.drop_last(), b.drop_last());
        assert forall|t: Seq<char>| x.contains(t) == y.contains(t) by {
            if x.contains(t) {
                let k = choose|k: int| 0 <= k < x.len() && x[k] == t;
                assert(a[k] == t);
                assert(before(a[k], a[m]));
                lemma_before_total(t, t);
                assert(b.contains(t));
                let h = choose|h: int| 0 <= h < b.len() && b[h] == t;
                assert(y[h] == t);
            }
            if y.contains(t) {
                let k = choose|k: int| 0 <= k < y.len() && y[k] == t;
                assert(b[k] == t);
                assert(before(b[k], b[n]));
                lemma_before_total(t, t);
                assert(a.contains(t));
                let h = choose|h: int| 0 <= h < a.len() && a[h] == t;
                assert(x[h] == t);
            }
        }
        law_order_is_unique(x, y);
        assert(a =~= x.push(a[m]));
        assert(b =~= y.push(b[n]));
    }
}

/// Where a name belongs among names in order that do not hold it.
pub fn place_of(names: &Vec<String>, name: &str) -> (r: usize)
    requires
        in_order(texts(names@)),
        !texts(names@).contains(name@),
    ensures
        r <= names@.len(),
        in_order(texts(names@).insert(r as int, name@)),
{
    let ghost all = texts(names@);
    let mut i: usize = 0;
    while i < names.len() && comes_before(names[i].as_str(), name)
        invariant
            i <= names@.len(),
            all == texts(names@),
            forall|j: int| 0 <= j < i ==> before(#[trigger] all[j], name@),
        decreases names@.len() - i,
    {
        i = i + 1;
    }
    proof {
        let r = i as int;
        let after = all.insert(r, name@);
        if r < all.len() {
            assert(all[r] == names@[r]@);
            assert(all.contains(all[r]));
            lemma_before_total(all[r], name@);
            assert(before(name@, all[r]));
        }
        assert forall|a: int, b: int| 0 <= a < b < after.len() implies before(
            #[trigger] after[a],
            #[trigger] after[b],
        ) by {
            if b < r {
                assert(after[a] == all[a] && after[b] == all[b]);
            } else if b == r {
                assert(after[a] == all[a]);
            } else if a < r {
                assert(after[a] == all[a] && after[b] == all[b - 1]);
            } else if a == r {
                assert(after[b] == all[b - 1]);
                if b - 1 > r {
                    assert(before(all[r], all[b - 1]));
                    lemma_before_trans(name@, all[r], all[b - 1]);
                }
            } else {
                assert(after[a] == all[a - 1] && after[b] == all[b - 1]);
            }
        }
    }
    i
}

/// Puts a name where it belongs among names in order that do not hold it.
pub fn put_in_order(names: &mut Vec<String>, name: String)
    requires
        in_order(texts(old(names)@)),
        !texts(old(names)@).contains(name@),
    ensures
        in_order(texts(final(names)@)),
        forall|k: Seq<char>|
            texts(final(names)@).contains(k) == (#[trigger] texts(old(names)@).contains(k) || k
                == name@),
{
    let ghost start = texts(names@);
    let i = place_of(names, name.as_str());
    names.insert(i, name);
    proof {
        let after = texts(names@);
        assert(after =~= start.insert(i as int, name@));
        assert forall|k: Seq<char>|
            after.contains(k) == (#[trigger] start.contains(k) || k == name@) by {
            if start.contains(k) {
                let a = choose|a: int| 0 <= a < start.len() && start[a] == k;
                if a < i {
                    assert(after[a] == k);
                } else {
                    assert(after[a + 1] == k);
                }
            }
            assert(after[i as int] == name@);
            if after.contains(k) {
                let a = choose|a: int| 0 <= a < after.len() && after[a] == k;
                if a < i {
                    assert(start[a] == k);
                } else if a > i {
                    assert(start[a - 1] == k);
                }
            }
        }
    }
}

/// Whether a text holds no white space.
pub open spec fn no_white(s: Seq<char>) -> bool {
    forall|i: int| 0 <= i < s.len() ==> !is_white(#[trigger] s[i])
}

/// Trimming the end of a text leaves a beginning of it, and what ends in no white space whole.
pub proof fn lemma_trim_end_tail(a: Seq<char>, t: Seq<char>)
    requires
        a.len() > 0,
        !is_white(a.last()),
    ensures
        trim_end(a + t) == a + trim_end(t),
        trim_end(t).len() > 0 ==> trim_end(t)[0] == t[0],
    decreases t.len(),
{
    if t.len() == 0 {
        assert(a + t =~= a);
        assert(a + trim_end(t) =~= a);
    } else if is_white(t.last()) {
        let u = t.drop_last();
        assert((a + t).drop_last() =~= a + u);
        lemma_trim_end_tail(a, u);
        lemma_trim_end_len(u);
    } else {
        assert((a + t).last() == t.last());
    }
}

/// What is left of a text whose end was trimmed does not end in white space.
pub proof fn lemma_trim_end_white(s: Seq<char>)
    ensures
        trim_end(s).len() > 0 ==> !is_white(trim_end(s).last()),
    decreases s.len(),
{
    if s.len() > 0 && is_white(s.last()) {
        lemma_trim_end_white(s.drop_last());
    }
}

/// A word ends where white space follows.
pub proof fn lemma_word_ends(w: Seq<char>, rest: Seq<char>)
    requires
        no_white(w),
        rest.len() == 0 || is_white(rest[0]),
    ensures
        word_len(w + rest) == w.len(),
    decreases w.len(),
{
    if w.len() == 0 {
        assert(w + rest =~= rest);
    } else {
        let u = w.drop_first();
        assert forall|i: int| 0 <= i < u.len() implies !is_white(#[trigger] u[i]) by {
            assert(u[i] == w[i + 1]);
        }
        assert((w + rest)[0] == w[0]);
        assert((w + rest).drop_first() =~= u + rest);
        lemma_word_ends(u, rest);
    }
}

/// The words of a text are the first one and those of what follows it.
pub proof fn lemma_words_cons(w: Seq<char>, rest: Seq<char>)
    requires
        w.len() > 0,
        no_white(w),
        rest.len() == 0 || is_white(rest[0]),
    ensures
        words(w + rest) == seq![w] + words(rest),
{
    let s = w + rest;
    assert(s[0] == w[0]);
    lemma_word_ends(w, rest);
    assert(s.take(w.len() as int) =~= w);
    assert(s.skip(w.len() as int) =~= rest);
}

/// White space before the first word does not matter.
pub proof fn lemma_words_after_white(c: char, rest: Seq<char>)
    requires
        is_white(c),
    ensures
        words(seq![c] + rest) == words(rest),
{
    let s = seq![c] + rest;
    assert(s[0] == c);
    assert(s.drop_first() =~= rest);
    assert(trim_start(s) == trim_start(rest));
}

} // verus!
