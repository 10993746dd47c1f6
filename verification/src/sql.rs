//! The read-only boundary for SQL that modules send.
//!
//! Comments and quoted text are set aside first; then every statement has to begin with
//! `SELECT`, `WITH` or `EXPLAIN`, and a `WITH` must not lead to a write.
use crate::text::{find, is_white_char, lemma_find, seek, skip_white, split_on, to_chars, trim_start};
use vstd::prelude::*;

verus! {

/// How many characters it takes to get past the first `*/`, or to the end.
pub open spec fn past_block(s: Seq<char>) -> nat
    decreases s.len(),
{
    if s.len() < 2 {
        s.len()
    } else if s[0] == '*' && s[1] == '/' {
        2
    } else {
        1 + past_block(s.drop_first())
    }
}

/// How many characters it takes to get past the first `c`, or to the end.
pub open spec fn past_char(s: Seq<char>, c: char) -> nat {
    if find(s, c) < s.len() {
        find(s, c) + 1
    } else {
        s.len()
    }
}

/// Whether a line comment begins here.
pub open spec fn line_comment(s: Seq<char>) -> bool {
    s.len() >= 2 && s[0] == '-' && s[1] == '-'
}

/// Whether a block comment begins here.
pub open spec fn block_comment(s: Seq<char>) -> bool {
    s.len() >= 2 && s[0] == '/' && s[1] == '*'
}

/// The character that closes a quotation that begins here.
pub open spec fn closing(c: char) -> Option<char> {
    if c == '\'' || c == '"' || c == '`' {
        Some(c)
    } else if c == '[' {
        Some(']')
    } else {
        None
    }
}

/// The length of the first token: a comment, a quotation or one character.
pub open spec fn token_len(s: Seq<char>) -> nat {
    if line_comment(s) {
        past_char(s, '\n')
    } else if block_comment(s) {
        2 + past_block(s.skip(2))
    } else {
        match closing(s[0]) {
            Some(q) => 1 + past_char(s.skip(1), q),
            None => 1,
        }
    }
}

/// What stands for the first token: a space for a comment, a quotation mark for a
/// quotation, and the character itself for any other.
pub open spec fn token_mark(s: Seq<char>) -> char {
    if line_comment(s) || block_comment(s) {
        ' '
    } else if closing(s[0]) is Some {
        '\''
    } else {
        s[0]
    }
}

proof fn lemma_past_block(s: Seq<char>)
    ensures
        past_block(s) <= s.len(),
    decreases s.len(),
{
    if s.len() >= 2 && !(s[0] == '*' && s[1] == '/') {
        lemma_past_block(s.drop_first());
    }
}

/// A token holds at least one character and lies within the text.
pub proof fn lemma_token_len(s: Seq<char>)
    requires
        s.len() > 0,
    ensures
        1 <= token_len(s) <= s.len(),
{
    lemma_find(s, '\n');
    if block_comment(s) {
        lemma_past_block(s.skip(2));
    }
    if let Some(q) = closing(s[0]) {
        lemma_find(s.skip(1), q);
    }
}

/// SQL without its comments and quotations.
pub open spec fn bare(s: Seq<char>) -> Seq<char>
    decreases s.len(),
{
    if s.len() == 0 {
        Seq::empty()
    } else {
        proof {
            lemma_token_len(s);
        }
        seq![token_mark(s)] + bare(s.skip(token_len(s) as int))
    }
}

/// An ASCII letter.
pub open spec fn is_letter(c: char) -> bool {
    ('A' <= c <= 'Z') || ('a' <= c <= 'z')
}

/// A character of a name.
pub open spec fn is_name_char(c: char) -> bool {
    is_letter(c) || ('0' <= c <= '9') || c == '_' || c as u32 > 127
}

/// The length of the run of letters that `s` starts with.
pub open spec fn letters(s: Seq<char>) -> nat
    decreases s.len(),
{
    if s.len() == 0 || !is_letter(s[0]) {
        0
    } else {
        1 + letters(s.drop_first())
    }
}

/// The length of the name that `s` starts with.
pub open spec fn name_len(s: Seq<char>) -> nat
    decreases s.len(),
{
    if s.len() == 0 || !is_name_char(s[0]) {
        0
    } else {
        1 + name_len(s.drop_first())
    }
}

/// Whether a word is a keyword, whatever the case of its letters. The keyword is in
/// capitals.
pub open spec fn spells(word: Seq<char>, keyword: Seq<char>) -> bool {
    word.len() == keyword.len() && forall|i: int|
        0 <= i < word.len() ==> same_letter(#[trigger] word[i], keyword[i])
}

/// Whether two characters are the same letter; the second is a capital.
pub open spec fn same_letter(c: char, capital: char) -> bool {
    c == capital || ('A' <= capital <= 'Z' && c as u32 == capital as u32 + 32)
}

/// Whether a word is a verb that reads.
pub open spec fn reads(word: Seq<char>) -> bool {
    spells(word, "SELECT"@) || spells(word, "VALUES"@)
}

/// Whether a word is a verb that writes.
pub open spec fn writes(word: Seq<char>) -> bool {
    spells(word, "INSERT"@) || spells(word, "UPDATE"@) || spells(word, "DELETE"@) || spells(
        word,
        "REPLACE"@,
    )
}

/// A name lies within the text.
pub proof fn lemma_name_len(s: Seq<char>)
    ensures
        name_len(s) <= s.len(),
    decreases s.len(),
{
    if s.len() > 0 && is_name_char(s[0]) {
        lemma_name_len(s.drop_first());
    }
}

/// Whether what follows a word makes it the name of a table: `AS` does.
pub open spec fn names_table(rest: Seq<char>) -> bool {
    let t = trim_start(rest);
    spells(t.take(name_len(t) as int), "AS"@)
}

/// Whether a list in parentheses follows a word.
pub open spec fn opens_list(rest: Seq<char>) -> bool {
    let t = trim_start(rest);
    t.len() > 0 && t[0] == '('
}

/// Whether the first verb outside parentheses writes. A word before `AS` is no verb but the
/// name of a table, and so is one that does not read before the list of its columns.
pub open spec fn leads_to_write(s: Seq<char>, depth: nat) -> bool
    decreases s.len(),
{
    if s.len() == 0 {
        false
    } else if s[0] == '(' {
        leads_to_write(s.skip(1), depth + 1)
    } else if s[0] == ')' {
        leads_to_write(
            s.skip(1),
            if depth > 0 {
                (depth - 1) as nat
            } else {
                0
            },
        )
    } else if is_name_char(s[0]) {
        let n = name_len(s) as int;
        let word = s.take(n);
        let rest = s.skip(n);
        if depth == 0 && reads(word) && !names_table(rest) {
            false
        } else if depth == 0 && writes(word) && !names_table(rest) && !opens_list(rest) {
            true
        } else {
            proof {
                lemma_name_len(s);
            }
            leads_to_write(rest, depth)
        }
    } else {
        leads_to_write(s.skip(1), depth)
    }
}

/// Whether a statement only reads.
pub open spec fn statement_reads(statement: Seq<char>) -> bool {
    let s = trim_start(statement);
    let word = s.take(letters(s) as int);
    ||| spells(word, "SELECT"@)
    ||| spells(word, "EXPLAIN"@)
    ||| spells(word, "WITH"@) && !leads_to_write(s, 0)
}

/// Whether a statement holds nothing.
pub open spec fn is_blank(statement: Seq<char>) -> bool {
    trim_start(statement).len() == 0
}

/// The statements of a text.
pub open spec fn statements(sql: Seq<char>) -> Seq<Seq<char>> {
    split_on(bare(sql), ';')
}

/// Whether SQL only reads: the first statement does, and each other one does or is empty.
pub open spec fn read_only(sql: Seq<char>) -> bool {
    let all = statements(sql);
    &&& statement_reads(all[0])
    &&& forall|i: int|
        0 < i < all.len() ==> is_blank(#[trigger] all[i]) || statement_reads(all[i])
}

/// Whether a character is an ASCII letter.
fn letter(c: char) -> (r: bool)
    ensures
        r == is_letter(c),
{
    ('A' <= c && c <= 'Z') || ('a' <= c && c <= 'z')
}

/// Whether a character is one of a name.
fn name_char(c: char) -> (r: bool)
    ensures
        r == is_name_char(c),
{
    letter(c) || ('0' <= c && c <= '9') || c == '_' || c as u32 > 127
}

/// Whether the characters from `from` up to `to` are a keyword.
fn spelled(cs: &Vec<char>, from: usize, to: usize, keyword: &str) -> (r: bool)
    requires
        from <= to <= cs@.len(),
    ensures
        r == spells(cs@.subrange(from as int, to as int), keyword@),
{
    let ghost word = cs@.subrange(from as int, to as int);
    if keyword.unicode_len() != to - from {
        return false;
    }
    let mut i: usize = from;
    while i < to
        invariant
            from <= i <= to <= cs@.len(),
            keyword@.len() == to - from,
            word == cs@.subrange(from as int, to as int),
            forall|j: int| 0 <= j < i - from ==> same_letter(#[trigger] word[j], keyword@[j]),
        decreases to - i,
    {
        let c = cs[i];
        let k = keyword.get_char(i - from);
        assert(word[i - from] == c);
        if !(c == k || ('A' <= k && k <= 'Z' && c as u32 == k as u32 + 32)) {
            return false;
        }
        i = i + 1;
    }
    true
}

/// The index past the first `*/` at or after `from`, or the end.
fn skip_block(cs: &Vec<char>, from: usize) -> (r: usize)
    requires
        from <= cs@.len(),
    ensures
        r == from + past_block(cs@.skip(from as int)),
        r <= cs@.len(),
{
    let mut i: usize = from;
    while cs.len() - i >= 2
        invariant
            from <= i <= cs@.len(),
            from + past_block(cs@.skip(from as int)) == i + past_block(cs@.skip(i as int)),
        decreases cs@.len() - i,
    {
        assert(cs@.skip(i as int)[0] == cs@[i as int]);
        assert(cs@.skip(i as int)[1] == cs@[i + 1]);
        if cs[i] == '*' && cs[i + 1] == '/' {
            return i + 2;
        }
        assert(cs@.skip(i as int).drop_first() =~= cs@.skip(i + 1));
        i = i + 1;
    }
    cs.len()
}

/// The index past the first `c` at or after `from`, or the end.
fn skip_past(cs: &Vec<char>, from: usize, c: char) -> (r: usize)
    requires
        from <= cs@.len(),
    ensures
        r == from + past_char(cs@.skip(from as int), c),
        r <= cs@.len(),
{
    let n = seek(cs, from, c);
    if n < cs.len() {
        n + 1
    } else {
        n
    }
}

/// SQL without its comments and quotations.
fn strip(cs: &Vec<char>) -> (r: Vec<char>)
    ensures
        r@ == bare(cs@),
{
    let mut out: Vec<char> = Vec::new();
    let mut i: usize = 0;
    assert(cs@.skip(0) =~= cs@);
    assert(out@ + bare(cs@) =~= bare(cs@));
    while i < cs.len()
        invariant
            i <= cs@.len(),
            bare(cs@) == out@ + bare(cs@.skip(i as int)),
        decreases cs@.len() - i,
    {
        let ghost s = cs@.skip(i as int);
        let c = cs[i];
        assert(s[0] == c);
        assert(cs@.len() - i >= 2 ==> s[1] == cs@[i + 1]);
        proof {
            lemma_token_len(s);
        }
        let two = cs.len() - i >= 2;
        let next: usize;
        let mark: char;
        if two && c == '-' && cs[i + 1] == '-' {
            next = skip_past(cs, i, '\n');
            mark = ' ';
        } else if two && c == '/' && cs[i + 1] == '*' {
            assert(s.skip(2) =~= cs@.skip(i + 2));
            next = skip_block(cs, i + 2);
            mark = ' ';
        } else if c == '\'' || c == '"' || c == '`' {
            assert(s.skip(1) =~= cs@.skip(i + 1));
            next = skip_past(cs, i + 1, c);
            mark = '\'';
        } else if c == '[' {
            assert(s.skip(1) =~= cs@.skip(i + 1));
            next = skip_past(cs, i + 1, ']');
            mark = '\'';
        } else {
            next = i + 1;
            mark = c;
        }
        let ghost before = out@;
        out.push(mark);
        proof {
            assert(next == i + token_len(s));
            assert(mark == token_mark(s));
            assert(s.skip(token_len(s) as int) =~= cs@.skip(next as int));
            assert(before + (seq![mark] + bare(cs@.skip(next as int))) =~= out@ + bare(
                cs@.skip(next as int),
            ));
        }
        i = next;
    }
    assert(cs@.skip(i as int) =~= Seq::empty());
    assert(out@ + Seq::<char>::empty() =~= out@);
    out
}

/// The index of the first character that is no white space, or `to`.
fn past_white(cs: &Vec<char>, from: usize, to: usize) -> (r: usize)
    requires
        from <= to <= cs@.len(),
    ensures
        from <= r <= to,
        trim_start(cs@.subrange(from as int, to as int)) == cs@.subrange(r as int, to as int),
{
    let mut i: usize = from;
    while i < to && is_white_char(cs[i])
        invariant
            from <= i <= to <= cs@.len(),
            trim_start(cs@.subrange(from as int, to as int)) == trim_start(
                cs@.subrange(i as int, to as int),
            ),
        decreases to - i,
    {
        let ghost s = cs@.subrange(i as int, to as int);
        assert(s[0] == cs@[i as int]);
        assert(s.drop_first() =~= cs@.subrange(i + 1, to as int));
        i = i + 1;
    }
    proof {
        if i < to {
            assert(cs@.subrange(i as int, to as int)[0] == cs@[i as int]);
        }
    }
    i
}

/// The index behind the name that begins at `from`.
fn past_name(cs: &Vec<char>, from: usize, to: usize) -> (r: usize)
    requires
        from <= to <= cs@.len(),
    ensures
        from <= r <= to,
        r - from == name_len(cs@.subrange(from as int, to as int)),
{
    let ghost s = cs@.subrange(from as int, to as int);
    let mut i: usize = from;
    assert(s.skip(0) =~= s);
    while i < to && name_char(cs[i])
        invariant
            from <= i <= to <= cs@.len(),
            s == cs@.subrange(from as int, to as int),
            name_len(s) == (i - from) + name_len(s.skip(i - from)),
        decreases to - i,
    {
        assert(s.skip(i - from)[0] == cs@[i as int]);
        assert(s.skip(i - from).drop_first() =~= s.skip(i + 1 - from));
        i = i + 1;
    }
    proof {
        if i < to {
            assert(s.skip(i - from)[0] == cs@[i as int]);
        }
        assert(name_len(s.skip(i - from)) == 0);
    }
    i
}

/// Whether `AS` follows, and whether a list in parentheses does.
fn what_follows(cs: &Vec<char>, from: usize, to: usize) -> (r: (bool, bool))
    requires
        from <= to <= cs@.len(),
    ensures
        r.0 == names_table(cs@.subrange(from as int, to as int)),
        r.1 == opens_list(cs@.subrange(from as int, to as int)),
{
    let i = past_white(cs, from, to);
    let j = past_name(cs, i, to);
    let ghost t = cs@.subrange(i as int, to as int);
    assert(t.take(j - i) =~= cs@.subrange(i as int, j as int));
    assert(i < to ==> t[0] == cs@[i as int]);
    (spelled(cs, i, j, "AS"), i < to && cs[i] == '(')
}

/// Whether the first verb outside parentheses writes.
fn finds_write(cs: &Vec<char>, from: usize, to: usize) -> (r: bool)
    requires
        from <= to <= cs@.len(),
    ensures
        r == leads_to_write(cs@.subrange(from as int, to as int), 0),
{
    let ghost all = cs@.subrange(from as int, to as int);
    let mut depth: usize = 0;
    let mut i: usize = from;
    while i < to
        invariant
            from <= i <= to <= cs@.len(),
            depth <= i - from,
            all == cs@.subrange(from as int, to as int),
            leads_to_write(all, 0) == leads_to_write(
                cs@.subrange(i as int, to as int),
                depth as nat,
            ),
        decreases to - i,
    {
        let ghost s = cs@.subrange(i as int, to as int);
        let c = cs[i];
        assert(s[0] == c);
        assert(s.skip(1) =~= cs@.subrange(i + 1, to as int));
        if c == '(' {
            depth = depth + 1;
            i = i + 1;
        } else if c == ')' {
            depth = if depth > 0 {
                depth - 1
            } else {
                0
            };
            i = i + 1;
        } else if name_char(c) {
            let start = i;
            i = past_name(cs, start, to);
            proof {
                assert(s.take(i - start) =~= cs@.subrange(start as int, i as int));
                assert(s.skip(i - start) =~= cs@.subrange(i as int, to as int));
                assert(name_len(s) > 0);
            }
            if depth == 0 {
                let (named, listed) = what_follows(cs, i, to);
                if !named && (spelled(cs, start, i, "SELECT") || spelled(cs, start, i, "VALUES")) {
                    return false;
                }
                if !named && !listed && (spelled(cs, start, i, "INSERT") || spelled(
                    cs,
                    start,
                    i,
                    "UPDATE",
                ) || spelled(cs, start, i, "DELETE") || spelled(cs, start, i, "REPLACE")) {
                    return true;
                }
            }
        } else {
            i = i + 1;
        }
    }
    assert(cs@.subrange(i as int, to as int) =~= Seq::empty());
    false
}

/// Whether a statement is empty, and whether it only reads.
fn judge(cs: &Vec<char>) -> (r: (bool, bool))
    ensures
        r.0 == is_blank(cs@),
        r.1 == statement_reads(cs@),
{
    let from = skip_white(cs, 0);
    assert(cs@.skip(0) =~= cs@);
    let ghost s = cs@.skip(from as int);
    assert(s =~= trim_start(cs@));
    let mut i: usize = from;
    assert(s.skip(0) =~= s);
    while i < cs.len() && letter(cs[i])
        invariant
            from <= i <= cs@.len(),
            s == cs@.skip(from as int),
            letters(s) == (i - from) + letters(s.skip(i - from)),
        decreases cs@.len() - i,
    {
        assert(s.skip(i - from)[0] == cs@[i as int]);
        assert(s.skip(i - from).drop_first() =~= s.skip(i + 1 - from));
        i = i + 1;
    }
    proof {
        if i < cs@.len() {
            assert(s.skip(i - from)[0] == cs@[i as int]);
        }
        assert(letters(s.skip(i - from)) == 0);
        assert(s.take(letters(s) as int) =~= cs@.subrange(from as int, i as int));
        assert(s =~= cs@.subrange(from as int, cs@.len() as int));
    }
    let ok = spelled(cs, from, i, "SELECT") || spelled(cs, from, i, "EXPLAIN") || (spelled(
        cs,
        from,
        i,
        "WITH",
    ) && !finds_write(cs, from, cs.len()));
    (from >= cs.len(), ok)
}

/// The characters from `from` up to `to`.
fn piece(cs: &Vec<char>, from: usize, to: usize) -> (r: Vec<char>)
    requires
        from <= to <= cs@.len(),
    ensures
        r@ == cs@.subrange(from as int, to as int),
{
    let mut out: Vec<char> = Vec::new();
    let mut i: usize = from;
    while i < to
        invariant
            from <= i <= to <= cs@.len(),
            out@ == cs@.subrange(from as int, i as int),
        decreases to - i,
    {
        out.push(cs[i]);
        assert(cs@.subrange(from as int, i + 1) =~= cs@.subrange(from as int, i as int).push(
            cs@[i as int],
        ));
        i = i + 1;
    }
    out
}

/// Whether SQL only reads. Comments may stand anywhere, keywords in any case; a write is
/// found behind a semicolon and behind a `WITH` too.
pub fn is_read_only_sql(sql: &str) -> (r: bool)
    ensures
        r == read_only(sql@),
{
    let cs = strip(&to_chars(sql));
    let ghost all = statements(sql@);
    let mut from: usize = 0;
    let mut first = true;
    let ghost mut k: int = 0;
    let mut done = false;
    assert(cs@.skip(0) =~= cs@);
    assert(all.skip(0) =~= all);
    while !done
        invariant
            from <= cs@.len(),
            first == (k == 0),
            0 <= k <= all.len(),
            all == statements(sql@),
            done ==> k == all.len(),
            !done ==> all.skip(k) == split_on(cs@.skip(from as int), ';'),
            forall|i: int| 0 < i < k ==> is_blank(#[trigger] all[i]) || statement_reads(all[i]),
            k > 0 ==> statement_reads(all[0]),
        decreases (if done { 0int } else { cs@.len() - from + 1 }),
    {
        let n = seek(&cs, from, ';');
        let ghost s = cs@.skip(from as int);
        proof {
            assert(s.take(n - from) =~= cs@.subrange(from as int, n as int));
            if n < cs@.len() {
                assert(s.skip(n - from + 1) =~= cs@.skip(n + 1));
            }
            assert(split_on(s, ';').len() > 0);
            assert(all.skip(k)[0] == all[k]);
            assert(s =~= cs@.subrange(from as int, cs@.len() as int));
        }
        let p = piece(&cs, from, n);
        assert(p@ == all[k]);
        let (blank, ok) = judge(&p);
        if !ok && (first || !blank) {
            return false;
        }
        proof {
            assert(all.skip(k).drop_first() =~= all.skip(k + 1));
            if n < cs@.len() {
                assert(split_on(s, ';').drop_first() =~= split_on(cs@.skip(n + 1), ';'));
            } else {
                assert(all.skip(k).len() == 1);
            }
            k = k + 1;
        }
        first = false;
        if n < cs.len() {
            from = n + 1;
        } else {
            done = true;
        }
    }
    true
}

/// No statement of an accepted text writes, however many there are.
pub proof fn law_every_statement_reads(sql: Seq<char>, i: int)
    requires
        read_only(sql),
        0 <= i < statements(sql).len(),
    ensures
        is_blank(statements(sql)[i]) || statement_reads(statements(sql)[i]),
{
}

proof fn lemma_space_in_front(b: Seq<char>)
    ensures
        ({
            let with = split_on(seq![' '] + b, ';');
            let without = split_on(b, ';');
            &&& with.len() == without.len()
            &&& without.len() > 0
            &&& with[0] == seq![' '] + without[0]
            &&& forall|i: int| 0 < i < with.len() ==> #[trigger] with[i] == without[i]
        }),
{
    let s = seq![' '] + b;
    assert(s.drop_first() =~= b);
    lemma_find(b, ';');
    let n = find(b, ';') as int;
    assert(find(s, ';') == n + 1);
    if n < b.len() {
        assert(s.take(n + 1) =~= seq![' '] + b.take(n));
        assert(s.skip(n + 2) =~= b.skip(n + 1));
    }
}

proof fn lemma_space_is_white(s: Seq<char>)
    ensures
        trim_start(seq![' '] + s) == trim_start(s),
{
    assert((seq![' '] + s).drop_first() =~= s);
}

proof fn lemma_comment_in_front(sql: Seq<char>, rest: Seq<char>)
    requires
        bare(sql) == seq![' '] + bare(rest),
    ensures
        read_only(sql) == read_only(rest),
{
    lemma_space_in_front(bare(rest));
    let with = statements(sql);
    let without = statements(rest);
    lemma_space_is_white(without[0]);
    assert(statement_reads(with[0]) == statement_reads(without[0]));
    if read_only(rest) {
        assert forall|i: int| 0 < i < with.len() implies is_blank(#[trigger] with[i])
            || statement_reads(with[i]) by {
            assert(with[i] == without[i]);
        }
    }
    if read_only(sql) {
        assert forall|i: int| 0 < i < without.len() implies is_blank(#[trigger] without[i])
            || statement_reads(without[i]) by {
            assert(with[i] == without[i]);
        }
    }
}

/// A line comment in front neither opens nor closes the boundary.
pub proof fn law_line_comment_in_front(comment: Seq<char>, rest: Seq<char>)
    requires
        !comment.contains('\n'),
    ensures
        read_only(seq!['-', '-'] + comment + seq!['\n'] + rest) == read_only(rest),
{
    let sql = seq!['-', '-'] + comment + seq!['\n'] + rest;
    lemma_find(sql, '\n');
    let n = find(sql, '\n') as int;
    assert(sql[comment.len() as int + 2] == '\n');
    if n < comment.len() + 2 {
        if n >= 2 {
            assert(sql[n] == comment[n - 2]);
            assert(comment.contains('\n'));
        }
    }
    assert(n == comment.len() + 2);
    assert(sql.skip(token_len(sql) as int) =~= rest);
    lemma_comment_in_front(sql, rest);
}

proof fn lemma_past_block_at(comment: Seq<char>, rest: Seq<char>)
    requires
        forall|i: int|
            0 <= i < comment.len() - 1 ==> !(#[trigger] comment[i] == '*' && comment[i + 1]
                == '/'),
    ensures
        past_block(comment + seq!['*', '/'] + rest) == comment.len() + 2,
    decreases comment.len(),
{
    let s = comment + seq!['*', '/'] + rest;
    if comment.len() > 0 {
        let t = comment.drop_first();
        assert(s.drop_first() =~= t + seq!['*', '/'] + rest);
        assert forall|i: int| 0 <= i < t.len() - 1 implies !(#[trigger] t[i] == '*' && t[i + 1]
            == '/') by {
            assert(comment[i + 1] == t[i]);
            assert(comment[i + 2] == t[i + 1]);
        }
        lemma_past_block_at(t, rest);
        assert(s[0] == comment[0]);
        if comment.len() > 1 {
            assert(s[1] == comment[1]);
            assert(!(comment[0] == '*' && comment[1] == '/'));
        } else {
            assert(s[1] == '*');
        }
    }
}

/// A block comment in front neither opens nor closes the boundary.
pub proof fn law_block_comment_in_front(comment: Seq<char>, rest: Seq<char>)
    requires
        forall|i: int|
            0 <= i < comment.len() - 1 ==> !(#[trigger] comment[i] == '*' && comment[i + 1]
                == '/'),
    ensures
        read_only(seq!['/', '*'] + comment + seq!['*', '/'] + rest) == read_only(rest),
{
    let sql = seq!['/', '*'] + comment + seq!['*', '/'] + rest;
    assert(sql.skip(2) =~= comment + seq!['*', '/'] + rest);
    lemma_past_block_at(comment, rest);
    assert(sql.skip(token_len(sql) as int) =~= rest);
    lemma_comment_in_front(sql, rest);
}

} // verus!
