//! The boundary between statements that read and statements that write.
use crate::sql::{
    bare, is_letter, is_name_char, leads_to_write, letters, name_len, names_table, opens_list,
    read_only, reads, spells, statement_reads, token_len, token_mark, writes,
};
use crate::text::{find, is_white, lemma_find, split_on, trim_start};
use vstd::prelude::*;

verus! {

/// A character that neither quotes nor comments.
pub open spec fn is_plain(c: char) -> bool {
    c != '\'' && c != '"' && c != '`' && c != '[' && c != '-' && c != '/'
}

/// A text without quotations and comments.
pub open spec fn plain(s: Seq<char>) -> bool {
    forall|i: int| 0 <= i < s.len() ==> is_plain(#[trigger] s[i])
}

/// A word that is made of letters only.
pub open spec fn is_word(s: Seq<char>) -> bool {
    s.len() > 0 && forall|i: int| 0 <= i < s.len() ==> is_letter(#[trigger] s[i])
}

proof fn lemma_plain_is_bare(s: Seq<char>)
    requires
        plain(s),
    ensures
        bare(s) == s,
    decreases s.len(),
{
    if s.len() > 0 {
        assert(is_plain(s[0]));
        let rest = s.skip(1);
        assert forall|i: int| 0 <= i < rest.len() implies is_plain(#[trigger] rest[i]) by {
            assert(rest[i] == s[i + 1]);
        }
        lemma_plain_is_bare(rest);
        assert(token_len(s) == 1);
        assert(token_mark(s) == s[0]);
        assert(seq![s[0]] + rest =~= s);
    } else {
        assert(bare(s) =~= s);
    }
}

proof fn lemma_no_cut(s: Seq<char>, c: char)
    requires
        !s.contains(c),
    ensures
        split_on(s, c) == seq![s],
{
    lemma_find(s, c);
    if find(s, c) < s.len() {
        assert(s.contains(s[find(s, c) as int]));
    }
}

proof fn lemma_one_cut(a: Seq<char>, b: Seq<char>, c: char)
    requires
        !a.contains(c),
        !b.contains(c),
    ensures
        split_on(a + seq![c] + b, c) == seq![a, b],
{
    let s = a + seq![c] + b;
    lemma_find(s, c);
    let n = find(s, c) as int;
    assert(s[a.len() as int] == c);
    if n < a.len() {
        assert(a[n] == s[n]);
        assert(a.contains(c));
    }
    assert(n == a.len());
    assert(s.take(n) =~= a);
    assert(s.skip(n + 1) =~= b);
    lemma_no_cut(b, c);
    assert(split_on(s, c) =~= seq![a, b]);
}

proof fn lemma_letters(word: Seq<char>, rest: Seq<char>)
    requires
        is_word(word),
        rest.len() > 0 ==> !is_letter(rest[0]),
    ensures
        letters(word + rest) == word.len(),
        (word + rest).take(word.len() as int) == word,
        trim_start(word + rest) == word + rest,
    decreases word.len(),
{
    let s = word + rest;
    assert(is_letter(word[0]));
    assert(s[0] == word[0]);
    assert(!is_white(s[0]));
    assert(s.take(word.len() as int) =~= word);
    if word.len() == 1 {
        assert(s.drop_first() =~= rest);
        assert(letters(rest) == 0);
    } else {
        let t = word.drop_first();
        assert forall|i: int| 0 <= i < t.len() implies is_letter(#[trigger] t[i]) by {
            assert(t[i] == word[i + 1]);
        }
        assert(s.drop_first() =~= t + rest);
        lemma_letters(t, rest);
    }
}

/// Whether a word of letters is one of the three that a reading statement starts with.
pub open spec fn opens_reading(word: Seq<char>) -> bool {
    spells(word, "SELECT"@) || spells(word, "EXPLAIN"@) || spells(word, "WITH"@)
}

/// A statement whose first word is anything but `SELECT`, `EXPLAIN` or `WITH` is never taken
/// for one that reads; with `SELECT` or `EXPLAIN` it always is.
pub proof fn law_the_first_word_decides(word: Seq<char>, rest: Seq<char>)
    requires
        is_word(word),
        plain(rest),
        !rest.contains(';'),
    ensures
        !opens_reading(word) ==> !read_only(word + (seq![' '] + rest)),
        spells(word, "SELECT"@) || spells(word, "EXPLAIN"@) ==> read_only(
            word + (seq![' '] + rest),
        ),
{
    let tail = seq![' '] + rest;
    let s = word + tail;
    lemma_word_text(word, tail);
    assert forall|i: int| 0 <= i < tail.len() implies is_plain(#[trigger] tail[i]) && tail[i]
        != ';' by {
        if i > 0 {
            assert(tail[i] == rest[i - 1]);
            assert(rest.contains(rest[i - 1]));
        }
    }
    lemma_plain_joined(word, tail);
    lemma_plain_is_bare(s);
    lemma_no_cut(s, ';');
    lemma_letters(word, tail);
    assert(split_on(bare(s), ';')[0] == s);
}

proof fn lemma_word_text(word: Seq<char>, tail: Seq<char>)
    requires
        is_word(word),
    ensures
        plain(word),
        !word.contains(';'),
{
    assert forall|i: int| 0 <= i < word.len() implies is_plain(#[trigger] word[i]) by {
        assert(is_letter(word[i]));
    }
    if word.contains(';') {
        let i = choose|i: int| 0 <= i < word.len() && word[i] == ';';
        assert(is_letter(word[i]));
    }
}

proof fn lemma_plain_joined(a: Seq<char>, b: Seq<char>)
    requires
        plain(a),
        plain(b),
        !a.contains(';'),
        forall|i: int| 0 <= i < b.len() ==> #[trigger] b[i] != ';',
    ensures
        plain(a + b),
        !(a + b).contains(';'),
{
    let s = a + b;
    assert forall|i: int| 0 <= i < s.len() implies is_plain(#[trigger] s[i]) by {
        if i < a.len() {
            assert(s[i] == a[i]);
        } else {
            assert(s[i] == b[i - a.len()]);
        }
    }
    if s.contains(';') {
        let i = choose|i: int| 0 <= i < s.len() && s[i] == ';';
        if i < a.len() {
            assert(a.contains(a[i]));
        } else {
            assert(b[i - a.len()] == ';');
        }
    }
}

/// A second statement is held to the same rule: a text of two is taken only where the second
/// reads or is blank, whatever the first is.
pub proof fn law_a_second_statement_counts(first: Seq<char>, word: Seq<char>, rest: Seq<char>)
    requires
        plain(first),
        !first.contains(';'),
        is_word(word),
        plain(rest),
        !rest.contains(';'),
        !opens_reading(word),
    ensures
        !read_only(first + seq![';'] + (word + (seq![' '] + rest))),
{
    let tail = seq![' '] + rest;
    let second = word + tail;
    lemma_word_text(word, tail);
    assert forall|i: int| 0 <= i < tail.len() implies is_plain(#[trigger] tail[i]) && tail[i]
        != ';' by {
        if i > 0 {
            assert(tail[i] == rest[i - 1]);
            assert(rest.contains(rest[i - 1]));
        }
    }
    lemma_plain_joined(word, tail);
    let s = first + seq![';'] + second;
    assert forall|i: int| 0 <= i < s.len() implies is_plain(#[trigger] s[i]) by {
        if i < first.len() {
            assert(s[i] == first[i]);
        } else if i > first.len() {
            assert(s[i] == second[i - first.len() - 1]);
        }
    }
    lemma_plain_is_bare(s);
    lemma_one_cut(first, second, ';');
    lemma_letters(word, tail);
    let all = split_on(bare(s), ';');
    assert(all[1] == second);
    assert(trim_start(second).len() > 0);
    assert(!statement_reads(all[1]));
}

proof fn lemma_name(word: Seq<char>, rest: Seq<char>)
    requires
        is_word(word),
        rest.len() > 0 ==> !is_name_char(rest[0]),
    ensures
        name_len(word + rest) == word.len(),
        (word + rest).take(word.len() as int) == word,
        (word + rest).skip(word.len() as int) == rest,
    decreases word.len(),
{
    let s = word + rest;
    assert(is_letter(word[0]));
    assert(s[0] == word[0]);
    assert(s.take(word.len() as int) =~= word);
    assert(s.skip(word.len() as int) =~= rest);
    if word.len() == 1 {
        assert(s.drop_first() =~= rest);
        assert(name_len(rest) == 0);
    } else {
        let t = word.drop_first();
        assert forall|i: int| 0 <= i < t.len() implies is_letter(#[trigger] t[i]) by {
            assert(t[i] == word[i + 1]);
        }
        assert(s.drop_first() =~= t + rest);
        lemma_name(t, rest);
    }
}

/// What stands in parentheses decides nothing.
proof fn lemma_inside(inner: Seq<char>, rest: Seq<char>)
    requires
        !inner.contains('('),
        !inner.contains(')'),
    ensures
        leads_to_write(inner + (seq![')'] + rest), 1) == leads_to_write(rest, 0),
    decreases inner.len(),
{
    let s = inner + (seq![')'] + rest);
    if inner.len() == 0 {
        assert(s =~= seq![')'] + rest);
        assert(s.skip(1) =~= rest);
    } else {
        assert(inner.contains(inner[0]));
        assert(s[0] == inner[0]);
        if is_name_char(s[0]) {
            let n = name_len(s) as int;
            lemma_name_within(inner, seq![')'] + rest);
            assert(s.skip(n) =~= inner.skip(n) + (seq![')'] + rest));
            lemma_kept_out(inner, n);
            lemma_inside(inner.skip(n), rest);
        } else {
            assert(s.skip(1) =~= inner.skip(1) + (seq![')'] + rest));
            lemma_kept_out(inner, 1);
            lemma_inside(inner.skip(1), rest);
        }
    }
}

proof fn lemma_kept_out(inner: Seq<char>, n: int)
    requires
        0 <= n <= inner.len(),
        !inner.contains('('),
        !inner.contains(')'),
    ensures
        !inner.skip(n).contains('('),
        !inner.skip(n).contains(')'),
{
    let t = inner.skip(n);
    assert forall|i: int| 0 <= i < t.len() implies t[i] != '(' && t[i] != ')' by {
        assert(inner.contains(inner[i + n]));
    }
}

proof fn lemma_name_within(inner: Seq<char>, rest: Seq<char>)
    requires
        inner.len() > 0,
        is_name_char(inner[0]),
        rest.len() > 0,
        !is_name_char(rest[0]),
    ensures
        1 <= name_len(inner + rest) <= inner.len(),
    decreases inner.len(),
{
    let s = inner + rest;
    assert(s[0] == inner[0]);
    if inner.len() == 1 {
        assert(s.drop_first() =~= rest);
        assert(name_len(rest) == 0);
    } else {
        let t = inner.drop_first();
        assert(s.drop_first() =~= t + rest);
        assert((t + rest)[0] == t[0]);
        if is_name_char(t[0]) {
            lemma_name_within(t, rest);
        } else {
            assert(name_len(t + rest) == 0);
        }
    }
}

proof fn lemma_space(s: Seq<char>, depth: nat)
    ensures
        leads_to_write(seq![' '] + s, depth) == leads_to_write(s, depth),
{
    assert((seq![' '] + s).skip(1) =~= s);
}

proof fn lemma_keywords()
    ensures
        "SELECT"@.len() == 6 && "SELECT"@[0] == 'S',
        "VALUES"@.len() == 6 && "VALUES"@[0] == 'V',
        "INSERT"@.len() == 6 && "INSERT"@[0] == 'I',
        "UPDATE"@.len() == 6 && "UPDATE"@[0] == 'U',
        "DELETE"@.len() == 6 && "DELETE"@[0] == 'D',
        "REPLACE"@.len() == 7 && "REPLACE"@[0] == 'R',
        "EXPLAIN"@.len() == 7 && "EXPLAIN"@[0] == 'E',
        "WITH"@.len() == 4,
        "AS"@.len() == 2,
{
    reveal_strlit("SELECT");
    reveal_strlit("VALUES");
    reveal_strlit("INSERT");
    reveal_strlit("UPDATE");
    reveal_strlit("DELETE");
    reveal_strlit("REPLACE");
    reveal_strlit("EXPLAIN");
    reveal_strlit("WITH");
    reveal_strlit("AS");
}

/// A verb outside parentheses, with something behind it that is neither `AS` nor a list.
proof fn lemma_verb(verb: Seq<char>, rest: Seq<char>)
    requires
        is_word(verb),
        rest.len() > 0,
        !is_white(rest[0]),
        rest[0] != '(',
        name_len(rest) != 2,
        reads(verb) || writes(verb),
    ensures
        leads_to_write(verb + (seq![' '] + rest), 0) == writes(verb),
{
    lemma_keywords();
    let tail = seq![' '] + rest;
    let s = verb + tail;
    lemma_name(verb, tail);
    assert(is_letter(verb[0]));
    assert(s[0] == verb[0]);
    assert(tail.drop_first() =~= rest);
    assert(trim_start(tail) == rest) by {
        assert(trim_start(rest) == rest);
    }
    crate::sql::lemma_name_len(rest);
    assert(rest.take(name_len(rest) as int).len() == name_len(rest));
    assert(!names_table(tail));
    assert(!opens_list(tail));
}

/// Whether a word names nothing that reads or writes.
pub open spec fn is_idle(word: Seq<char>) -> bool {
    is_word(word) && !reads(word) && !writes(word)
}

proof fn lemma_idle(word: Seq<char>, rest: Seq<char>)
    requires
        is_idle(word),
        rest.len() > 0,
        !is_name_char(rest[0]),
    ensures
        leads_to_write(word + rest, 0) == leads_to_write(rest, 0),
{
    lemma_name(word, rest);
    let s = word + rest;
    assert(is_letter(word[0]));
    assert(s[0] == word[0]);
}

/// A statement with tables of its own, `WITH name AS (...) verb ...`, reads where its verb
/// selects, and is never taken where its verb inserts, updates, deletes or replaces,
/// whatever stands in the parentheses.
pub proof fn law_the_verb_behind_with_decides(
    name: Seq<char>,
    inner: Seq<char>,
    verb: Seq<char>,
    rest: Seq<char>,
)
    requires
        is_idle(name),
        plain(inner),
        !inner.contains(';'),
        !inner.contains('('),
        !inner.contains(')'),
        is_word(verb),
        reads(verb) || writes(verb),
        plain(rest),
        !rest.contains(';'),
        rest.len() > 0,
        !is_white(rest[0]),
        rest[0] != '(',
        name_len(rest) != 2,
    ensures
        read_only(
            "WITH"@ + (seq![' '] + (name + (seq![' '] + ("AS"@ + (seq![' ', '('] + (inner + (seq![')']
                + (seq![' '] + (verb + (seq![' '] + rest)))))))))),
        ) == reads(verb),
{
    lemma_keywords();
    reveal_strlit("WITH");
    reveal_strlit("AS");
    let z = verb + (seq![' '] + rest);
    let y = seq![' '] + z;
    let x = inner + (seq![')'] + y);
    let w = seq![' ', '('] + x;
    let v = "AS"@ + w;
    let u = seq![' '] + v;
    let t = name + u;
    let r = seq![' '] + t;
    let s = "WITH"@ + r;
    lemma_verb(verb, rest);
    lemma_space(z, 0);
    lemma_inside(inner, y);
    assert(leads_to_write(seq!['('] + x, 0) == leads_to_write(x, 1)) by {
        assert((seq!['('] + x).skip(1) =~= x);
    }
    assert(w =~= seq![' '] + (seq!['('] + x));
    lemma_space(seq!['('] + x, 0);
    assert(is_word("AS"@));
    lemma_idle("AS"@, w);
    lemma_space(v, 0);
    lemma_idle(name, u);
    lemma_space(t, 0);
    assert(is_word("WITH"@));
    lemma_idle("WITH"@, r);
    assert(leads_to_write(s, 0) == writes(verb));
    assert(is_letter(verb[0]));
    assert(reads(verb) == !writes(verb));
    lemma_whole_is_plain(name, inner, verb, rest, s);
    lemma_plain_is_bare(s);
    lemma_no_cut(s, ';');
    lemma_letters("WITH"@, r);
    assert(split_on(bare(s), ';')[0] == s);
    assert(spells("WITH"@, "WITH"@));
    assert(!spells("WITH"@, "SELECT"@) && !spells("WITH"@, "EXPLAIN"@));
}

proof fn lemma_added(a: Seq<char>, b: Seq<char>)
    requires
        plain(a),
        !a.contains(';'),
        plain(b),
        !b.contains(';'),
    ensures
        plain(a + b),
        !(a + b).contains(';'),
{
    assert forall|i: int| 0 <= i < b.len() implies #[trigger] b[i] != ';' by {
        assert(b.contains(b[i]));
    }
    lemma_plain_joined(a, b);
}

proof fn lemma_marks()
    ensures
        plain(seq![' ']) && !seq![' '].contains(';'),
        plain(seq![')']) && !seq![')'].contains(';'),
        plain(seq![' ', '(']) && !seq![' ', '('].contains(';'),
{
}

proof fn lemma_whole_is_plain(
    name: Seq<char>,
    inner: Seq<char>,
    verb: Seq<char>,
    rest: Seq<char>,
    s: Seq<char>,
)
    requires
        is_word(name),
        plain(inner),
        !inner.contains(';'),
        is_word(verb),
        plain(rest),
        !rest.contains(';'),
        s == "WITH"@ + (seq![' '] + (name + (seq![' '] + ("AS"@ + (seq![' ', '('] + (inner + (
        seq![')'] + (seq![' '] + (verb + (seq![' '] + rest)))))))))),
    ensures
        plain(s),
        !s.contains(';'),
{
    reveal_strlit("WITH");
    reveal_strlit("AS");
    lemma_marks();
    assert(is_word("WITH"@) && is_word("AS"@));
    lemma_word_text(name, rest);
    lemma_word_text(verb, rest);
    lemma_word_text("WITH"@, rest);
    lemma_word_text("AS"@, rest);
    lemma_added(seq![' '], rest);
    let z = verb + (seq![' '] + rest);
    lemma_added(verb, seq![' '] + rest);
    lemma_added(seq![' '], z);
    let y = seq![' '] + z;
    lemma_added(seq![')'], y);
    lemma_added(inner, seq![')'] + y);
    let x = inner + (seq![')'] + y);
    lemma_added(seq![' ', '('], x);
    let w = seq![' ', '('] + x;
    lemma_added("AS"@, w);
    lemma_added(seq![' '], "AS"@ + w);
    lemma_added(name, seq![' '] + ("AS"@ + w));
    lemma_added(seq![' '], name + (seq![' '] + ("AS"@ + w)));
    lemma_added("WITH"@, seq![' '] + (name + (seq![' '] + ("AS"@ + w))));
}

/// The verbs that read and those that write, in capitals; small letters count as capitals.
pub proof fn law_the_verbs(word: Seq<char>)
    ensures
        reads("SELECT"@) && reads("VALUES"@),
        writes("INSERT"@) && writes("UPDATE"@) && writes("DELETE"@) && writes("REPLACE"@),
        is_word(word) ==> !(reads(word) && writes(word)),
        opens_reading("SELECT"@) && opens_reading("EXPLAIN"@) && opens_reading("WITH"@),
        !opens_reading("INSERT"@) && !opens_reading("UPDATE"@) && !opens_reading("DELETE"@)
            && !opens_reading("REPLACE"@),
        spells(seq!['s', 'e', 'l', 'e', 'c', 't'], "SELECT"@),
{
    lemma_keywords();
    reveal_strlit("SELECT");
    reveal_strlit("VALUES");
    reveal_strlit("INSERT");
    reveal_strlit("UPDATE");
    reveal_strlit("DELETE");
    reveal_strlit("REPLACE");
    reveal_strlit("EXPLAIN");
    reveal_strlit("WITH");
    assert(!spells("INSERT"@, "SELECT"@) && !spells("UPDATE"@, "SELECT"@) && !spells(
        "DELETE"@,
        "SELECT"@,
    ) && !spells("REPLACE"@, "EXPLAIN"@)) by {
        assert("INSERT"@[0] == 'I' && "UPDATE"@[0] == 'U' && "DELETE"@[0] == 'D' && "REPLACE"@[0]
            == 'R');
    }
    if is_word(word) && reads(word) && writes(word) {
        assert(is_letter(word[0]));
    }
}

proof fn lemma_bare_behind(p: Seq<char>, s: Seq<char>)
    requires
        plain(p),
    ensures
        bare(p + s) == p + bare(s),
    decreases p.len(),
{
    if p.len() == 0 {
        assert(p + s =~= s);
        assert(p + bare(s) =~= bare(s));
    } else {
        let all = p + s;
        assert(is_plain(p[0]));
        assert(all[0] == p[0]);
        let rest = p.skip(1);
        assert forall|i: int| 0 <= i < rest.len() implies is_plain(#[trigger] rest[i]) by {
            assert(rest[i] == p[i + 1]);
        }
        assert(all.skip(1) =~= rest + s);
        lemma_bare_behind(rest, s);
        assert(token_len(all) == 1);
        assert(token_mark(all) == p[0]);
        assert(seq![p[0]] + (rest + bare(s)) =~= p + bare(s));
    }
}

/// What is quoted decides nothing: a statement that selects a text reads, whatever the text
/// says, and one that starts with another word does not become a reading one by it.
pub proof fn law_quoted_text_decides_nothing(word: Seq<char>, q: Seq<char>)
    requires
        is_word(word),
        !q.contains('\''),
    ensures
        spells(word, "SELECT"@) ==> read_only(word + (seq![' '] + (seq!['\''] + q + seq!['\'']))),
        !opens_reading(word) ==> !read_only(
            word + (seq![' '] + (seq!['\''] + q + seq!['\''])),
        ),
{
    let quoted = seq!['\''] + q + seq!['\''];
    let s = word + (seq![' '] + quoted);
    assert(s =~= (word + seq![' ']) + quoted);
    lemma_word_text(word, quoted);
    lemma_marks();
    lemma_added(word, seq![' ']);
    lemma_bare_behind(word + seq![' '], quoted);
    assert(quoted[0] == '\'');
    let inner = quoted.skip(1);
    assert(inner =~= q + seq!['\'']);
    lemma_find(inner, '\'');
    let n = find(inner, '\'') as int;
    assert(inner[q.len() as int] == '\'');
    if n < q.len() {
        assert(q[n] == inner[n]);
        assert(q.contains('\''));
    }
    assert(token_len(quoted) == quoted.len());
    assert(quoted.skip(quoted.len() as int) =~= Seq::<char>::empty());
    assert(bare(quoted.skip(quoted.len() as int)) =~= Seq::<char>::empty());
    assert(bare(quoted) =~= seq!['\'']);
    let tail = seq![' ', '\''];
    assert(bare(s) =~= word + tail);
    assert(!(word + tail).contains(';')) by {
        if (word + tail).contains(';') {
            let i = choose|i: int| 0 <= i < (word + tail).len() && (word + tail)[i] == ';';
            if i < word.len() {
                assert(word[i] == ';');
                assert(word.contains(';'));
            }
        }
    }
    lemma_no_cut(word + tail, ';');
    lemma_letters(word, tail);
    assert(split_on(bare(s), ';')[0] == word + tail);
}

} // verus!
