//! `.env` files: lines of `KEY=VALUE`, comments and blank lines.
use crate::proto::pair_views;
use crate::strmap::StrMap;
use crate::text::{
    begins_with, join, joined, lines, name_listed, same, split_at_char, split_lines, split_once,
    texts, trim, trimmed, unquote, unquoted,
};
use vstd::prelude::*;

verus! {

/// What a line defines: a key and its value, both trimmed, the value without quotation
/// marks around it. Blank lines, comments and lines without a key define nothing.
pub open spec fn line_entry(line: Seq<char>) -> Option<(Seq<char>, Seq<char>)> {
    let l = trim(line);
    if l.len() == 0 || l[0] == '#' {
        None
    } else {
        match split_once(l, '=') {
            Some((k, v)) => if trim(k).len() == 0 {
                None
            } else {
                Some((trim(k), unquote(trim(v))))
            },
            None => None,
        }
    }
}

/// What some lines define, in order.
pub open spec fn line_entries(ls: Seq<Seq<char>>) -> Seq<(Seq<char>, Seq<char>)>
    decreases ls.len(),
{
    if ls.len() == 0 {
        Seq::empty()
    } else {
        let front = line_entries(ls.drop_last());
        match line_entry(ls.last()) {
            Some(e) => front.push(e),
            None => front,
        }
    }
}

/// What definitions come to: of two for one key the later counts.
pub open spec fn defined(entries: Seq<(Seq<char>, Seq<char>)>) -> Map<Seq<char>, Seq<char>>
    decreases entries.len(),
{
    if entries.len() == 0 {
        Map::empty()
    } else {
        defined(entries.drop_last()).insert(entries.last().0, entries.last().1)
    }
}

/// What the text of a file defines.
pub open spec fn env_map(content: Seq<char>) -> Map<Seq<char>, Seq<char>> {
    defined(line_entries(lines(content)))
}

/// What a line defines.
fn read_line(line: &str) -> (r: Option<(String, String)>)
    ensures
        r is Some == line_entry(line@) is Some,
        r matches Some(e) ==> (e.0@, e.1@) == line_entry(line@).unwrap(),
{
    let l = trimmed(line);
    let l = l.as_str();
    if l.unicode_len() == 0 || l.get_char(0) == '#' {
        return None;
    }
    match split_at_char(l, '=') {
        Some((k, v)) => {
            let key = trimmed(k.as_str());
            if key.as_str().unicode_len() == 0 {
                None
            } else {
                let value = trimmed(v.as_str());
                Some((key, unquoted(value.as_str())))
            }
        },
        None => None,
    }
}

/// What the text of a file defines, in order.
pub fn env_entries(content: &str) -> (r: Vec<(String, String)>)
    ensures
        pair_views(r@) == line_entries(lines(content@)),
{
    let ls = split_lines(content);
    let ghost all = texts(ls@);
    let mut out: Vec<(String, String)> = Vec::new();
    let mut i: usize = 0;
    assert(pair_views(out@) =~= line_entries(all.take(0)));
    while i < ls.len()
        invariant
            i <= ls@.len(),
            all == texts(ls@),
            pair_views(out@) == line_entries(all.take(i as int)),
        decreases ls@.len() - i,
    {
        assert(all.take(i + 1).drop_last() =~= all.take(i as int));
        let ghost before = out@;
        if let Some(e) = read_line(ls[i].as_str()) {
            out.push(e);
            assert(pair_views(out@) =~= pair_views(before).push((e.0@, e.1@)));
        }
        i = i + 1;
    }
    assert(all.take(i as int) =~= all);
    out
}

/// The values of a map of strings.
pub open spec fn text_values(m: Map<Seq<char>, String>) -> Map<Seq<char>, Seq<char>> {
    m.map_values(|s: String| s@)
}

/// What the text of a file defines.
pub fn read_env_map(content: &str) -> (r: StrMap<String>)
    ensures
        r.wf(),
        text_values(r@) == env_map(content@),
{
    let entries = env_entries(content);
    let ghost all = pair_views(entries@);
    let mut out: StrMap<String> = StrMap::new();
    let mut i: usize = 0;
    assert(text_values(out@) =~= defined(all.take(0)));
    while i < entries.len()
        invariant
            i <= entries@.len(),
            out.wf(),
            all == pair_views(entries@),
            text_values(out@) == defined(all.take(i as int)),
        decreases entries@.len() - i,
    {
        assert(all.take(i + 1).drop_last() =~= all.take(i as int));
        let ghost before = out@;
        out.insert(entries[i].0.clone(), entries[i].1.clone());
        assert(text_values(out@) =~= text_values(before).insert(all[i as int].0, all[i as int].1));
        i = i + 1;
    }
    assert(all.take(i as int) =~= all);
    out
}

/// Which definitions a process takes over: those for names that it does not have yet, the
/// first for each.
pub open spec fn to_set(
    entries: Seq<(Seq<char>, Seq<char>)>,
    present: Seq<Seq<char>>,
) -> Seq<(Seq<char>, Seq<char>)>
    decreases entries.len(),
{
    if entries.len() == 0 {
        Seq::empty()
    } else {
        let front = to_set(entries.drop_last(), present);
        let e = entries.last();
        if present.contains(e.0) || defines(front, e.0) {
            front
        } else {
            front.push(e)
        }
    }
}

/// Whether some definition is for the key.
pub open spec fn defines(entries: Seq<(Seq<char>, Seq<char>)>, key: Seq<char>) -> bool {
    exists|i: int| 0 <= i < entries.len() && (#[trigger] entries[i]).0 == key
}

fn has_entry(entries: &Vec<(String, String)>, key: &str) -> (r: bool)
    ensures
        r == defines(pair_views(entries@), key@),
{
    let ghost all = pair_views(entries@);
    let mut i: usize = 0;
    while i < entries.len()
        invariant
            i <= entries@.len(),
            all == pair_views(entries@),
            forall|j: int| 0 <= j < i ==> (#[trigger] all[j]).0 != key@,
        decreases entries@.len() - i,
    {
        if same(entries[i].0.as_str(), key) {
            assert(all[i as int].0 == key@);
            return true;
        }
        i = i + 1;
    }
    false
}

/// Which definitions of a file a process takes over, given the names that it has.
pub fn load_env_file(content: &str, present: &Vec<String>) -> (r: Vec<(String, String)>)
    ensures
        pair_views(r@) == to_set(line_entries(lines(content@)), texts(present@)),
{
    let entries = env_entries(content);
    let ghost all = pair_views(entries@);
    let ghost there = texts(present@);
    let mut out: Vec<(String, String)> = Vec::new();
    let mut i: usize = 0;
    assert(pair_views(out@) =~= to_set(all.take(0), there));
    while i < entries.len()
        invariant
            i <= entries@.len(),
            all == pair_views(entries@),
            there == texts(present@),
            pair_views(out@) == to_set(all.take(i as int), there),
        decreases entries@.len() - i,
    {
        assert(all.take(i + 1).drop_last() =~= all.take(i as int));
        let ghost before = out@;
        let key = entries[i].0.as_str();
        if !name_listed(present, key) && !has_entry(&out, key) {
            out.push((entries[i].0.clone(), entries[i].1.clone()));
            assert(pair_views(out@) =~= pair_views(before).push(all[i as int]));
        }
        i = i + 1;
    }
    assert(all.take(i as int) =~= all);
    out
}

/// Whether a line is one that an entry for the key replaces.
pub open spec fn replaces(line: Seq<char>, key: Seq<char>) -> bool {
    (key + "="@).is_prefix_of(trim(line))
}

/// The index of the first line that an entry for the key replaces, or the number of lines.
pub open spec fn replaced_at(ls: Seq<Seq<char>>, key: Seq<char>) -> nat
    decreases ls.len(),
{
    if ls.len() == 0 || replaces(ls[0], key) {
        0
    } else {
        1 + replaced_at(ls.drop_first(), key)
    }
}

/// The lines with an entry: in place of the first that it replaces, or behind the others.
pub open spec fn with_line(
    ls: Seq<Seq<char>>,
    key: Seq<char>,
    value: Seq<char>,
) -> Seq<Seq<char>> {
    let line = key + "="@ + value;
    let i = replaced_at(ls, key) as int;
    if i < ls.len() {
        ls.update(i, line)
    } else {
        ls.push(line)
    }
}

/// The lines with some entries, one after the other.
pub open spec fn with_lines(
    ls: Seq<Seq<char>>,
    entries: Seq<(Seq<char>, Seq<char>)>,
) -> Seq<Seq<char>>
    decreases entries.len(),
{
    if entries.len() == 0 {
        ls
    } else {
        with_line(with_lines(ls, entries.drop_last()), entries.last().0, entries.last().1)
    }
}

/// The text of some lines; it ends in a line feed.
pub open spec fn lines_text(ls: Seq<Seq<char>>) -> Seq<char> {
    let text = join(ls, "\n"@);
    if text.len() > 0 && text.last() == '\n' {
        text
    } else {
        text + "\n"@
    }
}

fn seek_line(ls: &Vec<String>, key: &str) -> (r: usize)
    ensures
        r == replaced_at(texts(ls@), key@),
        r <= ls@.len(),
{
    let ghost all = texts(ls@);
    let mut prefix = key.to_owned();
    prefix.append("=");
    let mut i: usize = 0;
    assert(all.skip(0) =~= all);
    while i < ls.len()
        invariant
            i <= ls@.len(),
            all == texts(ls@),
            prefix@ == key@ + "="@,
            replaced_at(all, key@) == i + replaced_at(all.skip(i as int), key@),
        decreases ls@.len() - i,
    {
        let t = trimmed(ls[i].as_str());
        assert(all.skip(i as int)[0] == ls@[i as int]@);
        if begins_with(t.as_str(), prefix.as_str()) {
            return i;
        }
        assert(all.skip(i as int).drop_first() =~= all.skip(i + 1));
        i = i + 1;
    }
    i
}

/// The text of a file with some entries merged in, given the text it has.
pub fn write_env_map(existing: &str, entries: &Vec<(String, String)>) -> (r: String)
    ensures
        r@ == lines_text(with_lines(lines(existing@), pair_views(entries@))),
{
    let mut ls = split_lines(existing);
    let ghost all = pair_views(entries@);
    let ghost start = texts(ls@);
    let mut i: usize = 0;
    assert(with_lines(start, all.take(0)) == start);
    while i < entries.len()
        invariant
            i <= entries@.len(),
            all == pair_views(entries@),
            texts(ls@) == with_lines(start, all.take(i as int)),
        decreases entries@.len() - i,
    {
        assert(all.take(i + 1).drop_last() =~= all.take(i as int));
        let key = entries[i].0.as_str();
        let mut line = key.to_owned();
        line.append("=");
        line.append(entries[i].1.as_str());
        let ghost before = texts(ls@);
        let at = seek_line(&ls, key);
        if at < ls.len() {
            ls[at] = line;
            assert(texts(ls@) =~= before.update(at as int, line@));
        } else {
            ls.push(line);
            assert(texts(ls@) =~= before.push(line@));
        }
        i = i + 1;
    }
    assert(all.take(i as int) =~= all);
    let mut text = joined(&ls, "\n");
    proof {
        reveal_strlit("\n");
    }
    let n = text.as_str().unicode_len();
    let ended = n > 0 && text.as_str().get_char(n - 1) == '\n';
    if !ended {
        text.append("\n");
    }
    text
}

/// A key that can be read back: trimmed, on one line, no comment, and without `=`.
pub open spec fn plain_key(key: Seq<char>) -> bool {
    &&& key.len() > 0
    &&& trim(key) == key
    &&& key[0] != '#'
    &&& !key.contains('=')
    &&& !key.contains('\n')
}

/// A value that can be read back: trimmed, on one line, and without quotation marks around
/// it.
pub open spec fn plain_value(value: Seq<char>) -> bool {
    &&& trim(value) == value
    &&& unquote(value) == value
    &&& !value.contains('\n')
}

proof fn lemma_written_line(key: Seq<char>, value: Seq<char>)
    requires
        plain_key(key),
        plain_value(value),
    ensures
        line_entry(key + "="@ + value) == Some((key, value)),
        !(key + "="@ + value).contains('\n'),
{
    reveal_strlit("=");
    let line = key + "="@ + value;
    assert("="@ =~= seq!['=']);
    crate::text::lemma_trimmed_ends(key);
    if value.len() > 0 {
        crate::text::lemma_trimmed_ends(value);
        assert(line.last() == value.last());
    } else {
        assert(line.last() == '=');
    }
    assert(line[0] == key[0]);
    crate::text::lemma_trim_id(line);
    lemma_first_equals(key, value, line);
    assert forall|i: int| 0 <= i < line.len() implies line[i] != '\n' by {
        if i < key.len() {
            assert(line[i] == key[i]);
        } else if i > key.len() {
            assert(line[i] == value[i - key.len() - 1]);
        }
    }
}

proof fn lemma_first_equals(key: Seq<char>, value: Seq<char>, line: Seq<char>)
    requires
        !key.contains('='),
        line == key + seq!['='] + value,
    ensures
        split_once(line, '=') == Some((key, value)),
{
    crate::text::lemma_find(line, '=');
    let n = crate::text::find(line, '=') as int;
    assert(line[key.len() as int] == '=');
    if n < key.len() {
        assert(key[n] == line[n]);
        assert(key.contains('='));
    }
    assert(line.take(n) =~= key);
    assert(line.skip(n + 1) =~= value);
}

/// A line that an entry for the key replaces defines nothing but that key.
proof fn lemma_replaced_line(line: Seq<char>, key: Seq<char>)
    requires
        plain_key(key),
        replaces(line, key),
    ensures
        line_entry(line) matches Some(e) && e.0 == key,
{
    reveal_strlit("=");
    assert("="@ =~= seq!['=']);
    let l = trim(line);
    let rest = l.skip(key.len() as int + 1);
    assert(l =~= key + seq!['='] + rest);
    assert(l[0] == key[0]);
    lemma_first_equals(key, rest, l);
}

proof fn lemma_replaced_at(ls: Seq<Seq<char>>, key: Seq<char>)
    ensures
        replaced_at(ls, key) <= ls.len(),
        replaced_at(ls, key) < ls.len() ==> replaces(ls[replaced_at(ls, key) as int], key),
    decreases ls.len(),
{
    if ls.len() > 0 && !replaces(ls[0], key) {
        lemma_replaced_at(ls.drop_first(), key);
    }
}

/// The key of what a line defines.
spec fn names(line: Seq<char>, key: Seq<char>) -> bool {
    line_entry(line) matches Some(e) && e.0 == key
}

proof fn lemma_last_counts(ls: Seq<Seq<char>>, i: int, key: Seq<char>)
    requires
        0 <= i < ls.len(),
        names(ls[i], key),
        forall|j: int| i < j < ls.len() ==> !names(#[trigger] ls[j], key),
    ensures
        defined(line_entries(ls)).dom().contains(key),
        defined(line_entries(ls))[key] == line_entry(ls[i]).unwrap().1,
    decreases ls.len(),
{
    let front = ls.drop_last();
    if i < front.len() {
        assert(!names(ls[ls.len() - 1], key));
        assert(front[i] == ls[i]);
        lemma_last_counts(front, i, key);
    }
    if let Some(e) = line_entry(ls.last()) {
        assert(line_entries(ls).drop_last() =~= line_entries(front));
    }
}

proof fn lemma_last_line(ls: Seq<Seq<char>>)
    requires
        ls.len() > 0,
    ensures
        defined(line_entries(ls)) == (match line_entry(ls.last()) {
            Some(e) => defined(line_entries(ls.drop_last())).insert(e.0, e.1),
            None => defined(line_entries(ls.drop_last())),
        }),
{
    if line_entry(ls.last()) is Some {
        assert(line_entries(ls).drop_last() =~= line_entries(ls.drop_last()));
    }
}

proof fn lemma_others_kept(a: Seq<Seq<char>>, b: Seq<Seq<char>>, i: int, key: Seq<char>)
    requires
        a.len() == b.len(),
        0 <= i < a.len(),
        forall|j: int| 0 <= j < a.len() && j != i ==> #[trigger] a[j] == b[j],
        names(a[i], key),
        names(b[i], key),
    ensures
        forall|k: Seq<char>|
            k != key ==> (#[trigger] defined(line_entries(a)).dom().contains(k) == defined(
                line_entries(b),
            ).dom().contains(k)) && (defined(line_entries(a)).dom().contains(k) ==> defined(
                line_entries(a),
            )[k] == defined(line_entries(b))[k]),
    decreases a.len(),
{
    let (fa, fb) = (a.drop_last(), b.drop_last());
    lemma_last_line(a);
    lemma_last_line(b);
    let (da, db) = (defined(line_entries(a)), defined(line_entries(b)));
    let (pa, pb) = (defined(line_entries(fa)), defined(line_entries(fb)));
    if i < fa.len() {
        assert forall|j: int| 0 <= j < fa.len() && j != i implies #[trigger] fa[j] == fb[j] by {
            assert(a[j] == b[j]);
        }
        assert(a[a.len() - 1] == b[b.len() - 1]);
        lemma_others_kept(fa, fb, i, key);
        assert forall|k: Seq<char>| k != key implies (#[trigger] da.dom().contains(k)
            == db.dom().contains(k)) && (da.dom().contains(k) ==> da[k] == db[k]) by {
            assert(pa.dom().contains(k) == pb.dom().contains(k));
        }
    } else {
        assert forall|j: int| 0 <= j < fa.len() implies fa[j] == fb[j] by {
            assert(a[j] == b[j]);
        }
        assert(fa =~= fb);
        assert(a.last() == a[i] && b.last() == b[i]);
    }
}

proof fn lemma_entries_cons(a: Seq<char>, t: Seq<Seq<char>>)
    ensures
        line_entries(seq![a] + t) == line_entries(seq![a]) + line_entries(t),
    decreases t.len(),
{
    let all = seq![a] + t;
    if t.len() == 0 {
        assert(all =~= seq![a]);
        assert(line_entries(seq![a]) + line_entries(t) =~= line_entries(seq![a]));
    } else {
        assert(all.drop_last() =~= seq![a] + t.drop_last());
        assert(all.last() == t.last());
        lemma_entries_cons(a, t.drop_last());
        if let Some(e) = line_entry(t.last()) {
            assert(line_entries(seq![a]) + line_entries(t.drop_last()).push(e) =~= (line_entries(
                seq![a],
            ) + line_entries(t.drop_last())).push(e));
        }
    }
}

proof fn lemma_return_does_not_matter(line: Seq<char>)
    ensures
        line_entry(crate::text::chop_return(line)) == line_entry(line),
        line_entries(seq![crate::text::chop_return(line)]) == line_entries(seq![line]),
{
    if line.len() > 0 && line.last() == '\r' {
        crate::text::lemma_trim_drop_last(line);
    }
    let (x, y) = (seq![crate::text::chop_return(line)], seq![line]);
    assert(x.drop_last() =~= y.drop_last());
}

/// What is written line by line is read line by line.
proof fn lemma_text_of_lines(ls: Seq<Seq<char>>)
    requires
        forall|i: int| 0 <= i < ls.len() ==> !(#[trigger] ls[i]).contains('\n'),
    ensures
        line_entries(lines(lines_text(ls))) == line_entries(ls),
    decreases ls.len(),
{
    reveal_strlit("\n");
    assert("\n"@ =~= seq!['\n']);
    let none = Seq::<char>::empty();
    assert(lines(none) =~= Seq::<Seq<char>>::empty());
    if ls.len() == 0 {
        let text = join(ls, "\n"@);
        assert(text =~= none);
        assert(lines_text(ls) =~= none + seq!['\n'] + none);
        crate::text::lemma_lines_cons(none, none);
        assert(crate::text::chop_return(none) == none);
        let one = seq![none];
        assert(seq![none] + Seq::<Seq<char>>::empty() =~= one);
        assert(one.drop_last() =~= Seq::<Seq<char>>::empty());
        assert(trim(none) =~= none);
        assert(line_entry(one.last()) is None);
        assert(line_entries(one.drop_last()) =~= Seq::<(Seq<char>, Seq<char>)>::empty());
        assert(line_entries(ls) =~= Seq::<(Seq<char>, Seq<char>)>::empty());
    } else {
        let a = ls[0];
        let t = ls.drop_first();
        assert(ls =~= seq![a] + t);
        assert(!a.contains('\n'));
        assert forall|i: int| 0 <= i < t.len() implies !(#[trigger] t[i]).contains('\n') by {
            assert(t[i] == ls[i + 1]);
        }
        lemma_return_does_not_matter(a);
        lemma_entries_cons(crate::text::chop_return(a), Seq::<Seq<char>>::empty());
        if t.len() == 0 {
            assert(join(ls, "\n"@) == a);
            if a.len() > 0 && a.last() == '\n' {
                assert(a[a.len() - 1] == '\n');
                assert(a.contains('\n'));
            }
            assert(lines_text(ls) =~= a + seq!['\n'] + none);
            crate::text::lemma_lines_cons(a, none);
            assert(seq![crate::text::chop_return(a)] + Seq::<Seq<char>>::empty() =~= seq![
                crate::text::chop_return(a),
            ]);
            assert(ls =~= seq![a]);
        } else {
            crate::text::lemma_join_cons(a, t, "\n"@);
            let tail = join(t, "\n"@);
            let text = join(ls, "\n"@);
            assert(text == a + seq!['\n'] + tail);
            lemma_text_of_lines(t);
            if tail.len() == 0 {
                assert(text.last() == '\n');
                assert(lines_text(ls) =~= a + seq!['\n'] + none);
                crate::text::lemma_lines_cons(a, none);
                lemma_blank_tail(t);
                lemma_entries_cons(crate::text::chop_return(a), lines(none));
            } else {
                assert(text.last() == tail.last());
                assert(lines_text(ls) =~= a + seq!['\n'] + lines_text(t));
                crate::text::lemma_lines_cons(a, lines_text(t));
                lemma_entries_cons(crate::text::chop_return(a), lines(lines_text(t)));
            }
            lemma_entries_cons(a, t);
        }
    }
}

/// Lines whose text is empty define nothing.
proof fn lemma_blank_tail(t: Seq<Seq<char>>)
    requires
        t.len() > 0,
        join(t, "\n"@).len() == 0,
    ensures
        line_entries(t) == Seq::<(Seq<char>, Seq<char>)>::empty(),
{
    reveal_strlit("\n");
    if t.len() > 1 {
        assert((join(t.drop_last(), "\n"@) + "\n"@ + t.last()).len() > 0);
    }
    assert(t.drop_last() =~= Seq::<Seq<char>>::empty());
    assert(t.last() =~= Seq::<char>::empty());
    assert(trim(t.last()) =~= Seq::<char>::empty());
    assert(line_entry(t.last()) is None);
    assert(line_entries(t.drop_last()) =~= Seq::<(Seq<char>, Seq<char>)>::empty());
}

/// No line behind the one that an entry for the key replaces defines the key.
pub open spec fn defines_last(ls: Seq<Seq<char>>, key: Seq<char>) -> bool {
    forall|j: int|
        replaced_at(ls, key) < j < ls.len() ==> !(line_entry(#[trigger] ls[j]) matches Some(e)
            && e.0 == key)
}

proof fn lemma_first_replaced(ls: Seq<Seq<char>>, key: Seq<char>)
    ensures
        forall|j: int| 0 <= j < replaced_at(ls, key) ==> !replaces(#[trigger] ls[j], key),
    decreases ls.len(),
{
    if ls.len() > 0 && !replaces(ls[0], key) {
        lemma_first_replaced(ls.drop_first(), key);
        lemma_replaced_at(ls.drop_first(), key);
        assert forall|j: int| 0 <= j < replaced_at(ls, key) implies !replaces(
            #[trigger] ls[j],
            key,
        ) by {
            if j > 0 {
                assert(ls.drop_first()[j - 1] == ls[j]);
            }
        }
    }
}

proof fn lemma_replaced_first(ls: Seq<Seq<char>>, key: Seq<char>, i: int)
    requires
        0 <= i <= ls.len(),
        i < ls.len() ==> replaces(ls[i], key),
        forall|j: int| 0 <= j < i ==> !replaces(#[trigger] ls[j], key),
    ensures
        replaced_at(ls, key) == i,
{
    lemma_replaced_at(ls, key);
    lemma_first_replaced(ls, key);
    let p = replaced_at(ls, key) as int;
    if p < i {
        assert(replaces(ls[p], key));
    } else if i < p {
        assert(!replaces(ls[i], key));
    }
}

/// Setting one line defines its key and leaves the other definitions as they were.
proof fn lemma_line_set(ls: Seq<Seq<char>>, key: Seq<char>, value: Seq<char>)
    requires
        plain_key(key),
        plain_value(value),
        defines_last(ls, key),
    ensures
        defined(line_entries(with_line(ls, key, value))).dom().contains(key),
        defined(line_entries(with_line(ls, key, value)))[key] == value,
        forall|k: Seq<char>|
            k != key ==> (#[trigger] defined(line_entries(with_line(ls, key, value))).dom().contains(
                k,
            ) == defined(line_entries(ls)).dom().contains(k)) && (defined(
                line_entries(with_line(ls, key, value)),
            ).dom().contains(k) ==> defined(line_entries(with_line(ls, key, value)))[k] == defined(
                line_entries(ls),
            )[k]),
        forall|k: Seq<char>|
            plain_key(k) && k != key && defines_last(ls, k) ==> #[trigger] defines_last(
                with_line(ls, key, value),
                k,
            ),
{
    let after = with_line(ls, key, value);
    let i = replaced_at(ls, key) as int;
    lemma_written_line(key, value);
    lemma_replaced_at(ls, key);
    assert(names(after[i], key));
    assert forall|j: int| i < j < after.len() implies !names(#[trigger] after[j], key) by {
        assert(after[j] == ls[j]);
    }
    lemma_last_counts(after, i, key);
    if i < ls.len() {
        lemma_replaced_line(ls[i], key);
        lemma_others_kept(after, ls, i, key);
    } else {
        assert(after.drop_last() =~= ls);
        assert(line_entries(after).drop_last() =~= line_entries(ls));
    }
    assert forall|k: Seq<char>|
        plain_key(k) && k != key && defines_last(ls, k) implies #[trigger] defines_last(
        after,
        k,
    ) by {
        let p = replaced_at(ls, k) as int;
        lemma_replaced_at(ls, k);
        lemma_first_replaced(ls, k);
        if replaces(after[i], k) {
            lemma_replaced_line(after[i], k);
        }
        if i < ls.len() && replaces(ls[i], k) {
            lemma_replaced_line(ls[i], k);
            lemma_replaced_line(ls[i], key);
        }
        let q = if p < ls.len() {
            p
        } else {
            after.len() as int
        };
        assert forall|j: int| 0 <= j < q implies !replaces(#[trigger] after[j], k) by {
            if j != i {
                assert(after[j] == ls[j]);
            }
        }
        lemma_replaced_first(after, k, q);
        assert forall|j: int| q < j < after.len() implies !names(#[trigger] after[j], k) by {
            if j != i {
                assert(after[j] == ls[j]);
            }
        }
    }
}

/// The keys of some entries are different.
pub open spec fn distinct_keys(entries: Seq<(Seq<char>, Seq<char>)>) -> bool {
    forall|i: int, j: int|
        0 <= i < j < entries.len() ==> (#[trigger] entries[i]).0 != (#[trigger] entries[j]).0
}

/// Entries that can be merged into some lines and read back.
pub open spec fn readable_entries(
    ls: Seq<Seq<char>>,
    entries: Seq<(Seq<char>, Seq<char>)>,
) -> bool {
    &&& distinct_keys(entries)
    &&& forall|i: int|
        0 <= i < entries.len() ==> plain_key((#[trigger] entries[i]).0) && plain_value(
            entries[i].1,
        ) && defines_last(ls, entries[i].0)
}

proof fn lemma_lines_set(ls: Seq<Seq<char>>, entries: Seq<(Seq<char>, Seq<char>)>)
    requires
        readable_entries(ls, entries),
    ensures
        ({
            let before = defined(line_entries(ls));
            let after = defined(line_entries(with_lines(ls, entries)));
            &&& forall|i: int|
                0 <= i < entries.len() ==> after.dom().contains((#[trigger] entries[i]).0)
                    && after[entries[i].0] == entries[i].1
            &&& forall|k: Seq<char>|
                !defines(entries, k) ==> (#[trigger] after.dom().contains(k)
                    == before.dom().contains(k)) && (after.dom().contains(k) ==> after[k]
                    == before[k])
        }),
        forall|k: Seq<char>|
            plain_key(k) && !defines(entries, k) && defines_last(ls, k) ==> #[trigger] defines_last(
                with_lines(ls, entries),
                k,
            ),
        (forall|i: int| 0 <= i < ls.len() ==> !(#[trigger] ls[i]).contains('\n')) ==> forall|i: int|
            0 <= i < with_lines(ls, entries).len() ==> !(#[trigger] with_lines(
                ls,
                entries,
            )[i]).contains('\n'),
    decreases entries.len(),
{
    if entries.len() > 0 {
        let front = entries.drop_last();
        let (key, value) = entries.last();
        let mid = with_lines(ls, front);
        assert forall|i: int| 0 <= i < front.len() implies plain_key((#[trigger] front[i]).0)
            && plain_value(front[i].1) && defines_last(ls, front[i].0) by {
            assert(front[i] == entries[i]);
        }
        assert(distinct_keys(front));
        lemma_lines_set(ls, front);
        assert(entries[entries.len() - 1] == entries.last());
        assert(plain_key(key) && plain_value(value) && defines_last(ls, key));
        assert forall|j: int| 0 <= j < front.len() implies (#[trigger] front[j]).0 != key by {
            assert(front[j] == entries[j]);
            assert(entries[j].0 != entries[entries.len() - 1].0);
        }
        assert(!defines(front, key));
        lemma_line_set(mid, key, value);
        lemma_written_line(key, value);
        lemma_replaced_at(mid, key);
        let after = defined(line_entries(with_lines(ls, entries)));
        let between = defined(line_entries(mid));
        assert forall|i: int| 0 <= i < entries.len() implies after.dom().contains(
            (#[trigger] entries[i]).0,
        ) && after[entries[i].0] == entries[i].1 by {
            if i < front.len() {
                assert(front[i] == entries[i]);
                assert(between.dom().contains(front[i].0));
            }
        }
        assert forall|k: Seq<char>| !defines(entries, k) implies !#[trigger] defines(front, k)
            && k != key by {
            if defines(front, k) {
                let j = choose|j: int| 0 <= j < front.len() && (#[trigger] front[j]).0 == k;
                assert(entries[j].0 == k);
            }
        }
        assert forall|k: Seq<char>| !defines(entries, k) implies (#[trigger] after.dom().contains(k)
            == defined(line_entries(ls)).dom().contains(k)) && (after.dom().contains(k) ==> after[k]
            == defined(line_entries(ls))[k]) by {
            assert(!defines(front, k));
            assert(between.dom().contains(k) == defined(line_entries(ls)).dom().contains(k));
        }
        assert forall|k: Seq<char>|
            plain_key(k) && !defines(entries, k) && defines_last(ls, k) implies #[trigger] defines_last(
            with_lines(ls, entries),
            k,
        ) by {
            assert(!defines(front, k));
            assert(defines_last(mid, k));
        }
    }
}

/// Values that were written are read back, and the other definitions stay as they were.
/// Left out is a file that defines one of the keys again behind the line that is replaced:
/// there the later line counts.
pub proof fn law_env_values_are_read_back(
    existing: Seq<char>,
    entries: Seq<(Seq<char>, Seq<char>)>,
)
    requires
        readable_entries(lines(existing), entries),
    ensures
        ({
            let before = env_map(existing);
            let after = env_map(lines_text(with_lines(lines(existing), entries)));
            &&& forall|i: int|
                0 <= i < entries.len() ==> after.dom().contains((#[trigger] entries[i]).0)
                    && after[entries[i].0] == entries[i].1
            &&& forall|k: Seq<char>|
                !defines(entries, k) ==> (#[trigger] after.dom().contains(k)
                    == before.dom().contains(k)) && (after.dom().contains(k) ==> after[k]
                    == before[k])
        }),
{
    lemma_lines_without_feed(existing);
    lemma_lines_set(lines(existing), entries);
    lemma_text_of_lines(with_lines(lines(existing), entries));
}

proof fn lemma_lines_without_feed(s: Seq<char>)
    ensures
        forall|i: int| 0 <= i < lines(s).len() ==> !(#[trigger] lines(s)[i]).contains('\n'),
    decreases s.len(),
{
    if s.len() > 0 {
        crate::text::lemma_find(s, '\n');
        let n = crate::text::find(s, '\n') as int;
        if n < s.len() {
            let rest = s.skip(n + 1);
            lemma_lines_without_feed(rest);
            let head = crate::text::chop_return(s.take(n));
            assert forall|j: int| 0 <= j < head.len() implies head[j] != '\n' by {
                assert(head[j] == s[j]);
            }
            assert(lines(s) == seq![head] + lines(rest));
            assert forall|i: int| 0 <= i < lines(s).len() implies !(#[trigger] lines(
                s,
            )[i]).contains('\n') by {
                if i > 0 {
                    assert(lines(s)[i] == lines(rest)[i - 1]);
                } else {
                    assert(lines(s)[i] == head);
                }
            }
        } else {
            assert(lines(s) == seq![s]);
            assert forall|j: int| 0 <= j < s.len() implies s[j] != '\n' by {}
        }
    }
}

/// The value of the first definition for a key.
pub open spec fn first_value(entries: Seq<(Seq<char>, Seq<char>)>, key: Seq<char>) -> Option<
    Seq<char>,
>
    decreases entries.len(),
{
    if entries.len() == 0 {
        None
    } else {
        match first_value(entries.drop_last(), key) {
            Some(v) => Some(v),
            None => if entries.last().0 == key {
                Some(entries.last().1)
            } else {
                None
            },
        }
    }
}

proof fn lemma_first_value(entries: Seq<(Seq<char>, Seq<char>)>, key: Seq<char>)
    ensures
        first_value(entries, key) is Some == defines(entries, key),
        first_value(entries, key) matches Some(v) ==> exists|i: int|
            0 <= i < entries.len() && #[trigger] entries[i] == (key, v),
    decreases entries.len(),
{
    if entries.len() > 0 {
        let front = entries.drop_last();
        lemma_first_value(front, key);
        assert(entries[entries.len() - 1] == entries.last());
        if let Some(v) = first_value(front, key) {
            let i = choose|i: int| 0 <= i < front.len() && #[trigger] front[i] == (key, v);
            assert(entries[i] == (key, v));
        }
        if defines(entries, key) {
            let i = choose|i: int| 0 <= i < entries.len() && (#[trigger] entries[i]).0 == key;
            if i < front.len() {
                assert(front[i].0 == key);
            }
        }
    }
}

/// A process takes over the first definition for each name that it does not have yet.
pub proof fn law_first_definition_is_taken(
    entries: Seq<(Seq<char>, Seq<char>)>,
    present: Seq<Seq<char>>,
    key: Seq<char>,
)
    ensures
        first_value(to_set(entries, present), key) == (if present.contains(key) {
            None
        } else {
            first_value(entries, key)
        }),
    decreases entries.len(),
{
    if entries.len() > 0 {
        let front = entries.drop_last();
        law_first_definition_is_taken(front, present, key);
        let taken = to_set(front, present);
        lemma_first_value(taken, key);
        lemma_first_value(taken, entries.last().0);
        assert(taken.push(entries.last()).drop_last() =~= taken);
    }
}

/// Whether a line defines nothing else for a key than a value.
pub open spec fn agrees(line: Seq<char>, key: Seq<char>, value: Seq<char>) -> bool {
    match line_entry(line) {
        Some(e) => e.0 == key ==> e.1 == value,
        None => true,
    }
}

proof fn lemma_first_counts(ls: Seq<Seq<char>>, i: int, key: Seq<char>, value: Seq<char>)
    requires
        0 <= i < ls.len(),
        line_entry(ls[i]) == Some((key, value)),
        forall|j: int|
            0 <= j < i ==> agrees(#[trigger] ls[j], key, value),
    ensures
        first_value(line_entries(ls), key) == Some(value),
    decreases ls.len(),
{
    let front = ls.drop_last();
    lemma_first_line(ls, key);
    if i < front.len() {
        assert(front[i] == ls[i]);
        lemma_first_counts(front, i, key, value);
    } else {
        lemma_first_of_lines(front, key);
        if let Some(v) = first_value(line_entries(front), key) {
            let j = choose|j: int|
                0 <= j < front.len() && line_entry(#[trigger] front[j]) == Some((key, v));
            assert(ls[j] == front[j]);
        }
    }
}

proof fn lemma_first_line(ls: Seq<Seq<char>>, key: Seq<char>)
    requires
        ls.len() > 0,
    ensures
        first_value(line_entries(ls), key) == (match first_value(
            line_entries(ls.drop_last()),
            key,
        ) {
            Some(v) => Some(v),
            None => match line_entry(ls.last()) {
                Some(e) => if e.0 == key {
                    Some(e.1)
                } else {
                    None
                },
                None => None,
            },
        }),
{
    if line_entry(ls.last()) is Some {
        assert(line_entries(ls).drop_last() =~= line_entries(ls.drop_last()));
    }
}

proof fn lemma_first_of_lines(ls: Seq<Seq<char>>, key: Seq<char>)
    ensures
        first_value(line_entries(ls), key) matches Some(v) ==> exists|j: int|
            0 <= j < ls.len() && line_entry(#[trigger] ls[j]) == Some((key, v)),
    decreases ls.len(),
{
    if ls.len() > 0 {
        let front = ls.drop_last();
        lemma_first_line(ls, key);
        lemma_first_of_lines(front, key);
        assert(ls[ls.len() - 1] == ls.last());
        if let Some(v) = first_value(line_entries(front), key) {
            let j = choose|j: int|
                0 <= j < front.len() && line_entry(#[trigger] front[j]) == Some((key, v));
            assert(ls[j] == front[j]);
        }
    }
}

proof fn lemma_first_of_others(
    a: Seq<Seq<char>>,
    b: Seq<Seq<char>>,
    i: int,
    key: Seq<char>,
    other: Seq<char>,
)
    requires
        a.len() == b.len(),
        0 <= i < a.len(),
        forall|j: int| 0 <= j < a.len() && j != i ==> #[trigger] a[j] == b[j],
        names(a[i], key),
        names(b[i], key),
        other != key,
    ensures
        first_value(line_entries(a), other) == first_value(line_entries(b), other),
    decreases a.len(),
{
    let (fa, fb) = (a.drop_last(), b.drop_last());
    lemma_first_line(a, other);
    lemma_first_line(b, other);
    if i < fa.len() {
        assert forall|j: int| 0 <= j < fa.len() && j != i implies #[trigger] fa[j] == fb[j] by {
            assert(a[j] == b[j]);
        }
        assert(a[a.len() - 1] == b[b.len() - 1]);
        lemma_first_of_others(fa, fb, i, key, other);
    } else {
        assert forall|j: int| 0 <= j < fa.len() implies fa[j] == fb[j] by {
            assert(a[j] == b[j]);
        }
        assert(fa =~= fb);
        assert(a.last() == a[i] && b.last() == b[i]);
    }
}

/// No line before the one that an entry for the key replaces defines the key otherwise.
pub open spec fn defines_first(ls: Seq<Seq<char>>, key: Seq<char>, value: Seq<char>) -> bool {
    forall|j: int|
        0 <= j < replaced_at(ls, key) ==> agrees(#[trigger] ls[j], key, value)
}

proof fn lemma_first_set(
    ls: Seq<Seq<char>>,
    key: Seq<char>,
    value: Seq<char>,
    other: Seq<char>,
    other_value: Seq<char>,
)
    requires
        plain_key(key),
        plain_value(value),
        plain_key(other),
        other != key,
    ensures
        defines_first(ls, key, value) ==> first_value(
            line_entries(with_line(ls, key, value)),
            key,
        ) == Some(value),
        first_value(line_entries(with_line(ls, key, value)), other) == first_value(
            line_entries(ls),
            other,
        ),
        defines_first(ls, other, other_value) ==> defines_first(
            with_line(ls, key, value),
            other,
            other_value,
        ),
{
    let after = with_line(ls, key, value);
    let i = replaced_at(ls, key) as int;
    lemma_written_line(key, value);
    lemma_replaced_at(ls, key);
    assert(line_entry(after[i]) == Some((key, value)));
    if defines_first(ls, key, value) {
        assert forall|j: int| 0 <= j < i implies agrees(#[trigger] after[j], key, value) by {
            assert(after[j] == ls[j]);
        }
        lemma_first_counts(after, i, key, value);
    }
    if i < ls.len() {
        lemma_replaced_line(ls[i], key);
        lemma_first_of_others(after, ls, i, key, other);
    } else {
        assert(after.drop_last() =~= ls);
        lemma_first_line(after, other);
    }
    if defines_first(ls, other, other_value) {
        let p = replaced_at(ls, other) as int;
        lemma_replaced_at(ls, other);
        lemma_first_replaced(ls, other);
        if replaces(after[i], other) {
            lemma_replaced_line(after[i], other);
        }
        if i < ls.len() && replaces(ls[i], other) {
            lemma_replaced_line(ls[i], other);
            lemma_replaced_line(ls[i], key);
        }
        let q = if p < ls.len() {
            p
        } else {
            after.len() as int
        };
        assert forall|j: int| 0 <= j < q implies !replaces(#[trigger] after[j], other) by {
            if j != i {
                assert(after[j] == ls[j]);
            }
        }
        lemma_replaced_first(after, other, q);
        assert forall|j: int| 0 <= j < q implies agrees(
            #[trigger] after[j],
            other,
            other_value,
        ) by {
            if j != i {
                assert(after[j] == ls[j]);
            }
        }
    }
}

/// Two values that were written are taken over by a process that starts without them. Left
/// out is a file that defines one of the keys otherwise before the line that is replaced:
/// there the earlier line counts.
pub proof fn law_written_values_are_taken(
    existing: Seq<char>,
    a: (Seq<char>, Seq<char>),
    b: (Seq<char>, Seq<char>),
    present: Seq<Seq<char>>,
)
    requires
        plain_key(a.0),
        plain_value(a.1),
        plain_key(b.0),
        plain_value(b.1),
        a.0 != b.0,
        defines_first(lines(existing), a.0, a.1),
        defines_first(lines(existing), b.0, b.1),
        !present.contains(a.0),
        !present.contains(b.0),
    ensures
        ({
            let written = lines_text(with_lines(lines(existing), seq![a, b]));
            let taken = to_set(line_entries(lines(written)), present);
            first_value(taken, a.0) == Some(a.1) && first_value(taken, b.0) == Some(b.1)
        }),
{
    let ls = lines(existing);
    let one = with_line(ls, a.0, a.1);
    let both = with_line(one, b.0, b.1);
    let entries = seq![a, b];
    assert(entries.drop_last() =~= seq![a]);
    assert(seq![a].drop_last() =~= Seq::<(Seq<char>, Seq<char>)>::empty());
    reveal_with_fuel(with_lines, 3);
    assert(with_lines(ls, entries) == both);
    lemma_first_set(ls, a.0, a.1, b.0, b.1);
    lemma_first_set(one, b.0, b.1, a.0, a.1);
    lemma_lines_without_feed(existing);
    lemma_written_line(a.0, a.1);
    lemma_written_line(b.0, b.1);
    lemma_replaced_at(ls, a.0);
    lemma_replaced_at(one, b.0);
    assert forall|i: int| 0 <= i < one.len() implies !(#[trigger] one[i]).contains('\n') by {
        if i != replaced_at(ls, a.0) {
            assert(one[i] == ls[i]);
        }
    }
    assert forall|i: int| 0 <= i < both.len() implies !(#[trigger] both[i]).contains('\n') by {
        if i != replaced_at(one, b.0) {
            assert(both[i] == one[i]);
        }
    }
    lemma_text_of_lines(both);
    law_first_definition_is_taken(line_entries(both), present, a.0);
    law_first_definition_is_taken(line_entries(both), present, b.0);
}

} // verus!
