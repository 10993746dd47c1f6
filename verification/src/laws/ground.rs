//! Texts, numbers, clocks, certificates and requests: what everything else stands on.
use crate::clock::{millis_in, seconds_in};
use crate::command_registry::registration;
use crate::conduct::{by_time, insert_by_time, not_after, CommendationRecordView, Timestamp};
use crate::credentials::{public_settings, unknown_keys, with_settings};
use crate::env_file::line_entry;
use crate::json::{member, JsonView};
use crate::keymap::{held, means, KeyCode, KeyEvent};
use crate::proto::{CommandsView, TimelineEventView};
use crate::random::{digit_count, following, pow10, seed_of, tail_digits};
use crate::text::{
    all_digits, decimal, decimal_int, digits_value, dir_of, find, is_white, join, last_slash,
    lemma_find, path_body, path_in, split_on, split_once, trim, trim_end, trim_start, u32_of,
    unquote, unquote_end, unquote_start,
};
use crate::timeline_database::event_error;
use crate::tls::{cert_in, found_cert, found_key, key_in, pem_cert, pem_key, KeyForm};
use crate::user_db_client::{Exchange, UserDbClient, UserDbOp, UserDbOpView, UserDbResponse};
use vstd::prelude::*;

verus! {

/// Whether a text is nothing but white space.
pub open spec fn all_white(s: Seq<char>) -> bool {
    forall|i: int| 0 <= i < s.len() ==> is_white(#[trigger] s[i])
}

proof fn lemma_trim_start_parts(s: Seq<char>) -> (a: Seq<char>)
    ensures
        all_white(a),
        s == a + trim_start(s),
        trim_start(s).len() > 0 ==> !is_white(trim_start(s)[0]),
    decreases s.len(),
{
    if s.len() > 0 && is_white(s[0]) {
        let rest = lemma_trim_start_parts(s.drop_first());
        let a = seq![s[0]] + rest;
        assert forall|i: int| 0 <= i < a.len() implies is_white(#[trigger] a[i]) by {
            if i > 0 {
                assert(a[i] == rest[i - 1]);
            }
        }
        assert(s.drop_first() == rest + trim_start(s));
        assert(s =~= seq![s[0]] + s.drop_first());
        assert(s =~= a + trim_start(s));
        a
    } else {
        assert(s =~= Seq::<char>::empty() + s);
        Seq::empty()
    }
}

proof fn lemma_trim_end_parts(s: Seq<char>) -> (b: Seq<char>)
    ensures
        all_white(b),
        s == trim_end(s) + b,
        trim_end(s).len() > 0 ==> !is_white(trim_end(s).last()) && trim_end(s)[0] == s[0],
    decreases s.len(),
{
    if s.len() > 0 && is_white(s.last()) {
        let rest = lemma_trim_end_parts(s.drop_last());
        let b = rest.push(s.last());
        assert forall|i: int| 0 <= i < b.len() implies is_white(#[trigger] b[i]) by {
            if i < rest.len() {
                assert(b[i] == rest[i]);
            }
        }
        assert(s.drop_last() == trim_end(s) + rest);
        assert(s =~= s.drop_last().push(s.last()));
        assert(s =~= trim_end(s) + b);
        b
    } else {
        assert(s =~= s + Seq::<char>::empty());
        Seq::empty()
    }
}

/// Trimming takes white space off both ends, all of it, and nothing else.
pub proof fn law_trimming_takes_off_white_space(s: Seq<char>)
    ensures
        exists|a: Seq<char>, b: Seq<char>|
            #![trigger a + trim(s) + b]
            all_white(a) && all_white(b) && s == a + trim(s) + b,
        trim(s).len() > 0 ==> !is_white(trim(s)[0]) && !is_white(trim(s).last()),
{
    let a = lemma_trim_start_parts(s);
    let b = lemma_trim_end_parts(trim_start(s));
    assert(s =~= a + trim(s) + b);
}

/// Blanks, tabs and line ends are white space; letters, digits and signs are not.
pub proof fn law_what_is_white_space(c: char)
    ensures
        is_white(' ') && is_white('\t') && is_white('\n') && is_white('\r'),
        '!' <= c <= '~' ==> !is_white(c),
{
}

proof fn lemma_join_front(a: Seq<char>, parts: Seq<Seq<char>>, sep: Seq<char>)
    requires
        parts.len() > 0,
    ensures
        join(seq![a] + parts, sep) == a + sep + join(parts, sep),
{
    crate::text::lemma_join_cons(a, parts, sep);
}

/// Splitting a text at a character loses nothing: joined again with it the pieces are the
/// text, and none of them holds it.
pub proof fn law_splitting_is_undone_by_joining(s: Seq<char>, c: char, i: int)
    ensures
        join(split_on(s, c), seq![c]) == s,
        split_on(s, c).len() > 0,
        0 <= i < split_on(s, c).len() ==> !split_on(s, c)[i].contains(c),
    decreases s.len(),
{
    let n = find(s, c) as int;
    lemma_find(s, c);
    if n < s.len() {
        let rest = s.skip(n + 1);
        law_splitting_is_undone_by_joining(rest, c, i - 1);
        lemma_join_front(s.take(n), split_on(rest, c), seq![c]);
        assert(s.take(n) + seq![c] + rest =~= s);
        assert(!s.take(n).contains(c)) by {
            if s.take(n).contains(c) {
                let j = choose|j: int| 0 <= j < n && s.take(n)[j] == c;
                assert(s[j] == c);
            }
        }
        if 0 < i < split_on(s, c).len() {
            assert(split_on(s, c)[i] == split_on(rest, c)[i - 1]);
        }
    } else {
        assert(join(seq![s], seq![c]) == s);
        if s.contains(c) {
            let j = choose|j: int| 0 <= j < s.len() && s[j] == c;
            assert(s[j] != c);
        }
    }
}

/// A text is cut in two at the first occurrence of a character, and not at all where it
/// does not hold it.
pub proof fn law_cutting_in_two(a: Seq<char>, b: Seq<char>, c: char)
    ensures
        !a.contains(c) ==> split_once(a + seq![c] + b, c) == Some((a, b)),
        !a.contains(c) ==> split_once(a, c) is None,
{
    if !a.contains(c) {
        let s = a + seq![c] + b;
        lemma_find(s, c);
        let n = find(s, c) as int;
        assert(s[a.len() as int] == c);
        if n < a.len() {
            assert(a[n] == s[n]);
        }
        assert(s.take(n) =~= a);
        assert(s.skip(n + 1) =~= b);
        lemma_find(a, c);
        if find(a, c) < a.len() {
            assert(a.contains(a[find(a, c) as int]));
        }
    }
}

/// A number is written in digits that say the number again, with a minus in front where it
/// is negative.
pub proof fn law_numbers_are_written_in_digits(n: int)
    ensures
        n >= 0 ==> all_digits(decimal_int(n)) && digits_value(decimal_int(n)) == n,
        n < 0 ==> decimal_int(n)[0] == '-' && all_digits(decimal_int(n).skip(1)) && digits_value(
            decimal_int(n).skip(1),
        ) == -n,
{
    if n >= 0 {
        crate::text::lemma_decimal(n as nat);
    } else {
        crate::text::lemma_decimal((-n) as nat);
        assert(decimal_int(n).skip(1) =~= decimal((-n) as nat));
    }
}

/// A file's path is its directory's, a slash and its name, and no second slash.
pub proof fn law_paths_are_put_together(dir: Seq<char>, name: Seq<char>)
    ensures
        dir.len() == 0 ==> path_in(dir, name) == name,
        dir.len() > 0 && dir.last() != '/' ==> path_in(dir, name) == dir + (seq!['/'] + name),
        dir.len() > 0 && dir.last() == '/' ==> path_in(dir, name) == dir + name,
{
    reveal_strlit("/");
    assert("/"@ =~= seq!['/']);
    assert(dir + "/"@ + name =~= dir + (seq!['/'] + name));
}

proof fn lemma_unquote_plain(v: Seq<char>)
    requires
        v.len() > 0 ==> v[0] != '"' && v.last() != '"',
    ensures
        unquote(seq!['"'] + v + seq!['"']) == v,
        unquote(v) == v,
{
    let q = seq!['"'] + v + seq!['"'];
    let r = v + seq!['"'];
    assert(q.drop_first() =~= r);
    if v.len() > 0 {
        assert(r[0] == v[0]);
        assert(unquote_start(r) == r);
        assert(unquote_start(q) == r);
        assert(r.last() == '"');
        assert(r.drop_last() =~= v);
        assert(unquote_end(v) == v);
        assert(unquote_end(r) == v);
    } else {
        assert(r =~= seq!['"']);
        assert(r.drop_first() =~= Seq::<char>::empty());
        assert(unquote_start(r.drop_first()) =~= Seq::<char>::empty());
        assert(unquote_start(r) =~= Seq::<char>::empty());
        assert(unquote_start(q) =~= Seq::<char>::empty());
        assert(v =~= Seq::<char>::empty());
    }
}

/// A line of an environment file defines a name where it has one before an equals sign: as
/// what stands behind it, without the quotation marks around it. A comment and a line
/// without an equals sign define nothing.
pub proof fn law_lines_define_names(k: Seq<char>, v: Seq<char>, text: Seq<char>)
    requires
        k.len() > 0,
        trim(k) == k,
        k[0] != '#',
        !k.contains('='),
        v.len() > 0,
        trim(v) == v,
        v[0] != '"',
        v.last() != '"',
    ensures
        line_entry(k + seq!['='] + v) == Some((k, v)),
        line_entry(k + seq!['='] + (seq!['"'] + v + seq!['"'])) == Some((k, v)),
        line_entry(seq!['#'] + text) is None,
        line_entry(k) is None,
{
    crate::text::lemma_trimmed_ends(k);
    crate::text::lemma_trimmed_ends(v);
    let q = seq!['"'] + v + seq!['"'];
    let a = k + seq!['='] + v;
    let b = k + seq!['='] + q;
    assert(a[0] == k[0] && a.last() == v.last());
    crate::text::lemma_trim_id(a);
    assert(b[0] == k[0] && b.last() == '"');
    crate::text::lemma_trim_id(b);
    law_cutting_in_two(k, v, '=');
    law_cutting_in_two(k, q, '=');
    assert(q[0] == '"' && q.last() == '"');
    crate::text::lemma_trim_id(q);
    lemma_unquote_plain(v);
    let c = seq!['#'] + text;
    assert(c[0] == '#');
    assert(trim_start(c) == c);
    let tail = lemma_trim_end_parts(c);
    if trim_end(c).len() > 0 {
        assert(trim(c)[0] == '#');
    }
}

/// A reading of the clock, in nanoseconds, gives the whole seconds and milliseconds in it;
/// one before the epoch gives none.
pub proof fn law_readings_of_the_clock(n: u128)
    requires
        n < 9_000_000_000_000_000_000,
    ensures
        seconds_in(Some(n)) * 1_000_000_000 <= n < (seconds_in(Some(n)) + 1) * 1_000_000_000,
        millis_in(Some(n)) * 1_000_000 <= n < (millis_in(Some(n)) + 1) * 1_000_000,
        seconds_in(None) == 0,
        millis_in(None) == 0,
{
}

/// The next random number follows from the last by one fixed rule, modulo two to the
/// thirty-second; the first comes from the clock.
pub proof fn law_random_numbers_follow(state: u32)
    ensures
        following(state) == (1103515245 * (state + 12345)) % 0x1_0000_0000,
        seed_of(None) == 621429,
{
    vstd::arithmetic::div_mod::lemma_mul_mod_noop_right(
        1103515245,
        state + 12345,
        0x1_0000_0000,
    );
}

/// What is left of a number without its first digits has no more than the rest of them, and
/// a number with no more digits than are dropped stays whole.
pub proof fn law_dropping_digits(n: u32, len: nat)
    ensures
        digit_count(n as nat) <= len ==> tail_digits(n, len) == n,
        digit_count(n as nat) > len ==> tail_digits(n, len) < pow10(
            (digit_count(n as nat) - len) as nat,
        ) && tail_digits(n, len) <= n,
{
    if digit_count(n as nat) > len {
        let p = pow10((digit_count(n as nat) - len) as nat);
        lemma_pow10((digit_count(n as nat) - len) as nat);
        assert(n as nat % p < p && n as nat % p <= n) by (nonlinear_arith)
            requires
                p > 0,
        ;
    }
}

proof fn lemma_pow10(n: nat)
    ensures
        pow10(n) > 0,
    decreases n,
{
    if n > 0 {
        lemma_pow10((n - 1) as nat);
    }
}

/// A certificate and a key are those in the file; a file that cannot be read, holds none or
/// holds something broken is named in the error, with the reason.
pub proof fn law_certificates_come_from_their_file(
    path: Seq<char>,
    pem: Seq<u8>,
    e: Seq<char>,
    der: Seq<u8>,
    form: KeyForm,
)
    ensures
        pem_cert(pem) == Some(Ok::<Seq<u8>, Seq<char>>(der)) ==> cert_in(path, Ok(pem)) == Ok::<
            Seq<u8>,
            Seq<char>,
        >(der),
        pem_cert(pem) is None ==> cert_in(path, Ok(pem)) == Err::<Seq<u8>, Seq<char>>(
            "no certificate in "@ + path,
        ),
        cert_in(path, Err(e)) == Err::<Seq<u8>, Seq<char>>("read cert "@ + (path + (": "@ + e))),
        found_cert(path, Some(Err(e))) == Err::<Seq<u8>, Seq<char>>(
            "parse cert "@ + (path + (": "@ + e)),
        ),
        pem_key(pem) == Ok::<Option<(KeyForm, Seq<u8>)>, Seq<char>>(Some((form, der))) ==> key_in(
            path,
            Ok(pem),
        ) == Ok::<(KeyForm, Seq<u8>), Seq<char>>((form, der)),
        found_key(path, Ok(None)) == Err::<(KeyForm, Seq<u8>), Seq<char>>(
            "no private key in "@ + path,
        ),
        key_in(path, Err(e)) == Err::<(KeyForm, Seq<u8>), Seq<char>>(
            "read key "@ + (path + (": "@ + e)),
        ),
        found_key(path, Err(e)) == Err::<(KeyForm, Seq<u8>), Seq<char>>(
            "parse key "@ + (path + (": "@ + e)),
        ),
{
    assert("read cert "@ + path + ": "@ + e =~= "read cert "@ + (path + (": "@ + e)));
    assert("parse cert "@ + path + ": "@ + e =~= "parse cert "@ + (path + (": "@ + e)));
    assert("read key "@ + path + ": "@ + e =~= "read key "@ + (path + (": "@ + e)));
    assert("parse key "@ + path + ": "@ + e =~= "parse key "@ + (path + (": "@ + e)));
}

/// A request to the user database comes to its answer where one came, and to an error with
/// the reason where none did; only then is its connection dropped.
pub proof fn law_requests_come_to_their_answer(
    client: &UserDbClient,
    exchange: Exchange,
    r: (Result<UserDbResponse, String>, bool),
)
    requires
        call_ensures(UserDbClient::request, (client, exchange), r),
    ensures
        exchange matches Exchange::Answered(a) ==> (r.0 matches Ok(b) && b@ == a@ && r.1),
        !(exchange is Answered) ==> r.0 is Err && !r.1,
        exchange matches Exchange::NotConnected(w) ==> r.0->Err_0@ == "UserDB connect failed: "@
            + w@,
        exchange matches Exchange::NotSent(w) ==> r.0->Err_0@ == "UserDB send failed: "@ + w@,
        exchange matches Exchange::Unreadable(w) ==> r.0->Err_0@ == w@,
        exchange matches Exchange::Broken(w) ==> r.0->Err_0@ == "UserDB recv error: "@ + w@,
        exchange is NotBinary ==> r.0->Err_0@ == "UserDB returned non-binary message"@,
        exchange is Closed ==> r.0->Err_0@ == "UserDB closed connection"@,
        exchange is TimedOut ==> r.0->Err_0@ == "UserDB request timed out"@,
{
}

/// The client asks what it is told to ask: to raise or to lower a score, to read, write or
/// remove a value, to set roles or to rate, each of the user that is named.
pub proof fn law_the_client_asks_what_it_is_told(
    client: &UserDbClient,
    id: &str,
    delta: i64,
    reason: &str,
    key: &str,
    value: &str,
    raise: UserDbOp,
    lower: UserDbOp,
    read: UserDbOp,
    write: UserDbOp,
    remove: UserDbOp,
    commend: UserDbOp,
)
    requires
        call_ensures(UserDbClient::add_score, (client, id, delta, reason), raise),
        call_ensures(UserDbClient::remove_score, (client, id, delta, reason), lower),
        call_ensures(UserDbClient::read_user_value, (client, id, key), read),
        call_ensures(UserDbClient::write_user_value, (client, id, key, value), write),
        call_ensures(UserDbClient::delete_user_value, (client, id, key), remove),
        call_ensures(UserDbClient::rate_user, (client, id, key, true, value, value, reason), commend),
    ensures
        raise@ is AddScore && raise@->AddScore_uuid7 == id@ && raise@->AddScore_delta == delta,
        lower@ is RemoveScore && lower@->RemoveScore_uuid7 == id@ && lower@->RemoveScore_delta
            == delta,
        read@ is ReadUserValue && read@->ReadUserValue_uuid7 == id@ && read@->ReadUserValue_key
            == key@,
        write@ is WriteUserValue && write@->WriteUserValue_uuid7 == id@
            && write@->WriteUserValue_key == key@ && write@->WriteUserValue_value == value@,
        remove@ is DeleteUserValue && remove@->DeleteUserValue_uuid7 == id@
            && remove@->DeleteUserValue_key == key@,
        commend@ is RateUser && commend@->giver_uuid7 == id@ && commend@->recipient_uuid7 == key@
            && commend@->is_commendation && commend@->RateUser_reason == reason@,
{
}

/// Of users, channels and roles the client asks what it is told too.
pub proof fn law_the_client_asks_about_users(
    client: &UserDbClient,
    id: &str,
    who: &str,
    role: &str,
    a: bool,
    b: bool,
    c: bool,
    d: bool,
    delete: UserDbOp,
    unlink: UserDbOp,
    find: UserDbOp,
    flags: UserDbOp,
    roles: UserDbOp,
    list: UserDbOp,
)
    requires
        call_ensures(UserDbClient::delete_user, (client, id, who, role), delete),
        call_ensures(UserDbClient::remove_channel, (client, id, who, role), unlink),
        call_ensures(UserDbClient::get_user, (client, id, who, role, who), find),
        call_ensures(UserDbClient::update_flags, (client, id, who), flags),
        call_ensures(UserDbClient::set_roles, (client, id, who, role, a, b, c, d), roles),
        call_ensures(UserDbClient::list_user_values, (client, id), list),
    ensures
        delete@ == (UserDbOpView::DeleteUser {
            uuid7: id@,
            actor_uuid7: who@,
            actor_role: role@,
        }),
        unlink@ == (UserDbOpView::RemoveChannel {
            uuid7: id@,
            platform: who@,
            channel_id: role@,
        }),
        find@ == (UserDbOpView::GetUser {
            uuid7: id@,
            platform: who@,
            channel_id: role@,
            handle: who@,
        }),
        flags@ == (UserDbOpView::UpdateFlags { uuid7: id@, flags: who@ }),
        roles@ is SetRoles && roles@->SetRoles_uuid7 == id@ && roles@->is_sponsor == a
            && roles@->is_moderator == b && roles@->is_admin == c && roles@->is_owner == d,
        list@ == (UserDbOpView::ListUserValues { uuid7: id@ }),
{
}

/// A registration holds the commands that a module sends and whether it wants to be told of
/// unknown ones; without commands the module is sent everything.
pub proof fn law_what_a_registration_holds(c: CommandsView)
    ensures
        registration(c).commands == c.commands,
        registration(c).alert_on_unknown == c.alert_on_unknown_command,
        registration(c).catch_all <==> c.commands.len() == 0,
{
}

/// Settings that are saved for a module stand beside those it had and in place of those of
/// the same name; the rest of its file stays.
pub proof fn law_saved_settings_stand_beside_others(
    settings: Map<Seq<char>, JsonView>,
    config: Option<Seq<char>>,
    key: Seq<char>,
)
    ensures
        ({
            &&& member(with_settings(config, settings), "module_specific"@) matches Some(s)
            &&& settings.dom().contains(key) ==> member(s, key) == Some(settings[key])
            &&& !settings.dom().contains(key) && public_settings(config).dom().contains(key)
                ==> member(s, key) == Some(public_settings(config)[key])
            &&& !settings.dom().contains(key) && !public_settings(config).dom().contains(key)
                ==> member(s, key) is None
        }),
        key != "module_specific"@ ==> (config matches Some(t) ==> (crate::json::json_read(t)
            matches Ok(v) ==> (v is Object ==> member(with_settings(config, settings), key)
            == member(v, key)))),
{
}

/// A submission for credentials that a module does not ask for is told which.
pub proof fn law_unknown_credentials_are_named(l: Seq<Seq<char>>, k: Seq<char>)
    ensures
        unknown_keys(seq![k]) == "Unknown credential key: "@ + k,
        l.len() > 0 ==> unknown_keys(l.push(k)) == unknown_keys(l) + (", "@ + k),
{
    assert(l.push(k).drop_last() =~= l);
    assert("Unknown credential key: "@ + (join(l, ", "@) + ", "@ + k) =~= unknown_keys(l) + (", "@
        + k));
}

/// A binding `ctrl+c` means that key with control held and nothing else, and so do the
/// others; a binding without a plus means its key alone.
pub proof fn law_modifiers_are_held(name: Seq<char>)
    requires
        !name.contains('+'),
    ensures
        ({
            let h = held(split_on(name, '+'));
            !h.control && !h.shift && !h.alt && !h.super_key && !h.hyper && !h.meta
        }),
        ({
            let h = held(split_on("ctrl"@ + seq!['+'] + name, '+'));
            h.control && !h.shift && !h.alt && !h.super_key
        }),
        ({
            let h = held(split_on("shift"@ + seq!['+'] + name, '+'));
            !h.control && h.shift && !h.alt && !h.super_key
        }),
        ({
            let h = held(split_on("alt"@ + seq!['+'] + name, '+'));
            !h.control && !h.shift && h.alt && !h.super_key
        }),
        ({
            let h = held(split_on("cmd"@ + seq!['+'] + name, '+'));
            !h.control && !h.shift && !h.alt && h.super_key
        }),
        split_on("ctrl"@ + seq!['+'] + name, '+').last() == name,
{
    reveal_strlit("ctrl");
    reveal_strlit("control");
    reveal_strlit("shift");
    reveal_strlit("alt");
    reveal_strlit("super");
    reveal_strlit("cmd");
    reveal_strlit("command");
    reveal_strlit("meta");
    assert("ctrl"@.len() == 4 && "control"@.len() == 7 && "shift"@.len() == 5 && "alt"@.len() == 3
        && "super"@.len() == 5 && "cmd"@.len() == 3 && "command"@.len() == 7 && "meta"@.len() == 4);
    assert("ctrl"@[0] == 'c' && "meta"@[0] == 'm' && "shift"@[1] == 'h' && "super"@[1] == 'u'
        && "alt"@[0] == 'a' && "cmd"@[0] == 'c');
    lemma_one_part(name);
    lemma_two_parts("ctrl"@, name);
    lemma_two_parts("shift"@, name);
    lemma_two_parts("alt"@, name);
    lemma_two_parts("cmd"@, name);
    let p = seq!["ctrl"@, name];
    assert(p[0] == "ctrl"@ && crate::keymap::holds(p, "ctrl"@));
    let q = seq!["shift"@, name];
    assert(q[0] == "shift"@ && crate::keymap::holds(q, "shift"@));
    let r = seq!["alt"@, name];
    assert(r[0] == "alt"@ && crate::keymap::holds(r, "alt"@));
    let s = seq!["cmd"@, name];
    assert(s[0] == "cmd"@ && crate::keymap::holds(s, "cmd"@));
}

proof fn lemma_one_part(name: Seq<char>)
    requires
        !name.contains('+'),
    ensures
        split_on(name, '+') == seq![name],
{
    lemma_find(name, '+');
    if find(name, '+') < name.len() {
        assert(name.contains(name[find(name, '+') as int]));
    }
}

proof fn lemma_two_parts(a: Seq<char>, name: Seq<char>)
    requires
        !a.contains('+'),
        !name.contains('+'),
    ensures
        split_on(a + seq!['+'] + name, '+') == seq![a, name],
{
    let s = a + seq!['+'] + name;
    lemma_find(s, '+');
    let n = find(s, '+') as int;
    assert(s[a.len() as int] == '+');
    if n < a.len() {
        assert(a[n] == s[n]);
        assert(a.contains('+'));
    }
    assert(s.take(n) =~= a);
    assert(s.skip(n + 1) =~= name);
    lemma_one_part(name);
    assert(split_on(s, '+') =~= seq![a, name]);
}

/// Why an event for the timeline is refused: it has no id, no origin or no type, in this
/// order.
pub proof fn law_events_need_their_parts(e: TimelineEventView)
    ensures
        trim(e.i).len() == 0 ==> event_error(e) == Some("TimelineEvent.i cannot be empty"@),
        trim(e.i).len() > 0 && trim(e.o).len() == 0 ==> event_error(e) == Some(
            "TimelineEvent.o cannot be empty"@,
        ),
        trim(e.i).len() > 0 && trim(e.o).len() > 0 && trim(e.t).len() == 0 ==> event_error(e)
            == Some("TimelineEvent.t cannot be empty"@),
        event_error(e) is None ==> (crate::random::uuid_read(e.i) matches Ok(n)
            && crate::random::version_of(n) == 7),
{
}

proof fn lemma_insert_by_time(list: Seq<CommendationRecordView>, c: CommendationRecordView)
    requires
        forall|i: int, j: int|
            #![trigger list[i], list[j]]
            0 <= i < j < list.len() ==> not_after(list[i].created_at, list[j].created_at),
    ensures
        ({
            let r = insert_by_time(list, c);
            &&& r.len() == list.len() + 1
            &&& r.to_multiset() == list.to_multiset().insert(c)
            &&& forall|i: int, j: int|
                #![trigger r[i], r[j]]
                0 <= i < j < r.len() ==> not_after(r[i].created_at, r[j].created_at)
            &&& forall|i: int| 0 <= i < r.len() ==> (#[trigger] r[i]) == c || list.contains(r[i])
        }),
    decreases list.len(),
{
    broadcast use vstd::seq_lib::group_to_multiset_ensures;

    let r = insert_by_time(list, c);
    if list.len() == 0 || not_after(list.last().created_at, c.created_at) {
        assert forall|i: int, j: int|
            #![trigger r[i], r[j]]
            0 <= i < j < r.len() implies not_after(r[i].created_at, r[j].created_at) by {
            if j == list.len() && i < list.len() - 1 {
                assert(not_after(list[i].created_at, list[list.len() - 1].created_at));
            }
        }
        assert forall|i: int| 0 <= i < r.len() implies (#[trigger] r[i]) == c || list.contains(
            r[i],
        ) by {
            if i < list.len() {
                assert(list[i] == r[i]);
            }
        }
    } else {
        let front = list.drop_last();
        lemma_insert_by_time(front, c);
        let f = insert_by_time(front, c);
        assert(list =~= front.push(list.last()));
        assert(r =~= f.push(list.last()));
        assert forall|i: int, j: int|
            #![trigger r[i], r[j]]
            0 <= i < j < r.len() implies not_after(r[i].created_at, r[j].created_at) by {
            if j == f.len() {
                assert(r[i] == f[i]);
                if f[i] != c {
                    assert(front.contains(f[i]));
                    let k = choose|k: int| 0 <= k < front.len() && front[k] == f[i];
                    assert(list[k] == f[i]);
                    assert(not_after(list[k].created_at, list[list.len() - 1].created_at));
                }
            } else {
                assert(r[i] == f[i] && r[j] == f[j]);
            }
        }
        assert forall|i: int| 0 <= i < r.len() implies (#[trigger] r[i]) == c || list.contains(
            r[i],
        ) by {
            if i < f.len() {
                assert(r[i] == f[i]);
                if f[i] != c {
                    let k = choose|k: int| 0 <= k < front.len() && front[k] == f[i];
                    assert(list[k] == f[i]);
                }
            } else {
                assert(list[list.len() - 1] == r[i]);
            }
        }
    }
}

/// Commendations are weighed in the order of their times, each as often as it was given.
pub proof fn law_commendations_are_put_in_order(list: Seq<CommendationRecordView>)
    ensures
        by_time(list).to_multiset() == list.to_multiset(),
        forall|i: int, j: int|
            #![trigger by_time(list)[i], by_time(list)[j]]
            0 <= i < j < by_time(list).len() ==> not_after(
                by_time(list)[i].created_at,
                by_time(list)[j].created_at,
            ),
    decreases list.len(),
{
    broadcast use vstd::seq_lib::group_to_multiset_ensures;

    if list.len() > 0 {
        law_commendations_are_put_in_order(list.drop_last());
        lemma_insert_by_time(by_time(list.drop_last()), list.last());
        assert(list =~= list.drop_last().push(list.last()));
    } else {
        assert(by_time(list) =~= list);
    }
}

/// One moment is not after another exactly where it has no more nanoseconds since the
/// epoch.
pub proof fn law_moments_are_ordered(a: Timestamp, b: Timestamp)
    requires
        a.nanos < 1_000_000_000,
        b.nanos < 1_000_000_000,
    ensures
        not_after(a, b) <==> a.secs * 1_000_000_000 + a.nanos <= b.secs * 1_000_000_000 + b.nanos,
{
}

/// A number may be written with a plus sign in front.
pub proof fn law_numbers_are_read(n: u32)
    ensures
        u32_of(decimal(n as nat)) == Some(n),
        u32_of(seq!['+'] + decimal(n as nat)) == Some(n),
{
    crate::text::lemma_decimal_is_read(n);
    crate::text::lemma_decimal(n as nat);
    assert((seq!['+'] + decimal(n as nat)).skip(1) =~= decimal(n as nat));
    assert(crate::text::is_digit(decimal(n as nat)[0]));
}

/// A binding of one key means that key with nothing held down; with a word for a held key
/// and a plus in front it means the key with that one held down.
pub proof fn law_what_bindings_mean(c: char, key: KeyEvent)
    requires
        'a' <= c <= 'z',
    ensures
        means(seq![c], key) ==> key.code == KeyCode::Char(c) && !key.modifiers.control
            && !key.modifiers.shift && !key.modifiers.alt,
        means("ctrl"@ + seq!['+'] + seq![c], key) ==> key.code == KeyCode::Char(c)
            && key.modifiers.control && !key.modifiers.shift,
        means("shift"@ + seq!['+'] + seq![c], key) ==> key.code == KeyCode::Char(c)
            && key.modifiers.shift && !key.modifiers.control,
        key.code == KeyCode::Char(c) && key.modifiers == held(split_on(seq![c], '+')) ==> means(
            seq![c],
            key,
        ),
{
    let name = seq![c];
    law_modifiers_are_held(name);
    crate::laws::terminal::law_keys_have_names(name);
    lemma_one_part(name);
    reveal_strlit("shift");
    reveal_strlit("ctrl");
    lemma_two_parts("shift"@, name);
    lemma_two_parts("ctrl"@, name);
}

proof fn lemma_last_slash(dir: Seq<char>, name: Seq<char>)
    requires
        !name.contains('/'),
    ensures
        last_slash(dir + seq!['/'] + name) == Some(dir.len()),
    decreases name.len(),
{
    let path = dir + seq!['/'] + name;
    if name.len() == 0 {
        assert(path.last() == '/');
    } else {
        assert(path.last() == name.last());
        assert(name.contains(name[name.len() - 1]));
        let t = name.drop_last();
        assert forall|i: int| 0 <= i < t.len() implies t[i] != '/' by {
            assert(name.contains(name[i]));
        }
        assert(path.drop_last() =~= dir + seq!['/'] + t);
        lemma_last_slash(dir, t);
    }
}

proof fn lemma_no_slash(name: Seq<char>)
    requires
        !name.contains('/'),
    ensures
        last_slash(name) is None,
    decreases name.len(),
{
    if name.len() > 0 {
        assert(name.contains(name[name.len() - 1]));
        let t = name.drop_last();
        assert forall|i: int| 0 <= i < t.len() implies t[i] != '/' by {
            assert(name.contains(name[i]));
        }
        lemma_no_slash(t);
    }
}

/// A file in a directory lies in that directory: taking its path apart undoes putting it
/// together. A name alone lies in no directory.
pub proof fn law_files_lie_in_their_directory(dir: Seq<char>, name: Seq<char>)
    requires
        dir.len() > 0,
        dir.last() != '/',
        dir.last() != '.',
        name.len() > 0,
        !name.contains('/'),
        name.last() != '.',
    ensures
        dir_of(path_in(dir, name)) == dir,
        dir_of(name).len() == 0,
{
    law_paths_are_put_together(dir, name);
    let path = dir + (seq!['/'] + name);
    assert(path =~= dir + seq!['/'] + name);
    lemma_last_slash(dir, name);
    assert(name.contains(name[name.len() - 1]));
    assert(path.last() == name.last());
    assert(path_body(path) == path);
    assert(path.take(dir.len() as int) =~= dir);
    assert(path_body(dir) == dir);
    assert(path_body(name) == name);
    lemma_no_slash(name);
}

/// An event with an id of another kind is refused by its id, and one with an unreadable id or
/// user with why they cannot be read.
pub proof fn law_events_have_time_ordered_ids(e: TimelineEventView)
    requires
        trim(e.i).len() > 0,
        trim(e.o).len() > 0,
        trim(e.t).len() > 0,
    ensures
        crate::random::uuid_read(e.i) matches Ok(n) ==> (crate::random::version_of(n) != 7
            ==> event_error(e) == Some("timeline event '"@ + (e.i + "' is not a UUID7"@))),
        crate::random::uuid_read(e.i) matches Err(w) ==> event_error(e) == Some(
            "invalid timeline UUID7 '"@ + (e.i + ("': "@ + w)),
        ),
        crate::random::uuid_read(e.i) matches Ok(n) ==> (crate::random::version_of(n) == 7 && trim(
            e.u,
        ).len() == 0 ==> event_error(e) is None),
{
    assert("timeline event '"@ + e.i + "' is not a UUID7"@ =~= "timeline event '"@ + (e.i
        + "' is not a UUID7"@));
    if let Err(w) = crate::random::uuid_read(e.i) {
        assert("invalid timeline UUID7 '"@ + e.i + "': "@ + w =~= "invalid timeline UUID7 '"@ + (e.i
            + ("': "@ + w)));
    }
}

/// An event of a user whose id cannot be read is refused with why; one of a user whose id
/// can be read, or of nobody, is not.
pub proof fn law_events_name_their_user(e: TimelineEventView, n: u128)
    requires
        trim(e.i).len() > 0,
        trim(e.o).len() > 0,
        trim(e.t).len() > 0,
        crate::random::uuid_read(e.i) == Ok::<u128, Seq<char>>(n),
        crate::random::version_of(n) == 7,
    ensures
        trim(e.u).len() == 0 ==> event_error(e) is None,
        trim(e.u).len() > 0 ==> (crate::random::uuid_read(e.u) is Ok <==> event_error(e) is None),
        trim(e.u).len() > 0 ==> (crate::random::uuid_read(e.u) matches Err(w) ==> event_error(e)
            == Some("invalid user UUID '"@ + (e.u + ("': "@ + w)))),
{
    if let Err(w) = crate::random::uuid_read(e.u) {
        assert("invalid user UUID '"@ + e.u + "': "@ + w =~= "invalid user UUID '"@ + (e.u + ("': "@
            + w)));
    }
}

} // verus!
