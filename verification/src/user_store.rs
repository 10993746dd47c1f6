//! The user store: the JSON document kept for each user, and how two of them are merged.
use crate::json::{
    alike, bool_value, holds, int_json, int_value, items, json_int, json_read, json_same,
    json_str, json_text, last_index, last_with, lemma_alike, lemma_json_view, lemma_last_with,
    list, member, members, no_members, object, or_else, parse_json, put, reads_back, settled,
    view_of, write_json, Json, JsonView,
};
use crate::random::{fresh_uuid7, is_uuid_text};
use crate::text::{texts, trim, trimmed};
use vstd::prelude::*;

verus! {

/// The tables of the user store.
pub open spec fn store_schema() -> Seq<Seq<char>> {
    seq![
        "CREATE TABLE IF NOT EXISTS users (
            uuid7 TEXT PRIMARY KEY,
            username TEXT NOT NULL,
            conduct_score REAL NOT NULL,
            data_json TEXT NOT NULL
        )"@,
        "CREATE TABLE IF NOT EXISTS timeline_events (
            event_uuid TEXT PRIMARY KEY,
            user_uuid TEXT NOT NULL,
            platform TEXT NOT NULL,
            raw_message TEXT NOT NULL,
            processed_message TEXT NOT NULL,
            is_final BOOLEAN NOT NULL,
            timestamp TEXT NOT NULL,
            FOREIGN KEY(user_uuid) REFERENCES users(uuid7)
        )"@,
    ]
}

/// The statements that create the tables of the user store.
pub fn init_db() -> (r: Vec<String>)
    ensures
        texts(r@) == store_schema(),
{
    let mut out: Vec<String> = Vec::new();
    out.push(
        "CREATE TABLE IF NOT EXISTS users (
            uuid7 TEXT PRIMARY KEY,
            username TEXT NOT NULL,
            conduct_score REAL NOT NULL,
            data_json TEXT NOT NULL
        )".to_owned(),
    );
    out.push(
        "CREATE TABLE IF NOT EXISTS timeline_events (
            event_uuid TEXT PRIMARY KEY,
            user_uuid TEXT NOT NULL,
            platform TEXT NOT NULL,
            raw_message TEXT NOT NULL,
            processed_message TEXT NOT NULL,
            is_final BOOLEAN NOT NULL,
            timestamp TEXT NOT NULL,
            FOREIGN KEY(user_uuid) REFERENCES users(uuid7)
        )".to_owned(),
    );
    assert(texts(out@) =~= store_schema());
    out
}

/// No values.
pub open spec fn empty_list() -> JsonView {
    JsonView::List(Seq::empty())
}

/// The document of a new user.
pub open spec fn new_user(
    user_uuid: Seq<char>,
    username: Seq<char>,
    platform: Seq<char>,
    platform_id: Seq<char>,
    now_millis: i64,
) -> JsonView {
    JsonView::Object(
        map![
            "version"@ => JsonView::Pos(1),
            "username"@ => JsonView::Text(username),
            "uuid7"@ => JsonView::Text(user_uuid),
            "channels"@ => JsonView::Object(
                map![platform => JsonView::List(seq![JsonView::Text(platform_id)])],
            ),
            "ttsBans"@ => empty_list(),
            "channelBans"@ => empty_list(),
            "conduct_score"@ => JsonView::Float("0.0"@),
            "commendments"@ => JsonView::Object(
                map![
                    "community"@ => empty_list(),
                    "engagement"@ => empty_list(),
                    "support"@ => empty_list(),
                    "rep"@ => empty_list(),
                ],
            ),
            "misconduct"@ => JsonView::Object(
                map![
                    "discrimination"@ => empty_list(),
                    "harassment"@ => empty_list(),
                    "spam"@ => empty_list(),
                    "integrity"@ => empty_list(),
                ],
            ),
            "icon"@ => JsonView::Null,
            "isSponsor"@ => JsonView::Bool(false),
            "isChatModerator"@ => JsonView::Bool(false),
            "isChatAdmin"@ => JsonView::Bool(false),
            "isVerified"@ => JsonView::Bool(false),
            "firstSeen"@ => int_json(now_millis),
            "points"@ => JsonView::Pos(0),
            "totalPoints"@ => JsonView::Pos(0),
            "totalMessages"@ => JsonView::Pos(0),
            "styling"@ => JsonView::Object(Map::empty()),
        ],
    )
}

fn nothing() -> (r: Json)
    ensures
        r@ == empty_list(),
{
    let none: Vec<Json> = Vec::new();
    assert(items(none@) =~= Seq::<JsonView>::empty());
    list(none)
}

/// The document of a new user.
pub fn initial_user(
    user_uuid: &str,
    username: &str,
    platform: &str,
    platform_id: &str,
    now_millis: i64,
) -> (r: Json)
    ensures
        r@ == new_user(user_uuid@, username@, platform@, platform_id@, now_millis),
{
    let mut ids: Vec<Json> = Vec::new();
    ids.push(json_str(platform_id));
    assert(items(ids@) =~= seq![JsonView::Text(platform_id@)]);
    let mut channels = no_members();
    put(&mut channels, platform, list(ids));
    let mut praise = no_members();
    put(&mut praise, "community", nothing());
    put(&mut praise, "engagement", nothing());
    put(&mut praise, "support", nothing());
    put(&mut praise, "rep", nothing());
    let mut blame = no_members();
    put(&mut blame, "discrimination", nothing());
    put(&mut blame, "harassment", nothing());
    put(&mut blame, "spam", nothing());
    put(&mut blame, "integrity", nothing());
    let mut m = no_members();
    put(&mut m, "version", Json::Pos(1));
    put(&mut m, "username", json_str(username));
    put(&mut m, "uuid7", json_str(user_uuid));
    put(&mut m, "channels", object(channels));
    put(&mut m, "ttsBans", nothing());
    put(&mut m, "channelBans", nothing());
    put(&mut m, "conduct_score", Json::Float("0.0".to_owned()));
    put(&mut m, "commendments", object(praise));
    put(&mut m, "misconduct", object(blame));
    put(&mut m, "icon", Json::Null);
    put(&mut m, "isSponsor", Json::Bool(false));
    put(&mut m, "isChatModerator", Json::Bool(false));
    put(&mut m, "isChatAdmin", Json::Bool(false));
    put(&mut m, "isVerified", Json::Bool(false));
    put(&mut m, "firstSeen", json_int(now_millis));
    put(&mut m, "points", Json::Pos(0));
    put(&mut m, "totalPoints", Json::Pos(0));
    put(&mut m, "totalMessages", Json::Pos(0));
    put(&mut m, "styling", object(no_members()));
    object(m)
}

/// Calls `chrono::Utc::now` for the milliseconds since the epoch. Nothing is claimed of the
/// reading.
#[verifier::external_body]
fn clock_millis() -> (r: i64) {
    chrono::Utc::now().timestamp_millis()
}

/// The id of a new user and their document, as they are stored. The id is fresh, and the
/// user was first seen now. The document is read back from its text.
pub fn add_user(username: &str, platform: &str, platform_id: &str) -> (r: (String, String))
    ensures
        is_uuid_text(r.0@, 7),
        exists|now_millis: i64|
            {
                let document = #[trigger] new_user(
                    r.0@,
                    username@,
                    platform@,
                    platform_id@,
                    now_millis,
                );
                r.1@ == json_text(document) && stored_data(r.1@) == document
            },
{
    let user_uuid = fresh_uuid7();
    let now_millis = clock_millis();
    let document = initial_user(
        user_uuid.as_str(),
        username,
        platform,
        platform_id,
        now_millis,
    );
    proof {
        lemma_new_user_is_settled(
            user_uuid@,
            username@,
            platform@,
            platform_id@,
            now_millis,
        );
    }
    let text = write_json(&document);
    let r = (user_uuid, text);
    assert(r.1@ == json_text(new_user(r.0@, username@, platform@, platform_id@, now_millis)));
    r
}

proof fn lemma_new_user_is_settled(
    user_uuid: Seq<char>,
    username: Seq<char>,
    platform: Seq<char>,
    platform_id: Seq<char>,
    now_millis: i64,
)
    ensures
        reads_back(new_user(user_uuid, username, platform, platform_id, now_millis)),
{
    reveal_with_fuel(settled, 4);
    let m = members_of(
        new_user(user_uuid, username, platform, platform_id, now_millis),
    ).unwrap();
    assert forall|k: Seq<char>| #[trigger] m.dom().contains(k) implies settled(m[k], 99) by {}
}

/// Whether a deletion found its user.
pub fn remove_user(rows_affected: u64) -> (r: bool)
    ensures
        r == (rows_affected > 0),
{
    rows_affected > 0
}

/// What a stored text says; an unreadable one counts as an empty document.
pub open spec fn stored_data(text: Seq<char>) -> JsonView {
    match json_read(text) {
        Ok(v) => v,
        Err(_) => JsonView::Object(Map::empty()),
    }
}

/// A user's document, given the stored text.
pub fn get_user_data(stored: Option<&str>) -> (r: Option<Json>)
    ensures
        r is Some == stored is Some,
        stored matches Some(text) ==> r.unwrap()@ == stored_data(text@),
{
    match stored {
        Some(text) => match parse_json(text) {
            Ok(v) => Some(v),
            Err(_) => Some(object(no_members())),
        },
        None => None,
    }
}

/// The value under a key.
pub open spec fn entry<V>(m: Map<Seq<char>, V>, key: Seq<char>) -> Option<V> {
    if m.dom().contains(key) {
        Some(m[key])
    } else {
        None
    }
}

pub(crate) fn entry_in<'a>(pairs: &'a Vec<(String, Json)>, key: &str) -> (r: Option<&'a Json>)
    ensures
        view_of(r) == entry(members(pairs@), key@),
{
    match last_index(pairs, key) {
        Some(i) => Some(&pairs[i].1),
        None => None,
    }
}

/// A list with the values of another that it does not hold yet.
pub open spec fn appended(own: Seq<JsonView>, other: Seq<JsonView>) -> Seq<JsonView>
    decreases other.len(),
{
    if other.len() == 0 {
        own
    } else {
        let front = appended(own, other.drop_last());
        if holds(front, other.last()) {
            front
        } else {
            front.push(other.last())
        }
    }
}

fn contains_value(list: &Vec<Json>, value: &Json) -> (r: bool)
    ensures
        r == holds(items(list@), value@),
{
    let ghost all = items(list@);
    let mut i: usize = 0;
    while i < list.len()
        invariant
            i <= list@.len(),
            all == items(list@),
            forall|j: int| 0 <= j < i ==> !alike(#[trigger] all[j], value@),
        decreases list@.len() - i,
    {
        if json_same(&list[i], value) {
            assert(alike(all[i as int], value@));
            return true;
        }
        i = i + 1;
    }
    false
}

fn append_new(own: &Vec<Json>, other: &Vec<Json>) -> (r: Vec<Json>)
    ensures
        items(r@) == appended(items(own@), items(other@)),
{
    let ghost mine = items(own@);
    let ghost more = items(other@);
    let mut out: Vec<Json> = Vec::new();
    let mut k: usize = 0;
    while k < own.len()
        invariant
            k <= own@.len(),
            out@.len() == k,
            mine == items(own@),
            forall|j: int| 0 <= j < k ==> (#[trigger] out@[j])@ == mine[j],
        decreases own@.len() - k,
    {
        out.push(own[k].clone());
        k = k + 1;
    }
    assert(items(out@) =~= mine);
    let mut i: usize = 0;
    while i < other.len()
        invariant
            i <= other@.len(),
            more == items(other@),
            items(out@) == appended(mine, more.take(i as int)),
        decreases other@.len() - i,
    {
        assert(more.take(i + 1).drop_last() =~= more.take(i as int));
        let ghost before = out@;
        if !contains_value(&out, &other[i]) {
            out.push(other[i].clone());
            assert(items(out@) =~= items(before).push(more[i as int]));
        }
        i = i + 1;
    }
    assert(more.take(i as int) =~= more);
    out
}

/// A user's channels with those of another: where both have a list for a platform, the
/// other's new entries are added; a list for a new platform is taken over.
pub open spec fn merged_channels(
    own: Map<Seq<char>, JsonView>,
    other: Map<Seq<char>, JsonView>,
) -> Map<Seq<char>, JsonView> {
    Map::new(
        |k: Seq<char>| own.dom().contains(k) || (other.dom().contains(k) && other[k] is List),
        |k: Seq<char>| merged_entry(entry(own, k), entry(other, k)),
    )
}

/// A platform's entry, given both users'.
pub open spec fn merged_entry(own: Option<JsonView>, other: Option<JsonView>) -> JsonView {
    match (own, other) {
        (Some(JsonView::List(a)), Some(JsonView::List(b))) => JsonView::List(appended(a, b)),
        (Some(v), _) => v,
        (None, Some(JsonView::List(b))) => JsonView::List(appended(Seq::empty(), b)),
        (None, _) => JsonView::Null,
    }
}

/// The members of an object whose last place lies below `i`.
spec fn members_below(pairs: Seq<(String, Json)>, i: int) -> Map<Seq<char>, JsonView> {
    Map::new(
        |k: Seq<char>| 0 <= last_with(pairs, k, pairs.len() as int) < i,
        |k: Seq<char>| members(pairs)[k],
    )
}

fn merge_channels(own: Vec<(String, Json)>, other: &Vec<(String, Json)>) -> (r: Vec<(String, Json)>)
    ensures
        members(r@) == merged_channels(members(own@), members(other@)),
{
    let ghost mine = members(own@);
    let ghost n = other@.len() as int;
    let mut out = own;
    let mut i: usize = 0;
    proof {
        assert(members_below(other@, 0) =~= Map::<Seq<char>, JsonView>::empty());
        assert(merged_channels(mine, Map::empty()) =~= mine);
    }
    while i < other.len()
        invariant
            i <= other@.len(),
            n == other@.len(),
            members(out@) == merged_channels(mine, members_below(other@, i as int)),
        decreases other@.len() - i,
    {
        let key = other[i].0.as_str();
        let ghost done = members_below(other@, i as int);
        let ghost next = members_below(other@, i + 1);
        let last = match last_index(other, key) {
            Some(j) => j == i,
            None => false,
        };
        proof {
            lemma_last_with(other@, key@, n);
            assert forall|k: Seq<char>| k != key@ implies last_with(other@, k, n) != i by {
                lemma_last_with(other@, k, n);
            }
        }
        if last {
            let value = &other[i].1;
            proof {
                assert(members(other@)[key@] == value@);
                assert(next =~= done.insert(key@, value@));
                lemma_json_view(*value);
            }
            if let Json::List(b) = value {
                match entry_in(&out, key) {
                    Some(Json::List(a)) => {
                        proof {
                            lemma_json_view(Json::List(*a));
                        }
                        let both = append_new(a, b);
                        let ghost before = members(out@);
                        put(&mut out, key, list(both));
                        assert(members(out@) =~= merged_channels(mine, next));
                    },
                    Some(_) => {
                        assert(members(out@) =~= merged_channels(mine, next));
                    },
                    None => {
                        let none: Vec<Json> = Vec::new();
                        assert(items(none@) =~= Seq::<JsonView>::empty());
                        let both = append_new(&none, b);
                        put(&mut out, key, list(both));
                        assert(members(out@) =~= merged_channels(mine, next));
                    },
                }
            } else {
                assert(members(out@) =~= merged_channels(mine, next));
            }
        } else {
            assert(next =~= done);
        }
        i = i + 1;
    }
    proof {
        assert forall|k: Seq<char>| last_with(other@, k, n) < n by {
            lemma_last_with(other@, k, n);
        }
        assert(members_below(other@, n) =~= members(other@));
    }
    out
}

/// The members that a document has; those of none where it is null. Any other value has no
/// members and can get none.
pub open spec fn members_of(v: JsonView) -> Option<Map<Seq<char>, JsonView>> {
    match v {
        JsonView::Object(m) => Some(m),
        JsonView::Null => Some(Map::empty()),
        _ => None,
    }
}

/// The sum of a number in both documents; the other's counts as 0 where it has none.
pub open spec fn sum_of(m: Map<Seq<char>, JsonView>, other: JsonView, key: Seq<char>) -> Option<
    int,
> {
    match int_value(entry(m, key)) {
        Some(n) => Some(n + or_else(int_value(member(other, key)), 0)),
        None => None,
    }
}

/// Whether the sum of a number in both documents is a number that can be written down.
pub open spec fn sum_fits(m: Map<Seq<char>, JsonView>, other: JsonView, key: Seq<char>) -> bool {
    sum_of(m, other, key) matches Some(n) ==> i64::MIN <= n <= i64::MAX
}

/// The members with a number summed up; unchanged where there is none.
pub open spec fn with_sum(
    m: Map<Seq<char>, JsonView>,
    other: JsonView,
    key: Seq<char>,
) -> Map<Seq<char>, JsonView> {
    match sum_of(m, other, key) {
        Some(n) => m.insert(key, int_json(n as i64)),
        None => m,
    }
}

/// The members with a privilege that either has.
pub open spec fn with_either(
    m: Map<Seq<char>, JsonView>,
    other: JsonView,
    key: Seq<char>,
) -> Map<Seq<char>, JsonView> {
    m.insert(
        key,
        JsonView::Bool(
            or_else(bool_value(entry(m, key)), false) || or_else(
                bool_value(member(other, key)),
                false,
            ),
        ),
    )
}

/// The smaller of two numbers.
pub open spec fn smaller(a: i64, b: i64) -> i64 {
    if a <= b {
        a
    } else {
        b
    }
}

/// The members with the earlier of two times; a missing one counts as the end of time.
pub open spec fn with_earlier(
    m: Map<Seq<char>, JsonView>,
    other: JsonView,
    key: Seq<char>,
) -> Map<Seq<char>, JsonView> {
    m.insert(
        key,
        int_json(
            smaller(
                or_else(int_value(entry(m, key)), i64::MAX),
                or_else(int_value(member(other, key)), i64::MAX),
            ),
        ),
    )
}

/// The members with the other's channels.
pub open spec fn with_channels(m: Map<Seq<char>, JsonView>, other: JsonView) -> Map<
    Seq<char>,
    JsonView,
> {
    match (entry(m, "channels"@), member(other, "channels"@)) {
        (Some(JsonView::Object(a)), Some(JsonView::Object(b))) => m.insert(
            "channels"@,
            JsonView::Object(merged_channels(a, b)),
        ),
        _ => m,
    }
}

/// The members after their numbers were summed up.
pub open spec fn with_sums(m: Map<Seq<char>, JsonView>, other: JsonView) -> Map<
    Seq<char>,
    JsonView,
> {
    with_sum(
        with_sum(with_sum(m, other, "points"@), other, "totalPoints"@),
        other,
        "totalMessages"@,
    )
}

/// The members after all was merged.
pub open spec fn merged_members(m: Map<Seq<char>, JsonView>, other: JsonView) -> Map<
    Seq<char>,
    JsonView,
> {
    let summed = with_sums(with_channels(m, other), other);
    let flagged = with_either(
        with_either(
            with_either(with_either(summed, other, "isSponsor"@), other, "isChatModerator"@),
            other,
            "isChatAdmin"@,
        ),
        other,
        "isVerified"@,
    );
    with_earlier(flagged, other, "firstSeen"@)
}

/// Whether two documents can be merged: the first has members, and the sums fit.
pub open spec fn can_merge(primary: JsonView, secondary: JsonView) -> bool {
    match members_of(primary) {
        Some(m) => {
            let c = with_channels(m, secondary);
            &&& sum_fits(c, secondary, "points"@)
            &&& sum_fits(with_sum(c, secondary, "points"@), secondary, "totalPoints"@)
            &&& sum_fits(
                with_sum(with_sum(c, secondary, "points"@), secondary, "totalPoints"@),
                secondary,
                "totalMessages"@,
            )
        },
        None => false,
    }
}

fn int_in(v: Option<&Json>) -> (r: Option<i64>)
    ensures
        r == int_value(view_of(v)),
{
    match v {
        Some(Json::Pos(n)) => if *n <= i64::MAX as u64 {
            Some(*n as i64)
        } else {
            None
        },
        Some(Json::Neg(n)) => Some(*n),
        _ => None,
    }
}

fn bool_in(v: Option<&Json>) -> (r: bool)
    ensures
        r == or_else(bool_value(view_of(v)), false),
{
    match v {
        Some(Json::Bool(b)) => *b,
        _ => false,
    }
}

/// Sums a number up; says whether the sum fits.
fn add_sum(m: &mut Vec<(String, Json)>, other: &Json, key: &str) -> (r: bool)
    ensures
        r == sum_fits(members(old(m)@), other@, key@),
        r ==> members(final(m)@) == with_sum(members(old(m)@), other@, key@),
{
    match int_in(entry_in(m, key)) {
        Some(n) => {
            let o = match int_in(other.get(key)) {
                Some(o) => o,
                None => 0,
            };
            match n.checked_add(o) {
                Some(t) => {
                    put(m, key, json_int(t));
                    true
                },
                None => false,
            }
        },
        None => true,
    }
}

fn add_either(m: &mut Vec<(String, Json)>, other: &Json, key: &str)
    ensures
        members(final(m)@) == with_either(members(old(m)@), other@, key@),
{
    let either = bool_in(entry_in(m, key)) || bool_in(other.get(key));
    put(m, key, Json::Bool(either));
}

/// Merges a user's document into another's. `None` where the first is no document, or a
/// sum cannot be written down.
pub fn merge_users(primary: Json, secondary: &Json) -> (r: Option<Json>)
    ensures
        r is Some == can_merge(primary@, secondary@),
        r matches Some(j) ==> j@ == JsonView::Object(
            merged_members(members_of(primary@).unwrap(), secondary@),
        ),
{
    proof {
        lemma_json_view(primary);
    }
    let mut m: Vec<(String, Json)> = match primary {
        Json::Object(m) => m,
        Json::Null => no_members(),
        _ => {
            return None;
        },
    };
    let ghost own = members(m@);
    let mut both: Option<Vec<(String, Json)>> = None;
    if let Some(Json::Object(a)) = entry_in(&m, "channels") {
        if let Some(Json::Object(b)) = secondary.get("channels") {
            proof {
                lemma_json_view(Json::Object(*a));
                lemma_json_view(Json::Object(*b));
            }
            both = Some(merge_channels(copy_pairs(a), b));
        }
    }
    if let Some(c) = both {
        put(&mut m, "channels", object(c));
    }
    assert(members(m@) == with_channels(own, secondary@));
    if !add_sum(&mut m, secondary, "points") {
        return None;
    }
    if !add_sum(&mut m, secondary, "totalPoints") {
        return None;
    }
    if !add_sum(&mut m, secondary, "totalMessages") {
        return None;
    }
    add_either(&mut m, secondary, "isSponsor");
    add_either(&mut m, secondary, "isChatModerator");
    add_either(&mut m, secondary, "isChatAdmin");
    add_either(&mut m, secondary, "isVerified");
    let a = match int_in(entry_in(&m, "firstSeen")) {
        Some(n) => n,
        None => i64::MAX,
    };
    let b = match int_in(secondary.get("firstSeen")) {
        Some(n) => n,
        None => i64::MAX,
    };
    let first = if a <= b {
        a
    } else {
        b
    };
    put(&mut m, "firstSeen", json_int(first));
    Some(object(m))
}

pub(crate) fn copy_pairs(v: &Vec<(String, Json)>) -> (r: Vec<(String, Json)>)
    ensures
        members(r@) == members(v@),
{
    let mut out: Vec<(String, Json)> = Vec::new();
    let mut i: usize = 0;
    while i < v.len()
        invariant
            i <= v@.len(),
            out@.len() == i,
            forall|j: int|
                0 <= j < i ==> (#[trigger] out@[j]).0@ == v@[j].0@ && out@[j].1@ == v@[j].1@,
        decreases v@.len() - i,
    {
        out.push((v[i].0.clone(), v[i].1.clone()));
        i = i + 1;
    }
    proof {
        crate::json::lemma_members_same(out@, v@);
    }
    out
}

/// Why two users could not be combined.
#[derive(Debug)]
pub enum CombineError {
    /// A stored text is no JSON; the words of the error.
    Unreadable(String),
    /// The first user's document is none, or a sum cannot be written down.
    NotMergeable,
}

/// Combines two users: the text to store for the first, given both stored texts. The
/// second user is to be removed then.
pub fn combine_user(primary: &str, secondary: &str) -> (r: Result<String, CombineError>)
    ensures
        (match (json_read(primary@), json_read(secondary@)) {
            (Err(e), _) => r matches Err(CombineError::Unreadable(w)) && w@ == e,
            (Ok(_), Err(e)) => r matches Err(CombineError::Unreadable(w)) && w@ == e,
            (Ok(a), Ok(b)) => if can_merge(a, b) {
                let both = JsonView::Object(merged_members(members_of(a).unwrap(), b));
                r matches Ok(t) && t@ == json_text(both) && (reads_back(both) ==> stored_data(t@)
                    == both)
            } else {
                r matches Err(CombineError::NotMergeable)
            },
        }),
{
    let a = match parse_json(primary) {
        Ok(v) => v,
        Err(e) => {
            return Err(CombineError::Unreadable(e));
        },
    };
    let b = match parse_json(secondary) {
        Ok(v) => v,
        Err(e) => {
            return Err(CombineError::Unreadable(e));
        },
    };
    match merge_users(a, &b) {
        Some(j) => Ok(write_json(&j)),
        None => Err(CombineError::NotMergeable),
    }
}

proof fn lemma_appended(own: Seq<JsonView>, other: Seq<JsonView>, v: JsonView)
    ensures
        own.is_prefix_of(appended(own, other)),
        holds(appended(own, other), v) == (holds(own, v) || holds(other, v)),
    decreases other.len(),
{
    if other.len() > 0 {
        let t = other.drop_last();
        let last = other.last();
        lemma_appended(own, t, v);
        let front = appended(own, t);
        let all = appended(own, other);
        assert(other[other.len() - 1] == last);
        if holds(front, v) {
            let i = choose|i: int| 0 <= i < front.len() && alike(#[trigger] front[i], v);
            assert(all[i] == front[i]);
        }
        if holds(t, v) {
            let i = choose|i: int| 0 <= i < t.len() && alike(#[trigger] t[i], v);
            assert(other[i] == t[i]);
        }
        if alike(last, v) {
            if holds(front, last) {
                let i = choose|i: int| 0 <= i < front.len() && alike(#[trigger] front[i], last);
                lemma_alike(front[i], last, v);
            } else {
                assert(all[front.len() as int] == last);
            }
        }
        if holds(other, v) {
            let i = choose|i: int| 0 <= i < other.len() && alike(#[trigger] other[i], v);
            if i < t.len() {
                assert(t[i] == other[i]);
            }
        }
        if holds(all, v) {
            let i = choose|i: int| 0 <= i < all.len() && alike(#[trigger] all[i], v);
            if i < front.len() {
                assert(front[i] == all[i]);
            }
        }
    } else {
        assert(!holds(other, v));
    }
}

/// A user has a channel on a platform.
pub open spec fn has_channel(
    channels: Map<Seq<char>, JsonView>,
    platform: Seq<char>,
    channel: JsonView,
) -> bool {
    entry(channels, platform) matches Some(JsonView::List(l)) && holds(l, channel)
}

/// Combining two users loses no channel of either, and adds none that neither had. Left out
/// is a platform for which the first user has something else than a list: it stays.
pub proof fn law_combined_channels_are_the_union(
    own: Map<Seq<char>, JsonView>,
    other: Map<Seq<char>, JsonView>,
    platform: Seq<char>,
    channel: JsonView,
)
    requires
        entry(own, platform) matches Some(v) ==> v is List,
    ensures
        has_channel(merged_channels(own, other), platform, channel) == (has_channel(
            own,
            platform,
            channel,
        ) || has_channel(other, platform, channel)),
{
    let a = match entry(own, platform) {
        Some(JsonView::List(l)) => l,
        _ => Seq::empty(),
    };
    if let Some(JsonView::List(b)) = entry(other, platform) {
        lemma_appended(a, b, channel);
    }
}

/// Combining two users takes no privilege from the first, and gives those of the second.
pub proof fn law_combining_keeps_privileges(
    m: Map<Seq<char>, JsonView>,
    other: JsonView,
    key: Seq<char>,
)
    requires
        key == "isSponsor"@ || key == "isChatModerator"@ || key == "isChatAdmin"@ || key
            == "isVerified"@,
    ensures
        entry(merged_members(m, other), key) == Some(
            JsonView::Bool(
                or_else(bool_value(entry(m, key)), false) || or_else(
                    bool_value(member(other, key)),
                    false,
                ),
            ),
        ),
{
    reveal_strlit("isSponsor");
    reveal_strlit("isChatModerator");
    reveal_strlit("isChatAdmin");
    reveal_strlit("isVerified");
    reveal_strlit("firstSeen");
    reveal_strlit("points");
    reveal_strlit("totalPoints");
    reveal_strlit("totalMessages");
    reveal_strlit("channels");
    assert("isSponsor"@.len() == 9 && "isChatModerator"@.len() == 15 && "isChatAdmin"@.len() == 11
        && "isVerified"@.len() == 10 && "firstSeen"@.len() == 9 && "points"@.len() == 6
        && "totalPoints"@.len() == 11 && "totalMessages"@.len() == 13 && "channels"@.len() == 8);
    assert("isSponsor"@[0] == 'i' && "firstSeen"@[0] == 'f' && "isChatAdmin"@[0] == 'i'
        && "totalPoints"@[0] == 't');
}

/// Which id an update is stored under: the user's own, or a fresh one where there is none.
pub fn upsert_uuid(own: &str, fresh: String) -> (r: String)
    ensures
        r@ == (if trim(own@).len() == 0 {
            fresh@
        } else {
            own@
        }),
{
    if trimmed(own).as_str().unicode_len() == 0 {
        fresh
    } else {
        own.to_owned()
    }
}

} // verus!
