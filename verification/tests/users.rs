//! Users: what is asked of the user database, and how users are kept and weighed.
use cockatiel::conduct::{
    conduct_rank, elapsed_seconds, sort_commendations, weigh_bans, weigh_commendations, BanRecord,
    CommendationRecord, ConductRank, Timestamp,
};
use cockatiel::json::{parse_json, write_json};
use cockatiel::proto::{ChatMessage, SendToPlatforms, UserData};
use cockatiel::user_database::{open, upsert};
use cockatiel::user_db_client::{
    userdb_response_to_json, ChannelRef, Exchange, UserDbClient, UserDbOp, UserDbResponse,
    UserRecord, UserValue,
};
use cockatiel::user_queries::{
    chat_rating_virtual_query, chat_verify_identity_virtual_query, enrich_chat_user, enrich_lookup,
    enrich_user, finish_query, identity_added, identity_finish, mod_actor_found, mod_target_found,
    mod_virtual_query, parse_channel_ref, rating_finish, rating_giver_found,
    rating_recipient_found, sender_allowed, sender_lookup, user_rank, userdb_virtual_query,
    ModStep, QueryReply, RatingStep, UserDbStep,
};
use cockatiel::user_store::{
    add_user, combine_user, get_user_data, init_db, merge_users, remove_user, upsert_uuid,
    CombineError,
};

fn user(uuid: &str, score: i64) -> UserRecord {
    UserRecord {
        uuid7: uuid.to_string(),
        username: "ann".to_string(),
        is_sponsor: false,
        is_moderator: false,
        is_admin: false,
        is_owner: false,
        score,
        commendations: 2,
        reprimands: 1,
        channels: vec![ChannelRef {
            platform: "kick".to_string(),
            channel_id: "c".to_string(),
            handle: "ann".to_string(),
        }],
        flags: "{}".to_string(),
        created_at: 1,
        updated_at: 2,
    }
}

fn response(success: bool, user: Option<UserRecord>) -> UserDbResponse {
    UserDbResponse {
        success,
        error: if success { String::new() } else { "refused".to_string() },
        user,
        users: vec![],
        message: "done".to_string(),
        value: None,
        values: vec![],
    }
}

fn moderator(uuid: &str) -> UserRecord {
    let mut u = user(uuid, 0);
    u.is_moderator = true;
    u
}

fn userdb_ask(id: &str, sql: &str, loopback: bool) -> UserDbOp {
    match userdb_virtual_query(id, sql, loopback, Some(1000)) {
        UserDbStep::Ask(op) => op,
        other => panic!("{:?}", other),
    }
}

#[test]
fn user_database_queries() {
    match userdb_ask("userdb_add_score", "{\"uuid7\": \"u\"}", false) {
        UserDbOp::AddScore { uuid7, delta, reason } => {
            assert_eq!((uuid7.as_str(), delta, reason.as_str()), ("u", 1, ""));
        }
        other => panic!("{:?}", other),
    }
    match userdb_ask("userdb_delete_user", "{\"uuid7\": \"u\"}", true) {
        UserDbOp::DeleteUser { actor_role, .. } => assert_eq!(actor_role, "owner"),
        other => panic!("{:?}", other),
    }
    match userdb_ask("userdb_delete_user", "{\"uuid7\": \"u\"}", false) {
        UserDbOp::DeleteUser { actor_role, .. } => assert_eq!(actor_role, "user"),
        other => panic!("{:?}", other),
    }
    match userdb_ask("userdb_ban", "{\"uuid7\": \"u\", \"reason\": \"spam\"}", false) {
        UserDbOp::WriteUserValue { key, value, .. } => {
            assert_eq!(key, "ban");
            assert_eq!(value, "{\"at\":\"1000\",\"banned\":true,\"reason\":\"spam\"}");
        }
        other => panic!("{:?}", other),
    }
    match userdb_ask("userdb_timeout", "{\"uuid7\": \"u\", \"duration_secs\": 2}", false) {
        UserDbOp::WriteUserValue { key, value, .. } => {
            assert_eq!(key, "timeout");
            assert_eq!(value, "{\"expires_at_ms\":3000,\"reason\":\"\",\"timed_out\":true}");
        }
        other => panic!("{:?}", other),
    }
    match userdb_virtual_query("userdb_x", "{}", false, None) {
        UserDbStep::Reply(r) => assert_eq!(r.error, "Unknown userdb query: userdb_x"),
        other => panic!("{:?}", other),
    }
    match userdb_virtual_query("userdb_ban", "{", false, None) {
        UserDbStep::Reply(r) => assert!(r.error.starts_with("Invalid userdb payload: ")),
        other => panic!("{:?}", other),
    }
    assert!(matches!(
        userdb_virtual_query("userdb_timeout", "{\"duration_secs\": -1}", false, Some(0)),
        UserDbStep::OutOfRange
    ));
}

#[test]
fn answers_of_the_user_database() {
    let r = finish_query(Ok(response(false, None)));
    assert!(!r.success);
    assert_eq!(r.error, "refused");
    assert!(r.text.contains("\"success\":false"));
    assert_eq!(finish_query(Err("down".to_string())).error, "down");
    let t = userdb_response_to_json(&response(true, Some(user("u", 3))));
    assert!(t.contains("\"uuid7\":\"u\""));
    assert!(t.contains("\"score\":3"));
    assert!(parse_channel_ref(None).is_none());
    let j = parse_json("{\"platform\": \"kick\", \"handle\": 3}").unwrap();
    let c = parse_channel_ref(Some(&j)).unwrap();
    assert_eq!((c.platform.as_str(), c.handle.as_str()), ("kick", ""));
    assert!(parse_channel_ref(Some(&parse_json("null").unwrap())).is_none());
}

#[test]
fn moderation_needs_a_moderator() {
    let q = "{\"actor\": {\"platform\": \"kick\", \"handle\": \"bob\"}, \"uuid7\": \"t\"}";
    let (step, p) = mod_virtual_query("mod_commend", q, "adapter", Some(0));
    match step {
        ModStep::FindActor(UserDbOp::GetUser { uuid7, platform, channel_id, handle }) => {
            assert_eq!(
                (uuid7.as_str(), platform.as_str(), channel_id.as_str(), handle.as_str()),
                ("", "kick", "bob", "bob")
            );
        }
        other => panic!("{:?}", other),
    }
    let denied = "permission denied: actor is not a moderator/admin/owner";
    match mod_actor_found("mod_commend", &p, Ok(response(true, Some(user("b", 0)))), Some(0)) {
        ModStep::Reply(r) => assert_eq!(r.error, denied),
        other => panic!("{:?}", other),
    }
    match mod_actor_found("mod_commend", &p, Ok(response(true, None)), Some(0)) {
        ModStep::Reply(r) => assert_eq!(r.error, denied),
        other => panic!("{:?}", other),
    }
    match mod_actor_found("mod_commend", &p, Err("x".to_string()), Some(0)) {
        ModStep::Reply(r) => assert_eq!(r.error, "Actor lookup failed: x"),
        other => panic!("{:?}", other),
    }
    match mod_actor_found("mod_commend", &p, Ok(response(true, Some(moderator("b")))), Some(0)) {
        ModStep::Act(UserDbOp::AddScore { uuid7, delta, .. }) => {
            assert_eq!((uuid7.as_str(), delta), ("t", 1));
        }
        other => panic!("{:?}", other),
    }
}

#[test]
fn only_the_scorer_moderates_without_an_actor() {
    let q = "{\"platform\": \"kick\", \"handle\": \"tim\"}";
    let (step, p) = mod_virtual_query("mod_reprimand", q, "score-messages", Some(0));
    assert!(matches!(step, ModStep::FindTarget(_)));
    match mod_target_found("mod_reprimand", &p, Ok(response(true, Some(user("t", 0)))), Some(0)) {
        ModStep::Act(UserDbOp::RemoveScore { uuid7, .. }) => assert_eq!(uuid7, "t"),
        other => panic!("{:?}", other),
    }
    match mod_target_found("mod_reprimand", &p, Ok(response(false, None)), Some(0)) {
        ModStep::Reply(r) => assert_eq!(r.error, "User 'tim' not found on kick"),
        other => panic!("{:?}", other),
    }
    for (id, from) in [("mod_ban", "score-messages"), ("mod_commend", "other")] {
        match mod_virtual_query(id, q, from, Some(0)).0 {
            ModStep::Reply(r) => assert_eq!(r.error, "permission denied: missing actor"),
            other => panic!("{:?}", other),
        }
    }
    match mod_virtual_query("mod_commend", "{}", "score-messages", Some(0)).0 {
        ModStep::Reply(r) => assert_eq!(r.error, "mod query requires uuid7 or platform + handle"),
        other => panic!("{:?}", other),
    }
    match mod_virtual_query("mod_commend", "{", "score-messages", Some(0)).0 {
        ModStep::Reply(r) => assert!(r.error.starts_with("Invalid mod payload: ")),
        other => panic!("{:?}", other),
    }
}

fn rating_error(step: RatingStep) -> String {
    match step {
        RatingStep::Reply(QueryReply { success: false, error, .. }) => error,
        other => panic!("{:?}", other),
    }
}

#[test]
fn nobody_rates_themselves() {
    let q = "{\"actor\": {\"uuid7\": \"a\"}, \"uuid7\": \"a\"}";
    let (step, p) = chat_rating_virtual_query("chat_commend", q, "commend");
    match step {
        RatingStep::FindGiver(UserDbOp::GetUser { uuid7, platform, .. }) => {
            assert_eq!((uuid7.as_str(), platform.as_str()), ("a", ""));
        }
        other => panic!("{:?}", other),
    }
    assert_eq!(
        rating_error(rating_giver_found("chat_commend", &p, Ok(response(true, None)))),
        "giver 'a' not found"
    );
    assert_eq!(
        rating_error(rating_giver_found("chat_commend", &p, Err("down".to_string()))),
        "giver lookup failed: down"
    );
    assert_eq!(
        rating_error(rating_giver_found("chat_commend", &p, Ok(response(true, Some(user("a", 0)))))),
        "you cannot rate yourself"
    );
    let q = "{\"actor\": {\"uuid7\": \"a\"}, \"uuid7\": \"b\", \"reason\": \"kind\"}";
    let (_, p) = chat_rating_virtual_query("chat_commend", q, "commend");
    match rating_giver_found("chat_commend", &p, Ok(response(true, Some(user("a", 0))))) {
        RatingStep::Rate(UserDbOp::RateUser {
            giver_uuid7, recipient_uuid7, is_commendation, reason, ..
        }) => {
            assert_eq!((giver_uuid7.as_str(), recipient_uuid7.as_str()), ("a", "b"));
            assert!(is_commendation);
            assert_eq!(reason, "kind");
        }
        other => panic!("{:?}", other),
    }
    let (step, _) = chat_rating_virtual_query("chat_reprimand", q, "commend");
    assert_eq!(rating_error(step), "chat_reprimand denied: not the 'reprimand' module");
    let (step, _) = chat_rating_virtual_query("chat_commend", "{}", "commend");
    assert_eq!(rating_error(step), "rating requires an actor");
    let (step, _) = chat_rating_virtual_query("chat_commend", "{\"actor\": {}}", "commend");
    assert_eq!(rating_error(step), "rating actor requires uuid7 or platform+handle");
}

#[test]
fn ratings_look_people_up() {
    let q = "{\"actor\": {\"platform\": \"kick\", \"handle\": \"gil\"}, \"platform\": \"kick\", \"handle\": \"rex\"}";
    let (step, p) = chat_rating_virtual_query("chat_reprimand", q, "reprimand");
    assert!(matches!(step, RatingStep::FindGiver(_)));
    assert_eq!(
        rating_error(rating_giver_found("chat_reprimand", &p, Ok(response(true, None)))),
        "giver 'gil' not found on kick"
    );
    match rating_giver_found("chat_reprimand", &p, Ok(response(true, Some(user("g", 0))))) {
        RatingStep::FindRecipient { giver, .. } => assert_eq!(giver, "g"),
        other => panic!("{:?}", other),
    }
    assert_eq!(
        rating_error(rating_recipient_found("chat_reprimand", &p, "g", Ok(response(true, Some(user("g", 0)))))),
        "you cannot rate yourself"
    );
    assert_eq!(
        rating_error(rating_recipient_found("chat_reprimand", &p, "g", Err("x".to_string()))),
        "target lookup failed: x"
    );
    assert!(matches!(
        rating_recipient_found("chat_reprimand", &p, "g", Ok(response(true, Some(user("r", 0))))),
        RatingStep::Rate(UserDbOp::RateUser { is_commendation: false, .. })
    ));
    assert_eq!(rating_finish(Ok(response(true, None))).text, "done");
    assert_eq!(rating_finish(Ok(response(false, None))).error, "refused");
    assert_eq!(rating_finish(Err("x".to_string())).error, "rating failed: x");
}

#[test]
fn identity_is_elevated_and_never_revoked() {
    match chat_verify_identity_virtual_query("{}", "other") {
        Err(r) => assert_eq!(r.error, "access denied: not term-chat"),
        Ok(_) => panic!("let in"),
    }
    let q = "{\"platform\": \"kick\", \"handle\": \"ann\", \"verified_roles\": {\"is_sponsor\": true}}";
    let (op, p) = match chat_verify_identity_virtual_query(q, "term-chat") {
        Ok(x) => x,
        Err(r) => panic!("{:?}", r),
    };
    assert!(matches!(op, UserDbOp::AddUser { .. }));
    match identity_added(&p, Ok(response(true, Some(moderator("u"))))) {
        UserDbStep::Ask(UserDbOp::SetRoles {
            uuid7, actor_role, is_sponsor, is_moderator, is_admin, is_owner, ..
        }) => {
            assert_eq!((uuid7.as_str(), actor_role.as_str()), ("u", "owner"));
            assert!(is_sponsor && is_moderator && !is_admin && !is_owner);
        }
        other => panic!("{:?}", other),
    }
    match identity_added(&p, Ok(response(true, None))) {
        UserDbStep::Reply(r) => assert_eq!(r.error, "chat_verify_identity: no user returned"),
        other => panic!("{:?}", other),
    }
    assert!(identity_finish(Ok(response(true, None))).success);
    assert_eq!(identity_finish(Ok(response(false, None))).error, "refused");
}

fn chat(uuid: &str) -> ChatMessage {
    ChatMessage {
        platform: "kick".to_string(),
        raw_data: vec![],
        raw_message: "hi".to_string(),
        user_uuid7: uuid.to_string(),
        command: None,
        channel_id: String::new(),
        user_data: None,
    }
}

#[test]
fn authors_are_looked_up() {
    assert!(enrich_lookup(&chat("")).is_none());
    match enrich_lookup(&chat("01890a5d-ac96-774b-bcce-b302099a8057")) {
        Some(UserDbOp::GetUser { handle, platform, .. }) => {
            assert_eq!((handle.as_str(), platform.as_str()), ("", "kick"));
        }
        other => panic!("{:?}", other),
    }
    match enrich_lookup(&chat("ann")) {
        Some(UserDbOp::GetUser { uuid7, handle, channel_id, .. }) => {
            assert_eq!((uuid7.as_str(), handle.as_str(), channel_id.as_str()), ("", "ann", "ann"));
        }
        other => panic!("{:?}", other),
    }
    assert!(enrich_user(Ok(response(false, Some(user("u", 0))))).is_none());
    assert!(enrich_user(Err("x".to_string())).is_none());
    let u = enrich_user(Ok(response(true, Some(user("u", 20))))).unwrap();
    let mut c = chat("ann");
    let mut color = response(true, None);
    color.value = Some(UserValue { key: "name_color".to_string(), value: "#fff".to_string() });
    enrich_chat_user(&mut c, u, Ok(color));
    assert_eq!(c.user_uuid7, "u");
    let css = c.user_data.unwrap().styling.unwrap().css_properties;
    let get = |k: &str| css.iter().find(|p| p.0 == k).map(|p| p.1.clone());
    assert_eq!(get("color"), Some("#fff".to_string()));
    assert_eq!(get("rank"), Some("gold".to_string()));
    assert_eq!(get("score"), Some("20".to_string()));
    assert_eq!(get("reprimands"), Some("1".to_string()));
    assert_eq!(get("commendations"), Some("2".to_string()));
}

#[test]
fn ranks_of_users() {
    for (score, rank) in [
        (50, "opal"), (49, "gold"), (20, "gold"), (19, "silver"), (5, "silver"), (4, "regular"),
        (-4, "regular"), (-5, "coal"), (-19, "coal"), (-20, "trash"),
    ] {
        assert_eq!(user_rank(&user("u", score)), rank);
    }
    let mut u = moderator("u");
    u.is_sponsor = true;
    assert_eq!(user_rank(&u), "mod");
    u.is_admin = true;
    assert_eq!(user_rank(&u), "admin");
    u.is_owner = true;
    assert_eq!(user_rank(&u), "owner");
}

#[test]
fn only_moderators_send_to_platforms() {
    let send = SendToPlatforms {
        msg: "m".to_string(),
        level: 0,
        module_uuid7: String::new(),
        pid: String::new(),
        platform: "all".to_string(),
        actor_platform: "kick".to_string(),
        actor_handle: "bob".to_string(),
        actor_uuid7: String::new(),
        channel_id: String::new(),
    };
    assert!(matches!(sender_lookup(&send), UserDbOp::GetUser { handle, .. } if handle == "bob"));
    assert!(!sender_allowed(&Ok(response(true, Some(user("u", 0))))));
    assert!(!sender_allowed(&Ok(response(true, None))));
    assert!(!sender_allowed(&Err("x".to_string())));
    assert!(sender_allowed(&Ok(response(true, Some(moderator("u"))))));
}

#[test]
fn client_knows_its_address() {
    let c = UserDbClient::new("127.0.0.1", 9736, "tok");
    assert!(c.url.contains("127.0.0.1:9736"));
    assert_eq!(c.token, "tok");
    assert!(matches!(c.list_users("kick", 5, 6), UserDbOp::ListUsers { limit: 5, offset: 6, .. }));
}

#[test]
fn users_are_stored() {
    assert_eq!(init_db().len(), 2);
    let (id, text) = add_user("ann", "kick", "42");
    assert_eq!((id.len(), &id[14..15]), (36, "7"));
    let j = parse_json(&text).unwrap();
    assert_eq!(j.text_at("uuid7", ""), id);
    assert_eq!(j.text_at("username", ""), "ann");
    assert!(text.contains("\"channels\":{\"kick\":[\"42\"]}"));
    assert!(remove_user(1) && !remove_user(0));
    assert!(get_user_data(None).is_none());
    assert_eq!(write_json(&get_user_data(Some("{")).unwrap()), "{}");
    assert_eq!(upsert_uuid(" ", "f".to_string()), "f");
    assert_eq!(upsert_uuid("own", "f".to_string()), "own");
}

#[test]
fn combined_users_have_what_either_had() {
    let a = "{\"channels\": {\"kick\": [\"1\"]}, \"points\": 2, \"totalPoints\": 3, \"totalMessages\": 4, \"isVerified\": true, \"firstSeen\": 50}";
    let b = "{\"channels\": {\"kick\": [\"1\", \"2\"], \"twitch\": [\"t\"]}, \"points\": 5, \"isSponsor\": true, \"firstSeen\": 20}";
    let t = combine_user(a, b).unwrap();
    let j = parse_json(&t).unwrap();
    assert_eq!(j.int_at("points", 0), 7);
    assert_eq!(j.int_at("totalPoints", 0), 3);
    assert_eq!(j.int_at("firstSeen", 0), 20);
    assert!(j.bool_at("isVerified") && j.bool_at("isSponsor") && !j.bool_at("isChatAdmin"));
    assert!(t.contains("\"channels\":{\"kick\":[\"1\",\"2\"],\"twitch\":[\"t\"]}"));
    let zeros = merge_users(
        parse_json("{\"channels\": {\"k\": [0.0, {\"a\": [-0.0]}]}}").unwrap(),
        &parse_json("{\"channels\": {\"k\": [-0.0, {\"a\": [0.0]}, 0, 1.5]}}").unwrap(),
    )
    .unwrap();
    let list = zeros.get("channels").unwrap().get("k").unwrap();
    assert_eq!(write_json(list), "[0.0,{\"a\":[-0.0]},0,1.5]");
    assert!(matches!(combine_user("{", b), Err(CombineError::Unreadable(_))));
    assert!(matches!(combine_user("[]", b), Err(CombineError::NotMergeable)));
    let big = format!("{{\"points\": {}}}", i64::MAX);
    assert!(merge_users(parse_json(&big).unwrap(), &parse_json(&big).unwrap()).is_none());
}

#[test]
fn user_module_keeps_users() {
    assert!(open().starts_with("CREATE TABLE IF NOT EXISTS users"));
    let u = UserData {
        uuid: String::new(),
        username: "ann".to_string(),
        is_sponsor: true,
        is_moderator: false,
        is_admin: false,
        is_owner: false,
        bans: vec![],
        commendations: vec![],
        styling: None,
        platform_ids: vec![],
    };
    let s = upsert(&u, "{}");
    assert!(s.sql.starts_with("INSERT INTO users "));
    let shown = format!("{:?}", s.params);
    assert!(shown.ends_with(
        "Text(\"ann\"), Integer(1), Integer(0), Integer(0), Integer(0), Text(\"{}\")]"
    ));
    assert_eq!(shown.find("Text(\"").unwrap(), 1);
    let mut v = u.clone();
    v.uuid = "mine".to_string();
    assert!(format!("{:?}", upsert(&v, "{}").params).starts_with("[Text(\"mine\")"));
}

fn at(secs: i64) -> Timestamp {
    Timestamp { secs, nanos: 0 }
}

fn praise(id: &str, sender: &str, secs: i64) -> CommendationRecord {
    CommendationRecord {
        id: id.to_string(),
        sender_id: sender.to_string(),
        created_at: at(secs),
        message_id: None,
    }
}

#[test]
fn ranks_rise_with_the_score() {
    let mut last = 0;
    for (score, rank, multiplier) in [
        (-400, ConductRank::Trash, 50),
        (-300, ConductRank::Dirt, 100),
        (-200, ConductRank::Concrete, 100),
        (-100, ConductRank::Copper, 75),
        (0, ConductRank::Bronze, 85),
        (100, ConductRank::Silver, 100),
        (200, ConductRank::Gold, 110),
        (300, ConductRank::Platinum, 100),
        (400, ConductRank::Diamond, 120),
        (450, ConductRank::Obsidian, 100),
        (451, ConductRank::Opal, 150),
    ] {
        assert_eq!(conduct_rank(score), rank);
        assert_eq!(rank.score_multiplier(), multiplier);
        last = score;
    }
    assert_eq!(last, 451);
    assert_eq!(conduct_rank(-399), ConductRank::Dirt);
}

#[test]
fn praise_counts_by_age_and_sender() {
    let now = at(100_000_000);
    assert_eq!(elapsed_seconds(at(10), at(25)), 15);
    assert_eq!(elapsed_seconds(at(25), at(10)), -15);
    let list = vec![praise("2", "a", 99_999_990), praise("1", "a", 99_999_980), praise("old", "a", 0)];
    let ids: Vec<String> = sort_commendations(&list).iter().map(|c| c.id.clone()).collect();
    assert_eq!(ids, ["old", "1", "2"]);
    let w = weigh_commendations(&list, now);
    assert_eq!(w.len(), 2);
    assert_eq!(w[0].elapsed, 20);
    assert_eq!(w[1].elapsed, 10);
    assert_eq!(w[1].occurrence, w[0].occurrence + 1);
}

#[test]
fn short_and_old_bans_do_not_count() {
    let now = at(100_000_000);
    let ban = |secs: i64, duration_seconds: u64| BanRecord {
        id: "b".to_string(),
        duration_seconds,
        created_at: at(secs),
    };
    assert!(weigh_bans(&vec![ban(99_999_990, 60)], now).is_empty());
    assert!(weigh_bans(&vec![ban(0, 10_000_000)], now).is_empty());
    assert_eq!(weigh_bans(&vec![ban(99_999_990, 10_000_000)], now), vec![10]);
    let mixed = vec![
        ban(99_999_990, 10_000_000),
        ban(99_999_980, 60),
        ban(0, 10_000_000),
        ban(99_999_970, 10_000_000),
    ];
    assert_eq!(weigh_bans(&mixed, now), vec![10, 30]);
}

#[test]
fn client_says_what_it_asks() {
    let c = UserDbClient::new("h", 1, "t");
    let channel = ChannelRef {
        platform: "kick".to_string(),
        channel_id: "1".to_string(),
        handle: "ann".to_string(),
    };
    let shown = |op: UserDbOp| format!("{:?}", op);
    assert_eq!(
        shown(c.delete_user("u", "a", "owner")),
        "DeleteUser { uuid7: \"u\", actor_uuid7: \"a\", actor_role: \"owner\" }"
    );
    assert_eq!(
        shown(c.add_score("u", 2, "r")),
        "AddScore { uuid7: \"u\", delta: 2, reason: \"r\" }"
    );
    assert_eq!(
        shown(c.remove_score("u", 2, "r")),
        "RemoveScore { uuid7: \"u\", delta: 2, reason: \"r\" }"
    );
    assert!(matches!(c.add_channel("u", Some(channel)), UserDbOp::AddChannel { channel: Some(_), .. }));
    assert!(matches!(c.add_user("ann", None), UserDbOp::AddUser { channel: None, .. }));
    assert_eq!(
        shown(c.remove_channel("u", "kick", "1")),
        "RemoveChannel { uuid7: \"u\", platform: \"kick\", channel_id: \"1\" }"
    );
    assert_eq!(
        shown(c.get_user("u", "p", "c", "h")),
        "GetUser { uuid7: \"u\", platform: \"p\", channel_id: \"c\", handle: \"h\" }"
    );
    assert_eq!(
        shown(c.update_flags("u", "{}")),
        "UpdateFlags { uuid7: \"u\", flags: \"{}\" }"
    );
    assert!(matches!(
        c.set_roles("u", "a", "owner", true, false, true, false),
        UserDbOp::SetRoles { is_sponsor: true, is_moderator: false, is_admin: true, is_owner: false, .. }
    ));
    assert_eq!(
        shown(c.read_user_value("u", "k")),
        "ReadUserValue { uuid7: \"u\", key: \"k\" }"
    );
    assert_eq!(
        shown(c.write_user_value("u", "k", "v")),
        "WriteUserValue { uuid7: \"u\", key: \"k\", value: \"v\" }"
    );
    assert_eq!(
        shown(c.delete_user_value("u", "k")),
        "DeleteUserValue { uuid7: \"u\", key: \"k\" }"
    );
    assert_eq!(shown(c.list_user_values("u")), "ListUserValues { uuid7: \"u\" }");
    assert!(matches!(
        c.rate_user("g", "r", true, "kick", "rex", "kind"),
        UserDbOp::RateUser { is_commendation: true, .. }
    ));
}

#[test]
fn failed_requests_are_named() {
    let c = UserDbClient::new("h", 1, "t");
    let e = || "e".to_string();
    for (exchange, words) in [
        (Exchange::NotConnected(e()), "UserDB connect failed: e"),
        (Exchange::NotSent(e()), "UserDB send failed: e"),
        (Exchange::Unreadable(e()), "e"),
        (Exchange::NotBinary, "UserDB returned non-binary message"),
        (Exchange::Broken(e()), "UserDB recv error: e"),
        (Exchange::Closed, "UserDB closed connection"),
        (Exchange::TimedOut, "UserDB request timed out"),
    ] {
        let (answer, keep) = c.request(exchange);
        assert_eq!(answer.unwrap_err(), words);
        assert!(!keep);
    }
    let (answer, keep) = c.request(Exchange::Answered(response(false, None)));
    assert_eq!(answer.unwrap().error, "refused");
    assert!(keep);
}
