//! The user module: it keeps users, and the settings of modules in one file.
use crate::database::{SqlValue, SqlValueView, Statement, StatementView};
use crate::json::{
    json_pretty, json_read, member, no_members, object, parse_json, put, reads_back,
    write_pretty, Json, JsonView,
};
use crate::proto::{opt_view, UserData, UserDataView};
use crate::random::{fresh_uuid7, is_uuid_text};
use crate::text::trim;
use crate::user_store::upsert_uuid;
use vstd::prelude::*;

verus! {

/// The statement that makes the tables.
pub fn open() -> (r: &'static str)
    ensures
        r@ == "CREATE TABLE IF NOT EXISTS users (
    uuid7 TEXT PRIMARY KEY,
    username TEXT NOT NULL,
    is_sponsor INTEGER NOT NULL DEFAULT 0,
    is_moderator INTEGER NOT NULL DEFAULT 0,
    is_admin INTEGER NOT NULL DEFAULT 0,
    is_owner INTEGER NOT NULL DEFAULT 0,
    data_json TEXT NOT NULL
);
CREATE INDEX IF NOT EXISTS idx_users_username ON users(username);"@,
{
    "CREATE TABLE IF NOT EXISTS users (
    uuid7 TEXT PRIMARY KEY,
    username TEXT NOT NULL,
    is_sponsor INTEGER NOT NULL DEFAULT 0,
    is_moderator INTEGER NOT NULL DEFAULT 0,
    is_admin INTEGER NOT NULL DEFAULT 0,
    is_owner INTEGER NOT NULL DEFAULT 0,
    data_json TEXT NOT NULL
);
CREATE INDEX IF NOT EXISTS idx_users_username ON users(username);"
}

/// A flag as the database keeps it.
pub open spec fn flag_value(b: bool) -> SqlValueView {
    SqlValueView::Integer(
        if b {
            1
        } else {
            0
        },
    )
}

fn flag_param(b: bool) -> (r: SqlValue)
    ensures
        r@ == flag_value(b),
{
    SqlValue::Integer(
        if b {
            1
        } else {
            0
        },
    )
}

/// The statement that keeps a user under an id, in place of one with that id.
pub open spec fn kept_user(id: Seq<char>, u: UserDataView, data_json: Seq<char>) -> StatementView {
    StatementView {
        sql: "INSERT INTO users (uuid7, username, is_sponsor, is_moderator, is_admin, is_owner, data_json) VALUES (?1, ?2, ?3, ?4, ?5, ?6, ?7) ON CONFLICT(uuid7) DO UPDATE SET username = excluded.username, is_sponsor = excluded.is_sponsor, is_moderator = excluded.is_moderator, is_admin = excluded.is_admin, is_owner = excluded.is_owner, data_json = excluded.data_json"@,
        params: seq![
            SqlValueView::Text(id),
            SqlValueView::Text(u.username),
            flag_value(u.is_sponsor),
            flag_value(u.is_moderator),
            flag_value(u.is_admin),
            flag_value(u.is_owner),
            SqlValueView::Text(data_json),
        ],
    }
}

/// The statement that keeps a user, given the text of the whole record: under the user's
/// own id, or under a fresh one where there is none.
pub fn upsert(user: &UserData, data_json: &str) -> (r: Statement)
    ensures
        exists|id: Seq<char>|
            {
                &&& r@ == #[trigger] kept_user(id, user@, data_json@)
                &&& trim(user@.uuid).len() > 0 ==> id == user@.uuid
                &&& trim(user@.uuid).len() == 0 ==> is_uuid_text(id, 7)
            },
{
    let fresh = fresh_uuid7();
    let id = upsert_uuid(user.uuid.as_str(), fresh);
    let ghost said = id@;
    let mut p: Vec<SqlValue> = Vec::new();
    p.push(SqlValue::Text(id));
    p.push(SqlValue::Text(user.username.clone()));
    p.push(flag_param(user.is_sponsor));
    p.push(flag_param(user.is_moderator));
    p.push(flag_param(user.is_admin));
    p.push(flag_param(user.is_owner));
    p.push(SqlValue::Text(data_json.to_owned()));
    let r = Statement {
        sql: "INSERT INTO users (uuid7, username, is_sponsor, is_moderator, is_admin, is_owner, data_json) VALUES (?1, ?2, ?3, ?4, ?5, ?6, ?7) ON CONFLICT(uuid7) DO UPDATE SET username = excluded.username, is_sponsor = excluded.is_sponsor, is_moderator = excluded.is_moderator, is_admin = excluded.is_admin, is_owner = excluded.is_owner, data_json = excluded.data_json".to_owned(),
        params: p,
    };
    assert(r@.params =~= kept_user(said, user@, data_json@).params);
    assert(r@ == kept_user(said, user@, data_json@));
    r
}

/// The settings of modules, in one file.
#[derive(Debug)]
pub struct ConfigManager {
    config_path: String,
}

/// What a file of settings says; a file that is missing or cannot be read says nothing.
pub open spec fn settings_in(file: Option<Seq<char>>) -> JsonView {
    match file {
        Some(t) => match json_read(t) {
            Ok(v) => v,
            Err(_) => JsonView::Object(Map::empty()),
        },
        None => JsonView::Object(Map::empty()),
    }
}

/// Settings with those of one module; `None` where they have no members to set.
pub open spec fn settings_with(
    settings: JsonView,
    module_name: Seq<char>,
    config: JsonView,
) -> Option<JsonView> {
    match settings {
        JsonView::Object(m) => Some(JsonView::Object(m.insert(module_name, config))),
        JsonView::Null => Some(JsonView::Object(Map::empty().insert(module_name, config))),
        _ => None,
    }
}

/// What the text of a file holds for a module.
pub open spec fn settings_for(data: Option<Seq<char>>, module_name: Seq<char>) -> Option<JsonView> {
    match data {
        Some(t) => match json_read(t) {
            Ok(v) => member(v, module_name),
            Err(_) => None,
        },
        None => None,
    }
}

impl ConfigManager {
    /// The file.
    pub closed spec fn file(&self) -> Seq<char> {
        self.config_path@
    }

    /// Settings in a file.
    pub fn new(path: &str) -> (r: Self)
        ensures
            r.file() == path@,
    {
        ConfigManager { config_path: path.to_owned() }
    }

    /// The file that the settings are in.
    pub fn path(&self) -> (r: &str)
        ensures
            r@ == self.file(),
    {
        self.config_path.as_str()
    }

    /// The settings of a module, given the text of the file if it can be read.
    pub fn get_config(&self, data: Option<&str>, module_name: &str) -> (r: Option<Json>)
        ensures
            opt_view(r) == settings_for(opt_view(data), module_name@),
    {
        let text = match data {
            Some(t) => t,
            None => {
                return None;
            },
        };
        match parse_json(text) {
            Ok(v) => match v.get(module_name) {
                Some(j) => Some(j.clone()),
                None => None,
            },
            Err(_) => None,
        }
    }

    /// The text of the file with the settings of a module, given its text so far; `None`
    /// where the file holds something that has no members.
    pub fn save_config(&self, data: Option<&str>, module_name: &str, module_config: Json) -> (r:
        Option<String>)
        ensures
            (match settings_with(settings_in(opt_view(data)), module_name@, module_config@) {
                Some(v) => r matches Some(t) && t@ == json_pretty(v) && (reads_back(v)
                    ==> settings_for(Some(t@), module_name@) == Some(module_config@)),
                None => r is None,
            }),
    {
        let settings = match data {
            Some(t) => match parse_json(t) {
                Ok(v) => v,
                Err(_) => object(no_members()),
            },
            None => object(no_members()),
        };
        proof {
            crate::json::lemma_json_view(settings);
        }
        match settings {
            Json::Object(pairs) => {
                let mut pairs = pairs;
                put(&mut pairs, module_name, module_config);
                Some(write_pretty(&object(pairs)))
            },
            Json::Null => {
                let mut pairs = no_members();
                put(&mut pairs, module_name, module_config);
                Some(write_pretty(&object(pairs)))
            },
            _ => None,
        }
    }
}

/// The settings of a module are found as they were saved, and those of other modules are
/// not touched.
pub proof fn law_saved_settings_are_found(
    settings: JsonView,
    module_name: Seq<char>,
    config: JsonView,
    other: Seq<char>,
)
    requires
        other != module_name,
    ensures
        settings_with(settings, module_name, config) matches Some(v) ==> {
            &&& member(v, module_name) == Some(config)
            &&& member(v, other) == member(settings, other)
        },
{
}

} // verus!
