//! What tables and files hold at first.
use crate::config::default_settings;
use crate::database::timeline_schema;
use crate::laws::chat::holds_text;
use crate::user_store::store_schema;
use vstd::prelude::*;

verus! {

proof fn lemma_part(whole: Seq<char>, part: Seq<char>, i: int)
    requires
        0 <= i,
        i + part.len() <= whole.len(),
        forall|j: int| 0 <= j < part.len() ==> whole[i + j] == #[trigger] part[j],
    ensures
        holds_text(whole, part),
{
    let a = whole.take(i);
    let b = whole.skip(i + part.len());
    assert(a + part + b =~= whole);
}

/// The timeline has a column for everything that is kept of a message, the kind of each, and
/// what stands there where nothing was said.
pub proof fn law_the_timeline_has_its_columns()
    ensures
        holds_text(timeline_schema()[0], "uuid7 BLOB PRIMARY KEY"@),
        holds_text(timeline_schema()[0], "schema_version INTEGER NOT NULL DEFAULT 1"@),
        holds_text(timeline_schema()[0], "event_type INTEGER NOT NULL DEFAULT 1"@),
        holds_text(timeline_schema()[0], "platform TEXT"@),
        holds_text(timeline_schema()[0], "raw_data BLOB"@),
        holds_text(timeline_schema()[0], "raw_message TEXT NOT NULL"@),
        holds_text(timeline_schema()[0], "command TEXT"@),
        holds_text(timeline_schema()[0], "flags TEXT"@),
        holds_text(timeline_schema()[0], "data_blob BLOB"@),
        holds_text(timeline_schema()[0], "user_uuid7 TEXT"@),
        holds_text(timeline_schema()[0], "processed_message TEXT"@),
        holds_text(timeline_schema()[0], "error_message TEXT"@),
        holds_text(timeline_schema()[0], "pre_process_completed_at INTEGER"@),
        holds_text(timeline_schema()[0], "in_process_completed_at INTEGER"@),
        holds_text(timeline_schema()[0], "post_process_completed_at INTEGER"@),
        holds_text(timeline_schema()[0], "persisted_at INTEGER"@),
        holds_text(timeline_schema()[0], "pipeline_status TEXT NOT NULL DEFAULT 'queued'"@),
        holds_text(timeline_schema()[0], "synced_at INTEGER"@),
{
    let whole = timeline_schema()[0];
    reveal_strlit("CREATE TABLE IF NOT EXISTS timeline_events (
    uuid7 BLOB PRIMARY KEY,
    schema_version INTEGER NOT NULL DEFAULT 1,
    event_type INTEGER NOT NULL DEFAULT 1,
    platform TEXT,
    raw_data BLOB,
    raw_message TEXT NOT NULL,
    command TEXT,
    flags TEXT,
    data_blob BLOB,
    user_uuid7 TEXT,
    processed_message TEXT,
    error_message TEXT,
    pre_process_completed_at INTEGER,
    in_process_completed_at INTEGER,
    post_process_completed_at INTEGER,
    persisted_at INTEGER,
    pipeline_status TEXT NOT NULL DEFAULT 'queued',
    synced_at INTEGER
)");
    assert(holds_text(whole, "uuid7 BLOB PRIMARY KEY"@)) by {
        reveal_strlit("uuid7 BLOB PRIMARY KEY");
        lemma_part(whole, "uuid7 BLOB PRIMARY KEY"@, 49);
    }
    assert(holds_text(whole, "schema_version INTEGER NOT NULL DEFAULT 1"@)) by {
        reveal_strlit("schema_version INTEGER NOT NULL DEFAULT 1");
        lemma_part(whole, "schema_version INTEGER NOT NULL DEFAULT 1"@, 77);
    }
    assert(holds_text(whole, "event_type INTEGER NOT NULL DEFAULT 1"@)) by {
        reveal_strlit("event_type INTEGER NOT NULL DEFAULT 1");
        lemma_part(whole, "event_type INTEGER NOT NULL DEFAULT 1"@, 124);
    }
    assert(holds_text(whole, "platform TEXT"@)) by {
        reveal_strlit("platform TEXT");
        lemma_part(whole, "platform TEXT"@, 167);
    }
    assert(holds_text(whole, "raw_data BLOB"@)) by {
        reveal_strlit("raw_data BLOB");
        lemma_part(whole, "raw_data BLOB"@, 186);
    }
    assert(holds_text(whole, "raw_message TEXT NOT NULL"@)) by {
        reveal_strlit("raw_message TEXT NOT NULL");
        lemma_part(whole, "raw_message TEXT NOT NULL"@, 205);
    }
    assert(holds_text(whole, "command TEXT"@)) by {
        reveal_strlit("command TEXT");
        lemma_part(whole, "command TEXT"@, 236);
    }
    assert(holds_text(whole, "flags TEXT"@)) by {
        reveal_strlit("flags TEXT");
        lemma_part(whole, "flags TEXT"@, 254);
    }
    assert(holds_text(whole, "data_blob BLOB"@)) by {
        reveal_strlit("data_blob BLOB");
        lemma_part(whole, "data_blob BLOB"@, 270);
    }
    assert(holds_text(whole, "user_uuid7 TEXT"@)) by {
        reveal_strlit("user_uuid7 TEXT");
        lemma_part(whole, "user_uuid7 TEXT"@, 290);
    }
    assert(holds_text(whole, "processed_message TEXT"@)) by {
        reveal_strlit("processed_message TEXT");
        lemma_part(whole, "processed_message TEXT"@, 311);
    }
    assert(holds_text(whole, "error_message TEXT"@)) by {
        reveal_strlit("error_message TEXT");
        lemma_part(whole, "error_message TEXT"@, 339);
    }
    assert(holds_text(whole, "pre_process_completed_at INTEGER"@)) by {
        reveal_strlit("pre_process_completed_at INTEGER");
        lemma_part(whole, "pre_process_completed_at INTEGER"@, 363);
    }
    assert(holds_text(whole, "in_process_completed_at INTEGER"@)) by {
        reveal_strlit("in_process_completed_at INTEGER");
        lemma_part(whole, "in_process_completed_at INTEGER"@, 401);
    }
    assert(holds_text(whole, "post_process_completed_at INTEGER"@)) by {
        reveal_strlit("post_process_completed_at INTEGER");
        lemma_part(whole, "post_process_completed_at INTEGER"@, 438);
    }
    assert(holds_text(whole, "persisted_at INTEGER"@)) by {
        reveal_strlit("persisted_at INTEGER");
        lemma_part(whole, "persisted_at INTEGER"@, 477);
    }
    assert(holds_text(whole, "pipeline_status TEXT NOT NULL DEFAULT 'queued'"@)) by {
        reveal_strlit("pipeline_status TEXT NOT NULL DEFAULT 'queued'");
        lemma_part(whole, "pipeline_status TEXT NOT NULL DEFAULT 'queued'"@, 503);
    }
    assert(holds_text(whole, "synced_at INTEGER"@)) by {
        reveal_strlit("synced_at INTEGER");
        lemma_part(whole, "synced_at INTEGER"@, 555);
    }
}

/// The user store keeps users by id, with their name, score and document.
pub proof fn law_users_have_their_columns()
    ensures
        holds_text(store_schema()[0], "uuid7 TEXT PRIMARY KEY"@),
        holds_text(store_schema()[0], "username TEXT NOT NULL"@),
        holds_text(store_schema()[0], "conduct_score REAL NOT NULL"@),
        holds_text(store_schema()[0], "data_json TEXT NOT NULL"@),
{
    let whole = store_schema()[0];
    reveal_strlit("CREATE TABLE IF NOT EXISTS users (
            uuid7 TEXT PRIMARY KEY,
            username TEXT NOT NULL,
            conduct_score REAL NOT NULL,
            data_json TEXT NOT NULL
        )");
    assert(holds_text(whole, "uuid7 TEXT PRIMARY KEY"@)) by {
        reveal_strlit("uuid7 TEXT PRIMARY KEY");
        lemma_part(whole, "uuid7 TEXT PRIMARY KEY"@, 47);
    }
    assert(holds_text(whole, "username TEXT NOT NULL"@)) by {
        reveal_strlit("username TEXT NOT NULL");
        lemma_part(whole, "username TEXT NOT NULL"@, 83);
    }
    assert(holds_text(whole, "conduct_score REAL NOT NULL"@)) by {
        reveal_strlit("conduct_score REAL NOT NULL");
        lemma_part(whole, "conduct_score REAL NOT NULL"@, 119);
    }
    assert(holds_text(whole, "data_json TEXT NOT NULL"@)) by {
        reveal_strlit("data_json TEXT NOT NULL");
        lemma_part(whole, "data_json TEXT NOT NULL"@, 160);
    }
}

/// The user store keeps what users said, with who said it, where and when.
pub proof fn law_stored_events_have_their_columns()
    ensures
        holds_text(store_schema()[1], "event_uuid TEXT PRIMARY KEY"@),
        holds_text(store_schema()[1], "user_uuid TEXT NOT NULL"@),
        holds_text(store_schema()[1], "platform TEXT NOT NULL"@),
        holds_text(store_schema()[1], "raw_message TEXT NOT NULL"@),
        holds_text(store_schema()[1], "processed_message TEXT NOT NULL"@),
        holds_text(store_schema()[1], "is_final BOOLEAN NOT NULL"@),
        holds_text(store_schema()[1], "timestamp TEXT NOT NULL"@),
        holds_text(store_schema()[1], "FOREIGN KEY(user_uuid) REFERENCES users(uuid7)"@),
{
    let whole = store_schema()[1];
    reveal_strlit("CREATE TABLE IF NOT EXISTS timeline_events (
            event_uuid TEXT PRIMARY KEY,
            user_uuid TEXT NOT NULL,
            platform TEXT NOT NULL,
            raw_message TEXT NOT NULL,
            processed_message TEXT NOT NULL,
            is_final BOOLEAN NOT NULL,
            timestamp TEXT NOT NULL,
            FOREIGN KEY(user_uuid) REFERENCES users(uuid7)
        )");
    assert(holds_text(whole, "event_uuid TEXT PRIMARY KEY"@)) by {
        reveal_strlit("event_uuid TEXT PRIMARY KEY");
        lemma_part(whole, "event_uuid TEXT PRIMARY KEY"@, 57);
    }
    assert(holds_text(whole, "user_uuid TEXT NOT NULL"@)) by {
        reveal_strlit("user_uuid TEXT NOT NULL");
        lemma_part(whole, "user_uuid TEXT NOT NULL"@, 98);
    }
    assert(holds_text(whole, "platform TEXT NOT NULL"@)) by {
        reveal_strlit("platform TEXT NOT NULL");
        lemma_part(whole, "platform TEXT NOT NULL"@, 135);
    }
    assert(holds_text(whole, "raw_message TEXT NOT NULL"@)) by {
        reveal_strlit("raw_message TEXT NOT NULL");
        lemma_part(whole, "raw_message TEXT NOT NULL"@, 171);
    }
    assert(holds_text(whole, "processed_message TEXT NOT NULL"@)) by {
        reveal_strlit("processed_message TEXT NOT NULL");
        lemma_part(whole, "processed_message TEXT NOT NULL"@, 210);
    }
    assert(holds_text(whole, "is_final BOOLEAN NOT NULL"@)) by {
        reveal_strlit("is_final BOOLEAN NOT NULL");
        lemma_part(whole, "is_final BOOLEAN NOT NULL"@, 255);
    }
    assert(holds_text(whole, "timestamp TEXT NOT NULL"@)) by {
        reveal_strlit("timestamp TEXT NOT NULL");
        lemma_part(whole, "timestamp TEXT NOT NULL"@, 294);
    }
    assert(holds_text(whole, "FOREIGN KEY(user_uuid) REFERENCES users(uuid7)"@)) by {
        reveal_strlit("FOREIGN KEY(user_uuid) REFERENCES users(uuid7)");
        lemma_part(whole, "FOREIGN KEY(user_uuid) REFERENCES users(uuid7)"@, 331);
    }
}

/// The settings that are written first: where the timeline lies, the port, no modules, and
/// the defaults for probes and approval.
pub proof fn law_the_first_settings()
    ensures
        holds_text(default_settings(), "\"timeline_database_location\": \"./cockatiel_data.db\""@),
        holds_text(default_settings(), "\"timeline_database_backup_location\": \"./cockatiel_backup.db\""@),
        holds_text(default_settings(), "\"port\": 9734"@),
        holds_text(default_settings(), "\"inputs\": []"@),
        holds_text(default_settings(), "\"preprocessModules\": []"@),
        holds_text(default_settings(), "\"inprocessModules\": []"@),
        holds_text(default_settings(), "\"postprocessModules\": []"@),
        holds_text(default_settings(), "\"module_probe_interval_secs\": 30"@),
        holds_text(default_settings(), "\"module_probe_response_secs\": 15"@),
        holds_text(default_settings(), "\"module_approval_policy\": \"auto-deny\""@),
{
    let whole = default_settings();
    reveal_strlit("{
    \"timeline_database_location\": \"./cockatiel_data.db\",
    \"timeline_database_backup_location\": \"./cockatiel_backup.db\",
    \"port\": 9734,
    \"inputs\": [],
    \"preprocessModules\": [],
    \"inprocessModules\": [],
    \"postprocessModules\": [],
    \"module_probe_interval_secs\": 30,
    \"module_probe_response_secs\": 15,
    \"module_approval_policy\": \"auto-deny\"
}");
    assert(holds_text(whole, "\"timeline_database_location\": \"./cockatiel_data.db\""@)) by {
        reveal_strlit("\"timeline_database_location\": \"./cockatiel_data.db\"");
        lemma_part(whole, "\"timeline_database_location\": \"./cockatiel_data.db\""@, 6);
    }
    assert(holds_text(whole, "\"timeline_database_backup_location\": \"./cockatiel_backup.db\""@)) by {
        reveal_strlit("\"timeline_database_backup_location\": \"./cockatiel_backup.db\"");
        lemma_part(whole, "\"timeline_database_backup_location\": \"./cockatiel_backup.db\""@, 63);
    }
    assert(holds_text(whole, "\"port\": 9734"@)) by {
        reveal_strlit("\"port\": 9734");
        lemma_part(whole, "\"port\": 9734"@, 129);
    }
    assert(holds_text(whole, "\"inputs\": []"@)) by {
        reveal_strlit("\"inputs\": []");
        lemma_part(whole, "\"inputs\": []"@, 147);
    }
    assert(holds_text(whole, "\"preprocessModules\": []"@)) by {
        reveal_strlit("\"preprocessModules\": []");
        lemma_part(whole, "\"preprocessModules\": []"@, 165);
    }
    assert(holds_text(whole, "\"inprocessModules\": []"@)) by {
        reveal_strlit("\"inprocessModules\": []");
        lemma_part(whole, "\"inprocessModules\": []"@, 194);
    }
    assert(holds_text(whole, "\"postprocessModules\": []"@)) by {
        reveal_strlit("\"postprocessModules\": []");
        lemma_part(whole, "\"postprocessModules\": []"@, 222);
    }
    assert(holds_text(whole, "\"module_probe_interval_secs\": 30"@)) by {
        reveal_strlit("\"module_probe_interval_secs\": 30");
        lemma_part(whole, "\"module_probe_interval_secs\": 30"@, 252);
    }
    assert(holds_text(whole, "\"module_probe_response_secs\": 15"@)) by {
        reveal_strlit("\"module_probe_response_secs\": 15");
        lemma_part(whole, "\"module_probe_response_secs\": 15"@, 290);
    }
    assert(holds_text(whole, "\"module_approval_policy\": \"auto-deny\""@)) by {
        reveal_strlit("\"module_approval_policy\": \"auto-deny\"");
        lemma_part(whole, "\"module_approval_policy\": \"auto-deny\""@, 328);
    }
}

} // verus!
