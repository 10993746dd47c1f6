//! What becomes of each kind of payload: what is logged of it, where it goes, and that
//! nothing is done for a module that is not authenticated.
use crate::config::{by_priority, Config, ModuleEntry, ModuleEntryView};
use crate::handlers::connection_request::{assigned_id, position_for, welcome};
use crate::handlers::message_inprocess::place_after;
use crate::handlers::message_preprocess::Dispatch;
use crate::proto::{
    views, Container, ErrorLine, LogLine, MessageInProcess, MessagePostProcess, MessagePreProcess,
    PayloadView, Shutdown, TimelineEvent, UserData,
};
use crate::text::decimal;
use vstd::prelude::*;

verus! {

/// Nothing is logged of a module that is not authenticated. Of one that is, the line names
/// the module and holds what it said.
pub proof fn law_lines_are_logged_of_authenticated_modules(
    authenticated: bool,
    name: &str,
    log: &LogLine,
    error: &ErrorLine,
    shutdown: &Shutdown,
    user: &UserData,
    auth: Option<String>,
    ban: Option<String>,
    err: Option<String>,
    end: (Option<String>, bool),
    style: Option<String>,
)
    requires
        call_ensures(crate::handlers::auth_new::handle, (authenticated, name, log), auth),
        call_ensures(crate::handlers::ban::handle, (authenticated, name, log), ban),
        call_ensures(crate::handlers::err::handle, (authenticated, name, error), err),
        call_ensures(crate::handlers::shutdown::handle, (authenticated, name, shutdown), end),
        call_ensures(crate::handlers::user_styling_data::handle, (authenticated, user), style),
    ensures
        !authenticated ==> auth is None && ban is None && err is None && end.0 is None && style
            is None,
        end.1,
        authenticated ==> {
            &&& auth matches Some(t) && t@ == "["@ + (name@ + ("] "@ + log@.log))
            &&& ban matches Some(t) && t@ == "["@ + (name@ + ("] "@ + log@.log))
            &&& err matches Some(t) && t@ == "["@ + (name@ + ("] ERROR: "@ + error@.log))
            &&& end.0 matches Some(t) && t@ == name@ + (" shut down: "@ + shutdown@.reason)
            &&& style matches Some(t) && t@ == "User styling data update: "@ + user@.username
        },
{
    if authenticated {
        assert("["@ + name@ + "] "@ + log@.log =~= "["@ + (name@ + ("] "@ + log@.log)));
        assert("["@ + name@ + "] ERROR: "@ + error@.log =~= "["@ + (name@ + ("] ERROR: "@
            + error@.log)));
        assert(name@ + " shut down: "@ + shutdown@.reason =~= name@ + (" shut down: "@
            + shutdown@.reason));
    }
}

/// The line about registered commands says how many there are.
pub proof fn law_registered_commands_are_counted(
    authenticated: bool,
    name: &str,
    one: &crate::proto::Command,
    many: &crate::proto::Commands,
    a: Option<String>,
    b: Option<String>,
)
    requires
        call_ensures(crate::handlers::command::handle, (authenticated, name, one), a),
        call_ensures(crate::handlers::commands::handle, (authenticated, name, many), b),
    ensures
        !authenticated ==> a is None && b is None,
        authenticated ==> {
            &&& a matches Some(t) && t@ == name@ + (" registered "@ + (decimal(
                one@.command_flags.len(),
            ) + " commands"@))
            &&& b matches Some(t) && t@ == name@ + (" registered "@ + (decimal(many@.commands.len())
                + " commands"@))
        },
{
    if authenticated {
        assert(name@ + " registered "@ + decimal(one@.command_flags.len()) + " commands"@ =~= name@
            + (" registered "@ + (decimal(one@.command_flags.len()) + " commands"@)));
        assert(name@ + " registered "@ + decimal(many@.commands.len()) + " commands"@ =~= name@ + (
        " registered "@ + (decimal(many@.commands.len()) + " commands"@)));
    }
}

/// A message that comes in goes to the pre-process modules as it came, under the id of who
/// brought it, and on to the first in-process module; where there is none it goes on to the
/// post-process modules.
pub proof fn law_where_a_new_message_goes(
    message: &MessagePreProcess,
    container: &Container,
    id: &str,
    config: &Config,
    r: Dispatch,
)
    requires
        call_ensures(
            crate::handlers::message_preprocess::handle,
            (message, container, id, config),
            r,
        ),
    ensures
        r.first@.payload == container@.payload,
        r.first@.module_name == container@.module_name,
        r.first@.auth_token == container@.auth_token,
        r.first@.module_instance_uuid7 == id@,
        views(r.first_to@) == by_priority(config@.preprocess_modules),
        by_priority(config@.inprocess_modules).len() > 0 ==> r.next@ == r.first@ && views(r.next_to@)
            == seq![by_priority(config@.inprocess_modules)[0]],
        by_priority(config@.inprocess_modules).len() == 0 ==> {
            &&& views(r.next_to@) == by_priority(config@.postprocess_modules)
            &&& r.next@.payload matches Some(PayloadView::MessagePostProcess(m))
            &&& m.message_uuid7 == message@.message_uuid7
            &&& m.raw_message == message@.raw_message
            &&& m.audio == message@.audio
            &&& m.audio_type == message@.audio_type
            &&& m.processed_message.len() == 0
        },
{
    crate::laws::settings::law_positions_have_their_lists(config@, "preprocess"@);
}

/// Where an in-process module is done with a message, the place of the next one is behind
/// its own, and the first where it has none. What the displays are sent is the same message:
/// its id, its text and its audio, under the same header.
pub proof fn law_where_a_processed_message_goes(
    authenticated: bool,
    name: &str,
    container: &Container,
    message: &MessageInProcess,
    config: &Config,
    r: Result<(usize, Container), &'static str>,
)
    requires
        call_ensures(
            crate::handlers::message_inprocess::handle,
            (authenticated, name, container, message, config),
            r,
        ),
    ensures
        !authenticated ==> (r matches Err(e) && e@ == "Not authenticated"@),
        authenticated ==> {
            &&& r matches Ok(p)
            &&& p.0 == place_after(by_priority(config@.inprocess_modules), name@)
            &&& p.1@.module_name == container@.module_name
            &&& p.1@.auth_token == container@.auth_token
            &&& p.1@.module_instance_uuid7 == container@.module_instance_uuid7
            &&& p.1@.payload matches Some(PayloadView::MessagePostProcess(m))
            &&& m.message_uuid7 == message@.message_uuid7
            &&& m.raw_message == message@.raw_message
            &&& m.audio == message@.audio
            &&& m.audio_type == message@.audio_type
        },
{
    crate::laws::settings::law_positions_have_their_lists(config@, "inprocess"@);
}

proof fn lemma_entry_found(list: Seq<ModuleEntryView>, name: Seq<char>, i: int)
    requires
        0 <= i < list.len(),
        list[i].name == name,
        forall|j: int| 0 <= j < i ==> (#[trigger] list[j]).name != name,
    ensures
        crate::config::entry_at(list, name) == i,
    decreases i,
{
    if i > 0 {
        assert(list[0].name != name);
        assert forall|j: int| 0 <= j < i - 1 implies (#[trigger] list.drop_first()[j]).name
            != name by {
            assert(list.drop_first()[j] == list[j + 1]);
        }
        lemma_entry_found(list.drop_first(), name, i - 1);
    }
}

proof fn lemma_entry_missing(list: Seq<ModuleEntryView>, name: Seq<char>)
    requires
        forall|j: int| 0 <= j < list.len() ==> (#[trigger] list[j]).name != name,
    ensures
        crate::config::entry_at(list, name) == list.len(),
    decreases list.len(),
{
    if list.len() > 0 {
        assert(list[0].name != name);
        assert forall|j: int| 0 <= j < list.drop_first().len() implies (
        #[trigger] list.drop_first()[j]).name != name by {
            assert(list.drop_first()[j] == list[j + 1]);
        }
        lemma_entry_missing(list.drop_first(), name);
    }
}

/// The place behind a module is one more than its own; behind a module that is not listed
/// it is the first.
pub proof fn law_the_place_behind_a_module(list: Seq<ModuleEntryView>, name: Seq<char>, i: int)
    ensures
        0 <= i < list.len() && list[i].name == name && (forall|j: int|
            0 <= j < i ==> (#[trigger] list[j]).name != name) ==> place_after(list, name) == i + 1,
        (forall|j: int| 0 <= j < list.len() ==> (#[trigger] list[j]).name != name) ==> place_after(
            list,
            name,
        ) == 0,
{
    if 0 <= i < list.len() && list[i].name == name && (forall|j: int|
        0 <= j < i ==> (#[trigger] list[j]).name != name) {
        lemma_entry_found(list, name, i);
    }
    if forall|j: int| 0 <= j < list.len() ==> (#[trigger] list[j]).name != name {
        lemma_entry_missing(list, name);
    }
}

/// A message that is through, and an event for the timeline, go to the post-process modules;
/// the line names the author and the event.
pub proof fn law_where_the_end_goes(
    message: &MessagePostProcess,
    event: &TimelineEvent,
    authenticated: bool,
    config: &Config,
    a: (String, Vec<ModuleEntry>),
    b: Option<(String, Vec<ModuleEntry>)>,
)
    requires
        call_ensures(crate::handlers::message_postprocess::handle, (message, config), a),
        call_ensures(crate::handlers::timeline_event::handle, (authenticated, event, config), b),
    ensures
        views(a.1@) == by_priority(config@.postprocess_modules),
        message@.raw_message matches Some(chat) ==> a.0@ == "Message finalized from "@
            + chat.user_uuid7,
        message@.raw_message is None ==> a.0@ == "Message finalized from "@,
        b is Some == authenticated,
        b matches Some(p) ==> p.0@ == "Timeline: "@ + event@.i && views(p.1@) == by_priority(
            config@.postprocess_modules,
        ),
{
    crate::laws::settings::law_positions_have_their_lists(config@, "postprocess"@);
    assert("Message finalized from "@ + Seq::<char>::empty() =~= "Message finalized from "@);
}

/// The names that stand for a position; any other name is an input.
pub proof fn law_positions_by_name(lower: Seq<char>)
    ensures
        position_for("preprocess"@) == "preprocess"@,
        position_for("inprocess"@) == "inprocess"@,
        position_for("postprocess"@) == "postprocess"@,
        position_for("output"@) == "postprocess"@,
        position_for("outputs"@) == "postprocess"@,
        position_for("display"@) == "postprocess"@,
        position_for("post"@) == "postprocess"@,
        position_for("input"@) == "input"@,
        lower != "preprocess"@ && lower != "inprocess"@ && lower != "postprocess"@ && lower
            != "output"@ && lower != "outputs"@ && lower != "display"@ && lower != "post"@
            ==> position_for(lower) == "input"@,
{
    reveal_strlit("preprocess");
    reveal_strlit("inprocess");
    reveal_strlit("postprocess");
    reveal_strlit("output");
    reveal_strlit("outputs");
    reveal_strlit("display");
    reveal_strlit("post");
    reveal_strlit("input");
    assert("preprocess"@.len() == 10 && "inprocess"@.len() == 9 && "postprocess"@.len() == 11
        && "output"@.len() == 6 && "outputs"@.len() == 7 && "display"@.len() == 7 && "post"@.len()
        == 4 && "input"@.len() == 5);
}

/// A module gets the id that it asks for unless that is taken, and else the candidate; it
/// never gets one that is taken. It is told its id where it is not the one it asked for.
pub proof fn law_ids_are_unique(
    requested: Seq<char>,
    taken: Seq<Seq<char>>,
    candidate: Seq<char>,
    id: Seq<char>,
)
    ensures
        requested.len() > 0 && !taken.contains(requested) ==> assigned_id(requested, taken, candidate)
            == Some(requested),
        (requested.len() == 0 || taken.contains(requested)) && !taken.contains(candidate)
            ==> assigned_id(requested, taken, candidate) == Some(candidate),
        assigned_id(requested, taken, candidate) matches Some(u) ==> !taken.contains(u),
        ({
            let r = welcome(id, requested);
            &&& r.module_instance_uuid7 == id
            &&& r.auth_token.len() == 0
            &&& r.module_name == "cockatiel"@
            &&& r.version == 1
            &&& r.payload matches Some(PayloadView::ConnectionRequestReturn(x))
            &&& id != requested ==> x.module_instance_uuid7 == id
            &&& id == requested ==> x.module_instance_uuid7.len() == 0
            &&& x.new_port == 0
        }),
{
}

} // verus!
