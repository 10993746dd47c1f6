//! The messages that modules and the engine exchange, as plain values.
use crate::text::texts;
use vstd::prelude::*;

verus! {

/// The texts of a list of strings.
pub fn clone_texts(v: &Vec<String>) -> (r: Vec<String>)
    ensures
        texts(r@) == texts(v@),
{
    let mut out: Vec<String> = Vec::new();
    for i in 0..v.len()
        invariant
            out@.len() == i,
            forall|j: int| 0 <= j < i ==> (#[trigger] out@[j])@ == v@[j]@,
    {
        out.push(v[i].clone());
    }
    assert(texts(out@) =~= texts(v@));
    out
}

/// The views of the items of a list.
pub open spec fn views<T: View>(v: Seq<T>) -> Seq<T::V> {
    v.map_values(|x: T| x@)
}

/// The view of an optional value.
pub open spec fn opt_view<T: View>(v: Option<T>) -> Option<T::V> {
    match v {
        Some(x) => Some(x@),
        None => None,
    }
}

/// The texts of a list of pairs.
pub open spec fn pair_views(v: Seq<(String, String)>) -> Seq<(Seq<char>, Seq<char>)> {
    v.map_values(|p: (String, String)| (p.0@, p.1@))
}

/// A copy of a list, of a type whose clones say the same.
pub fn clone_all<T: View + Clone>(v: &Vec<T>) -> (r: Vec<T>)
    requires
        forall|x: T, y: T| #[trigger] cloned(x, y) ==> x@ == y@,
    ensures
        views(r@) == views(v@),
{
    let mut out: Vec<T> = Vec::new();
    for i in 0..v.len()
        invariant
            forall|x: T, y: T| #[trigger] cloned(x, y) ==> x@ == y@,
            out@.len() == i,
            forall|j: int| 0 <= j < i ==> (#[trigger] out@[j])@ == v@[j]@,
    {
        let x = v[i].clone();
        assert(cloned(v@[i as int], x));
        out.push(x);
    }
    assert(views(out@) =~= views(v@));
    out
}

/// A copy of an optional value, of a type whose clones say the same.
pub fn clone_opt<T: View + Clone>(v: &Option<T>) -> (r: Option<T>)
    requires
        forall|x: T, y: T| #[trigger] cloned(x, y) ==> x@ == y@,
    ensures
        opt_view(r) == opt_view(*v),
{
    match v {
        Some(x) => {
            let y = x.clone();
            assert(cloned(*x, y));
            Some(y)
        },
        None => None,
    }
}

/// A copy of bytes.
pub fn clone_bytes(v: &Vec<u8>) -> (r: Vec<u8>)
    ensures
        r@ == v@,
{
    let r = v.clone();
    assert(r@ =~= v@);
    r
}

/// A copy of a list of byte strings.
pub fn clone_blobs(v: &Vec<Vec<u8>>) -> (r: Vec<Vec<u8>>)
    ensures
        views(r@) == views(v@),
{
    let mut out: Vec<Vec<u8>> = Vec::new();
    for i in 0..v.len()
        invariant
            out@.len() == i,
            forall|j: int| 0 <= j < i ==> (#[trigger] out@[j])@ == v@[j]@,
    {
        out.push(clone_bytes(&v[i]));
    }
    assert(views(out@) =~= views(v@));
    out
}

/// A copy of a list of pairs.
pub fn clone_pairs(v: &Vec<(String, String)>) -> (r: Vec<(String, String)>)
    ensures
        pair_views(r@) == pair_views(v@),
{
    let mut out: Vec<(String, String)> = Vec::new();
    for i in 0..v.len()
        invariant
            out@.len() == i,
            forall|j: int|
                0 <= j < i ==> (#[trigger] out@[j]).0@ == v@[j].0@ && out@[j].1@ == v@[j].1@,
    {
        out.push((v[i].0.clone(), v[i].1.clone()));
    }
    assert(pair_views(out@) =~= pair_views(v@));
    out
}

/// An option of a command. The limits are the bit patterns of IEEE 754 doubles.
#[derive(Debug)]
pub struct Flag {
    pub flag_name: String,
    pub flag_description: String,
    pub limiting_type: i32,
    pub min_val: u64,
    pub max_val: u64,
    pub options: Vec<String>,
    pub value: String,
}

/// What a [`Flag`] says.
#[verifier::ext_equal]
pub struct FlagView {
    pub flag_name: Seq<char>,
    pub flag_description: Seq<char>,
    pub limiting_type: i32,
    pub min_val: u64,
    pub max_val: u64,
    pub options: Seq<Seq<char>>,
    pub value: Seq<char>,
}

impl View for Flag {
    type V = FlagView;

    open spec fn view(&self) -> FlagView {
        FlagView {
            flag_name: self.flag_name@,
            flag_description: self.flag_description@,
            limiting_type: self.limiting_type,
            min_val: self.min_val,
            max_val: self.max_val,
            options: texts(self.options@),
            value: self.value@,
        }
    }
}

impl Clone for Flag {
    fn clone(&self) -> (r: Self)
        ensures
            r@ == self@,
    {
        Flag {
            flag_name: self.flag_name.clone(),
            flag_description: self.flag_description.clone(),
            limiting_type: self.limiting_type,
            min_val: self.min_val,
            max_val: self.max_val,
            options: clone_texts(&self.options),
            value: self.value.clone(),
        }
    }
}

/// A chat command: the prefix it is called with, its name and its options.
#[derive(Debug)]
pub struct Command {
    pub command_name: String,
    pub command_flag: String,
    pub command_description: String,
    pub command_flags: Vec<Flag>,
}

/// What a [`Command`] says.
#[verifier::ext_equal]
pub struct CommandView {
    pub command_name: Seq<char>,
    pub command_flag: Seq<char>,
    pub command_description: Seq<char>,
    pub command_flags: Seq<FlagView>,
}

impl View for Command {
    type V = CommandView;

    open spec fn view(&self) -> CommandView {
        CommandView {
            command_name: self.command_name@,
            command_flag: self.command_flag@,
            command_description: self.command_description@,
            command_flags: views(self.command_flags@),
        }
    }
}

impl Clone for Command {
    fn clone(&self) -> (r: Self)
        ensures
            r@ == self@,
    {
        Command {
            command_name: self.command_name.clone(),
            command_flag: self.command_flag.clone(),
            command_description: self.command_description.clone(),
            command_flags: clone_all(&self.command_flags),
        }
    }
}

/// A module's registration: the commands it wants to be sent.
#[derive(Debug)]
pub struct Commands {
    pub commands: Vec<Command>,
    pub alert_on_unknown_command: bool,
}

/// What a [`Commands`] says.
#[verifier::ext_equal]
pub struct CommandsView {
    pub commands: Seq<CommandView>,
    pub alert_on_unknown_command: bool,
}

impl View for Commands {
    type V = CommandsView;

    open spec fn view(&self) -> CommandsView {
        CommandsView {
            commands: views(self.commands@),
            alert_on_unknown_command: self.alert_on_unknown_command,
        }
    }
}

impl Clone for Commands {
    fn clone(&self) -> (r: Self)
        ensures
            r@ == self@,
    {
        Commands {
            commands: clone_all(&self.commands),
            alert_on_unknown_command: self.alert_on_unknown_command,
        }
    }
}

/// How a user's messages are styled: CSS properties by name.
#[derive(Debug)]
pub struct UserStylingTemplate {
    pub css_properties: Vec<(String, String)>,
}

/// What a [`UserStylingTemplate`] says.
#[verifier::ext_equal]
pub struct UserStylingTemplateView {
    pub css_properties: Seq<(Seq<char>, Seq<char>)>,
}

impl View for UserStylingTemplate {
    type V = UserStylingTemplateView;

    open spec fn view(&self) -> UserStylingTemplateView {
        UserStylingTemplateView {
            css_properties: pair_views(self.css_properties@),
        }
    }
}

impl Clone for UserStylingTemplate {
    fn clone(&self) -> (r: Self)
        ensures
            r@ == self@,
    {
        UserStylingTemplate {
            css_properties: clone_pairs(&self.css_properties),
        }
    }
}

/// A user as modules see them. Bans and commendations are carried in their encoded form.
#[derive(Debug)]
pub struct UserData {
    pub uuid: String,
    pub username: String,
    pub is_sponsor: bool,
    pub is_moderator: bool,
    pub is_admin: bool,
    pub is_owner: bool,
    pub bans: Vec<Vec<u8>>,
    pub commendations: Vec<Vec<u8>>,
    pub styling: Option<UserStylingTemplate>,
    pub platform_ids: Vec<(String, String)>,
}

/// What a [`UserData`] says.
#[verifier::ext_equal]
pub struct UserDataView {
    pub uuid: Seq<char>,
    pub username: Seq<char>,
    pub is_sponsor: bool,
    pub is_moderator: bool,
    pub is_admin: bool,
    pub is_owner: bool,
    pub bans: Seq<Seq<u8>>,
    pub commendations: Seq<Seq<u8>>,
    pub styling: Option<UserStylingTemplateView>,
    pub platform_ids: Seq<(Seq<char>, Seq<char>)>,
}

impl View for UserData {
    type V = UserDataView;

    open spec fn view(&self) -> UserDataView {
        UserDataView {
            uuid: self.uuid@,
            username: self.username@,
            is_sponsor: self.is_sponsor,
            is_moderator: self.is_moderator,
            is_admin: self.is_admin,
            is_owner: self.is_owner,
            bans: views(self.bans@),
            commendations: views(self.commendations@),
            styling: opt_view(self.styling),
            platform_ids: pair_views(self.platform_ids@),
        }
    }
}

impl Clone for UserData {
    fn clone(&self) -> (r: Self)
        ensures
            r@ == self@,
    {
        UserData {
            uuid: self.uuid.clone(),
            username: self.username.clone(),
            is_sponsor: self.is_sponsor,
            is_moderator: self.is_moderator,
            is_admin: self.is_admin,
            is_owner: self.is_owner,
            bans: clone_blobs(&self.bans),
            commendations: clone_blobs(&self.commendations),
            styling: clone_opt(&self.styling),
            platform_ids: clone_pairs(&self.platform_ids),
        }
    }
}

/// A chat message.
#[derive(Debug)]
pub struct ChatMessage {
    pub platform: String,
    pub raw_data: Vec<u8>,
    pub raw_message: String,
    pub user_uuid7: String,
    pub command: Option<Command>,
    pub channel_id: String,
    pub user_data: Option<UserData>,
}

/// What a [`ChatMessage`] says.
#[verifier::ext_equal]
pub struct ChatMessageView {
    pub platform: Seq<char>,
    pub raw_data: Seq<u8>,
    pub raw_message: Seq<char>,
    pub user_uuid7: Seq<char>,
    pub command: Option<CommandView>,
    pub channel_id: Seq<char>,
    pub user_data: Option<UserDataView>,
}

impl View for ChatMessage {
    type V = ChatMessageView;

    open spec fn view(&self) -> ChatMessageView {
        ChatMessageView {
            platform: self.platform@,
            raw_data: self.raw_data@,
            raw_message: self.raw_message@,
            user_uuid7: self.user_uuid7@,
            command: opt_view(self.command),
            channel_id: self.channel_id@,
            user_data: opt_view(self.user_data),
        }
    }
}

impl Clone for ChatMessage {
    fn clone(&self) -> (r: Self)
        ensures
            r@ == self@,
    {
        ChatMessage {
            platform: self.platform.clone(),
            raw_data: clone_bytes(&self.raw_data),
            raw_message: self.raw_message.clone(),
            user_uuid7: self.user_uuid7.clone(),
            command: clone_opt(&self.command),
            channel_id: self.channel_id.clone(),
            user_data: clone_opt(&self.user_data),
        }
    }
}

/// A message on its way through the pre-process modules, or a new one where it has no id.
#[derive(Debug)]
pub struct MessagePreProcess {
    pub message_uuid7: String,
    pub raw_message: Option<ChatMessage>,
    pub audio: Vec<u8>,
    pub audio_type: String,
}

/// What a [`MessagePreProcess`] says.
#[verifier::ext_equal]
pub struct MessagePreProcessView {
    pub message_uuid7: Seq<char>,
    pub raw_message: Option<ChatMessageView>,
    pub audio: Seq<u8>,
    pub audio_type: Seq<char>,
}

impl View for MessagePreProcess {
    type V = MessagePreProcessView;

    open spec fn view(&self) -> MessagePreProcessView {
        MessagePreProcessView {
            message_uuid7: self.message_uuid7@,
            raw_message: opt_view(self.raw_message),
            audio: self.audio@,
            audio_type: self.audio_type@,
        }
    }
}

impl Clone for MessagePreProcess {
    fn clone(&self) -> (r: Self)
        ensures
            r@ == self@,
    {
        MessagePreProcess {
            message_uuid7: self.message_uuid7.clone(),
            raw_message: clone_opt(&self.raw_message),
            audio: clone_bytes(&self.audio),
            audio_type: self.audio_type.clone(),
        }
    }
}

/// A message on its way through the in-process modules.
#[derive(Debug)]
pub struct MessageInProcess {
    pub message_uuid7: String,
    pub raw_message: Option<ChatMessage>,
    pub processed_message: String,
    pub abandon_message: bool,
    pub audio: Vec<u8>,
    pub audio_type: String,
}

/// What a [`MessageInProcess`] says.
#[verifier::ext_equal]
pub struct MessageInProcessView {
    pub message_uuid7: Seq<char>,
    pub raw_message: Option<ChatMessageView>,
    pub processed_message: Seq<char>,
    pub abandon_message: bool,
    pub audio: Seq<u8>,
    pub audio_type: Seq<char>,
}

impl View for MessageInProcess {
    type V = MessageInProcessView;

    open spec fn view(&self) -> MessageInProcessView {
        MessageInProcessView {
            message_uuid7: self.message_uuid7@,
            raw_message: opt_view(self.raw_message),
            processed_message: self.processed_message@,
            abandon_message: self.abandon_message,
            audio: self.audio@,
            audio_type: self.audio_type@,
        }
    }
}

impl Clone for MessageInProcess {
    fn clone(&self) -> (r: Self)
        ensures
            r@ == self@,
    {
        MessageInProcess {
            message_uuid7: self.message_uuid7.clone(),
            raw_message: clone_opt(&self.raw_message),
            processed_message: self.processed_message.clone(),
            abandon_message: self.abandon_message,
            audio: clone_bytes(&self.audio),
            audio_type: self.audio_type.clone(),
        }
    }
}

/// A message on its way to the post-process modules.
#[derive(Debug)]
pub struct MessagePostProcess {
    pub message_uuid7: String,
    pub raw_message: Option<ChatMessage>,
    pub processed_message: String,
    pub audio: Vec<u8>,
    pub audio_type: String,
}

/// What a [`MessagePostProcess`] says.
#[verifier::ext_equal]
pub struct MessagePostProcessView {
    pub message_uuid7: Seq<char>,
    pub raw_message: Option<ChatMessageView>,
    pub processed_message: Seq<char>,
    pub audio: Seq<u8>,
    pub audio_type: Seq<char>,
}

impl View for MessagePostProcess {
    type V = MessagePostProcessView;

    open spec fn view(&self) -> MessagePostProcessView {
        MessagePostProcessView {
            message_uuid7: self.message_uuid7@,
            raw_message: opt_view(self.raw_message),
            processed_message: self.processed_message@,
            audio: self.audio@,
            audio_type: self.audio_type@,
        }
    }
}

impl Clone for MessagePostProcess {
    fn clone(&self) -> (r: Self)
        ensures
            r@ == self@,
    {
        MessagePostProcess {
            message_uuid7: self.message_uuid7.clone(),
            raw_message: clone_opt(&self.raw_message),
            processed_message: self.processed_message.clone(),
            audio: clone_bytes(&self.audio),
            audio_type: self.audio_type.clone(),
        }
    }
}

/// A module's answer that it is done with a message.
#[derive(Debug)]
pub struct MessageAck {
    pub message_uuid7: String,
}

/// What a [`MessageAck`] says.
#[verifier::ext_equal]
pub struct MessageAckView {
    pub message_uuid7: Seq<char>,
}

impl View for MessageAck {
    type V = MessageAckView;

    open spec fn view(&self) -> MessageAckView {
        MessageAckView {
            message_uuid7: self.message_uuid7@,
        }
    }
}

impl Clone for MessageAck {
    fn clone(&self) -> (r: Self)
        ensures
            r@ == self@,
    {
        MessageAck {
            message_uuid7: self.message_uuid7.clone(),
        }
    }
}

/// Where in the pipeline a module works.
#[derive(Debug, Clone, Copy, PartialEq, Eq, Structural)]
pub enum ProcessPosition {
    Unspecified,
    Connection,
    Preprocess,
    Inprocess,
    Postprocess,
}

/// A module's first message.
#[derive(Debug)]
pub struct ConnectionRequest {
    pub pin: i32,
    pub process_position: ProcessPosition,
    pub priority: i32,
    pub module_instance_uuid7: String,
}

/// What a [`ConnectionRequest`] says.
#[verifier::ext_equal]
pub struct ConnectionRequestView {
    pub pin: i32,
    pub process_position: ProcessPosition,
    pub priority: i32,
    pub module_instance_uuid7: Seq<char>,
}

impl View for ConnectionRequest {
    type V = ConnectionRequestView;

    open spec fn view(&self) -> ConnectionRequestView {
        ConnectionRequestView {
            pin: self.pin,
            process_position: self.process_position,
            priority: self.priority,
            module_instance_uuid7: self.module_instance_uuid7@,
        }
    }
}

impl Clone for ConnectionRequest {
    fn clone(&self) -> (r: Self)
        ensures
            r@ == self@,
    {
        ConnectionRequest {
            pin: self.pin,
            process_position: self.process_position,
            priority: self.priority,
            module_instance_uuid7: self.module_instance_uuid7.clone(),
        }
    }
}

/// The answer to a [`ConnectionRequest`].
#[derive(Debug)]
pub struct ConnectionRequestReturn {
    pub new_port: i32,
    pub module_instance_uuid7: String,
}

/// What a [`ConnectionRequestReturn`] says.
#[verifier::ext_equal]
pub struct ConnectionRequestReturnView {
    pub new_port: i32,
    pub module_instance_uuid7: Seq<char>,
}

impl View for ConnectionRequestReturn {
    type V = ConnectionRequestReturnView;

    open spec fn view(&self) -> ConnectionRequestReturnView {
        ConnectionRequestReturnView {
            new_port: self.new_port,
            module_instance_uuid7: self.module_instance_uuid7@,
        }
    }
}

impl Clone for ConnectionRequestReturn {
    fn clone(&self) -> (r: Self)
        ensures
            r@ == self@,
    {
        ConnectionRequestReturn {
            new_port: self.new_port,
            module_instance_uuid7: self.module_instance_uuid7.clone(),
        }
    }
}

/// A question whether a module is alive, and its answer.
#[derive(Debug)]
pub struct AuthVerify {
    pub cur_auth: String,
}

/// What a [`AuthVerify`] says.
#[verifier::ext_equal]
pub struct AuthVerifyView {
    pub cur_auth: Seq<char>,
}

impl View for AuthVerify {
    type V = AuthVerifyView;

    open spec fn view(&self) -> AuthVerifyView {
        AuthVerifyView {
            cur_auth: self.cur_auth@,
        }
    }
}

impl Clone for AuthVerify {
    fn clone(&self) -> (r: Self)
        ensures
            r@ == self@,
    {
        AuthVerify {
            cur_auth: self.cur_auth.clone(),
        }
    }
}

/// An entry of the timeline, under its short field names.
#[derive(Debug)]
pub struct TimelineEvent {
    /// The command that was tried.
    pub c: String,
    /// Attached data.
    pub d: Vec<u8>,
    /// An error.
    pub e: String,
    /// Flags.
    pub f: String,
    /// The event's UUID.
    pub i: String,
    /// Where the message comes from.
    pub o: String,
    /// The processed message.
    pub p: String,
    /// The raw message.
    pub r: String,
    /// The stream it came from.
    pub s: String,
    /// The kind of event.
    pub t: String,
    /// The user's UUID.
    pub u: String,
    /// The version of the schema.
    pub v: i32,
}

/// What a [`TimelineEvent`] says.
#[verifier::ext_equal]
pub struct TimelineEventView {
    pub c: Seq<char>,
    pub d: Seq<u8>,
    pub e: Seq<char>,
    pub f: Seq<char>,
    pub i: Seq<char>,
    pub o: Seq<char>,
    pub p: Seq<char>,
    pub r: Seq<char>,
    pub s: Seq<char>,
    pub t: Seq<char>,
    pub u: Seq<char>,
    pub v: i32,
}

impl View for TimelineEvent {
    type V = TimelineEventView;

    open spec fn view(&self) -> TimelineEventView {
        TimelineEventView {
            c: self.c@,
            d: self.d@,
            e: self.e@,
            f: self.f@,
            i: self.i@,
            o: self.o@,
            p: self.p@,
            r: self.r@,
            s: self.s@,
            t: self.t@,
            u: self.u@,
            v: self.v,
        }
    }
}

impl Clone for TimelineEvent {
    fn clone(&self) -> (r: Self)
        ensures
            r@ == self@,
    {
        TimelineEvent {
            c: self.c.clone(),
            d: clone_bytes(&self.d),
            e: self.e.clone(),
            f: self.f.clone(),
            i: self.i.clone(),
            o: self.o.clone(),
            p: self.p.clone(),
            r: self.r.clone(),
            s: self.s.clone(),
            t: self.t.clone(),
            u: self.u.clone(),
            v: self.v,
        }
    }
}

/// A line that a module logs.
#[derive(Debug)]
pub struct LogLine {
    pub log: String,
    pub blob: Vec<u8>,
}

/// What a [`LogLine`] says.
#[verifier::ext_equal]
pub struct LogLineView {
    pub log: Seq<char>,
    pub blob: Seq<u8>,
}

impl View for LogLine {
    type V = LogLineView;

    open spec fn view(&self) -> LogLineView {
        LogLineView {
            log: self.log@,
            blob: self.blob@,
        }
    }
}

impl Clone for LogLine {
    fn clone(&self) -> (r: Self)
        ensures
            r@ == self@,
    {
        LogLine {
            log: self.log.clone(),
            blob: clone_bytes(&self.blob),
        }
    }
}

/// An error that a module reports.
#[derive(Debug)]
pub struct ErrorLine {
    pub log: String,
    pub trace: String,
}

/// What a [`ErrorLine`] says.
#[verifier::ext_equal]
pub struct ErrorLineView {
    pub log: Seq<char>,
    pub trace: Seq<char>,
}

impl View for ErrorLine {
    type V = ErrorLineView;

    open spec fn view(&self) -> ErrorLineView {
        ErrorLineView {
            log: self.log@,
            trace: self.trace@,
        }
    }
}

impl Clone for ErrorLine {
    fn clone(&self) -> (r: Self)
        ensures
            r@ == self@,
    {
        ErrorLine {
            log: self.log.clone(),
            trace: self.trace.clone(),
        }
    }
}

/// A query to the engine or its database.
#[derive(Debug)]
pub struct DatabaseQuery {
    pub query_id: String,
    pub sql: String,
}

/// What a [`DatabaseQuery`] says.
#[verifier::ext_equal]
pub struct DatabaseQueryView {
    pub query_id: Seq<char>,
    pub sql: Seq<char>,
}

impl View for DatabaseQuery {
    type V = DatabaseQueryView;

    open spec fn view(&self) -> DatabaseQueryView {
        DatabaseQueryView {
            query_id: self.query_id@,
            sql: self.sql@,
        }
    }
}

impl Clone for DatabaseQuery {
    fn clone(&self) -> (r: Self)
        ensures
            r@ == self@,
    {
        DatabaseQuery {
            query_id: self.query_id.clone(),
            sql: self.sql.clone(),
        }
    }
}

/// The answer to a [`DatabaseQuery`].
#[derive(Debug)]
pub struct DatabaseQueryResult {
    pub query_id: String,
    pub success: bool,
    pub error: String,
    pub result_blob: Vec<u8>,
}

/// What a [`DatabaseQueryResult`] says.
#[verifier::ext_equal]
pub struct DatabaseQueryResultView {
    pub query_id: Seq<char>,
    pub success: bool,
    pub error: Seq<char>,
    pub result_blob: Seq<u8>,
}

impl View for DatabaseQueryResult {
    type V = DatabaseQueryResultView;

    open spec fn view(&self) -> DatabaseQueryResultView {
        DatabaseQueryResultView {
            query_id: self.query_id@,
            success: self.success,
            error: self.error@,
            result_blob: self.result_blob@,
        }
    }
}

impl Clone for DatabaseQueryResult {
    fn clone(&self) -> (r: Self)
        ensures
            r@ == self@,
    {
        DatabaseQueryResult {
            query_id: self.query_id.clone(),
            success: self.success,
            error: self.error.clone(),
            result_blob: clone_bytes(&self.result_blob),
        }
    }
}

/// A message to be posted to chat platforms.
#[derive(Debug)]
pub struct SendToPlatforms {
    pub msg: String,
    pub level: i32,
    pub module_uuid7: String,
    pub pid: String,
    pub platform: String,
    pub actor_platform: String,
    pub actor_handle: String,
    pub actor_uuid7: String,
    pub channel_id: String,
}

/// What a [`SendToPlatforms`] says.
#[verifier::ext_equal]
pub struct SendToPlatformsView {
    pub msg: Seq<char>,
    pub level: i32,
    pub module_uuid7: Seq<char>,
    pub pid: Seq<char>,
    pub platform: Seq<char>,
    pub actor_platform: Seq<char>,
    pub actor_handle: Seq<char>,
    pub actor_uuid7: Seq<char>,
    pub channel_id: Seq<char>,
}

impl View for SendToPlatforms {
    type V = SendToPlatformsView;

    open spec fn view(&self) -> SendToPlatformsView {
        SendToPlatformsView {
            msg: self.msg@,
            level: self.level,
            module_uuid7: self.module_uuid7@,
            pid: self.pid@,
            platform: self.platform@,
            actor_platform: self.actor_platform@,
            actor_handle: self.actor_handle@,
            actor_uuid7: self.actor_uuid7@,
            channel_id: self.channel_id@,
        }
    }
}

impl Clone for SendToPlatforms {
    fn clone(&self) -> (r: Self)
        ensures
            r@ == self@,
    {
        SendToPlatforms {
            msg: self.msg.clone(),
            level: self.level,
            module_uuid7: self.module_uuid7.clone(),
            pid: self.pid.clone(),
            platform: self.platform.clone(),
            actor_platform: self.actor_platform.clone(),
            actor_handle: self.actor_handle.clone(),
            actor_uuid7: self.actor_uuid7.clone(),
            channel_id: self.channel_id.clone(),
        }
    }
}

/// What kind of answer a question asks for.
#[derive(Debug, Clone, Copy, PartialEq, Eq, Structural)]
pub enum PromptType {
    /// Yes or no.
    Boolean,
    /// Another kind, by its number.
    Other(i32),
}

/// A question to the user.
#[derive(Debug)]
pub struct Prompt {
    pub prompt_id_uuid7: String,
    pub prompt: String,
    pub details: String,
    pub yes_dialog: String,
    pub no_dialog: String,
    /// Seconds until the question lapses.
    pub timeout: i32,
    pub origin: String,
    pub origin_uuid7: String,
    pub instructions: String,
    pub link: String,
    pub input_label: String,
    pub prompt_type: PromptType,
}

/// What a [`Prompt`] says.
#[verifier::ext_equal]
pub struct PromptView {
    pub prompt_id_uuid7: Seq<char>,
    pub prompt: Seq<char>,
    pub details: Seq<char>,
    pub yes_dialog: Seq<char>,
    pub no_dialog: Seq<char>,
    pub timeout: i32,
    pub origin: Seq<char>,
    pub origin_uuid7: Seq<char>,
    pub instructions: Seq<char>,
    pub link: Seq<char>,
    pub input_label: Seq<char>,
    pub prompt_type: PromptType,
}

impl View for Prompt {
    type V = PromptView;

    open spec fn view(&self) -> PromptView {
        PromptView {
            prompt_id_uuid7: self.prompt_id_uuid7@,
            prompt: self.prompt@,
            details: self.details@,
            yes_dialog: self.yes_dialog@,
            no_dialog: self.no_dialog@,
            timeout: self.timeout,
            origin: self.origin@,
            origin_uuid7: self.origin_uuid7@,
            instructions: self.instructions@,
            link: self.link@,
            input_label: self.input_label@,
            prompt_type: self.prompt_type,
        }
    }
}

impl Clone for Prompt {
    fn clone(&self) -> (r: Self)
        ensures
            r@ == self@,
    {
        Prompt {
            prompt_id_uuid7: self.prompt_id_uuid7.clone(),
            prompt: self.prompt.clone(),
            details: self.details.clone(),
            yes_dialog: self.yes_dialog.clone(),
            no_dialog: self.no_dialog.clone(),
            timeout: self.timeout,
            origin: self.origin.clone(),
            origin_uuid7: self.origin_uuid7.clone(),
            instructions: self.instructions.clone(),
            link: self.link.clone(),
            input_label: self.input_label.clone(),
            prompt_type: self.prompt_type,
        }
    }
}

/// The user's answer to a [`Prompt`].
#[derive(Debug)]
pub struct PromptResponse {
    pub prompt_id_uuid7: String,
    pub accepted: bool,
}

/// What a [`PromptResponse`] says.
#[verifier::ext_equal]
pub struct PromptResponseView {
    pub prompt_id_uuid7: Seq<char>,
    pub accepted: bool,
}

impl View for PromptResponse {
    type V = PromptResponseView;

    open spec fn view(&self) -> PromptResponseView {
        PromptResponseView {
            prompt_id_uuid7: self.prompt_id_uuid7@,
            accepted: self.accepted,
        }
    }
}

impl Clone for PromptResponse {
    fn clone(&self) -> (r: Self)
        ensures
            r@ == self@,
    {
        PromptResponse {
            prompt_id_uuid7: self.prompt_id_uuid7.clone(),
            accepted: self.accepted,
        }
    }
}

/// A module's request that a message is held for review.
#[derive(Debug)]
pub struct AuditFlag {
    pub message_uuid7: String,
    pub reason: String,
    pub origin: String,
}

/// What a [`AuditFlag`] says.
#[verifier::ext_equal]
pub struct AuditFlagView {
    pub message_uuid7: Seq<char>,
    pub reason: Seq<char>,
    pub origin: Seq<char>,
}

impl View for AuditFlag {
    type V = AuditFlagView;

    open spec fn view(&self) -> AuditFlagView {
        AuditFlagView {
            message_uuid7: self.message_uuid7@,
            reason: self.reason@,
            origin: self.origin@,
        }
    }
}

impl Clone for AuditFlag {
    fn clone(&self) -> (r: Self)
        ensures
            r@ == self@,
    {
        AuditFlag {
            message_uuid7: self.message_uuid7.clone(),
            reason: self.reason.clone(),
            origin: self.origin.clone(),
        }
    }
}

/// A module's farewell.
#[derive(Debug)]
pub struct Shutdown {
    pub reason: String,
}

/// What a [`Shutdown`] says.
#[verifier::ext_equal]
pub struct ShutdownView {
    pub reason: Seq<char>,
}

impl View for Shutdown {
    type V = ShutdownView;

    open spec fn view(&self) -> ShutdownView {
        ShutdownView {
            reason: self.reason@,
        }
    }
}

impl Clone for Shutdown {
    fn clone(&self) -> (r: Self)
        ensures
            r@ == self@,
    {
        Shutdown {
            reason: self.reason.clone(),
        }
    }
}

/// What a [`Container`] carries.
#[derive(Debug)]
pub enum Payload {
    ConnectionRequest(ConnectionRequest),
    ConnectionRequestReturn(ConnectionRequestReturn),
    AuthVerify(AuthVerify),
    MessagePreProcess(MessagePreProcess),
    MessageInProcess(MessageInProcess),
    MessagePostProcess(MessagePostProcess),
    MessageAck(MessageAck),
    TimelineEvent(TimelineEvent),
    LogLine(LogLine),
    ErrorLine(ErrorLine),
    DatabaseQuery(DatabaseQuery),
    DatabaseQueryResult(DatabaseQueryResult),
    SendToPlatforms(SendToPlatforms),
    CommandsPayload(Commands),
    CommandPayload(Command),
    Prompt(Prompt),
    PromptResponse(PromptResponse),
    AuditFlag(AuditFlag),
    UserData(UserData),
    Shutdown(Shutdown),
    /// Anything else; the engine takes no notice of it.
    Other,
}

/// What a [`Payload`] says.
#[verifier::ext_equal]
pub enum PayloadView {
    ConnectionRequest(ConnectionRequestView),
    ConnectionRequestReturn(ConnectionRequestReturnView),
    AuthVerify(AuthVerifyView),
    MessagePreProcess(MessagePreProcessView),
    MessageInProcess(MessageInProcessView),
    MessagePostProcess(MessagePostProcessView),
    MessageAck(MessageAckView),
    TimelineEvent(TimelineEventView),
    LogLine(LogLineView),
    ErrorLine(ErrorLineView),
    DatabaseQuery(DatabaseQueryView),
    DatabaseQueryResult(DatabaseQueryResultView),
    SendToPlatforms(SendToPlatformsView),
    CommandsPayload(CommandsView),
    CommandPayload(CommandView),
    Prompt(PromptView),
    PromptResponse(PromptResponseView),
    AuditFlag(AuditFlagView),
    UserData(UserDataView),
    Shutdown(ShutdownView),
    Other,
}

impl View for Payload {
    type V = PayloadView;

    open spec fn view(&self) -> PayloadView {
        match *self {
            Payload::ConnectionRequest(x) => PayloadView::ConnectionRequest(x@),
            Payload::ConnectionRequestReturn(x) => PayloadView::ConnectionRequestReturn(x@),
            Payload::AuthVerify(x) => PayloadView::AuthVerify(x@),
            Payload::MessagePreProcess(x) => PayloadView::MessagePreProcess(x@),
            Payload::MessageInProcess(x) => PayloadView::MessageInProcess(x@),
            Payload::MessagePostProcess(x) => PayloadView::MessagePostProcess(x@),
            Payload::MessageAck(x) => PayloadView::MessageAck(x@),
            Payload::TimelineEvent(x) => PayloadView::TimelineEvent(x@),
            Payload::LogLine(x) => PayloadView::LogLine(x@),
            Payload::ErrorLine(x) => PayloadView::ErrorLine(x@),
            Payload::DatabaseQuery(x) => PayloadView::DatabaseQuery(x@),
            Payload::DatabaseQueryResult(x) => PayloadView::DatabaseQueryResult(x@),
            Payload::SendToPlatforms(x) => PayloadView::SendToPlatforms(x@),
            Payload::CommandsPayload(x) => PayloadView::CommandsPayload(x@),
            Payload::CommandPayload(x) => PayloadView::CommandPayload(x@),
            Payload::Prompt(x) => PayloadView::Prompt(x@),
            Payload::PromptResponse(x) => PayloadView::PromptResponse(x@),
            Payload::AuditFlag(x) => PayloadView::AuditFlag(x@),
            Payload::UserData(x) => PayloadView::UserData(x@),
            Payload::Shutdown(x) => PayloadView::Shutdown(x@),
            Payload::Other => PayloadView::Other,
        }
    }
}

impl Clone for Payload {
    fn clone(&self) -> (r: Self)
        ensures
            r@ == self@,
    {
        match self {
            Payload::ConnectionRequest(x) => Payload::ConnectionRequest(x.clone()),
            Payload::ConnectionRequestReturn(x) => Payload::ConnectionRequestReturn(x.clone()),
            Payload::AuthVerify(x) => Payload::AuthVerify(x.clone()),
            Payload::MessagePreProcess(x) => Payload::MessagePreProcess(x.clone()),
            Payload::MessageInProcess(x) => Payload::MessageInProcess(x.clone()),
            Payload::MessagePostProcess(x) => Payload::MessagePostProcess(x.clone()),
            Payload::MessageAck(x) => Payload::MessageAck(x.clone()),
            Payload::TimelineEvent(x) => Payload::TimelineEvent(x.clone()),
            Payload::LogLine(x) => Payload::LogLine(x.clone()),
            Payload::ErrorLine(x) => Payload::ErrorLine(x.clone()),
            Payload::DatabaseQuery(x) => Payload::DatabaseQuery(x.clone()),
            Payload::DatabaseQueryResult(x) => Payload::DatabaseQueryResult(x.clone()),
            Payload::SendToPlatforms(x) => Payload::SendToPlatforms(x.clone()),
            Payload::CommandsPayload(x) => Payload::CommandsPayload(x.clone()),
            Payload::CommandPayload(x) => Payload::CommandPayload(x.clone()),
            Payload::Prompt(x) => Payload::Prompt(x.clone()),
            Payload::PromptResponse(x) => Payload::PromptResponse(x.clone()),
            Payload::AuditFlag(x) => Payload::AuditFlag(x.clone()),
            Payload::UserData(x) => Payload::UserData(x.clone()),
            Payload::Shutdown(x) => Payload::Shutdown(x.clone()),
            Payload::Other => Payload::Other,
        }
    }
}

/// A message on the wire: who sent it, under which token, and what it carries.
#[derive(Debug)]
pub struct Container {
    pub version: i32,
    pub auth_token: String,
    pub module_name: String,
    pub module_instance_uuid7: String,
    pub payload: Option<Payload>,
}

/// What a [`Container`] says.
#[verifier::ext_equal]
pub struct ContainerView {
    pub version: i32,
    pub auth_token: Seq<char>,
    pub module_name: Seq<char>,
    pub module_instance_uuid7: Seq<char>,
    pub payload: Option<PayloadView>,
}

impl View for Container {
    type V = ContainerView;

    open spec fn view(&self) -> ContainerView {
        ContainerView {
            version: self.version,
            auth_token: self.auth_token@,
            module_name: self.module_name@,
            module_instance_uuid7: self.module_instance_uuid7@,
            payload: opt_view(self.payload),
        }
    }
}

impl Clone for Container {
    fn clone(&self) -> (r: Self)
        ensures
            r@ == self@,
    {
        Container {
            version: self.version,
            auth_token: self.auth_token.clone(),
            module_name: self.module_name.clone(),
            module_instance_uuid7: self.module_instance_uuid7.clone(),
            payload: clone_opt(&self.payload),
        }
    }
}

/// What the engine sends under its own name.
pub open spec fn engine_container(payload: PayloadView) -> ContainerView {
    ContainerView {
        version: 1,
        auth_token: Seq::empty(),
        module_name: "cockatiel"@,
        module_instance_uuid7: Seq::empty(),
        payload: Some(payload),
    }
}

/// A container that the engine sends under its own name.
pub fn from_engine(payload: Payload) -> (r: Container)
    ensures
        r@ == engine_container(payload@),
{
    Container {
        version: 1,
        auth_token: String::new(),
        module_name: "cockatiel".to_owned(),
        module_instance_uuid7: String::new(),
        payload: Some(payload),
    }
}

/// What the engine sends about itself.
pub open spec fn system_container(payload: PayloadView) -> ContainerView {
    ContainerView {
        version: 1,
        auth_token: Seq::empty(),
        module_name: "engine"@,
        module_instance_uuid7: Seq::empty(),
        payload: Some(payload),
    }
}

/// A container that the engine sends about itself.
pub fn from_system(payload: Payload) -> (r: Container)
    ensures
        r@ == system_container(payload@),
{
    Container {
        version: 1,
        auth_token: String::new(),
        module_name: "engine".to_owned(),
        module_instance_uuid7: String::new(),
        payload: Some(payload),
    }
}

} // verus!
