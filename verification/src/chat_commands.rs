//! What a chat message asks of the engine itself: help, a registered command, or an
//! apology for one that is not registered.
use crate::command_registry::{
    alerts_for, distinct_commands, listed_commands, parse_command, parsed, CommandKey,
    CommandRegistry, ModuleCommandRegView,
};
use crate::proto::{
    from_engine, views, ChatMessage, ChatMessageView, Command, CommandView, Container, Payload,
    PayloadView, SendToPlatforms, SendToPlatformsView,
};
use crate::text::{begins_with, join, joined, lowercase, lowered, same, texts, trim, trimmed};
use vstd::prelude::*;

verus! {

/// What to do about a chat message.
#[derive(Debug)]
pub enum CommandAction {
    /// Attach this command to the message; the pipeline routes it.
    Attach(Command),
    /// Answer with the list of commands.
    Help,
    /// Answer with an apology: the command is not registered.
    Alert,
    /// Nothing to do.
    Nothing,
}

/// What a [`CommandAction`] says.
#[verifier::ext_equal]
pub enum CommandActionView {
    Attach(CommandView),
    Help,
    Alert,
    Nothing,
}

impl View for CommandAction {
    type V = CommandActionView;

    open spec fn view(&self) -> CommandActionView {
        match *self {
            CommandAction::Attach(c) => CommandActionView::Attach(c@),
            CommandAction::Help => CommandActionView::Help,
            CommandAction::Alert => CommandActionView::Alert,
            CommandAction::Nothing => CommandActionView::Nothing,
        }
    }
}

/// A request for help, in lower case.
pub open spec fn asks_help(lower: Seq<char>) -> bool {
    lower == "!help"@ || "!help "@.is_prefix_of(lower)
}

/// What to do about a message, given it in lower case too.
pub open spec fn classified(
    index: Map<CommandKey, Seq<char>>,
    modules: Map<Seq<char>, ModuleCommandRegView>,
    raw: Seq<char>,
    lower: Seq<char>,
) -> CommandActionView {
    if raw.len() == 0 {
        CommandActionView::Nothing
    } else if asks_help(lower) {
        CommandActionView::Help
    } else {
        match parsed(index, modules, raw) {
            Some(p) => if index.dom().contains((p.command.command_flag, p.command.command_name)) {
                CommandActionView::Attach(p.command)
            } else if exists|m: Seq<char>| #[trigger]
                alerts_for(index, modules, p.command.command_flag, m) {
                CommandActionView::Alert
            } else {
                CommandActionView::Nothing
            },
            None => CommandActionView::Nothing,
        }
    }
}

/// Decides what to do about a trimmed message, given it in lower case too.
pub fn classify_lowered(raw: &str, lower: &str, registry: &CommandRegistry) -> (r: CommandAction)
    requires
        registry.wf(),
    ensures
        r@ == classified(registry.index(), registry.modules(), raw@, lower@),
{
    if raw.unicode_len() == 0 {
        return CommandAction::Nothing;
    }
    if same(lower, "!help") || begins_with(lower, "!help ") {
        return CommandAction::Help;
    }
    match parse_command(raw, registry) {
        None => CommandAction::Nothing,
        Some(p) => {
            let owned = registry.owner(
                p.command.command_flag.as_str(),
                p.command.command_name.as_str(),
            );
            if owned.is_some() {
                return CommandAction::Attach(p.command);
            }
            if registry.alert_owner_for(p.command.command_flag.as_str()).is_some() {
                return CommandAction::Alert;
            }
            CommandAction::Nothing
        },
    }
}

/// Decides what to do about a chat message.
pub fn classify_command(raw: &str, registry: &CommandRegistry) -> (r: CommandAction)
    requires
        registry.wf(),
    ensures
        r@ == classified(
            registry.index(),
            registry.modules(),
            trim(raw@),
            lowercase(trim(raw@)),
        ),
{
    let raw = trimmed(raw);
    let lower = lowered(raw.as_str());
    classify_lowered(raw.as_str(), lower.as_str(), registry)
}

/// The adapters of a platform; none where it is unknown.
pub open spec fn platform_adapters(platform: Seq<char>) -> Seq<Seq<char>> {
    if platform == "all"@ {
        seq!["twitch-adapter"@, "kick-adapter"@, "youtube-adapter"@, "discord-adapter"@]
    } else if platform == "twitch"@ {
        seq!["twitch-adapter"@]
    } else if platform == "kick"@ {
        seq!["kick-adapter"@]
    } else if platform == "youtube"@ {
        seq!["youtube-adapter"@]
    } else if platform == "discord"@ {
        seq!["discord-adapter"@]
    } else {
        Seq::empty()
    }
}

/// The adapters of a platform; none where it is unknown.
pub fn platform_targets(platform: &str) -> (r: Vec<String>)
    ensures
        texts(r@) == platform_adapters(platform@),
{
    let mut out: Vec<String> = Vec::new();
    let all = same(platform, "all");
    if all || same(platform, "twitch") {
        out.push("twitch-adapter".to_owned());
    }
    if all || same(platform, "kick") {
        out.push("kick-adapter".to_owned());
    }
    if all || same(platform, "youtube") {
        out.push("youtube-adapter".to_owned());
    }
    if all || same(platform, "discord") {
        out.push("discord-adapter".to_owned());
    }
    proof {
        reveal_strlit("all");
        reveal_strlit("twitch");
        reveal_strlit("kick");
        reveal_strlit("youtube");
        reveal_strlit("discord");
        assert("all"@[0] == 'a' && "twitch"@[0] == 't' && "kick"@[0] == 'k' && "youtube"@[0] == 'y'
            && "discord"@[0] == 'd');
        assert(texts(out@) =~= platform_adapters(platform@));
    }
    out
}

/// A line of the list of commands.
pub open spec fn help_line(c: CommandView) -> Seq<char> {
    "  "@ + c.command_flag + c.command_name + " — "@ + c.command_description
}

/// The list of commands, as it is posted.
pub open spec fn help_text(commands: Seq<CommandView>) -> Seq<char> {
    join(
        if commands.len() == 0 {
            seq!["Available commands:"@, "  (none registered yet)"@]
        } else {
            seq!["Available commands:"@] + commands.map_values(|c: CommandView| help_line(c))
        },
        "\n"@,
    )
}

/// The list of commands, as it is posted.
pub fn help_reply(commands: &Vec<Command>) -> (r: String)
    ensures
        r@ == help_text(views(commands@)),
{
    let ghost all = views(commands@);
    let ghost said = all.map_values(|c: CommandView| help_line(c));
    let mut lines: Vec<String> = Vec::new();
    lines.push("Available commands:".to_owned());
    let mut i: usize = 0;
    assert(texts(lines@) =~= seq!["Available commands:"@] + said.take(0));
    while i < commands.len()
        invariant
            i <= commands@.len(),
            all == views(commands@),
            said == all.map_values(|c: CommandView| help_line(c)),
            lines@.len() == i + 1,
            texts(lines@) == seq!["Available commands:"@] + said.take(i as int),
        decreases commands@.len() - i,
    {
        let c = &commands[i];
        let ghost before = lines@;
        let mut line = "  ".to_owned();
        line.append(c.command_flag.as_str());
        line.append(c.command_name.as_str());
        line.append(" — ");
        line.append(c.command_description.as_str());
        assert(line@ =~= help_line(all[i as int]));
        lines.push(line);
        assert(texts(lines@) =~= texts(before).push(said[i as int]));
        assert(said.take(i + 1) =~= said.take(i as int).push(said[i as int]));
        i = i + 1;
    }
    assert(said.take(i as int) =~= said);
    if commands.len() == 0 {
        let ghost before = lines@;
        lines.push("  (none registered yet)".to_owned());
        assert(said =~= Seq::<Seq<char>>::empty());
        assert(texts(lines@) =~= texts(before).push("  (none registered yet)"@));
        assert(texts(lines@) =~= seq!["Available commands:"@, "  (none registered yet)"@]);
    }
    joined(&lines, "\n")
}

/// How the author of a message is addressed.
pub open spec fn author(chat: ChatMessageView) -> Seq<char> {
    match chat.user_data {
        Some(u) if u.username.len() > 0 => u.username,
        _ => if chat.user_uuid7.len() > 0 {
            chat.user_uuid7
        } else {
            "user"@
        },
    }
}

/// The apology for a command that is not registered.
pub open spec fn apology_text(chat: ChatMessageView) -> Seq<char> {
    "sorry "@ + author(chat)
        + ", that command isn't valid, try '!help' to see all available commands"@
}

/// The apology for a command that is not registered.
pub fn apology_reply(chat: &ChatMessage) -> (r: String)
    ensures
        r@ == apology_text(chat@),
{
    let who: String = match &chat.user_data {
        Some(u) if u.username.as_str().unicode_len() > 0 => u.username.clone(),
        _ => if chat.user_uuid7.as_str().unicode_len() > 0 {
            chat.user_uuid7.clone()
        } else {
            "user".to_owned()
        },
    };
    let mut r = "sorry ".to_owned();
    r.append(who.as_str());
    r.append(", that command isn't valid, try '!help' to see all available commands");
    r
}

/// Something that the engine says to a platform: what is sent, and to which adapters.
#[derive(Debug)]
pub struct PlatformReply {
    pub container: Container,
    pub targets: Vec<String>,
}

/// What the engine posts to a channel.
pub open spec fn engine_post(
    platform: Seq<char>,
    channel_id: Seq<char>,
    msg: Seq<char>,
) -> SendToPlatformsView {
    SendToPlatformsView {
        msg,
        level: 0,
        module_uuid7: Seq::empty(),
        pid: Seq::empty(),
        platform,
        actor_platform: Seq::empty(),
        actor_handle: "cockatiel"@,
        actor_uuid7: Seq::empty(),
        channel_id,
    }
}

/// What the engine says to a platform, and to which adapters; `None` where the platform
/// is unknown.
pub fn engine_reply_to_platform(platform: &str, channel_id: &str, msg: &str) -> (r: Option<
    PlatformReply,
>)
    ensures
        r is Some == (platform_adapters(platform@).len() > 0),
        r matches Some(p) ==> {
            &&& texts(p.targets@) == platform_adapters(platform@)
            &&& p.container@ == crate::proto::engine_container(
                PayloadView::SendToPlatforms(engine_post(platform@, channel_id@, msg@)),
            )
        },
{
    let targets = platform_targets(platform);
    if targets.len() == 0 {
        return None;
    }
    let send = SendToPlatforms {
        msg: msg.to_owned(),
        level: 0,
        module_uuid7: String::new(),
        pid: String::new(),
        platform: platform.to_owned(),
        actor_platform: String::new(),
        actor_handle: "cockatiel".to_owned(),
        actor_uuid7: String::new(),
        channel_id: channel_id.to_owned(),
    };
    Some(PlatformReply { container: from_engine(Payload::SendToPlatforms(send)), targets })
}

/// What is answered to a message, if anything.
pub open spec fn ingest_answer(
    action: CommandActionView,
    chat: ChatMessageView,
    commands: Seq<CommandView>,
) -> Option<Seq<char>> {
    match action {
        CommandActionView::Help => Some(help_text(commands)),
        CommandActionView::Alert => Some(apology_text(chat)),
        _ => None,
    }
}

/// What is to be done about a message that comes in.
pub open spec fn ingest_action(registry: &CommandRegistry, chat: ChatMessageView) -> CommandActionView {
    classified(
        registry.index(),
        registry.modules(),
        trim(chat.raw_message),
        lowercase(trim(chat.raw_message)),
    )
}

/// A message after it came in: a registered command is attached to it.
pub open spec fn ingested_chat(registry: &CommandRegistry, chat: ChatMessageView) -> ChatMessageView {
    match ingest_action(registry, chat) {
        CommandActionView::Attach(c) => ChatMessageView { command: Some(c), ..chat },
        _ => chat,
    }
}

/// Whether a reply is what is answered to a message that comes in, on the message's own
/// channel; there is none where nothing is answered or the platform is unknown.
pub open spec fn answers(
    r: Option<PlatformReply>,
    registry: &CommandRegistry,
    chat: ChatMessageView,
) -> bool {
    let answer = ingest_answer(
        ingest_action(registry, chat),
        chat,
        distinct_commands(listed_commands(registry.registrations())),
    );
    &&& r is Some == (answer is Some && platform_adapters(chat.platform).len() > 0)
    &&& r matches Some(p) ==> {
        &&& texts(p.targets@) == platform_adapters(chat.platform)
        &&& p.container@ == crate::proto::engine_container(
            PayloadView::SendToPlatforms(
                engine_post(chat.platform, chat.channel_id, answer.unwrap()),
            ),
        )
    }
}

/// What the engine does about a message that comes in: a registered command is attached to
/// it; a request for help and an unknown command are answered on the message's own channel.
pub fn handle_command_on_ingest(chat: &mut ChatMessage, registry: &CommandRegistry) -> (r: Option<
    PlatformReply,
>)
    requires
        registry.wf(),
    ensures
        final(chat)@ == ingested_chat(registry, old(chat)@),
        answers(r, registry, old(chat)@),
{
    match classify_command(chat.raw_message.as_str(), registry) {
        CommandAction::Attach(c) => {
            chat.command = Some(c);
            None
        },
        CommandAction::Help => {
            let text = help_reply(&registry.all_commands());
            engine_reply_to_platform(
                chat.platform.as_str(),
                chat.channel_id.as_str(),
                text.as_str(),
            )
        },
        CommandAction::Alert => {
            let text = apology_reply(chat);
            engine_reply_to_platform(
                chat.platform.as_str(),
                chat.channel_id.as_str(),
                text.as_str(),
            )
        },
        CommandAction::Nothing => None,
    }
}

/// Help is given whatever commands are registered, and a registered command is attached
/// unless it is a request for help.
pub proof fn law_help_comes_first(
    index: Map<CommandKey, Seq<char>>,
    modules: Map<Seq<char>, ModuleCommandRegView>,
    raw: Seq<char>,
    lower: Seq<char>,
)
    requires
        raw.len() > 0,
    ensures
        asks_help(lower) == (classified(index, modules, raw, lower) is Help),
        classified(index, modules, raw, lower) matches CommandActionView::Attach(c) ==> index.dom().contains(
            (c.command_flag, c.command_name),
        ),
{
}

/// A message is apologised for only where its command has no owner.
pub proof fn law_alert_only_without_owner(
    index: Map<CommandKey, Seq<char>>,
    modules: Map<Seq<char>, ModuleCommandRegView>,
    raw: Seq<char>,
    lower: Seq<char>,
)
    requires
        classified(index, modules, raw, lower) is Alert,
    ensures
        parsed(index, modules, raw) matches Some(p) && !index.dom().contains(
            (p.command.command_flag, p.command.command_name),
        ),
{
}

} // verus!
