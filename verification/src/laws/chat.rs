//! What the engine answers in chat: help, apologies, and where they are posted; and how a
//! command is read.
use crate::chat_commands::{
    answers, apology_text, asks_help, classified, engine_post, help_text, ingest_action,
    ingest_answer, ingested_chat, platform_adapters, CommandActionView, PlatformReply,
};
use crate::command_registry::{
    definition, distinct_commands, find_flag, given_flag, key_of, known_flag, law_all_commands,
    listed_commands, lists, longest_flag, parsed, read_words, CommandKey, CommandRegistry,
    ModuleCommandRegView,
};
use crate::proto::{ChatMessageView, CommandView, FlagView, PayloadView};
use crate::text::{find, is_white, join, no_white, split_on, texts, trim, words};
use vstd::prelude::*;

verus! {

/// Whether a text stands somewhere in another.
pub open spec fn holds_text(whole: Seq<char>, part: Seq<char>) -> bool {
    exists|a: Seq<char>, b: Seq<char>| #[trigger] (a + part + b) == whole
}

proof fn lemma_holds_more(whole: Seq<char>, part: Seq<char>, before: Seq<char>, after: Seq<char>)
    requires
        holds_text(whole, part),
    ensures
        holds_text(before + whole + after, part),
{
    let (a, b) = choose|a: Seq<char>, b: Seq<char>| #[trigger] (a + part + b) == whole;
    assert((before + a) + part + (b + after) =~= before + whole + after);
}

proof fn lemma_holds_itself(part: Seq<char>)
    ensures
        holds_text(part, part),
{
    assert(Seq::<char>::empty() + part + Seq::<char>::empty() =~= part);
}

proof fn lemma_joined_parts(parts: Seq<Seq<char>>, sep: Seq<char>, i: int)
    requires
        0 <= i < parts.len(),
    ensures
        holds_text(join(parts, sep), parts[i]),
    decreases parts.len(),
{
    if parts.len() == 1 {
        lemma_holds_itself(parts[0]);
    } else if i == parts.len() - 1 {
        lemma_holds_itself(parts[i]);
        let front = join(parts.drop_last(), sep) + sep;
        lemma_holds_more(parts[i], parts[i], front, Seq::empty());
        assert(front + parts[i] + Seq::<char>::empty() =~= join(parts, sep));
    } else {
        lemma_joined_parts(parts.drop_last(), sep, i);
        assert(parts.drop_last()[i] == parts[i]);
        let front = join(parts.drop_last(), sep);
        lemma_holds_more(front, parts[i], Seq::empty(), sep + parts.last());
        assert(Seq::<char>::empty() + front + (sep + parts.last()) =~= join(parts, sep));
    }
}

proof fn lemma_find_none(s: Seq<char>, c: char)
    requires
        !s.contains(c),
    ensures
        find(s, c) == s.len(),
    decreases s.len(),
{
    if s.len() > 0 {
        assert(s.contains(s[0]));
        assert forall|x: int| 0 <= x < s.drop_first().len() implies s.drop_first()[x] != c by {
            assert(s.contains(s[x + 1]));
        }
        lemma_find_none(s.drop_first(), c);
    }
}

proof fn lemma_find_bound(s: Seq<char>, c: char)
    ensures
        find(s, c) <= s.len(),
    decreases s.len(),
{
    if s.len() > 0 {
        lemma_find_bound(s.drop_first(), c);
    }
}

proof fn lemma_find_more(s: Seq<char>, t: Seq<char>, c: char)
    ensures
        find(s, c) < s.len() ==> find(s + t, c) == find(s, c),
        find(s, c) == s.len() ==> find(s + t, c) == s.len() + find(t, c),
    decreases s.len(),
{
    lemma_find_bound(s, c);
    if s.len() == 0 {
        assert(s + t =~= t);
    } else {
        assert((s + t).drop_first() =~= s.drop_first() + t);
        assert((s + t)[0] == s[0]);
        lemma_find_more(s.drop_first(), t, c);
        lemma_find_bound(s.drop_first(), c);
    }
}

/// A last part without the separator is split off alone.
proof fn lemma_split_last(s: Seq<char>, t: Seq<char>, c: char)
    requires
        !t.contains(c),
    ensures
        split_on(s + seq![c] + t, c) == split_on(s, c).push(t),
    decreases s.len(),
{
    let whole = s + seq![c] + t;
    let n = find(s, c) as int;
    lemma_find_bound(s, c);
    lemma_find_more(s, seq![c] + t, c);
    assert(whole =~= s + (seq![c] + t));
    assert((seq![c] + t)[0] == c);
    if n < s.len() {
        let rest = s.skip(n + 1);
        lemma_split_last(rest, t, c);
        assert(whole.skip(n + 1) =~= rest + seq![c] + t);
        assert(whole.take(n) =~= s.take(n));
        assert(split_on(whole, c) =~= split_on(s, c).push(t));
    } else {
        assert(find(seq![c] + t, c) == 0);
        assert(whole.take(n) =~= s);
        assert(whole.skip(n + 1) =~= t);
        lemma_find_none(t, c);
        assert(split_on(t, c) =~= seq![t]);
        assert(split_on(whole, c) =~= split_on(s, c).push(t));
    }
}

proof fn lemma_split_joined(parts: Seq<Seq<char>>, sep: Seq<char>, c: char)
    requires
        parts.len() > 0,
        sep == seq![c],
        forall|i: int| 0 <= i < parts.len() ==> !(#[trigger] parts[i]).contains(c),
    ensures
        split_on(join(parts, sep), c) == parts,
    decreases parts.len(),
{
    if parts.len() == 1 {
        lemma_find_none(parts[0], c);
        assert(split_on(parts[0], c) =~= parts);
    } else {
        let front = parts.drop_last();
        assert forall|i: int| 0 <= i < front.len() implies !(#[trigger] front[i]).contains(c) by {
            assert(front[i] == parts[i]);
        }
        lemma_split_joined(front, sep, c);
        lemma_split_last(join(front, sep), parts.last(), c);
        assert(split_on(join(parts, sep), c) =~= parts);
    }
}

proof fn lemma_line_holds(c: CommandView)
    ensures
        holds_text(crate::chat_commands::help_line(c), c.command_flag + c.command_name),
        holds_text(crate::chat_commands::help_line(c), c.command_description),
{
    let line = crate::chat_commands::help_line(c);
    assert("  "@ + (c.command_flag + c.command_name) + (" — "@ + c.command_description) =~= line);
    assert(("  "@ + c.command_flag + c.command_name + " — "@) + c.command_description
        + Seq::<char>::empty() =~= line);
}

/// The text posted for `!help` holds, for every registered command, its prefix with its
/// name, and its description.
pub proof fn law_help_names_every_command(commands: Seq<CommandView>, i: int)
    requires
        0 <= i < commands.len(),
    ensures
        holds_text(help_text(commands), commands[i].command_flag + commands[i].command_name),
        holds_text(help_text(commands), commands[i].command_description),
{
    let c = commands[i];
    let parts = seq!["Available commands:"@] + commands.map_values(
        |c: CommandView| crate::chat_commands::help_line(c),
    );
    assert(parts[i + 1] == crate::chat_commands::help_line(c));
    lemma_joined_parts(parts, "\n"@, i + 1);
    lemma_line_holds(c);
    let text = help_text(commands);
    let line = parts[i + 1];
    let (a, b) = choose|a: Seq<char>, b: Seq<char>| #[trigger] (a + line + b) == text;
    lemma_holds_more(line, c.command_flag + c.command_name, a, b);
    lemma_holds_more(line, c.command_description, a, b);
}

/// Whether a command's prefix, name and description are each on one line.
pub open spec fn on_one_line(c: CommandView) -> bool {
    !c.command_flag.contains('\n') && !c.command_name.contains('\n')
        && !c.command_description.contains('\n')
}

/// The text posted for `!help` has one line more than there are commands: a heading, and
/// then a line for each command, in order, with its prefix, its name and its description.
/// Without commands it says that there are none.
pub proof fn law_help_has_a_line_for_every_command(commands: Seq<CommandView>, i: int)
    requires
        forall|j: int| 0 <= j < commands.len() ==> on_one_line(#[trigger] commands[j]),
    ensures
        commands.len() > 0 ==> split_on(help_text(commands), '\n').len() == commands.len() + 1,
        split_on(help_text(commands), '\n')[0] == "Available commands:"@,
        commands.len() == 0 ==> split_on(help_text(commands), '\n') == seq![
            "Available commands:"@,
            "  (none registered yet)"@,
        ],
        0 <= i < commands.len() ==> split_on(help_text(commands), '\n')[i + 1] == "  "@ + (
        commands[i].command_flag + (commands[i].command_name + (" — "@
            + commands[i].command_description))),
{
    reveal_strlit("\n");
    assert("\n"@ =~= seq!['\n']);
    reveal_strlit("Available commands:");
    reveal_strlit("  (none registered yet)");
    reveal_strlit("  ");
    reveal_strlit(" — ");
    let parts = if commands.len() == 0 {
        seq!["Available commands:"@, "  (none registered yet)"@]
    } else {
        seq!["Available commands:"@] + commands.map_values(
            |c: CommandView| crate::chat_commands::help_line(c),
        )
    };
    assert forall|k: int| 0 <= k < parts.len() implies !(#[trigger] parts[k]).contains('\n') by {
        if k == 0 {
        } else if commands.len() == 0 {
        } else {
            let c = commands[k - 1];
            assert(on_one_line(c));
            assert(parts[k] == crate::chat_commands::help_line(c));
            let line = parts[k];
            if line.contains('\n') {
                let x = choose|x: int| 0 <= x < line.len() && line[x] == '\n';
                let f = c.command_flag.len();
                let n = c.command_name.len();
                if x < 2 {
                    assert(line[x] == "  "@[x]);
                } else if x < 2 + f {
                    assert(line[x] == c.command_flag[x - 2]);
                    assert(c.command_flag.contains('\n'));
                } else if x < 2 + f + n {
                    assert(line[x] == c.command_name[x - 2 - f]);
                    assert(c.command_name.contains('\n'));
                } else if x < 2 + f + n + 3 {
                    assert(line[x] == " — "@[x - 2 - f - n]);
                } else {
                    assert(line[x] == c.command_description[x - 2 - f - n - 3]);
                    assert(c.command_description.contains('\n'));
                }
            }
        }
    }
    lemma_split_joined(parts, "\n"@, '\n');
    assert(help_text(commands) == join(parts, "\n"@));
    if 0 <= i < commands.len() {
        let c = commands[i];
        assert(parts[i + 1] == crate::chat_commands::help_line(c));
        assert(parts[i + 1] =~= "  "@ + (c.command_flag + (c.command_name + (" — "@
            + c.command_description))));
    }
}

/// Each further command adds a line to the help and leaves the others as they were.
pub proof fn law_help_grows_by_a_line(commands: Seq<CommandView>, c: CommandView)
    requires
        commands.len() > 0,
    ensures
        help_text(commands.push(c)) == help_text(commands) + ("\n  "@ + (c.command_flag + (
        c.command_name + (" — "@ + c.command_description)))),
{
    let line = |c: CommandView| crate::chat_commands::help_line(c);
    let parts = seq!["Available commands:"@] + commands.map_values(line);
    let more = seq!["Available commands:"@] + commands.push(c).map_values(line);
    assert(more =~= parts.push(crate::chat_commands::help_line(c)));
    assert(more.drop_last() =~= parts);
    reveal_strlit("\n  ");
    reveal_strlit("\n");
    reveal_strlit("  ");
    assert("\n  "@ =~= "\n"@ + "  "@);
    assert(help_text(commands.push(c)) =~= help_text(commands) + ("\n  "@ + (c.command_flag + (
    c.command_name + (" — "@ + c.command_description)))));
}

/// Who asks for help in chat is told of every command that a module registered, on the
/// channel that they asked on and through their platform's adapters.
pub proof fn law_help_is_given_where_it_is_asked(
    r: Option<PlatformReply>,
    registry: &CommandRegistry,
    chat: ChatMessageView,
    key: CommandKey,
)
    requires
        registry.wf(),
        answers(r, registry, chat),
        ingest_action(registry, chat) is Help,
        platform_adapters(chat.platform).len() > 0,
        registry.index().dom().contains(key),
    ensures
        ({
            &&& r matches Some(p)
            &&& texts(p.targets@) == platform_adapters(chat.platform)
            &&& p.container@.payload matches Some(PayloadView::SendToPlatforms(post))
            &&& post.platform == chat.platform
            &&& post.channel_id == chat.channel_id
            &&& holds_text(post.msg, key.0 + key.1)
        }),
{
    let all = distinct_commands(listed_commands(registry.registrations()));
    law_all_commands(registry, key, all[0]);
    assert(lists(all, key));
    let i = choose|i: int| 0 <= i < all.len() && key_of(#[trigger] all[i]) == key;
    law_help_names_every_command(all, i);
}

/// Help is asked for with `!help`, alone or with words behind it, and with nothing else.
pub proof fn law_help_is_asked_for_by_name(lower: Seq<char>, rest: Seq<char>)
    ensures
        asks_help("!help"@),
        asks_help("!help"@ + (seq![' '] + rest)),
        asks_help(lower) ==> "!help"@.is_prefix_of(lower) && (lower.len() == 5 || lower[5] == ' '),
{
    reveal_strlit("!help");
    reveal_strlit("!help ");
    let words = "!help"@ + (seq![' '] + rest);
    assert("!help "@ =~= words.subrange(0, 6));
    assert("!help "@.is_prefix_of(words));
    if asks_help(lower) {
        if lower == "!help"@ {
            assert(lower =~= lower.subrange(0, 5));
        } else {
            assert("!help "@ == lower.subrange(0, 6));
            assert(lower[5] == "!help "@[5]);
            assert forall|i: int| 0 <= i < 5 implies "!help"@[i] == lower[i] by {
                assert(lower[i] == "!help "@[i]);
            }
            assert("!help"@ =~= lower.subrange(0, 5));
        }
    }
}

/// What is done about a message: nothing where it is empty, help where it asks for it, the
/// command is attached where it has an owner, and otherwise an apology exactly where a
/// module that owns commands under the prefix wants one.
pub proof fn law_what_is_done_about_a_message(
    index: Map<CommandKey, Seq<char>>,
    modules: Map<Seq<char>, ModuleCommandRegView>,
    raw: Seq<char>,
    lower: Seq<char>,
)
    ensures
        raw.len() == 0 ==> classified(index, modules, raw, lower) is Nothing,
        raw.len() > 0 && asks_help(lower) ==> classified(index, modules, raw, lower) is Help,
        raw.len() > 0 && !asks_help(lower) ==> match parsed(index, modules, raw) {
            None => classified(index, modules, raw, lower) is Nothing,
            Some(p) => {
                let flag = p.command.command_flag;
                let owned = index.dom().contains((flag, p.command.command_name));
                let wanted = exists|m: Seq<char>, name: Seq<char>|
                    #![trigger modules.dom().contains(m), index.dom().contains((flag, name))]
                    modules.dom().contains(m) && modules[m].alert_on_unknown
                        && index.dom().contains((flag, name)) && index[(flag, name)] == m;
                &&& owned ==> classified(index, modules, raw, lower) == CommandActionView::Attach(
                    p.command,
                )
                &&& !owned && wanted ==> classified(index, modules, raw, lower) is Alert
                &&& !owned && !wanted ==> classified(index, modules, raw, lower) is Nothing
            },
        },
{
    if raw.len() > 0 && !asks_help(lower) {
        if let Some(p) = parsed(index, modules, raw) {
            let flag = p.command.command_flag;
            if exists|m: Seq<char>, name: Seq<char>|
                #![trigger modules.dom().contains(m), index.dom().contains((flag, name))]
                modules.dom().contains(m) && modules[m].alert_on_unknown && index.dom().contains(
                    (flag, name),
                ) && index[(flag, name)] == m {
                let (m, name) = choose|m: Seq<char>, name: Seq<char>|
                    #![trigger modules.dom().contains(m), index.dom().contains((flag, name))]
                    modules.dom().contains(m) && modules[m].alert_on_unknown
                        && index.dom().contains((flag, name)) && index[(flag, name)] == m;
                assert(crate::command_registry::alerts_for(index, modules, flag, m));
            }
            if exists|m: Seq<char>| #[trigger]
                crate::command_registry::alerts_for(index, modules, flag, m) {
                let m = choose|m: Seq<char>| #[trigger]
                    crate::command_registry::alerts_for(index, modules, flag, m);
                let name = choose|name: Seq<char>| #[trigger]
                    index.dom().contains((flag, name)) && index[(flag, name)] == m;
                assert(modules.dom().contains(m) && index.dom().contains((flag, name)));
            }
        }
    }
}

/// A message that comes in keeps everything it came with; where it is a registered command,
/// that command is attached, and where it is none, nothing is.
pub proof fn law_ingesting_only_attaches_commands(registry: &CommandRegistry, chat: ChatMessageView)
    ensures
        ({
            let r = ingested_chat(registry, chat);
            &&& r.platform == chat.platform
            &&& r.raw_message == chat.raw_message
            &&& r.raw_data == chat.raw_data
            &&& r.user_uuid7 == chat.user_uuid7
            &&& r.channel_id == chat.channel_id
            &&& r.user_data == chat.user_data
            &&& ingest_action(registry, chat) matches CommandActionView::Attach(c) ==> r.command
                == Some(c)
            &&& !(ingest_action(registry, chat) is Attach) ==> r.command == chat.command
        }),
{
}

/// Only a request for help and an unknown command are answered: the one with the help, the
/// other with an apology that calls its author by the name they are known by.
pub proof fn law_answers_in_chat(
    action: CommandActionView,
    chat: ChatMessageView,
    commands: Seq<CommandView>,
)
    ensures
        ingest_answer(action, chat, commands) is Some <==> action is Help || action is Alert,
        action is Help ==> ingest_answer(action, chat, commands) == Some(help_text(commands)),
        action is Alert ==> {
            let name = match chat.user_data {
                Some(u) => if u.username.len() > 0 {
                    u.username
                } else if chat.user_uuid7.len() > 0 {
                    chat.user_uuid7
                } else {
                    "user"@
                },
                None => if chat.user_uuid7.len() > 0 {
                    chat.user_uuid7
                } else {
                    "user"@
                },
            };
            ingest_answer(action, chat, commands) == Some(
                "sorry "@ + (name
                    + ", that command isn't valid, try '!help' to see all available commands"@),
            )
        },
{
    if action is Alert {
        let a = apology_text(chat);
        assert(a =~= "sorry "@ + (crate::chat_commands::author(chat)
            + ", that command isn't valid, try '!help' to see all available commands"@));
    }
}

/// What the engine posts is its own: the text, platform and channel are those it is for,
/// and it speaks as `cockatiel`, for no human.
pub proof fn law_the_engine_speaks_for_itself(
    platform: Seq<char>,
    channel_id: Seq<char>,
    msg: Seq<char>,
)
    ensures
        ({
            let post = engine_post(platform, channel_id, msg);
            &&& post.msg == msg
            &&& post.platform == platform
            &&& post.channel_id == channel_id
            &&& post.actor_handle == "cockatiel"@
            &&& post.actor_platform.len() == 0
            &&& post.actor_uuid7.len() == 0
            &&& post.level == 0
        }),
{
}

/// Each platform is served by its own adapter, `all` by every one of them, and an unknown
/// platform by none.
pub proof fn law_platforms_have_their_adapters(platform: Seq<char>)
    ensures
        platform_adapters("twitch"@) == seq!["twitch-adapter"@],
        platform_adapters("kick"@) == seq!["kick-adapter"@],
        platform_adapters("youtube"@) == seq!["youtube-adapter"@],
        platform_adapters("discord"@) == seq!["discord-adapter"@],
        platform_adapters("all"@) == seq![
            "twitch-adapter"@,
            "kick-adapter"@,
            "youtube-adapter"@,
            "discord-adapter"@,
        ],
        platform != "twitch"@ && platform != "kick"@ && platform != "youtube"@ && platform
            != "discord"@ && platform != "all"@ ==> platform_adapters(platform).len() == 0,
{
    reveal_strlit("twitch");
    reveal_strlit("kick");
    reveal_strlit("youtube");
    reveal_strlit("discord");
    reveal_strlit("all");
    assert("twitch"@.len() == 6 && "kick"@.len() == 4 && "all"@.len() == 3);
    assert("youtube"@[0] == 'y' && "discord"@[0] == 'd');
    assert("youtube"@.len() == 7 && "discord"@.len() == 7);
}

/// An option in a message carries its own name and value; what its module said of the
/// option of that name comes with it, and nothing where it said nothing.
pub proof fn law_options_carry_their_definition(
    definitions: Seq<FlagView>,
    name: Seq<char>,
    value: Seq<char>,
    i: int,
)
    ensures
        given_flag(definitions, name, value).flag_name == name,
        given_flag(definitions, name, value).value == value,
        0 <= i < definitions.len() && definitions[i].flag_name == name && (forall|j: int|
            0 <= j < i ==> (#[trigger] definitions[j]).flag_name != name) ==> {
            let f = given_flag(definitions, name, value);
            &&& f.flag_description == definitions[i].flag_description
            &&& f.limiting_type == definitions[i].limiting_type
            &&& f.min_val == definitions[i].min_val
            &&& f.max_val == definitions[i].max_val
            &&& f.options == definitions[i].options
        },
        (forall|j: int| 0 <= j < definitions.len() ==> (#[trigger] definitions[j]).flag_name
            != name) ==> {
            let f = given_flag(definitions, name, value);
            &&& f.flag_description.len() == 0
            &&& f.options.len() == 0
            &&& f.limiting_type == 0 && f.min_val == 0 && f.max_val == 0
        },
{
    if 0 <= i < definitions.len() && definitions[i].flag_name == name && (forall|j: int|
        0 <= j < i ==> (#[trigger] definitions[j]).flag_name != name) {
        lemma_first_flag(definitions, name, i);
    }
    if forall|j: int| 0 <= j < definitions.len() ==> (#[trigger] definitions[j]).flag_name != name {
        lemma_no_flag(definitions, name);
    }
}

proof fn lemma_first_flag(definitions: Seq<FlagView>, name: Seq<char>, i: int)
    requires
        0 <= i < definitions.len(),
        definitions[i].flag_name == name,
        forall|j: int| 0 <= j < i ==> (#[trigger] definitions[j]).flag_name != name,
    ensures
        find_flag(definitions, name) == Some(definitions[i]),
    decreases i,
{
    if i > 0 {
        assert(definitions[0].flag_name != name);
        assert forall|j: int| 0 <= j < i - 1 implies (#[trigger] definitions.drop_first()[j]).flag_name
            != name by {
            assert(definitions.drop_first()[j] == definitions[j + 1]);
        }
        lemma_first_flag(definitions.drop_first(), name, i - 1);
    }
}

proof fn lemma_no_flag(definitions: Seq<FlagView>, name: Seq<char>)
    requires
        forall|j: int| 0 <= j < definitions.len() ==> (#[trigger] definitions[j]).flag_name != name,
    ensures
        find_flag(definitions, name) is None,
    decreases definitions.len(),
{
    if definitions.len() > 0 {
        assert(definitions[0].flag_name != name);
        assert forall|j: int| 0 <= j < definitions.drop_first().len() implies (
        #[trigger] definitions.drop_first()[j]).flag_name != name by {
            assert(definitions.drop_first()[j] == definitions[j + 1]);
        }
        lemma_no_flag(definitions.drop_first(), name);
    }
}

/// Words that are no options are a command's arguments, in order, and give no option.
pub proof fn law_plain_words_are_arguments(words: Seq<Seq<char>>, definitions: Seq<FlagView>)
    requires
        forall|i: int|
            0 <= i < words.len() ==> (#[trigger] words[i]).len() == 0 || words[i][0] != '-'
                || words[i].len() == 1,
    ensures
        read_words(words, definitions).0.len() == 0,
        read_words(words, definitions).1 == words,
    decreases words.len(),
{
    if words.len() > 0 {
        let rest = words.skip(1);
        assert forall|i: int| 0 <= i < rest.len() implies (#[trigger] rest[i]).len() == 0
            || rest[i][0] != '-' || rest[i].len() == 1 by {
            assert(rest[i] == words[i + 1]);
        }
        law_plain_words_are_arguments(rest, definitions);
        assert(!(words[0].len() > 1 && words[0][0] == '-'));
        assert(read_words(words, definitions).1 =~= words);
        assert(read_words(words, definitions).0 =~= Seq::<FlagView>::empty());
    }
}

/// A command that is read has the description that its owner gave for it, and none where
/// nobody owns it.
pub proof fn law_commands_carry_their_description(
    index: Map<CommandKey, Seq<char>>,
    modules: Map<Seq<char>, ModuleCommandRegView>,
    message: Seq<char>,
)
    requires
        parsed(index, modules, message) is Some,
    ensures
        ({
            let c = parsed(index, modules, message).unwrap().command;
            let d = definition(index, modules, (c.command_flag, c.command_name));
            &&& known_flag(index, c.command_flag)
            &&& d matches Some(def) ==> c.command_description == def.command_description
            &&& d is None ==> c.command_description.len() == 0
            &&& !index.dom().contains((c.command_flag, c.command_name)) ==> d is None
        }),
{
    crate::command_registry::law_parsed_under_longest_flag(index, modules, message, 0);
}

proof fn lemma_longest(index: Map<CommandKey, Seq<char>>, raw: Seq<char>, n: nat, k: nat)
    requires
        k <= n,
        known_flag(index, raw.take(k as int)),
        forall|j: int| k < j <= n ==> !known_flag(index, #[trigger] raw.take(j)),
    ensures
        longest_flag(index, raw, n) == Some(k),
    decreases n,
{
    if n > k {
        assert(!known_flag(index, raw.take(n as int)));
        lemma_longest(index, raw, (n - 1) as nat, k);
    }
}

/// A message that starts with a known prefix, and with no longer one, is read as the command
/// of the name behind the prefix; the words behind the name are its options and arguments.
/// Where none of them is an option they are all arguments, with one blank between them.
pub proof fn law_how_a_command_is_read(
    index: Map<CommandKey, Seq<char>>,
    modules: Map<Seq<char>, ModuleCommandRegView>,
    flag: Seq<char>,
    name: Seq<char>,
    rest: Seq<char>,
)
    requires
        known_flag(index, flag),
        name.len() > 0,
        no_white(name),
        rest.len() == 0 || is_white(rest[0]),
        trim(flag + name + rest) == flag + name + rest,
        forall|j: int|
            flag.len() < j <= (flag + name + rest).len() ==> !known_flag(
                index,
                #[trigger] (flag + name + rest).take(j),
            ),
    ensures
        ({
            &&& parsed(index, modules, flag + name + rest) matches Some(p)
            &&& p.command.command_flag == flag
            &&& p.command.command_name == name
            &&& (forall|i: int|
                0 <= i < words(rest).len() ==> (#[trigger] words(rest)[i]).len() <= 1
                    || words(rest)[i][0] != '-') ==> p.args == join(words(rest), " "@)
                && p.command.command_flags.len() == 0
        }),
{
    let raw = flag + name + rest;
    let k = flag.len();
    assert(raw.take(k as int) =~= flag);
    lemma_longest(index, raw, raw.len(), k);
    let body = name + rest;
    assert(raw.skip(k as int) =~= body);
    assert(body[0] == name[0]);
    assert(!is_white(name[0]));
    assert(crate::text::trim_start(body) == body);
    crate::text::lemma_word_ends(name, rest);
    assert(body.take(name.len() as int) =~= name);
    assert(body.skip(name.len() as int) =~= rest);
    if forall|i: int|
        0 <= i < words(rest).len() ==> (#[trigger] words(rest)[i]).len() <= 1 || words(rest)[i][0]
            != '-' {
        let defs = crate::command_registry::defined_flags(
            definition(index, modules, (flag, name)),
        );
        assert forall|i: int| 0 <= i < words(rest).len() implies (#[trigger] words(rest)[i]).len()
            == 0 || words(rest)[i][0] != '-' || words(rest)[i].len() == 1 by {}
        law_plain_words_are_arguments(words(rest), defs);
    }
}

/// Nothing is posted where there is no adapter to post with.
pub proof fn law_unknown_platforms_get_no_answer(
    registry: &CommandRegistry,
    chat: ChatMessageView,
    r: Option<PlatformReply>,
)
    requires
        answers(r, registry, chat),
        chat.platform != "all"@,
        chat.platform != "twitch"@,
        chat.platform != "kick"@,
        chat.platform != "youtube"@,
        chat.platform != "discord"@,
    ensures
        r is None,
{
}

} // verus!
