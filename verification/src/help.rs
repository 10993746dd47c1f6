//! The help module: it lists what commands there are.
use crate::proto::{
    views, ChatMessage, ChatMessageView, Command, CommandView, Commands, CommandsView,
    Container, ContainerView, Flag, FlagView, MessagePostProcess, MessagePostProcessView,
    Payload, PayloadView,
};
use crate::strmap::{put, StrMap};
use crate::text::{begins_with, same, trim, trimmed};
use vstd::prelude::*;

verus! {

/// What each module registered.
#[derive(Debug)]
pub struct HelpMenu {
    registry: StrMap<Commands>,
}

/// The lines on the options of a command.
pub open spec fn flag_lines(flags: Seq<FlagView>) -> Seq<char>
    decreases flags.len(),
{
    if flags.len() == 0 {
        Seq::empty()
    } else {
        let f = flags.last();
        flag_lines(flags.drop_last()) + "  -"@ + f.flag_name + ": "@ + f.flag_description + "\n"@
    }
}

/// The lines on some commands.
pub open spec fn command_lines(commands: Seq<CommandView>) -> Seq<char>
    decreases commands.len(),
{
    if commands.len() == 0 {
        Seq::empty()
    } else {
        let c = commands.last();
        command_lines(commands.drop_last()) + "!"@ + c.command_flag + " - "@ + c.command_description
            + "\n"@ + flag_lines(c.command_flags) + "\n"@
    }
}

/// The lines on what modules registered.
pub open spec fn module_lines(modules: Seq<(Seq<char>, CommandsView)>) -> Seq<char>
    decreases modules.len(),
{
    if modules.len() == 0 {
        Seq::empty()
    } else {
        module_lines(modules.drop_last()) + command_lines(modules.last().1.commands)
    }
}

/// The list of commands.
pub open spec fn menu_text(modules: Seq<(Seq<char>, CommandsView)>) -> Seq<char> {
    if modules.len() == 0 {
        "No commands are currently available."@
    } else {
        "Available commands:\n\n"@ + module_lines(modules)
    }
}

fn write_flags(out: &mut String, flags: &Vec<Flag>)
    ensures
        final(out)@ == old(out)@ + flag_lines(views(flags@)),
{
    let ghost all = views(flags@);
    let ghost start = out@;
    let mut i: usize = 0;
    assert(start + flag_lines(all.take(0)) =~= start);
    while i < flags.len()
        invariant
            i <= flags@.len(),
            all == views(flags@),
            out@ == start + flag_lines(all.take(i as int)),
        decreases flags@.len() - i,
    {
        assert(all.take(i + 1).drop_last() =~= all.take(i as int));
        out.append("  -");
        out.append(flags[i].flag_name.as_str());
        out.append(": ");
        out.append(flags[i].flag_description.as_str());
        out.append("\n");
        assert(out@ =~= start + flag_lines(all.take(i + 1)));
        i = i + 1;
    }
    assert(all.take(i as int) =~= all);
}

fn write_commands(out: &mut String, commands: &Vec<Command>)
    ensures
        final(out)@ == old(out)@ + command_lines(views(commands@)),
{
    let ghost all = views(commands@);
    let ghost start = out@;
    let mut i: usize = 0;
    assert(start + command_lines(all.take(0)) =~= start);
    while i < commands.len()
        invariant
            i <= commands@.len(),
            all == views(commands@),
            out@ == start + command_lines(all.take(i as int)),
        decreases commands@.len() - i,
    {
        assert(all.take(i + 1).drop_last() =~= all.take(i as int));
        out.append("!");
        out.append(commands[i].command_flag.as_str());
        out.append(" - ");
        out.append(commands[i].command_description.as_str());
        out.append("\n");
        write_flags(out, &commands[i].command_flags);
        out.append("\n");
        assert(out@ =~= start + command_lines(all.take(i + 1)));
        i = i + 1;
    }
    assert(all.take(i as int) =~= all);
}

/// The name that the module's own messages carry.
pub open spec fn own_user() -> Seq<char> {
    "CockatielSystem"@
}

/// Whether a message asks for the list: it is not the module's own, and it begins with the
/// command.
pub open spec fn asks(chat: ChatMessageView) -> bool {
    chat.user_uuid7 != own_user() && "!help"@.is_prefix_of(trim(chat.raw_message))
}

/// What is answered to a message that asks for the list.
pub open spec fn menu_message(platform: Seq<char>, menu: Seq<char>) -> MessagePostProcessView {
    MessagePostProcessView {
        message_uuid7: Seq::empty(),
        raw_message: Some(
            ChatMessageView {
                platform,
                raw_data: Seq::empty(),
                raw_message: "!help"@,
                user_uuid7: own_user(),
                command: None,
                channel_id: Seq::empty(),
                user_data: None,
            },
        ),
        processed_message: menu,
        audio: Seq::empty(),
        audio_type: Seq::empty(),
    }
}

impl HelpMenu {
    /// What each module registered, in the order in which they first did.
    pub closed spec fn modules(&self) -> Seq<(Seq<char>, CommandsView)> {
        self.registry.pairs().map_values(|p: (Seq<char>, Commands)| (p.0, p.1@))
    }

    /// No module is there twice.
    pub closed spec fn wf(&self) -> bool {
        self.registry.wf()
    }

    /// Nothing is registered.
    pub fn new() -> (r: Self)
        ensures
            r.wf(),
            r.modules() == Seq::<(Seq<char>, CommandsView)>::empty(),
    {
        let r = HelpMenu { registry: StrMap::new() };
        assert(r.modules() =~= Seq::<(Seq<char>, CommandsView)>::empty());
        r
    }

    /// Takes what a module registers, in place of what it registered before.
    pub fn register(&mut self, module: &str, commands: Commands)
        requires
            old(self).wf(),
        ensures
            final(self).wf(),
            final(self).modules() == put(old(self).modules(), module@, commands@),
    {
        let ghost before = self.registry.pairs();
        let ghost shown = self.modules();
        self.registry.insert(module.to_owned(), commands);
        proof {
            crate::strmap::lemma_position_keys(before, shown, module@);
            crate::strmap::lemma_position(before, module@);
        }
        assert(self.modules() =~= put(shown, module@, commands@));
    }

    /// The list of commands.
    pub fn format_help_menu(&self) -> (r: String)
        ensures
            r@ == menu_text(self.modules()),
    {
        if self.registry.len() == 0 {
            return "No commands are currently available.".to_owned();
        }
        let ghost all = self.modules();
        let mut out = "Available commands:\n\n".to_owned();
        let mut i: usize = 0;
        assert(out@ + module_lines(all.take(0)) =~= out@);
        while i < self.registry.len()
            invariant
                i <= self.registry.pairs().len(),
                all == self.modules(),
                out@ == "Available commands:\n\n"@ + module_lines(all.take(i as int)),
            decreases self.registry.pairs().len() - i,
        {
            assert(all.take(i + 1).drop_last() =~= all.take(i as int));
            write_commands(&mut out, &self.registry.value_at(i).commands);
            assert(out@ =~= "Available commands:\n\n"@ + module_lines(all.take(i + 1)));
            i = i + 1;
        }
        assert(all.take(i as int) =~= all);
        out
    }

    /// What is answered to a finished message, if it asks for the list.
    pub fn respond(&self, message: &MessagePostProcess, instance_uuid7: &str) -> (r: Option<
        Container,
    >)
        ensures
            (match message@.raw_message {
                Some(chat) if asks(chat) => r matches Some(c) && c@ == (ContainerView {
                    version: 1,
                    auth_token: Seq::empty(),
                    module_name: "help-module"@,
                    module_instance_uuid7: instance_uuid7@,
                    payload: Some(
                        PayloadView::MessagePostProcess(
                            menu_message(chat.platform, menu_text(self.modules())),
                        ),
                    ),
                }),
                _ => r is None,
            }),
    {
        let chat = match &message.raw_message {
            Some(c) => c,
            None => {
                return None;
            },
        };
        if same(chat.user_uuid7.as_str(), "CockatielSystem") {
            return None;
        }
        if !begins_with(trimmed(chat.raw_message.as_str()).as_str(), "!help") {
            return None;
        }
        Some(
            Container {
                version: 1,
                auth_token: String::new(),
                module_name: "help-module".to_owned(),
                module_instance_uuid7: instance_uuid7.to_owned(),
                payload: Some(
                    Payload::MessagePostProcess(
                        MessagePostProcess {
                            message_uuid7: String::new(),
                            raw_message: Some(
                                ChatMessage {
                                    platform: chat.platform.clone(),
                                    raw_data: Vec::new(),
                                    raw_message: "!help".to_owned(),
                                    user_uuid7: "CockatielSystem".to_owned(),
                                    command: None,
                                    channel_id: String::new(),
                                    user_data: None,
                                },
                            ),
                            processed_message: self.format_help_menu(),
                            audio: Vec::new(),
                            audio_type: String::new(),
                        },
                    ),
                ),
            },
        )
    }
}

/// The module does not answer itself: its own list asks for none.
pub proof fn law_help_does_not_answer_itself(platform: Seq<char>, menu: Seq<char>)
    ensures
        menu_message(platform, menu).raw_message matches Some(c) && !asks(c),
{
}

} // verus!
