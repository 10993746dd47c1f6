//! Which modules subscribe to which chat commands, and the command parser.
//!
//! A module that registers commands is sent those commands. One that registers an
//! empty list is a catch-all: it is sent every message. A module may ask that a user
//! who tries an unregistered command under one of its prefixes is told so.
use crate::proto::{
    clone_all, clone_texts, views, Command, CommandView, Commands, CommandsView, Flag, FlagView,
};
use crate::strmap::{
    as_map, keys_distinct, lemma_position, lemma_position_at, lemma_position_keys, lemma_put,
    position, StrMap,
};
use crate::text::{
    begins_with, first_word_len, is_white, join, joined, lemma_trim_end_tail, lemma_word_ends,
    lemma_words_after_white, lemma_words_cons, no_white, same, slice, split_at_char, split_once,
    split_words, texts, trim, trim_end, trim_start, trimmed, trimmed_start, word_len, words,
};
use vstd::prelude::*;

verus! {

/// What one module registered.
#[derive(Debug)]
pub struct ModuleCommandReg {
    pub commands: Vec<Command>,
    pub catch_all: bool,
    pub alert_on_unknown: bool,
}

/// What a [`ModuleCommandReg`] says.
#[verifier::ext_equal]
pub struct ModuleCommandRegView {
    pub commands: Seq<CommandView>,
    pub catch_all: bool,
    pub alert_on_unknown: bool,
}

impl View for ModuleCommandReg {
    type V = ModuleCommandRegView;

    open spec fn view(&self) -> ModuleCommandRegView {
        ModuleCommandRegView {
            commands: views(self.commands@),
            catch_all: self.catch_all,
            alert_on_unknown: self.alert_on_unknown,
        }
    }
}

impl Clone for ModuleCommandReg {
    fn clone(&self) -> (r: Self)
        ensures
            r@ == self@,
    {
        ModuleCommandReg {
            commands: clone_all(&self.commands),
            catch_all: self.catch_all,
            alert_on_unknown: self.alert_on_unknown,
        }
    }
}

impl Default for ModuleCommandReg {
    fn default() -> (r: Self)
        ensures
            r@ == (ModuleCommandRegView {
                commands: Seq::empty(),
                catch_all: false,
                alert_on_unknown: false,
            }),
    {
        let r = ModuleCommandReg { commands: Vec::new(), catch_all: false, alert_on_unknown: false };
        assert(views(r.commands@) =~= Seq::empty());
        r
    }
}

/// A prefix and a command name.
pub type CommandKey = (Seq<char>, Seq<char>);

/// The key of a command.
pub open spec fn key_of(c: CommandView) -> CommandKey {
    (c.command_flag, c.command_name)
}

/// Some command of the list has the key.
pub open spec fn lists(commands: Seq<CommandView>, key: CommandKey) -> bool {
    exists|i: int| 0 <= i < commands.len() && key_of(#[trigger] commands[i]) == key
}

/// The first command of the list with the key.
pub open spec fn find_command(commands: Seq<CommandView>, key: CommandKey) -> Option<CommandView>
    decreases commands.len(),
{
    if commands.len() == 0 {
        None
    } else if key_of(commands[0]) == key {
        Some(commands[0])
    } else {
        find_command(commands.drop_first(), key)
    }
}

/// The subscriptions after a module registered a list of commands: it owns those, and
/// gives up what it owned before.
pub open spec fn subscribed(
    index: Map<CommandKey, Seq<char>>,
    module: Seq<char>,
    commands: Seq<CommandView>,
) -> Map<CommandKey, Seq<char>> {
    Map::new(
        |k: CommandKey| lists(commands, k) || (index.dom().contains(k) && index[k] != module),
        |k: CommandKey|
            if lists(commands, k) {
                module
            } else {
                index[k]
            },
    )
}

/// A prefix that some subscription uses.
pub open spec fn known_flag(index: Map<CommandKey, Seq<char>>, flag: Seq<char>) -> bool {
    exists|name: Seq<char>| #[trigger] index.dom().contains((flag, name))
}

/// The length of the longest known prefix that `raw` starts with, among those of at most
/// `n` characters.
pub open spec fn longest_flag(
    index: Map<CommandKey, Seq<char>>,
    raw: Seq<char>,
    n: nat,
) -> Option<nat>
    decreases n,
{
    if known_flag(index, raw.take(n as int)) {
        Some(n)
    } else if n == 0 {
        None
    } else {
        longest_flag(index, raw, (n - 1) as nat)
    }
}

/// The registered command behind a key.
pub open spec fn definition(
    index: Map<CommandKey, Seq<char>>,
    modules: Map<Seq<char>, ModuleCommandRegView>,
    key: CommandKey,
) -> Option<CommandView> {
    if index.dom().contains(key) && modules.dom().contains(index[key]) {
        find_command(modules[index[key]].commands, key)
    } else {
        None
    }
}

/// The options that a registered command takes.
pub open spec fn defined_flags(d: Option<CommandView>) -> Seq<FlagView> {
    match d {
        Some(c) => c.command_flags,
        None => Seq::empty(),
    }
}

/// The description of a registered command.
pub open spec fn defined_description(d: Option<CommandView>) -> Option<Seq<char>> {
    match d {
        Some(c) => Some(c.command_description),
        None => None,
    }
}

/// A word that names an option: a dash and at least one character.
pub open spec fn is_option(word: Seq<char>) -> bool {
    word.len() > 1 && word[0] == '-'
}

/// The first option of the list with the name.
pub open spec fn find_flag(flags: Seq<FlagView>, name: Seq<char>) -> Option<FlagView>
    decreases flags.len(),
{
    if flags.len() == 0 {
        None
    } else if flags[0].flag_name == name {
        Some(flags[0])
    } else {
        find_flag(flags.drop_first(), name)
    }
}

/// An option with a value. Its description and limits are those of its definition,
/// where there is one.
pub open spec fn given_flag(
    definitions: Seq<FlagView>,
    name: Seq<char>,
    value: Seq<char>,
) -> FlagView {
    match find_flag(definitions, name) {
        Some(d) => FlagView { flag_name: name, value, ..d },
        None => FlagView {
            flag_name: name,
            flag_description: Seq::empty(),
            limiting_type: 0,
            min_val: 0,
            max_val: 0,
            options: Seq::empty(),
            value,
        },
    }
}

/// The options among the words and the words that are left. An option's value stands
/// behind a colon, or is the next word unless that starts with a dash; else it is `true`.
pub open spec fn read_words(words: Seq<Seq<char>>, definitions: Seq<FlagView>) -> (
    Seq<FlagView>,
    Seq<Seq<char>>,
)
    decreases words.len(),
{
    if words.len() == 0 {
        (Seq::empty(), Seq::empty())
    } else if is_option(words[0]) {
        let body = words[0].skip(1);
        let (name, value, used) = match split_once(body, ':') {
            Some((n, v)) => (n, v, 1int),
            None => if words.len() > 1 && !(words[1].len() > 0 && words[1][0] == '-') {
                (body, words[1], 2int)
            } else {
                (body, "true"@, 1int)
            },
        };
        let (flags, args) = read_words(words.skip(used), definitions);
        (seq![given_flag(definitions, name, value)] + flags, args)
    } else {
        let (flags, args) = read_words(words.skip(1), definitions);
        (flags, seq![words[0]] + args)
    }
}

/// A parsed chat command: the command, its option values, and what is left of the
/// message.
#[derive(Debug)]
pub struct ParsedCommand {
    /// The command; its flags are the options that were given.
    pub command: Command,
    /// The words that are no options, one space between each two.
    pub args: String,
}

/// What a [`ParsedCommand`] says.
#[verifier::ext_equal]
pub struct ParsedCommandView {
    pub command: CommandView,
    pub args: Seq<char>,
}

impl View for ParsedCommand {
    type V = ParsedCommandView;

    open spec fn view(&self) -> ParsedCommandView {
        ParsedCommandView { command: self.command@, args: self.args@ }
    }
}

impl Clone for ParsedCommand {
    fn clone(&self) -> (r: Self)
        ensures
            r@ == self@,
    {
        ParsedCommand { command: self.command.clone(), args: self.args.clone() }
    }
}

/// What a message means as a command; `None` where it starts with no known prefix, or
/// holds nothing behind it.
pub open spec fn parsed(
    index: Map<CommandKey, Seq<char>>,
    modules: Map<Seq<char>, ModuleCommandRegView>,
    message: Seq<char>,
) -> Option<ParsedCommandView> {
    let raw = trim(message);
    match longest_flag(index, raw, raw.len()) {
        Some(n) => {
            let flag = raw.take(n as int);
            let body = trim_start(raw.skip(n as int));
            if body.len() == 0 {
                None
            } else {
                let name = body.take(word_len(body) as int);
                let d = definition(index, modules, (flag, name));
                let (flags, args) = read_words(
                    words(body.skip(word_len(body) as int)),
                    defined_flags(d),
                );
                Some(
                    ParsedCommandView {
                        command: CommandView {
                            command_name: name,
                            command_flag: flag,
                            command_description: match defined_description(d) {
                                Some(t) => t,
                                None => Seq::empty(),
                            },
                            command_flags: flags,
                        },
                        args: join(args, " "@),
                    },
                )
            }
        },
        None => None,
    }
}

/// A subscription.
#[derive(Debug)]
struct Subscription {
    flag: String,
    name: String,
    owner: String,
}

impl Subscription {
    spec fn key(&self) -> CommandKey {
        (self.flag@, self.name@)
    }
}

impl Clone for Subscription {
    fn clone(&self) -> (r: Self)
        ensures
            r == *self,
    {
        Subscription {
            flag: self.flag.clone(),
            name: self.name.clone(),
            owner: self.owner.clone(),
        }
    }
}

/// Some subscription of the list has the key.
spec fn subscribes(v: Seq<Subscription>, k: CommandKey) -> bool {
    exists|i: int| 0 <= i < v.len() && (#[trigger] v[i]).key() == k
}

/// The subscription with the key.
spec fn subscription_at(v: Seq<Subscription>, k: CommandKey) -> Subscription {
    v[choose|i: int| 0 <= i < v.len() && (#[trigger] v[i]).key() == k]
}

/// No key is subscribed to twice.
spec fn keys_once(v: Seq<Subscription>) -> bool {
    forall|i: int, j: int| #![trigger v[i], v[j]]
        0 <= i < j < v.len() ==> v[i].key() != v[j].key()
}

/// The subscriptions as a map.
spec fn index_of(v: Seq<Subscription>) -> Map<CommandKey, Seq<char>> {
    Map::new(|k: CommandKey| subscribes(v, k), |k: CommandKey| subscription_at(v, k).owner@)
}

proof fn lemma_index_at(v: Seq<Subscription>, i: int)
    requires
        keys_once(v),
        0 <= i < v.len(),
    ensures
        index_of(v).dom().contains(v[i].key()),
        index_of(v)[v[i].key()] == v[i].owner@,
{
    let k = v[i].key();
    assert(subscribes(v, k));
    let j = choose|j: int| 0 <= j < v.len() && (#[trigger] v[j]).key() == k;
    assert(v[j].key() == v[i].key());
}

/// The subscriptions by command, and the registrations by module.
#[derive(Debug)]
pub struct CommandRegistry {
    index: Vec<Subscription>,
    modules: StrMap<ModuleCommandReg>,
}

impl CommandRegistry {
    /// Which module owns which command.
    pub closed spec fn index(&self) -> Map<CommandKey, Seq<char>> {
        index_of(self.index@)
    }

    /// What each module registered.
    pub closed spec fn modules(&self) -> Map<Seq<char>, ModuleCommandRegView> {
        self.modules@.map_values(|r: ModuleCommandReg| r@)
    }

    /// The registrations in the order in which the modules first registered.
    pub closed spec fn registrations(&self) -> Seq<(Seq<char>, ModuleCommandRegView)> {
        self.modules.pairs().map_values(|p: (Seq<char>, ModuleCommandReg)| (p.0, p.1@))
    }

    /// A command is owned by a module that is registered and lists it, and a module without
    /// commands is a catch-all.
    pub closed spec fn wf(&self) -> bool {
        &&& keys_once(self.index@)
        &&& self.modules.wf()
        &&& owners_listed(self.index(), self.modules())
        &&& catch_alls_empty(self.modules())
    }

    /// What well-formedness means for the registrations: no module is there twice, they are
    /// those by module, an owned command is listed by its owner, and the catch-alls are the
    /// modules without commands.
    pub proof fn lemma_wf(&self)
        requires
            self.wf(),
        ensures
            keys_distinct(self.registrations()),
            self.modules() == as_map(self.registrations()),
            owners_listed(self.index(), self.modules()),
            catch_alls_empty(self.modules()),
    {
        let pairs = self.modules.pairs();
        let regs = self.registrations();
        assert forall|i: int, j: int| #![trigger regs[i], regs[j]]
            0 <= i < j < regs.len() implies regs[i].0 != regs[j].0 by {
            assert(pairs[i].0 != pairs[j].0);
        }
        assert forall|k: Seq<char>| position(pairs, k) == #[trigger] position(regs, k) by {
            lemma_position_keys(pairs, regs, k);
        }
        assert forall|k: Seq<char>| #[trigger] self.modules().dom().contains(k) == as_map(
            regs,
        ).dom().contains(k) by {
            assert(position(pairs, k) == position(regs, k));
        }
        assert forall|k: Seq<char>| #[trigger]
            self.modules().dom().contains(k) implies self.modules()[k] == as_map(regs)[k] by {
            assert(position(pairs, k) == position(regs, k));
        }
        assert(self.modules() =~= as_map(regs));
    }
}

/// A module is a catch-all exactly where it registered no command.
pub open spec fn catch_alls_empty(modules: Map<Seq<char>, ModuleCommandRegView>) -> bool {
    forall|m: Seq<char>| #[trigger]
        modules.dom().contains(m) ==> modules[m].catch_all == (modules[m].commands.len() == 0)
}

/// Every command is owned by a module that is registered and lists it.
pub open spec fn owners_listed(
    index: Map<CommandKey, Seq<char>>,
    modules: Map<Seq<char>, ModuleCommandRegView>,
) -> bool {
    forall|k: CommandKey| #[trigger]
        index.dom().contains(k) ==> modules.dom().contains(index[k]) && lists(
            modules[index[k]].commands,
            k,
        )
}

/// The commands of a list, without those whose key stands earlier in it.
pub open spec fn distinct_commands(commands: Seq<CommandView>) -> Seq<CommandView>
    decreases commands.len(),
{
    if commands.len() == 0 {
        Seq::empty()
    } else {
        let front = distinct_commands(commands.drop_last());
        if lists(front, key_of(commands.last())) {
            front
        } else {
            front.push(commands.last())
        }
    }
}

/// The commands of all registrations, in order.
pub open spec fn listed_commands(registrations: Seq<(Seq<char>, ModuleCommandRegView)>) -> Seq<
    CommandView,
>
    decreases registrations.len(),
{
    if registrations.len() == 0 {
        Seq::empty()
    } else {
        listed_commands(registrations.drop_last()) + registrations.last().1.commands
    }
}

/// The modules that are catch-alls, in order.
pub open spec fn catch_all_names(registrations: Seq<(Seq<char>, ModuleCommandRegView)>) -> Seq<
    Seq<char>,
>
    decreases registrations.len(),
{
    if registrations.len() == 0 {
        Seq::empty()
    } else {
        let front = catch_all_names(registrations.drop_last());
        if registrations.last().1.catch_all {
            front.push(registrations.last().0)
        } else {
            front
        }
    }
}

/// A registration as it is kept.
pub open spec fn registration(c: CommandsView) -> ModuleCommandRegView {
    ModuleCommandRegView {
        commands: c.commands,
        catch_all: c.commands.len() == 0,
        alert_on_unknown: c.alert_on_unknown_command,
    }
}

/// A module that owns a command under the prefix and asked for alerts.
pub open spec fn alerts_for(
    index: Map<CommandKey, Seq<char>>,
    modules: Map<Seq<char>, ModuleCommandRegView>,
    flag: Seq<char>,
    module: Seq<char>,
) -> bool {
    &&& modules.dom().contains(module)
    &&& modules[module].alert_on_unknown
    &&& exists|name: Seq<char>| #[trigger]
        index.dom().contains((flag, name)) && index[(flag, name)] == module
}

proof fn lemma_index_put(v: Seq<Subscription>, w: Seq<Subscription>, i: int)
    requires
        keys_once(v),
        0 <= i <= v.len(),
        w == (if i < v.len() {
            v.update(i, w[i])
        } else {
            v.push(w[i])
        }),
        i < v.len() ==> v[i].key() == w[i].key(),
        i == v.len() ==> !subscribes(v, w[i].key()),
    ensures
        keys_once(w),
        index_of(w) == index_of(v).insert(w[i].key(), w[i].owner@),
{
    let k = w[i].key();
    assert(keys_once(w)) by {
        assert forall|a: int, b: int| #![trigger w[a], w[b]]
            0 <= a < b < w.len() implies w[a].key() != w[b].key() by {
            if i < v.len() {
                assert(v[a].key() == w[a].key());
                assert(v[b].key() == w[b].key());
            } else if b < v.len() {
                assert(v[a] == w[a] && v[b] == w[b]);
            } else {
                assert(v[a] == w[a]);
                if w[a].key() == w[b].key() {
                    assert(v[a].key() == k);
                    assert(subscribes(v, k));
                }
            }
        }
    }
    let after = index_of(v).insert(k, w[i].owner@);
    assert forall|x: CommandKey| index_of(w).dom().contains(x) == after.dom().contains(x) by {
        if subscribes(w, x) {
            let a = choose|a: int| 0 <= a < w.len() && (#[trigger] w[a]).key() == x;
            if a != i {
                assert(v[a].key() == x);
            }
        }
        if subscribes(v, x) {
            let a = choose|a: int| 0 <= a < v.len() && (#[trigger] v[a]).key() == x;
            assert(w[a].key() == x);
        }
        if x == k {
            assert(w[i].key() == x);
        }
    }
    assert forall|x: CommandKey| #[trigger] index_of(w).dom().contains(x) implies index_of(w)[x]
        == after[x] by {
        let a = choose|a: int| 0 <= a < w.len() && (#[trigger] w[a]).key() == x;
        lemma_index_at(w, a);
        if x != k {
            assert(v[a] == w[a]);
            lemma_index_at(v, a);
        } else {
            lemma_index_at(w, i);
        }
    }
    assert(index_of(w) =~= after);
}

proof fn lemma_find_command(commands: Seq<CommandView>, key: CommandKey)
    ensures
        find_command(commands, key) is Some == lists(commands, key),
    decreases commands.len(),
{
    if commands.len() > 0 {
        let t = commands.drop_first();
        lemma_find_command(t, key);
        if key_of(commands[0]) == key {
            assert(lists(commands, key));
        } else if lists(t, key) {
            let i = choose|i: int| 0 <= i < t.len() && key_of(#[trigger] t[i]) == key;
            assert(key_of(commands[i + 1]) == key);
        } else if lists(commands, key) {
            let i = choose|i: int| 0 <= i < commands.len() && key_of(#[trigger] commands[i]) == key;
            assert(key_of(t[i - 1]) == key);
        }
    }
}

/// Adds a subscription, in place of one with the same key.
fn subscribe(v: &mut Vec<Subscription>, s: Subscription)
    requires
        keys_once(old(v)@),
    ensures
        keys_once(final(v)@),
        index_of(final(v)@) == index_of(old(v)@).insert(s.key(), s.owner@),
{
    let ghost before = v@;
    let i = seek(v, s.flag.as_str(), s.name.as_str());
    if i < v.len() {
        v[i] = s;
    } else {
        v.push(s);
    }
    proof {
        lemma_index_put(before, v@, i as int);
    }
}

/// The index of the subscription with the key, or the number of subscriptions.
fn seek(v: &Vec<Subscription>, flag: &str, name: &str) -> (r: usize)
    ensures
        r <= v@.len(),
        r < v@.len() ==> v@[r as int].key() == (flag@, name@),
        r == v@.len() ==> !subscribes(v@, (flag@, name@)),
{
    let mut i: usize = 0;
    while i < v.len()
        invariant
            i <= v@.len(),
            forall|j: int| 0 <= j < i ==> (#[trigger] v@[j]).key() != (flag@, name@),
        decreases v@.len() - i,
    {
        if same(v[i].flag.as_str(), flag) && same(v[i].name.as_str(), name) {
            return i;
        }
        i = i + 1;
    }
    i
}

/// One of the first `n` subscriptions, of another module.
spec fn kept_from(v: Seq<Subscription>, n: int, module: Seq<char>, s: Subscription) -> bool {
    exists|j: int| 0 <= j < n && #[trigger] v[j] == s && v[j].owner@ != module
}

/// The subscriptions of all modules but one.
fn without_owner(v: &Vec<Subscription>, module: &str) -> (r: Vec<Subscription>)
    requires
        keys_once(v@),
    ensures
        keys_once(r@),
        index_of(r@) == subscribed(index_of(v@), module@, Seq::empty()),
{
    let mut out: Vec<Subscription> = Vec::new();
    let mut i: usize = 0;
    while i < v.len()
        invariant
            i <= v@.len(),
            keys_once(v@),
            keys_once(out@),
            forall|a: int|
                0 <= a < out@.len() ==> kept_from(v@, i as int, module@, #[trigger] out@[a]),
            forall|j: int|
                0 <= j < i && (#[trigger] v@[j]).owner@ != module@ ==> out@.contains(v@[j]),
        decreases v@.len() - i,
    {
        if !same(v[i].owner.as_str(), module) {
            let ghost before = out@;
            out.push(v[i].clone());
            assert(out@[before.len() as int] == v@[i as int]);
            assert forall|a: int| 0 <= a < out@.len() implies kept_from(
                v@,
                i + 1,
                module@,
                #[trigger] out@[a],
            ) by {
                if a < before.len() {
                    assert(out@[a] == before[a]);
                } else {
                    assert(v@[i as int] == out@[a]);
                }
            }
            assert forall|j: int| 0 <= j < i + 1 && (#[trigger] v@[j]).owner@
                != module@ implies out@.contains(v@[j]) by {
                if j < i {
                    let a = choose|a: int| 0 <= a < before.len() && before[a] == v@[j];
                    assert(out@[a] == v@[j]);
                }
            }
        }
        i = i + 1;
    }
    proof {
        let want = subscribed(index_of(v@), module@, Seq::empty());
        assert forall|k: CommandKey| index_of(out@).dom().contains(k) == want.dom().contains(
            k,
        ) by {
            if subscribes(out@, k) {
                let a = choose|a: int| 0 <= a < out@.len() && (#[trigger] out@[a]).key() == k;
                let j = choose|j: int|
                    0 <= j < i && v@[j] == out@[a] && v@[j].owner@ != module@;
                lemma_index_at(v@, j);
            }
            if want.dom().contains(k) {
                let j = choose|j: int| 0 <= j < v@.len() && (#[trigger] v@[j]).key() == k;
                lemma_index_at(v@, j);
                let a = choose|a: int| 0 <= a < out@.len() && out@[a] == v@[j];
                assert(out@[a].key() == k);
            }
        }
        assert forall|k: CommandKey| #[trigger] index_of(out@).dom().contains(k) implies index_of(
            out@,
        )[k] == want[k] by {
            let a = choose|a: int| 0 <= a < out@.len() && (#[trigger] out@[a]).key() == k;
            lemma_index_at(out@, a);
            let j = choose|j: int| 0 <= j < i && v@[j] == out@[a] && v@[j].owner@ != module@;
            lemma_index_at(v@, j);
        }
        assert(index_of(out@) =~= want);
    }
    out
}

impl Default for CommandRegistry {
    fn default() -> (r: Self)
        ensures
            r.wf(),
            r.index() == Map::<CommandKey, Seq<char>>::empty(),
            r.modules() == Map::<Seq<char>, ModuleCommandRegView>::empty(),
            r.registrations() == Seq::<(Seq<char>, ModuleCommandRegView)>::empty(),
    {
        CommandRegistry::new()
    }
}

impl CommandRegistry {
    /// A registry without registrations.
    pub fn new() -> (r: Self)
        ensures
            r.wf(),
            r.index() == Map::<CommandKey, Seq<char>>::empty(),
            r.modules() == Map::<Seq<char>, ModuleCommandRegView>::empty(),
            r.registrations() == Seq::<(Seq<char>, ModuleCommandRegView)>::empty(),
    {
        let r = CommandRegistry { index: Vec::new(), modules: StrMap::new() };
        assert(r.index() =~= Map::<CommandKey, Seq<char>>::empty());
        assert(r.modules() =~= Map::<Seq<char>, ModuleCommandRegView>::empty());
        assert(r.registrations() =~= Seq::<(Seq<char>, ModuleCommandRegView)>::empty());
        r
    }

    /// Registers a module's commands, in place of what it registered before.
    pub fn register(&mut self, module: &str, commands: Commands)
        requires
            old(self).wf(),
        ensures
            final(self).wf(),
            final(self).index() == subscribed(old(self).index(), module@, commands@.commands),
            final(self).modules() == old(self).modules().insert(module@, registration(commands@)),
            final(self).registrations() == crate::strmap::put(
                old(self).registrations(),
                module@,
                registration(commands@),
            ),
    {
        let ghost before = self.index();
        let ghost before_modules = self.modules();
        let ghost before_list = self.modules.pairs();
        let ghost cmds = commands@.commands;
        let mut kept = without_owner(&self.index, module);
        let ghost base = index_of(kept@);
        let mut i: usize = 0;
        assert(subscribed(before, module@, cmds.take(0)) =~= base) by {
            assert(cmds.take(0) =~= Seq::empty());
        }
        while i < commands.commands.len()
            invariant
                i <= commands.commands@.len(),
                cmds == views(commands.commands@),
                keys_once(kept@),
                index_of(kept@) == subscribed(before, module@, cmds.take(i as int)),
            decreases commands.commands@.len() - i,
        {
            let c = &commands.commands[i];
            subscribe(
                &mut kept,
                Subscription {
                    flag: c.command_flag.clone(),
                    name: c.command_name.clone(),
                    owner: module.to_owned(),
                },
            );
            proof {
                let a = cmds.take(i as int);
                let b = cmds.take(i + 1);
                assert(b =~= a.push(cmds[i as int]));
                assert forall|k: CommandKey| lists(b, k) == (lists(a, k) || k == key_of(
                    cmds[i as int],
                )) by {
                    if lists(a, k) {
                        let x = choose|x: int| 0 <= x < a.len() && key_of(#[trigger] a[x]) == k;
                        assert(key_of(b[x]) == k);
                    }
                    if lists(b, k) {
                        let x = choose|x: int| 0 <= x < b.len() && key_of(#[trigger] b[x]) == k;
                        if x < a.len() {
                            assert(key_of(a[x]) == k);
                        }
                    }
                    if k == key_of(cmds[i as int]) {
                        assert(key_of(b[i as int]) == k);
                    }
                }
                assert(subscribed(before, module@, b) =~= subscribed(before, module@, a).insert(
                    key_of(cmds[i as int]),
                    module@,
                ));
            }
            i = i + 1;
        }
        assert(cmds.take(i as int) =~= cmds);
        let catch_all = commands.commands.len() == 0;
        let reg = ModuleCommandReg {
            commands: commands.commands,
            catch_all,
            alert_on_unknown: commands.alert_on_unknown_command,
        };
        self.index = kept;
        self.modules.insert(module.to_owned(), reg);
        proof {
            assert(reg@ == registration(commands@));
            assert(self.modules() =~= before_modules.insert(module@, reg@));
            let after = self.index();
            assert forall|k: CommandKey| #[trigger] after.dom().contains(
                k,
            ) implies self.modules().dom().contains(after[k]) && lists(
                self.modules()[after[k]].commands,
                k,
            ) by {
                if !lists(cmds, k) {
                    assert(before.dom().contains(k));
                }
            }
            let mapped = before_list.map_values(|p: (Seq<char>, ModuleCommandReg)| (p.0, p.1@));
            crate::strmap::lemma_position_keys(before_list, mapped, module@);
            assert(self.registrations() =~= crate::strmap::put(mapped, module@, reg@));
        }
    }

    /// The module that owns a command.
    pub fn owner(&self, flag: &str, name: &str) -> (r: Option<String>)
        requires
            self.wf(),
        ensures
            r is Some == self.index().dom().contains((flag@, name@)),
            r matches Some(m) ==> m@ == self.index()[(flag@, name@)],
    {
        let i = seek(&self.index, flag, name);
        if i < self.index.len() {
            proof {
                lemma_index_at(self.index@, i as int);
            }
            Some(self.index[i].owner.clone())
        } else {
            None
        }
    }

    /// Whether some command uses the prefix.
    pub fn flag_known(&self, flag: &str) -> (r: bool)
        requires
            self.wf(),
        ensures
            r == known_flag(self.index(), flag@),
    {
        let mut i: usize = 0;
        while i < self.index.len()
            invariant
                self.wf(),
                i <= self.index@.len(),
                forall|j: int| 0 <= j < i ==> (#[trigger] self.index@[j]).flag@ != flag@,
            decreases self.index@.len() - i,
        {
            if same(self.index[i].flag.as_str(), flag) {
                proof {
                    lemma_index_at(self.index@, i as int);
                    assert(self.index().dom().contains((flag@, self.index@[i as int].name@)));
                }
                return true;
            }
            i = i + 1;
        }
        proof {
            assert forall|name: Seq<char>| !#[trigger] self.index().dom().contains(
                (flag@, name),
            ) by {
                if subscribes(self.index@, (flag@, name)) {
                    let j = choose|j: int|
                        0 <= j < self.index@.len() && (#[trigger] self.index@[j]).key() == (
                            flag@,
                            name,
                        );
                    assert(self.index@[j].flag@ == flag@);
                }
            }
        }
        false
    }

    /// The registered command behind a key.
    fn find(&self, flag: &str, name: &str) -> (r: Option<&Command>)
        requires
            self.wf(),
        ensures
            (match r {
                Some(c) => definition(self.index(), self.modules(), (flag@, name@)) == Some(c@),
                None => definition(self.index(), self.modules(), (flag@, name@)) is None,
            }),
    {
        let i = seek(&self.index, flag, name);
        if i >= self.index.len() {
            return None;
        }
        proof {
            lemma_index_at(self.index@, i as int);
        }
        match self.modules.get(self.index[i].owner.as_str()) {
            Some(reg) => {
                let mut j: usize = 0;
                let ghost cmds = reg@.commands;
                assert(cmds.skip(0) =~= cmds);
                while j < reg.commands.len()
                    invariant
                        j <= reg.commands@.len(),
                        cmds == views(reg.commands@),
                        find_command(cmds, (flag@, name@)) == find_command(
                            cmds.skip(j as int),
                            (flag@, name@),
                        ),
                        definition(self.index(), self.modules(), (flag@, name@)) == find_command(
                            cmds,
                            (flag@, name@),
                        ),
                    decreases reg.commands@.len() - j,
                {
                    let c = &reg.commands[j];
                    assert(cmds.skip(j as int)[0] == c@);
                    if same(c.command_flag.as_str(), flag) && same(c.command_name.as_str(), name) {
                        return Some(c);
                    }
                    assert(cmds.skip(j as int).drop_first() =~= cmds.skip(j + 1));
                    j = j + 1;
                }
                None
            },
            None => None,
        }
    }

    /// The options that a command is registered with.
    pub fn command_flags(&self, flag: &str, name: &str) -> (r: Vec<Flag>)
        requires
            self.wf(),
        ensures
            views(r@) == defined_flags(
                definition(self.index(), self.modules(), (flag@, name@)),
            ),
    {
        match self.find(flag, name) {
            Some(c) => clone_all(&c.command_flags),
            None => {
                let r: Vec<Flag> = Vec::new();
                assert(views(r@) =~= Seq::empty());
                r
            },
        }
    }

    /// The description that a command is registered with.
    pub fn command_description(&self, flag: &str, name: &str) -> (r: Option<String>)
        requires
            self.wf(),
        ensures
            (match r {
                Some(t) => defined_description(
                    definition(self.index(), self.modules(), (flag@, name@)),
                ) == Some(t@),
                None => defined_description(
                    definition(self.index(), self.modules(), (flag@, name@)),
                ) is None,
            }),
    {
        match self.find(flag, name) {
            Some(c) => Some(c.command_description.clone()),
            None => None,
        }
    }

    /// The modules that are catch-alls.
    pub fn catch_alls(&self) -> (r: Vec<String>)
        ensures
            texts(r@) == catch_all_names(self.registrations()),
    {
        let mut out: Vec<String> = Vec::new();
        let ghost regs = self.registrations();
        let mut i: usize = 0;
        assert(texts(out@) =~= catch_all_names(regs.take(0)));
        while i < self.modules.len()
            invariant
                i <= self.modules.pairs().len(),
                regs == self.registrations(),
                texts(out@) == catch_all_names(regs.take(i as int)),
            decreases self.modules.pairs().len() - i,
        {
            assert(regs.take(i + 1).drop_last() =~= regs.take(i as int));
            let ghost before = out@;
            if self.modules.value_at(i).catch_all {
                out.push(self.modules.key_at(i).clone());
                assert(texts(out@) =~= texts(before).push(regs[i as int].0));
            }
            i = i + 1;
        }
        assert(regs.take(i as int) =~= regs);
        out
    }

    /// A module that owns a command under the prefix and asked for alerts.
    pub fn alert_owner_for(&self, flag: &str) -> (r: Option<String>)
        requires
            self.wf(),
        ensures
            r is Some == exists|m: Seq<char>| #[trigger]
                alerts_for(self.index(), self.modules(), flag@, m),
            r matches Some(m) ==> alerts_for(self.index(), self.modules(), flag@, m@),
    {
        let mut i: usize = 0;
        while i < self.index.len()
            invariant
                self.wf(),
                i <= self.index@.len(),
                forall|j: int|
                    0 <= j < i && (#[trigger] self.index@[j]).flag@ == flag@
                        ==> !alerts_for(
                        self.index(),
                        self.modules(),
                        flag@,
                        self.index@[j].owner@,
                    ),
            decreases self.index@.len() - i,
        {
            let s = &self.index[i];
            proof {
                lemma_index_at(self.index@, i as int);
            }
            if same(s.flag.as_str(), flag) {
                assert(self.index().dom().contains((flag@, s.name@)));
                if let Some(reg) = self.modules.get(s.owner.as_str()) {
                    if reg.alert_on_unknown {
                        assert(alerts_for(self.index(), self.modules(), flag@, s.owner@));
                        return Some(s.owner.clone());
                    }
                }
            }
            i = i + 1;
        }
        proof {
            assert forall|m: Seq<char>| !#[trigger] alerts_for(
                self.index(),
                self.modules(),
                flag@,
                m,
            ) by {
                if alerts_for(self.index(), self.modules(), flag@, m) {
                    let name = choose|name: Seq<char>| #[trigger]
                        self.index().dom().contains((flag@, name)) && self.index()[(flag@, name)]
                            == m;
                    let j = choose|j: int|
                        0 <= j < self.index@.len() && (#[trigger] self.index@[j]).key() == (
                            flag@,
                            name,
                        );
                    lemma_index_at(self.index@, j);
                    assert(self.index@[j].flag@ == flag@);
                }
            }
        }
        None
    }

    /// Every registered command, each key once.
    pub fn all_commands(&self) -> (r: Vec<Command>)
        ensures
            views(r@) == distinct_commands(listed_commands(self.registrations())),
    {
        let mut out: Vec<Command> = Vec::new();
        let ghost regs = self.registrations();
        let mut i: usize = 0;
        assert(views(out@) =~= distinct_commands(listed_commands(regs.take(0))));
        while i < self.modules.len()
            invariant
                i <= self.modules.pairs().len(),
                regs == self.registrations(),
                views(out@) == distinct_commands(listed_commands(regs.take(i as int))),
            decreases self.modules.pairs().len() - i,
        {
            let reg = self.modules.value_at(i);
            let ghost cmds = reg@.commands;
            let ghost front = listed_commands(regs.take(i as int));
            assert(regs.take(i + 1).drop_last() =~= regs.take(i as int));
            assert(front + cmds.take(0) =~= front);
            let mut j: usize = 0;
            while j < reg.commands.len()
                invariant
                    j <= reg.commands@.len(),
                    cmds == views(reg.commands@),
                    views(out@) == distinct_commands(front + cmds.take(j as int)),
                decreases reg.commands@.len() - j,
            {
                let c = &reg.commands[j];
                let ghost before = out@;
                let ghost sofar = front + cmds.take(j as int);
                assert(front + cmds.take(j + 1) =~= sofar.push(cmds[j as int]));
                assert(sofar.push(cmds[j as int]).drop_last() =~= sofar);
                if !lists_key(&out, c.command_flag.as_str(), c.command_name.as_str()) {
                    out.push(c.clone());
                    assert(views(out@) =~= views(before).push(cmds[j as int]));
                }
                j = j + 1;
            }
            assert(cmds.take(j as int) =~= cmds);
            i = i + 1;
        }
        assert(regs.take(i as int) =~= regs);
        out
    }

    /// The length of the longest known prefix that a message starts with.
    fn match_flag(&self, raw: &str) -> (r: Option<usize>)
        requires
            self.wf(),
        ensures
            (match r {
                Some(n) => n <= raw@.len() && longest_flag(self.index(), raw@, raw@.len())
                    == Some(n as nat),
                None => longest_flag(self.index(), raw@, raw@.len()) is None,
            }),
    {
        let mut best: Option<usize> = None;
        let mut i: usize = 0;
        while i < self.index.len()
            invariant
                self.wf(),
                i <= self.index@.len(),
                best matches Some(n) ==> n <= raw@.len() && known_flag(
                    self.index(),
                    raw@.take(n as int),
                ),
                forall|j: int|
                    0 <= j < i && (#[trigger] self.index@[j]).flag@.is_prefix_of(raw@)
                        ==> best is Some && self.index@[j].flag@.len() <= best.unwrap(),
            decreases self.index@.len() - i,
        {
            let f = self.index[i].flag.as_str();
            if begins_with(raw, f) {
                let n = f.unicode_len();
                assert(raw@.take(n as int) =~= f@);
                proof {
                    lemma_index_at(self.index@, i as int);
                    assert(self.index().dom().contains((f@, self.index@[i as int].name@)));
                }
                let longer = match best {
                    Some(b) => n > b,
                    None => true,
                };
                if longer {
                    best = Some(n);
                }
            }
            i = i + 1;
        }
        proof {
            assert forall|m: int| #![trigger raw@.take(m)]
                0 <= m <= raw@.len() && known_flag(self.index(), raw@.take(m)) implies best is Some
                && m <= best.unwrap() by {
                let f = raw@.take(m);
                let name = choose|name: Seq<char>| #[trigger]
                    self.index().dom().contains((f, name));
                let j = choose|j: int|
                    0 <= j < self.index@.len() && (#[trigger] self.index@[j]).key() == (f, name);
                assert(self.index@[j].flag@ == f);
                assert(f.is_prefix_of(raw@));
            }
            lemma_longest_flag(
                self.index(),
                raw@,
                raw@.len(),
                match best {
                    Some(n) => Some(n as nat),
                    None => None,
                },
            );
        }
        best
    }
}

/// What [`longest_flag`] gives, told by its properties.
proof fn lemma_longest_flag(
    index: Map<CommandKey, Seq<char>>,
    raw: Seq<char>,
    n: nat,
    best: Option<nat>,
)
    requires
        n <= raw.len(),
        best matches Some(b) ==> b <= n && known_flag(index, raw.take(b as int)),
        forall|m: int| #![trigger raw.take(m)]
            0 <= m <= n && known_flag(index, raw.take(m)) ==> best is Some && m <= best.unwrap(),
    ensures
        longest_flag(index, raw, n) == best,
    decreases n,
{
    assert(raw.take(n as int) == raw.take(n as int));
    if !known_flag(index, raw.take(n as int)) && n > 0 {
        lemma_longest_flag(index, raw, (n - 1) as nat, best);
    }
}

/// Whether some command of the list has the key.
fn lists_key(v: &Vec<Command>, flag: &str, name: &str) -> (r: bool)
    ensures
        r == lists(views(v@), (flag@, name@)),
{
    let ghost all = views(v@);
    let mut i: usize = 0;
    while i < v.len()
        invariant
            i <= v@.len(),
            all == views(v@),
            forall|j: int| 0 <= j < i ==> key_of(#[trigger] all[j]) != (flag@, name@),
        decreases v@.len() - i,
    {
        if same(v[i].command_flag.as_str(), flag) && same(v[i].command_name.as_str(), name) {
            assert(key_of(all[i as int]) == (flag@, name@));
            return true;
        }
        i = i + 1;
    }
    false
}

/// The first option of the list with the name.
fn seek_flag<'a>(flags: &'a Vec<Flag>, name: &str) -> (r: Option<&'a Flag>)
    ensures
        (match r {
            Some(f) => find_flag(views(flags@), name@) == Some(f@),
            None => find_flag(views(flags@), name@) is None,
        }),
{
    let ghost all = views(flags@);
    let mut i: usize = 0;
    assert(all.skip(0) =~= all);
    while i < flags.len()
        invariant
            i <= flags@.len(),
            all == views(flags@),
            find_flag(all, name@) == find_flag(all.skip(i as int), name@),
        decreases flags@.len() - i,
    {
        assert(all.skip(i as int)[0] == flags@[i as int]@);
        if same(flags[i].flag_name.as_str(), name) {
            return Some(&flags[i]);
        }
        assert(all.skip(i as int).drop_first() =~= all.skip(i + 1));
        i = i + 1;
    }
    None
}

/// An option with a value, its description and limits taken from its definition.
fn give_flag(definitions: &Vec<Flag>, name: String, value: String) -> (r: Flag)
    ensures
        r@ == given_flag(views(definitions@), name@, value@),
{
    match seek_flag(definitions, name.as_str()) {
        Some(d) => Flag {
            flag_name: name,
            flag_description: d.flag_description.clone(),
            limiting_type: d.limiting_type,
            min_val: d.min_val,
            max_val: d.max_val,
            options: clone_texts(&d.options),
            value,
        },
        None => {
            let r = Flag {
                flag_name: name,
                flag_description: String::new(),
                limiting_type: 0,
                min_val: 0,
                max_val: 0,
                options: Vec::new(),
                value,
            };
            assert(texts(r.options@) =~= Seq::empty());
            r
        },
    }
}

/// Whether a word starts with a dash.
fn dashed(word: &str) -> (r: bool)
    ensures
        r == (word@.len() > 0 && word@[0] == '-'),
{
    word.unicode_len() > 0 && word.get_char(0) == '-'
}

/// The options among the words, and the words that are left.
fn split_options(tokens: &Vec<String>, definitions: &Vec<Flag>) -> (r: (Vec<Flag>, Vec<String>))
    ensures
        (views(r.0@), texts(r.1@)) == read_words(texts(tokens@), views(definitions@)),
{
    let ghost all = texts(tokens@);
    let ghost defs = views(definitions@);
    let mut flags: Vec<Flag> = Vec::new();
    let mut args: Vec<String> = Vec::new();
    let mut i: usize = 0;
    assert(all.skip(0) =~= all);
    assert(views(flags@) + read_words(all, defs).0 =~= read_words(all, defs).0);
    assert(texts(args@) + read_words(all, defs).1 =~= read_words(all, defs).1);
    while i < tokens.len()
        invariant
            i <= tokens@.len(),
            all == texts(tokens@),
            defs == views(definitions@),
            read_words(all, defs).0 == views(flags@) + read_words(
                all.skip(i as int),
                defs,
            ).0,
            read_words(all, defs).1 == texts(args@) + read_words(all.skip(i as int), defs).1,
        decreases tokens@.len() - i,
    {
        let tok = tokens[i].as_str();
        let ghost rest = all.skip(i as int);
        assert(rest[0] == tok@);
        let ghost flags_before = flags@;
        let ghost args_before = args@;
        if dashed(tok) && tok.unicode_len() > 1 {
            let body = slice(tok, 1, tok.unicode_len());
            assert(body@ =~= tok@.skip(1));
            let mut used: usize = 1;
            let (name, value) = match split_at_char(body.as_str(), ':') {
                Some((n, v)) => (n, v),
                None => {
                    if tokens.len() - i > 1 && !dashed(tokens[i + 1].as_str()) {
                        assert(rest[1] == tokens@[i + 1]@);
                        used = 2;
                        (body, tokens[i + 1].clone())
                    } else {
                        assert(tokens@.len() - i > 1 ==> rest[1] == tokens@[i + 1]@);
                        (body, "true".to_owned())
                    }
                },
            };
            let ghost given = given_flag(defs, name@, value@);
            flags.push(give_flag(definitions, name, value));
            proof {
                assert(rest.skip(used as int) =~= all.skip(i + used));
                assert(views(flags@) =~= views(flags_before).push(given));
                let tail = read_words(all.skip(i + used), defs);
                assert(read_words(rest, defs).0 == seq![given] + tail.0);
                assert(views(flags_before) + (seq![given] + tail.0) =~= views(flags@)
                    + tail.0);
            }
            i = i + used;
        } else {
            args.push(tokens[i].clone());
            proof {
                assert(rest.skip(1) =~= all.skip(i + 1));
                assert(texts(args@) =~= texts(args_before).push(tok@));
                let tail = read_words(all.skip(i + 1), defs);
                assert(texts(args_before) + (seq![tok@] + tail.1) =~= texts(args@) + tail.1);
            }
            i = i + 1;
        }
    }
    proof {
        assert(all.skip(i as int) =~= Seq::empty());
        assert(views(flags@) + Seq::<FlagView>::empty() =~= views(flags@));
        assert(texts(args@) + Seq::<Seq<char>>::empty() =~= texts(args@));
    }
    (flags, args)
}

/// Parses a message as a command. `-p:2` and `-p 2` both give the option `p` the value
/// `2`; an option without a value is `true`.
pub fn parse_command(raw: &str, registry: &CommandRegistry) -> (r: Option<ParsedCommand>)
    requires
        registry.wf(),
    ensures
        (match r {
            Some(p) => parsed(registry.index(), registry.modules(), raw@) == Some(p@),
            None => parsed(registry.index(), registry.modules(), raw@) is None,
        }),
{
    let raw = trimmed(raw);
    let raw = raw.as_str();
    match registry.match_flag(raw) {
        None => None,
        Some(n) => {
            let flag = slice(raw, 0, n);
            assert(flag@ =~= raw@.take(n as int));
            let tail = slice(raw, n, raw.unicode_len());
            assert(tail@ =~= raw@.skip(n as int));
            let body = trimmed_start(tail.as_str());
            if body.as_str().unicode_len() == 0 {
                return None;
            }
            let m = first_word_len(body.as_str());
            let name = slice(body.as_str(), 0, m);
            assert(name@ =~= body@.take(m as int));
            let rest = slice(body.as_str(), m, body.as_str().unicode_len());
            assert(rest@ =~= body@.skip(m as int));
            let definitions = registry.command_flags(flag.as_str(), name.as_str());
            let tokens = split_words(rest.as_str());
            let (flags, args) = split_options(&tokens, &definitions);
            let description = match registry.command_description(flag.as_str(), name.as_str()) {
                Some(t) => t,
                None => String::new(),
            };
            Some(
                ParsedCommand {
                    command: Command {
                        command_name: name,
                        command_flag: flag,
                        command_description: description,
                        command_flags: flags,
                    },
                    args: joined(&args, " "),
                },
            )
        },
    }
}

/// A registration takes the place of the module's last one: afterwards the module owns
/// exactly the commands it listed, and what others own changes only where it listed it.
pub proof fn law_registration_replaces(
    index: Map<CommandKey, Seq<char>>,
    module: Seq<char>,
    commands: Seq<CommandView>,
    key: CommandKey,
)
    ensures
        ({
            let after = subscribed(index, module, commands);
            &&& (after.dom().contains(key) && after[key] == module) == lists(commands, key)
            &&& !lists(commands, key) && index.dom().contains(key) && index[key] != module
                ==> after.dom().contains(key) && after[key] == index[key]
            &&& !lists(commands, key) && !index.dom().contains(key) ==> !after.dom().contains(key)
        }),
{
}

/// A command with an owner has a definition: its options and description are known.
pub proof fn law_owned_command_is_defined(
    index: Map<CommandKey, Seq<char>>,
    modules: Map<Seq<char>, ModuleCommandRegView>,
    key: CommandKey,
)
    requires
        owners_listed(index, modules),
    ensures
        definition(index, modules, key) is Some == index.dom().contains(key),
{
    if index.dom().contains(key) {
        lemma_find_command(modules[index[key]].commands, key);
    }
}

/// A parsed command has a name, stands under a known prefix of the message, and no longer
/// prefix of the message is known.
pub proof fn law_parsed_under_longest_flag(
    index: Map<CommandKey, Seq<char>>,
    modules: Map<Seq<char>, ModuleCommandRegView>,
    message: Seq<char>,
    longer: nat,
)
    requires
        parsed(index, modules, message) is Some,
    ensures
        ({
            let c = parsed(index, modules, message).unwrap().command;
            &&& c.command_name.len() > 0
            &&& known_flag(index, c.command_flag)
            &&& c.command_flag.is_prefix_of(trim(message))
            &&& c.command_flag.len() < longer <= trim(message).len() ==> !known_flag(
                index,
                trim(message).take(longer as int),
            )
        }),
{
    let raw = trim(message);
    lemma_longest_bound(index, raw, raw.len(), longer);
    let n = longest_flag(index, raw, raw.len()).unwrap();
    let body = trim_start(raw.skip(n as int));
    crate::text::lemma_trim_start_len(raw.skip(n as int));
    crate::text::lemma_word_len(body);
}

proof fn lemma_longest_bound(
    index: Map<CommandKey, Seq<char>>,
    raw: Seq<char>,
    n: nat,
    longer: nat,
)
    requires
        n <= raw.len(),
        longest_flag(index, raw, n) is Some,
    ensures
        ({
            let b = longest_flag(index, raw, n).unwrap();
            &&& b <= n
            &&& known_flag(index, raw.take(b as int))
            &&& b < longer <= n ==> !known_flag(index, raw.take(longer as int))
        }),
    decreases n,
{
    if !known_flag(index, raw.take(n as int)) {
        lemma_longest_bound(index, raw, (n - 1) as nat, longer);
    }
}

/// `-name:value` and `-name value` give the same option, where the name holds no colon
/// and the value does not start with a dash; a lone `-name` is `true`.
pub proof fn law_option_forms_agree(
    name: Seq<char>,
    value: Seq<char>,
    rest: Seq<Seq<char>>,
    definitions: Seq<FlagView>,
)
    requires
        name.len() > 0,
        !name.contains(':'),
        value.len() > 0,
        value[0] != '-',
    ensures
        read_words(seq![seq!['-'] + name + seq![':'] + value] + rest, definitions) == read_words(
            seq![seq!['-'] + name, value] + rest,
            definitions,
        ),
        read_words(seq![seq!['-'] + name], definitions) == (
            seq![given_flag(definitions, name, "true"@)],
            Seq::<Seq<char>>::empty(),
        ),
{
    reveal_with_fuel(read_words, 3);
    let inline = seq!['-'] + name + seq![':'] + value;
    let bare = seq!['-'] + name;
    let a = seq![inline] + rest;
    let b = seq![bare, value] + rest;
    assert(inline.skip(1) =~= name + seq![':'] + value);
    assert(bare.skip(1) =~= name);
    lemma_split_once(name, value);
    assert(a.skip(1) =~= rest);
    assert(b.skip(2) =~= rest);
    assert(a[0] == inline && b[0] == bare && b[1] == value);
    let one = seq![bare];
    assert(one.skip(1) =~= Seq::<Seq<char>>::empty());
    assert(seq![given_flag(definitions, name, "true"@)] + Seq::<FlagView>::empty() =~= seq![
        given_flag(definitions, name, "true"@),
    ]);
}

proof fn lemma_flag_in_head(
    index: Map<CommandKey, Seq<char>>,
    head: Seq<char>,
    rest: Seq<char>,
    n: nat,
)
    requires
        rest.len() > 0,
        is_white(rest[0]),
        n <= (head + rest).len(),
        forall|f: Seq<char>| #[trigger] known_flag(index, f) ==> no_white(f),
    ensures
        longest_flag(index, head + rest, n) == longest_flag(
            index,
            head,
            if n <= head.len() {
                n
            } else {
                head.len()
            },
        ),
    decreases n,
{
    let raw = head + rest;
    let f = raw.take(n as int);
    if n <= head.len() {
        assert(f =~= head.take(n as int));
        if n > 0 {
            lemma_flag_in_head(index, head, rest, (n - 1) as nat);
        }
    } else {
        assert(f[head.len() as int] == rest[0]);
        assert(!no_white(f));
        lemma_flag_in_head(index, head, rest, (n - 1) as nat);
    }
}

proof fn lemma_parsed_head(
    index: Map<CommandKey, Seq<char>>,
    modules: Map<Seq<char>, ModuleCommandRegView>,
    head: Seq<char>,
    rest: Seq<char>,
    k: nat,
)
    requires
        no_white(head),
        rest.len() > 0,
        is_white(rest[0]),
        !is_white(rest.last()),
        forall|f: Seq<char>| #[trigger] known_flag(index, f) ==> no_white(f),
        longest_flag(index, head, head.len()) == Some(k),
        k < head.len(),
    ensures
        ({
            let d = definition(index, modules, (head.take(k as int), head.skip(k as int)));
            let (flags, args) = read_words(words(rest), defined_flags(d));
            parsed(index, modules, head + rest) == Some(
                ParsedCommandView {
                    command: CommandView {
                        command_name: head.skip(k as int),
                        command_flag: head.take(k as int),
                        command_description: match defined_description(d) {
                            Some(t) => t,
                            None => Seq::empty(),
                        },
                        command_flags: flags,
                    },
                    args: join(args, " "@),
                },
            )
        }),
{
    let raw = head + rest;
    assert(raw[0] == head[0]);
    assert(raw.last() == rest.last());
    crate::text::lemma_trim_id(raw);
    lemma_flag_in_head(index, head, rest, raw.len());
    let name = head.skip(k as int);
    assert(raw.take(k as int) =~= head.take(k as int));
    assert(raw.skip(k as int) =~= name + rest);
    assert(name[0] == head[k as int]);
    assert((name + rest)[0] == name[0]);
    assert forall|i: int| 0 <= i < name.len() implies !is_white(#[trigger] name[i]) by {
        assert(name[i] == head[i + k]);
    }
    lemma_word_ends(name, rest);
    assert((name + rest).take(name.len() as int) =~= name);
    assert((name + rest).skip(name.len() as int) =~= rest);
}

proof fn lemma_longest_within(
    index: Map<CommandKey, Seq<char>>,
    raw: Seq<char>,
    n: nat,
)
    ensures
        longest_flag(index, raw, n) matches Some(k) ==> k <= n && known_flag(
            index,
            raw.take(k as int),
        ),
    decreases n,
{
    if n > 0 {
        lemma_longest_within(index, raw, (n - 1) as nat);
    }
}

/// Whether an option's value stands behind a colon or is the next word, the message means
/// the same. `head` is the prefix with the command's name.
pub proof fn law_option_forms_mean_the_same(
    index: Map<CommandKey, Seq<char>>,
    modules: Map<Seq<char>, ModuleCommandRegView>,
    head: Seq<char>,
    name: Seq<char>,
    value: Seq<char>,
    tail: Seq<char>,
)
    requires
        forall|f: Seq<char>| #[trigger] known_flag(index, f) ==> no_white(f),
        head.len() > 0,
        no_white(head),
        !known_flag(index, head),
        name.len() > 0,
        no_white(name),
        !name.contains(':'),
        value.len() > 0,
        no_white(value),
        value[0] != '-',
        tail.len() == 0 || is_white(tail[0]),
    ensures
        parsed(index, modules, head + seq![' ', '-'] + name + seq![':'] + value + tail) == parsed(
            index,
            modules,
            head + seq![' ', '-'] + name + seq![' '] + value + tail,
        ),
{
    let inline = head + seq![' ', '-'] + name + seq![':'] + value;
    let apart = head + seq![' ', '-'] + name + seq![' '] + value;
    let end = trim_end(tail);
    assert(inline.last() == value.last() && apart.last() == value.last());
    assert(!is_white(value[value.len() - 1]));
    lemma_trim_end_tail(inline, tail);
    lemma_trim_end_tail(apart, tail);
    let option = seq!['-'] + name;
    let whole = option + seq![':'] + value;
    let rest1 = seq![' '] + (whole + end);
    let rest2 = seq![' '] + (option + (seq![' '] + (value + end)));
    assert(inline + end =~= head + rest1);
    assert(apart + end =~= head + rest2);
    assert((inline + tail)[0] == head[0] && (apart + tail)[0] == head[0]);
    assert(trim(inline + tail) == head + rest1);
    assert(trim(apart + tail) == head + rest2);
    assert(rest1.last() == (inline + end).last());
    assert(rest2.last() == (apart + end).last());
    crate::text::lemma_trim_end_white(inline + tail);
    crate::text::lemma_trim_end_white(apart + tail);
    assert(!is_white(rest1.last()) && !is_white(rest2.last()));
    assert(rest1[0] == ' ' && rest2[0] == ' ');
    crate::text::lemma_trim_id(head + rest1);
    crate::text::lemma_trim_id(head + rest2);
    lemma_words_after_white(' ', whole + end);
    lemma_words_cons(whole, end);
    lemma_words_after_white(' ', option + (seq![' '] + (value + end)));
    lemma_words_cons(option, seq![' '] + (value + end));
    lemma_words_after_white(' ', value + end);
    lemma_words_cons(value, end);
    assert(words(rest1) =~= seq![whole] + words(end));
    assert(words(rest2) =~= seq![option, value] + words(end));
    lemma_longest_within(index, head, head.len());
    lemma_flag_in_head(index, head, rest1, (head + rest1).len());
    lemma_flag_in_head(index, head, rest2, (head + rest2).len());
    match longest_flag(index, head, head.len()) {
        Some(k) => {
            assert(head.take(head.len() as int) =~= head);
            assert(k < head.len());
            lemma_parsed_head(index, modules, head, rest1, k);
            lemma_parsed_head(index, modules, head, rest2, k);
            let d = definition(index, modules, (head.take(k as int), head.skip(k as int)));
            law_option_forms_agree(name, value, words(end), defined_flags(d));
            assert(whole =~= seq!['-'] + name + seq![':'] + value);
        },
        None => {},
    }
}

proof fn lemma_split_once(name: Seq<char>, value: Seq<char>)
    requires
        !name.contains(':'),
    ensures
        split_once(name + seq![':'] + value, ':') == Some((name, value)),
        split_once(name, ':') is None,
{
    let s = name + seq![':'] + value;
    crate::text::lemma_find(s, ':');
    crate::text::lemma_find(name, ':');
    let n = crate::text::find(s, ':') as int;
    assert(s[name.len() as int] == ':');
    if n < name.len() {
        assert(name[n] == s[n]);
        assert(name.contains(':'));
    }
    assert(n == name.len());
    assert(s.take(n) =~= name);
    assert(s.skip(n + 1) =~= value);
    let m = crate::text::find(name, ':') as int;
    if m < name.len() {
        assert(name[m] == ':');
    }
}

/// Listing all commands drops none and repeats none.
pub proof fn law_all_commands_once(commands: Seq<CommandView>, key: CommandKey)
    ensures
        lists(distinct_commands(commands), key) == lists(commands, key),
        forall|i: int, j: int|
            #![trigger distinct_commands(commands)[i], distinct_commands(commands)[j]]
            0 <= i < j < distinct_commands(commands).len() ==> key_of(
                distinct_commands(commands)[i],
            ) != key_of(distinct_commands(commands)[j]),
    decreases commands.len(),
{
    if commands.len() > 0 {
        let front = commands.drop_last();
        law_all_commands_once(front, key);
        law_all_commands_once(front, key_of(commands.last()));
        let d = distinct_commands(front);
        let all = distinct_commands(commands);
        if lists(commands, key) {
            let i = choose|i: int| 0 <= i < commands.len() && key_of(#[trigger] commands[i]) == key;
            if i < front.len() {
                assert(key_of(front[i]) == key);
                let x = choose|x: int| 0 <= x < d.len() && key_of(#[trigger] d[x]) == key;
                assert(key_of(all[x]) == key);
            } else if !lists(d, key_of(commands.last())) {
                assert(key_of(all[d.len() as int]) == key);
            }
        }
        if lists(all, key) {
            let x = choose|x: int| 0 <= x < all.len() && key_of(#[trigger] all[x]) == key;
            if x < d.len() {
                assert(key_of(d[x]) == key);
                let i = choose|i: int| 0 <= i < front.len() && key_of(#[trigger] front[i]) == key;
                assert(key_of(commands[i]) == key);
            } else {
                assert(key_of(commands[commands.len() - 1]) == key);
            }
        }
        assert forall|i: int, j: int| #![trigger all[i], all[j]]
            0 <= i < j < all.len() implies key_of(all[i]) != key_of(all[j]) by {
            assert(all[i] == d[i]);
            if j < d.len() {
                assert(all[j] == d[j]);
            } else if key_of(all[i]) == key_of(all[j]) {
                assert(key_of(d[i]) == key_of(commands.last()));
            }
        }
    }
}

proof fn lemma_catch_all_names(
    registrations: Seq<(Seq<char>, ModuleCommandRegView)>,
    module: Seq<char>,
)
    ensures
        catch_all_names(registrations).contains(module) == exists|i: int|
            0 <= i < registrations.len() && (#[trigger] registrations[i]).0 == module
                && registrations[i].1.catch_all,
    decreases registrations.len(),
{
    if registrations.len() > 0 {
        let front = registrations.drop_last();
        let last = registrations.last();
        lemma_catch_all_names(front, module);
        let f = catch_all_names(front);
        let all = catch_all_names(registrations);
        if all.contains(module) {
            let j = choose|j: int| 0 <= j < all.len() && all[j] == module;
            if j < f.len() {
                assert(f[j] == module);
                let i = choose|i: int|
                    0 <= i < front.len() && (#[trigger] front[i]).0 == module
                        && front[i].1.catch_all;
                assert(registrations[i] == front[i]);
            } else {
                assert(registrations[registrations.len() - 1] == last);
            }
        }
        if exists|i: int|
            0 <= i < registrations.len() && (#[trigger] registrations[i]).0 == module
                && registrations[i].1.catch_all {
            let i = choose|i: int|
                0 <= i < registrations.len() && (#[trigger] registrations[i]).0 == module
                    && registrations[i].1.catch_all;
            if i < front.len() {
                assert(front[i] == registrations[i]);
                let j = choose|j: int| 0 <= j < f.len() && f[j] == module;
                assert(all[j] == module);
            } else {
                assert(all[f.len() as int] == module);
            }
        }
    }
}

/// Where no module is there twice, the catch-alls are the modules that are registered as such.
pub proof fn law_catch_alls_by_module(
    registrations: Seq<(Seq<char>, ModuleCommandRegView)>,
    module: Seq<char>,
)
    requires
        keys_distinct(registrations),
    ensures
        catch_all_names(registrations).contains(module) == (as_map(registrations).dom().contains(
            module,
        ) && as_map(registrations)[module].catch_all),
{
    lemma_catch_all_names(registrations, module);
    lemma_position(registrations, module);
    let p = position(registrations, module) as int;
    if p < registrations.len() {
        assert(registrations[p].0 == module);
    }
    if catch_all_names(registrations).contains(module) {
        let i = choose|i: int|
            0 <= i < registrations.len() && (#[trigger] registrations[i]).0 == module
                && registrations[i].1.catch_all;
        lemma_position_at(registrations, i);
    }
}

/// What registering commands changes: the module owns what it registers and nothing else of
/// what it owned, and is a catch-all exactly where it registers nothing. Other modules own
/// what they owned, but for what was taken from them, and are catch-alls as before.
pub proof fn law_register(
    before: &CommandRegistry,
    after: &CommandRegistry,
    module: Seq<char>,
    commands: CommandsView,
    key: CommandKey,
    other: Seq<char>,
)
    requires
        before.wf(),
        after.index() == subscribed(before.index(), module, commands.commands),
        after.registrations() == crate::strmap::put(
            before.registrations(),
            module,
            registration(commands),
        ),
    ensures
        (if lists(commands.commands, key) {
            after.index().dom().contains(key) && after.index()[key] == module
        } else if before.index().dom().contains(key) && before.index()[key] != module {
            after.index().dom().contains(key) && after.index()[key] == before.index()[key]
        } else {
            !after.index().dom().contains(key)
        }),
        catch_all_names(after.registrations()).contains(module) == (commands.commands.len() == 0),
        other != module ==> catch_all_names(after.registrations()).contains(other)
            == catch_all_names(before.registrations()).contains(other),
{
    before.lemma_wf();
    let regs = before.registrations();
    lemma_put(regs, module, registration(commands));
    law_catch_alls_by_module(regs, other);
    law_catch_alls_by_module(after.registrations(), other);
    law_catch_alls_by_module(after.registrations(), module);
}

proof fn lemma_listed_commands(
    registrations: Seq<(Seq<char>, ModuleCommandRegView)>,
    c: CommandView,
)
    ensures
        listed_commands(registrations).contains(c) == exists|i: int|
            0 <= i < registrations.len() && (#[trigger] registrations[i]).1.commands.contains(c),
    decreases registrations.len(),
{
    if registrations.len() > 0 {
        let front = registrations.drop_last();
        let last = registrations.last().1.commands;
        lemma_listed_commands(front, c);
        let f = listed_commands(front);
        let all = listed_commands(registrations);
        assert(registrations[registrations.len() - 1].1.commands == last);
        if all.contains(c) {
            let j = choose|j: int| 0 <= j < all.len() && all[j] == c;
            if j < f.len() {
                assert(f[j] == c);
                let i = choose|i: int|
                    0 <= i < front.len() && (#[trigger] front[i]).1.commands.contains(c);
                assert(registrations[i] == front[i]);
            } else {
                assert(last[j - f.len()] == c);
            }
        }
        if exists|i: int|
            0 <= i < registrations.len() && (#[trigger] registrations[i]).1.commands.contains(c) {
            let i = choose|i: int|
                0 <= i < registrations.len() && (#[trigger] registrations[i]).1.commands.contains(
                    c,
                );
            if i < front.len() {
                assert(front[i] == registrations[i]);
                let j = choose|j: int| 0 <= j < f.len() && f[j] == c;
                assert(all[j] == c);
            } else {
                let j = choose|j: int| 0 <= j < last.len() && last[j] == c;
                assert(all[f.len() + j] == c);
            }
        }
    }
}

proof fn lemma_distinct_commands(commands: Seq<CommandView>, c: CommandView)
    requires
        distinct_commands(commands).contains(c),
    ensures
        commands.contains(c),
    decreases commands.len(),
{
    let all = distinct_commands(commands);
    let j = choose|j: int| 0 <= j < all.len() && all[j] == c;
    let front = commands.drop_last();
    let f = distinct_commands(front);
    if j < f.len() {
        assert(f[j] == c);
        lemma_distinct_commands(front, c);
        let i = choose|i: int| 0 <= i < front.len() && front[i] == c;
        assert(commands[i] == c);
    } else {
        assert(commands[commands.len() - 1] == c);
    }
}

/// All commands are those that the modules registered: each of them stands in a module's
/// registration, every key that a module registered is there exactly once, and so is every
/// command that is owned.
pub proof fn law_all_commands(registry: &CommandRegistry, key: CommandKey, c: CommandView)
    requires
        registry.wf(),
    ensures
        ({
            let all = distinct_commands(listed_commands(registry.registrations()));
            let modules = registry.modules();
            &&& lists(all, key) == exists|m: Seq<char>| #[trigger]
                modules.dom().contains(m) && lists(modules[m].commands, key)
            &&& registry.index().dom().contains(key) ==> lists(all, key)
            &&& all.contains(c) ==> exists|m: Seq<char>| #[trigger]
                modules.dom().contains(m) && modules[m].commands.contains(c)
            &&& forall|i: int, j: int|
                #![trigger all[i], all[j]]
                0 <= i < j < all.len() ==> key_of(all[i]) != key_of(all[j])
        }),
{
    registry.lemma_wf();
    let regs = registry.registrations();
    let modules = registry.modules();
    let flat = listed_commands(regs);
    let all = distinct_commands(flat);
    law_all_commands_once(flat, key);
    if lists(all, key) {
        let i = choose|i: int| 0 <= i < flat.len() && key_of(#[trigger] flat[i]) == key;
        lemma_listed_commands(regs, flat[i]);
        assert(flat.contains(flat[i]));
        let r = choose|r: int|
            0 <= r < regs.len() && (#[trigger] regs[r]).1.commands.contains(flat[i]);
        lemma_position_at(regs, r);
        let own = regs[r].1.commands;
        let x = choose|x: int| 0 <= x < own.len() && own[x] == flat[i];
        assert(key_of(own[x]) == key);
        assert(modules.dom().contains(regs[r].0));
    }
    if exists|m: Seq<char>| #[trigger]
        modules.dom().contains(m) && lists(modules[m].commands, key) {
        let m = choose|m: Seq<char>| #[trigger]
            modules.dom().contains(m) && lists(modules[m].commands, key);
        lemma_position(regs, m);
        let r = position(regs, m) as int;
        let own = modules[m].commands;
        let x = choose|x: int| 0 <= x < own.len() && key_of(#[trigger] own[x]) == key;
        assert(own.contains(own[x]));
        assert(regs[r].1.commands.contains(own[x]));
        lemma_listed_commands(regs, own[x]);
        let i = choose|i: int| 0 <= i < flat.len() && flat[i] == own[x];
        assert(key_of(flat[i]) == key);
    }
    if all.contains(c) {
        lemma_distinct_commands(flat, c);
        lemma_listed_commands(regs, c);
        let r = choose|r: int| 0 <= r < regs.len() && (#[trigger] regs[r]).1.commands.contains(c);
        lemma_position_at(regs, r);
        assert(modules.dom().contains(regs[r].0));
    }
}

} // verus!
