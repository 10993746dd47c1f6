//! Key bindings: which keys do what, and whether a key press is meant by a binding.
use crate::proto::clone_texts;
use crate::text::{lowercase, lowered, same, split_on, split_pieces, texts};
use vstd::prelude::*;

verus! {

/// A key.
#[derive(Debug, Clone, Copy, PartialEq, Eq, Structural)]
pub enum KeyCode {
    Up,
    Down,
    Left,
    Right,
    Enter,
    Esc,
    Tab,
    BackTab,
    Backspace,
    Delete,
    Char(char),
    /// A key that no binding can name.
    Other,
}

/// The keys held down with another.
#[derive(Debug, Clone, Copy, PartialEq, Eq, Structural)]
pub struct KeyModifiers {
    pub control: bool,
    pub shift: bool,
    pub alt: bool,
    pub super_key: bool,
    pub hyper: bool,
    pub meta: bool,
}

/// A key press.
#[derive(Debug, Clone, Copy, PartialEq, Eq, Structural)]
pub struct KeyEvent {
    pub code: KeyCode,
    pub modifiers: KeyModifiers,
}

/// The bindings of each action.
#[derive(Debug)]
pub struct Keymap {
    pub quit: Vec<String>,
    pub force_quit: Vec<String>,
    pub up: Vec<String>,
    pub down: Vec<String>,
    pub left: Vec<String>,
    pub right: Vec<String>,
    pub select: Vec<String>,
    pub back: Vec<String>,
    pub pause: Vec<String>,
    pub restart: Vec<String>,
    pub shutdown: Vec<String>,
    pub inspect: Vec<String>,
    pub start_all: Vec<String>,
    pub stop_all: Vec<String>,
    pub module_next: Vec<String>,
    pub module_previous: Vec<String>,
}

/// What a [`Keymap`] says.
#[verifier::ext_equal]
pub struct KeymapView {
    pub quit: Seq<Seq<char>>,
    pub force_quit: Seq<Seq<char>>,
    pub up: Seq<Seq<char>>,
    pub down: Seq<Seq<char>>,
    pub left: Seq<Seq<char>>,
    pub right: Seq<Seq<char>>,
    pub select: Seq<Seq<char>>,
    pub back: Seq<Seq<char>>,
    pub pause: Seq<Seq<char>>,
    pub restart: Seq<Seq<char>>,
    pub shutdown: Seq<Seq<char>>,
    pub inspect: Seq<Seq<char>>,
    pub start_all: Seq<Seq<char>>,
    pub stop_all: Seq<Seq<char>>,
    pub module_next: Seq<Seq<char>>,
    pub module_previous: Seq<Seq<char>>,
}

impl View for Keymap {
    type V = KeymapView;

    open spec fn view(&self) -> KeymapView {
        KeymapView {
            quit: texts(self.quit@),
            force_quit: texts(self.force_quit@),
            up: texts(self.up@),
            down: texts(self.down@),
            left: texts(self.left@),
            right: texts(self.right@),
            select: texts(self.select@),
            back: texts(self.back@),
            pause: texts(self.pause@),
            restart: texts(self.restart@),
            shutdown: texts(self.shutdown@),
            inspect: texts(self.inspect@),
            start_all: texts(self.start_all@),
            stop_all: texts(self.stop_all@),
            module_next: texts(self.module_next@),
            module_previous: texts(self.module_previous@),
        }
    }
}

impl Clone for Keymap {
    fn clone(&self) -> (r: Self)
        ensures
            r@ == self@,
    {
        Keymap {
            quit: clone_texts(&self.quit),
            force_quit: clone_texts(&self.force_quit),
            up: clone_texts(&self.up),
            down: clone_texts(&self.down),
            left: clone_texts(&self.left),
            right: clone_texts(&self.right),
            select: clone_texts(&self.select),
            back: clone_texts(&self.back),
            pause: clone_texts(&self.pause),
            restart: clone_texts(&self.restart),
            shutdown: clone_texts(&self.shutdown),
            inspect: clone_texts(&self.inspect),
            start_all: clone_texts(&self.start_all),
            stop_all: clone_texts(&self.stop_all),
            module_next: clone_texts(&self.module_next),
            module_previous: clone_texts(&self.module_previous),
        }
    }
}

/// The bindings of a new installation.
pub open spec fn default_bindings() -> KeymapView {
    KeymapView {
        quit: seq!["q"@, "esc"@],
        force_quit: seq!["ctrl+c"@],
        up: seq!["up"@, "k"@],
        down: seq!["down"@, "j"@],
        left: seq!["left"@, "h"@],
        right: seq!["right"@, "l"@],
        select: seq!["enter"@],
        back: seq!["esc"@],
        pause: seq!["p"@],
        restart: seq!["r"@],
        shutdown: seq!["s"@],
        inspect: seq!["i"@],
        start_all: seq!["a"@],
        stop_all: seq!["shift+a"@],
        module_next: seq!["tab"@],
        module_previous: seq!["backtab"@],
    }
}

fn one(a: &str) -> (r: Vec<String>)
    ensures
        texts(r@) == seq![a@],
{
    let mut r: Vec<String> = Vec::new();
    r.push(a.to_owned());
    assert(texts(r@) =~= seq![a@]);
    r
}

fn two(a: &str, b: &str) -> (r: Vec<String>)
    ensures
        texts(r@) == seq![a@, b@],
{
    let mut r: Vec<String> = Vec::new();
    r.push(a.to_owned());
    r.push(b.to_owned());
    assert(texts(r@) =~= seq![a@, b@]);
    r
}

impl Default for Keymap {
    fn default() -> (r: Self)
        ensures
            r@ == default_bindings(),
    {
        Keymap {
            quit: two("q", "esc"),
            force_quit: one("ctrl+c"),
            up: two("up", "k"),
            down: two("down", "j"),
            left: two("left", "h"),
            right: two("right", "l"),
            select: one("enter"),
            back: one("esc"),
            pause: one("p"),
            restart: one("r"),
            shutdown: one("s"),
            inspect: one("i"),
            start_all: one("a"),
            stop_all: one("shift+a"),
            module_next: one("tab"),
            module_previous: one("backtab"),
        }
    }
}

/// A part of a binding names one of the keys held down.
pub open spec fn holds(parts: Seq<Seq<char>>, a: Seq<char>) -> bool {
    exists|i: int| 0 <= i < parts.len() - 1 && #[trigger] parts[i] == a
}

/// The keys that a binding wants held down: all its parts but the last name them.
pub open spec fn held(parts: Seq<Seq<char>>) -> KeyModifiers {
    KeyModifiers {
        control: holds(parts, "ctrl"@) || holds(parts, "control"@),
        shift: holds(parts, "shift"@),
        alt: holds(parts, "alt"@),
        super_key: holds(parts, "super"@) || holds(parts, "cmd"@) || holds(parts, "command"@)
            || holds(parts, "meta"@),
        hyper: false,
        meta: false,
    }
}

/// The key of a name: a name of its own, or the character that it is.
pub open spec fn key_of_name(name: Seq<char>) -> Option<KeyCode> {
    if name == "up"@ {
        Some(KeyCode::Up)
    } else if name == "down"@ {
        Some(KeyCode::Down)
    } else if name == "left"@ {
        Some(KeyCode::Left)
    } else if name == "right"@ {
        Some(KeyCode::Right)
    } else if name == "enter"@ || name == "return"@ {
        Some(KeyCode::Enter)
    } else if name == "esc"@ || name == "escape"@ {
        Some(KeyCode::Esc)
    } else if name == "tab"@ {
        Some(KeyCode::Tab)
    } else if name == "backtab"@ {
        Some(KeyCode::BackTab)
    } else if name == "backspace"@ {
        Some(KeyCode::Backspace)
    } else if name == "delete"@ {
        Some(KeyCode::Delete)
    } else if name.len() == 1 && name[0] as u32 <= 127 {
        Some(KeyCode::Char(name[0]))
    } else {
        None
    }
}

/// Whether a key press is what a binding in lower case means.
pub open spec fn means(binding: Seq<char>, key: KeyEvent) -> bool {
    let parts = split_on(binding, '+');
    key.modifiers == held(parts) && key_of_name(parts.last()) == Some(key.code)
}

fn part_held(parts: &Vec<String>, a: &str) -> (r: bool)
    ensures
        r == holds(texts(parts@), a@),
{
    let ghost all = texts(parts@);
    let mut i: usize = 0;
    while parts.len() - i > 1
        invariant
            i <= parts@.len(),
            all == texts(parts@),
            forall|j: int| 0 <= j < i ==> #[trigger] all[j] != a@,
        decreases parts@.len() - i,
    {
        if same(parts[i].as_str(), a) {
            assert(all[i as int] == a@);
            return true;
        }
        i = i + 1;
    }
    false
}

fn named_key(name: &str) -> (r: Option<KeyCode>)
    ensures
        r == key_of_name(name@),
{
    if same(name, "up") {
        Some(KeyCode::Up)
    } else if same(name, "down") {
        Some(KeyCode::Down)
    } else if same(name, "left") {
        Some(KeyCode::Left)
    } else if same(name, "right") {
        Some(KeyCode::Right)
    } else if same(name, "enter") || same(name, "return") {
        Some(KeyCode::Enter)
    } else if same(name, "esc") || same(name, "escape") {
        Some(KeyCode::Esc)
    } else if same(name, "tab") {
        Some(KeyCode::Tab)
    } else if same(name, "backtab") {
        Some(KeyCode::BackTab)
    } else if same(name, "backspace") {
        Some(KeyCode::Backspace)
    } else if same(name, "delete") {
        Some(KeyCode::Delete)
    } else if name.unicode_len() == 1 && name.get_char(0) as u32 <= 127 {
        Some(KeyCode::Char(name.get_char(0)))
    } else {
        None
    }
}

/// Whether a key press is what a binding in lower case means.
pub fn lowered_key_matches(binding: &str, key: &KeyEvent) -> (r: bool)
    ensures
        r == means(binding@, *key),
{
    let parts = split_pieces(binding, '+');
    let modifiers = KeyModifiers {
        control: part_held(&parts, "ctrl") || part_held(&parts, "control"),
        shift: part_held(&parts, "shift"),
        alt: part_held(&parts, "alt"),
        super_key: part_held(&parts, "super") || part_held(&parts, "cmd") || part_held(
            &parts,
            "command",
        ) || part_held(&parts, "meta"),
        hyper: false,
        meta: false,
    };
    if key.modifiers != modifiers {
        return false;
    }
    assert(texts(parts@).last() == parts@[parts@.len() - 1]@);
    match named_key(parts[parts.len() - 1].as_str()) {
        Some(code) => key.code == code,
        None => false,
    }
}

/// Whether a key press is what a binding means; the case of its letters does not matter.
pub fn key_matches(binding: &str, key: &KeyEvent) -> (r: bool)
    ensures
        r == means(lowercase(binding@), *key),
{
    lowered_key_matches(lowered(binding).as_str(), key)
}

impl Keymap {
    /// The bindings to use, given what was read from the file: the default ones where
    /// there is none or it cannot be read.
    pub fn load(read: Option<Keymap>) -> (r: Self)
        ensures
            r@ == (match read {
                Some(k) => k@,
                None => default_bindings(),
            }),
    {
        match read {
            Some(k) => k,
            None => Keymap::default(),
        }
    }

    /// Whether a key press is what one of some bindings means.
    pub fn matches(&self, binding: &Vec<String>, key: &KeyEvent) -> (r: bool)
        ensures
            r == exists|i: int|
                0 <= i < binding@.len() && means(lowercase((#[trigger] binding@[i])@), *key),
    {
        let mut i: usize = 0;
        while i < binding.len()
            invariant
                i <= binding@.len(),
                forall|j: int| 0 <= j < i ==> !means(lowercase((#[trigger] binding@[j])@), *key),
            decreases binding@.len() - i,
        {
            if key_matches(binding[i].as_str(), key) {
                assert(means(lowercase(binding@[i as int]@), *key));
                return true;
            }
            i = i + 1;
        }
        false
    }
}

/// A binding means one key with one set of keys held down.
pub proof fn law_binding_means_one_key(binding: Seq<char>, a: KeyEvent, b: KeyEvent)
    requires
        means(binding, a),
        means(binding, b),
    ensures
        a == b,
{
}

} // verus!
