//! The modules found on disk, by their manifests.
use crate::proto::{clone_all, clone_texts, views};
use crate::strmap::{has_key, StrMap};
use crate::text::{join_path, path_in, texts, trim, trimmed};
use vstd::prelude::*;

verus! {

/// A credential that a module asks for.
#[derive(Debug)]
pub struct CredentialField {
    pub key: String,
    pub label: String,
    pub sensitive: bool,
    pub list: bool,
    /// Whether the module works without it.
    pub optional: bool,
    /// The environment variable it is stored under; empty for the key itself.
    pub env: String,
}

/// What a [`CredentialField`] says.
#[verifier::ext_equal]
pub struct CredentialFieldView {
    pub key: Seq<char>,
    pub label: Seq<char>,
    pub sensitive: bool,
    pub list: bool,
    pub optional: bool,
    pub env: Seq<char>,
}

impl View for CredentialField {
    type V = CredentialFieldView;

    open spec fn view(&self) -> CredentialFieldView {
        CredentialFieldView {
            key: self.key@,
            label: self.label@,
            sensitive: self.sensitive,
            list: self.list,
            optional: self.optional,
            env: self.env@,
        }
    }
}

impl Clone for CredentialField {
    fn clone(&self) -> (r: Self)
        ensures
            r@ == self@,
    {
        CredentialField {
            key: self.key.clone(),
            label: self.label.clone(),
            sensitive: self.sensitive,
            list: self.list,
            optional: self.optional,
            env: self.env.clone(),
        }
    }
}

/// The environment variable that a credential is stored under.
pub open spec fn env_name_of(f: CredentialFieldView) -> Seq<char> {
    if f.env.len() == 0 {
        f.key
    } else {
        f.env
    }
}

impl CredentialField {
    /// The environment variable that this credential is stored under.
    pub fn env_name(&self) -> (r: &str)
        ensures
            r@ == env_name_of(self@),
    {
        if self.env.as_str().unicode_len() == 0 {
            self.key.as_str()
        } else {
            self.env.as_str()
        }
    }
}

/// What a module says of itself.
#[derive(Debug)]
pub struct ModuleManifest {
    pub name: String,
    pub description: String,
    pub version: String,
    pub capabilities: String,
    pub root_file: String,
    pub launch_command: String,
    pub command_flags: Vec<String>,
    pub autostart: bool,
    pub terminal: bool,
    pub credentials: Vec<CredentialField>,
    /// Seconds of silence before the module is probed; 0 for the engine's own.
    pub unresponsive_timeout_secs: u64,
    /// Seconds the module has to answer a probe; 0 for the engine's own.
    pub probe_response_secs: u64,
}

/// What a [`ModuleManifest`] says.
#[verifier::ext_equal]
pub struct ModuleManifestView {
    pub name: Seq<char>,
    pub description: Seq<char>,
    pub version: Seq<char>,
    pub capabilities: Seq<char>,
    pub root_file: Seq<char>,
    pub launch_command: Seq<char>,
    pub command_flags: Seq<Seq<char>>,
    pub autostart: bool,
    pub terminal: bool,
    pub credentials: Seq<CredentialFieldView>,
    pub unresponsive_timeout_secs: u64,
    pub probe_response_secs: u64,
}

impl View for ModuleManifest {
    type V = ModuleManifestView;

    open spec fn view(&self) -> ModuleManifestView {
        ModuleManifestView {
            name: self.name@,
            description: self.description@,
            version: self.version@,
            capabilities: self.capabilities@,
            root_file: self.root_file@,
            launch_command: self.launch_command@,
            command_flags: texts(self.command_flags@),
            autostart: self.autostart,
            terminal: self.terminal,
            credentials: views(self.credentials@),
            unresponsive_timeout_secs: self.unresponsive_timeout_secs,
            probe_response_secs: self.probe_response_secs,
        }
    }
}

impl Clone for ModuleManifest {
    fn clone(&self) -> (r: Self)
        ensures
            r@ == self@,
    {
        ModuleManifest {
            name: self.name.clone(),
            description: self.description.clone(),
            version: self.version.clone(),
            capabilities: self.capabilities.clone(),
            root_file: self.root_file.clone(),
            launch_command: self.launch_command.clone(),
            command_flags: clone_texts(&self.command_flags),
            autostart: self.autostart,
            terminal: self.terminal,
            credentials: clone_all(&self.credentials),
            unresponsive_timeout_secs: self.unresponsive_timeout_secs,
            probe_response_secs: self.probe_response_secs,
        }
    }
}

/// A module found on disk.
#[derive(Debug)]
pub struct DiscoveredModule {
    pub manifest: ModuleManifest,
    pub directory: String,
}

/// What a [`DiscoveredModule`] says.
#[verifier::ext_equal]
pub struct DiscoveredModuleView {
    pub manifest: ModuleManifestView,
    pub directory: Seq<char>,
}

impl View for DiscoveredModule {
    type V = DiscoveredModuleView;

    open spec fn view(&self) -> DiscoveredModuleView {
        DiscoveredModuleView {
            manifest: self.manifest@,
            directory: self.directory@,
        }
    }
}

impl Clone for DiscoveredModule {
    fn clone(&self) -> (r: Self)
        ensures
            r@ == self@,
    {
        DiscoveredModule {
            manifest: self.manifest.clone(),
            directory: self.directory.clone(),
        }
    }
}

/// What reading a module's manifest came to.
#[derive(Debug)]
pub enum ManifestRead {
    /// There is none.
    Missing,
    /// The file could not be read; the words of the error.
    Unreadable(String),
    /// The file holds no manifest; the words of the error.
    Invalid(String),
    Manifest(ModuleManifest),
}

/// What a [`ManifestRead`] says.
#[verifier::ext_equal]
pub enum ManifestReadView {
    Missing,
    Unreadable(Seq<char>),
    Invalid(Seq<char>),
    Manifest(ModuleManifestView),
}

impl View for ManifestRead {
    type V = ManifestReadView;

    open spec fn view(&self) -> ManifestReadView {
        match *self {
            ManifestRead::Missing => ManifestReadView::Missing,
            ManifestRead::Unreadable(x) => ManifestReadView::Unreadable(x@),
            ManifestRead::Invalid(x) => ManifestReadView::Invalid(x@),
            ManifestRead::Manifest(x) => ManifestReadView::Manifest(x@),
        }
    }
}

/// Something met on a search for modules.
#[derive(Debug)]
pub enum Found {
    /// A search path that is no directory.
    NotADirectory { path: String },
    /// A search path that could not be read.
    Unreadable { path: String, error: String },
    /// An entry that could not be read.
    BadEntry { error: String },
    /// A directory that may hold a module.
    Candidate { path: String, manifest: ManifestRead },
}

/// What a [`Found`] says.
#[verifier::ext_equal]
pub enum FoundView {
    NotADirectory { path: Seq<char> },
    Unreadable { path: Seq<char>, error: Seq<char> },
    BadEntry { error: Seq<char> },
    Candidate { path: Seq<char>, manifest: ManifestReadView },
}

impl View for Found {
    type V = FoundView;

    open spec fn view(&self) -> FoundView {
        match *self {
            Found::NotADirectory { path } => FoundView::NotADirectory {
                path: path@,
            },
            Found::Unreadable { path, error } => FoundView::Unreadable {
                path: path@,
                error: error@,
            },
            Found::BadEntry { error } => FoundView::BadEntry {
                error: error@,
            },
            Found::Candidate { path, manifest } => FoundView::Candidate {
                path: path@,
                manifest: manifest@,
            },
        }
    }
}

/// The file that holds a module's manifest.
pub open spec fn manifest_path(directory: Seq<char>) -> Seq<char> {
    path_in(directory, "cockatiel_module_info.json"@)
}

/// The module in a directory, or why there is none.
pub open spec fn loaded(directory: Seq<char>, read: ManifestReadView) -> Result<
    Option<DiscoveredModuleView>,
    Seq<char>,
> {
    let path = manifest_path(directory);
    match read {
        ManifestReadView::Missing => Ok(None),
        ManifestReadView::Unreadable(e) => Err("Could not read "@ + path + ": "@ + e),
        ManifestReadView::Invalid(e) => Err("Invalid module manifest "@ + path + ": "@ + e),
        ManifestReadView::Manifest(m) => if trim(m.name).len() == 0 {
            Err("Module manifest "@ + path + " has an empty name"@)
        } else {
            Ok(Some(DiscoveredModuleView { manifest: m, directory }))
        },
    }
}

/// The module in a directory, or why there is none.
pub fn load_manifest(directory: &str, read: ManifestRead) -> (r: Result<
    Option<DiscoveredModule>,
    String,
>)
    ensures
        (match r {
            Ok(m) => loaded(directory@, read@) == Ok::<Option<DiscoveredModuleView>, Seq<char>>(
                crate::proto::opt_view(m),
            ),
            Err(e) => loaded(directory@, read@) == Err::<Option<DiscoveredModuleView>, Seq<char>>(
                e@,
            ),
        }),
{
    let path = join_path(directory, "cockatiel_module_info.json");
    match read {
        ManifestRead::Missing => Ok(None),
        ManifestRead::Unreadable(e) => {
            let mut t = "Could not read ".to_owned();
            t.append(path.as_str());
            t.append(": ");
            t.append(e.as_str());
            Err(t)
        },
        ManifestRead::Invalid(e) => {
            let mut t = "Invalid module manifest ".to_owned();
            t.append(path.as_str());
            t.append(": ");
            t.append(e.as_str());
            Err(t)
        },
        ManifestRead::Manifest(m) => {
            if trimmed(m.name.as_str()).as_str().unicode_len() == 0 {
                let mut t = "Module manifest ".to_owned();
                t.append(path.as_str());
                t.append(" has an empty name");
                Err(t)
            } else {
                Ok(Some(DiscoveredModule { manifest: m, directory: directory.to_owned() }))
            }
        },
    }
}

/// The modules found so far, and the errors.
pub type Search = (Seq<(Seq<char>, DiscoveredModuleView)>, Seq<Seq<char>>);

/// What one more find adds: a module under its name, unless the name is taken.
pub open spec fn with_find(s: Search, f: FoundView) -> Search {
    match f {
        FoundView::NotADirectory { path } => (
            s.0,
            s.1.push("Module search path is not a directory: "@ + path),
        ),
        FoundView::Unreadable { path, error } => (
            s.0,
            s.1.push("Could not read module directory "@ + path + ": "@ + error),
        ),
        FoundView::BadEntry { error } => (
            s.0,
            s.1.push("Could not read module directory entry: "@ + error),
        ),
        FoundView::Candidate { path, manifest } => match loaded(path, manifest) {
            Ok(Some(m)) => if has_key(s.0, m.manifest.name) {
                (
                    s.0,
                    s.1.push(
                        "Duplicate module manifest for '"@ + m.manifest.name + "': "@ + path,
                    ),
                )
            } else {
                (s.0.push((m.manifest.name, m)), s.1)
            },
            Ok(None) => s,
            Err(e) => (s.0, s.1.push(e)),
        },
    }
}

/// What some finds come to.
pub open spec fn searched(
    start: Seq<(Seq<char>, DiscoveredModuleView)>,
    found: Seq<FoundView>,
) -> Search
    decreases found.len(),
{
    if found.len() == 0 {
        (start, Seq::empty())
    } else {
        with_find(searched(start, found.drop_last()), found.last())
    }
}

/// The modules found on disk, each under its name.
#[derive(Debug)]
pub struct ModuleRegistry {
    modules: StrMap<DiscoveredModule>,
}

impl Default for ModuleRegistry {
    fn default() -> (r: Self)
        ensures
            r.wf(),
            r.listed() == Seq::<(Seq<char>, DiscoveredModuleView)>::empty(),
    {
        ModuleRegistry::new()
    }
}

impl ModuleRegistry {
    /// The modules in the order in which they were found.
    pub closed spec fn listed(&self) -> Seq<(Seq<char>, DiscoveredModuleView)> {
        self.modules.pairs().map_values(|p: (Seq<char>, DiscoveredModule)| (p.0, p.1@))
    }

    /// No name stands twice.
    pub closed spec fn wf(&self) -> bool {
        self.modules.wf()
    }

    /// What well-formedness means for the modules.
    pub proof fn lemma_wf(&self)
        requires
            self.wf(),
        ensures
            crate::strmap::keys_distinct(self.listed()),
    {
        assert forall|i: int, j: int| #![trigger self.listed()[i], self.listed()[j]]
            0 <= i < j < self.listed().len() implies self.listed()[i].0
            != self.listed()[j].0 by {
            assert(self.modules.pairs()[i].0 != self.modules.pairs()[j].0);
        }
    }

    proof fn lemma_key(&self, name: Seq<char>)
        ensures
            self.modules@.dom().contains(name) == has_key(self.listed(), name),
            self.modules@.dom().contains(name) ==> crate::strmap::value_at(self.listed(), name)
                == self.modules@[name]@,
    {
        crate::strmap::lemma_position_keys(self.modules.pairs(), self.listed(), name);
        crate::strmap::lemma_position(self.listed(), name);
    }

    /// A registry without modules.
    pub fn new() -> (r: Self)
        ensures
            r.wf(),
            r.listed() == Seq::<(Seq<char>, DiscoveredModuleView)>::empty(),
    {
        let r = ModuleRegistry { modules: StrMap::new() };
        assert(r.listed() =~= Seq::<(Seq<char>, DiscoveredModuleView)>::empty());
        r
    }

    /// Takes in what a search met, and gives the errors.
    pub fn discover(&mut self, found: Vec<Found>) -> (r: Vec<String>)
        requires
            old(self).wf(),
        ensures
            final(self).wf(),
            (final(self).listed(), texts(r@)) == searched(old(self).listed(), views(found@)),
    {
        let ghost start = self.listed();
        let ghost all = views(found@);
        let mut errors: Vec<String> = Vec::new();
        assert(texts(errors@) =~= Seq::<Seq<char>>::empty());
        let mut rest = found;
        let ghost mut n: int = 0;
        assert(all.take(0) =~= Seq::<FoundView>::empty());
        while rest.len() > 0
            invariant
                self.wf(),
                0 <= n <= all.len(),
                views(rest@) == all.skip(n),
                (self.listed(), texts(errors@)) == searched(start, all.take(n)),
            decreases rest@.len(),
        {
            let ghost before = errors@;
            let ghost had = views(rest@);
            assert(had.len() == all.len() - n);
            let f = rest.remove(0);
            proof {
                assert(had[0] == f@);
                assert(all[n] == f@);
                assert(all.take(n + 1).drop_last() =~= all.take(n));
                assert(views(rest@) =~= had.drop_first());
                assert(all.skip(n).drop_first() =~= all.skip(n + 1));
            }
            let mut error: Option<String> = None;
            match f {
                Found::NotADirectory { path } => {
                    let mut t = "Module search path is not a directory: ".to_owned();
                    t.append(path.as_str());
                    error = Some(t);
                },
                Found::Unreadable { path, error: e } => {
                    let mut t = "Could not read module directory ".to_owned();
                    t.append(path.as_str());
                    t.append(": ");
                    t.append(e.as_str());
                    error = Some(t);
                },
                Found::BadEntry { error: e } => {
                    let mut t = "Could not read module directory entry: ".to_owned();
                    t.append(e.as_str());
                    error = Some(t);
                },
                Found::Candidate { path, manifest } => match load_manifest(path.as_str(), manifest) {
                    Ok(Some(m)) => {
                        let name = m.manifest.name.clone();
                        proof {
                            self.lemma_key(name@);
                            crate::strmap::lemma_position(self.modules.pairs(), name@);
                        }
                        if self.modules.contains_key(name.as_str()) {
                            let mut t = "Duplicate module manifest for '".to_owned();
                            t.append(name.as_str());
                            t.append("': ");
                            t.append(path.as_str());
                            error = Some(t);
                        } else {
                            let ghost list = self.listed();
                            self.modules.insert(name, m);
                            assert(self.listed() =~= list.push((name@, m@)));
                        }
                    },
                    Ok(None) => {},
                    Err(e) => {
                        error = Some(e);
                    },
                },
            }
            if let Some(t) = error {
                errors.push(t);
                assert(texts(errors@) =~= texts(before).push(t@));
            }
            proof {
                n = n + 1;
            }
        }
        assert(all.take(n) =~= all);
        errors
    }

    /// The module of a name.
    pub fn get(&self, name: &str) -> (r: Option<&DiscoveredModule>)
        requires
            self.wf(),
        ensures
            r is Some == has_key(self.listed(), name@),
            r matches Some(m) ==> m@ == crate::strmap::value_at(self.listed(), name@),
    {
        proof {
            self.lemma_key(name@);
        }
        self.modules.get(name)
    }

    /// The modules with their names.
    pub fn iter(&self) -> (r: Vec<(String, DiscoveredModule)>)
        ensures
            r@.len() == self.listed().len(),
            forall|i: int|
                0 <= i < r@.len() ==> ((#[trigger] r@[i]).0@, r@[i].1@) == self.listed()[i],
    {
        let mut out: Vec<(String, DiscoveredModule)> = Vec::new();
        let mut i: usize = 0;
        while i < self.modules.len()
            invariant
                i <= self.modules.pairs().len(),
                out@.len() == i,
                forall|j: int|
                    0 <= j < i ==> ((#[trigger] out@[j]).0@, out@[j].1@) == self.listed()[j],
            decreases self.modules.pairs().len() - i,
        {
            out.push((self.modules.key_at(i).clone(), self.modules.value_at(i).clone()));
            i = i + 1;
        }
        out
    }

    /// How many modules there are.
    pub fn len(&self) -> (r: usize)
        ensures
            r == self.listed().len(),
    {
        self.modules.len()
    }
}

/// A search never replaces a module: what was found first under a name stays.
pub proof fn law_first_manifest_stays(s: Search, f: FoundView, name: Seq<char>)
    requires
        has_key(s.0, name),
    ensures
        has_key(with_find(s, f).0, name),
        crate::strmap::value_at(with_find(s, f).0, name) == crate::strmap::value_at(s.0, name),
{
    crate::strmap::lemma_position(s.0, name);
    let after = with_find(s, f).0;
    if after != s.0 {
        lemma_position_push(s.0, after.last(), name);
        assert(after =~= s.0.push(after.last()));
    }
}

proof fn lemma_position_push<V>(pairs: Seq<(Seq<char>, V)>, p: (Seq<char>, V), key: Seq<char>)
    requires
        has_key(pairs, key),
    ensures
        crate::strmap::position(pairs.push(p), key) == crate::strmap::position(pairs, key),
    decreases pairs.len(),
{
    if pairs.len() > 0 && pairs[0].0 != key {
        assert(pairs.push(p).drop_first() =~= pairs.drop_first().push(p));
        lemma_position_push(pairs.drop_first(), p, key);
    }
}

} // verus!
