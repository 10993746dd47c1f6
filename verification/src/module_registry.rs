//! The modules that were approved before, as they are kept in `modules.json`.
use crate::proto::{clone_all, opt_view, views};
use crate::text::same;
use vstd::prelude::*;

verus! {

/// A module that was approved.
#[derive(Debug)]
pub struct RegisteredModule {
    pub name: String,
    pub instance_uuid7: String,
    pub position: String,
    pub priority: i32,
    pub auto_auth: bool,
    pub auth_token: String,
}

/// What a [`RegisteredModule`] says.
#[verifier::ext_equal]
pub struct RegisteredModuleView {
    pub name: Seq<char>,
    pub instance_uuid7: Seq<char>,
    pub position: Seq<char>,
    pub priority: i32,
    pub auto_auth: bool,
    pub auth_token: Seq<char>,
}

impl View for RegisteredModule {
    type V = RegisteredModuleView;

    open spec fn view(&self) -> RegisteredModuleView {
        RegisteredModuleView {
            name: self.name@,
            instance_uuid7: self.instance_uuid7@,
            position: self.position@,
            priority: self.priority,
            auto_auth: self.auto_auth,
            auth_token: self.auth_token@,
        }
    }
}

impl Clone for RegisteredModule {
    fn clone(&self) -> (r: Self)
        ensures
            r@ == self@,
    {
        RegisteredModule {
            name: self.name.clone(),
            instance_uuid7: self.instance_uuid7.clone(),
            position: self.position.clone(),
            priority: self.priority,
            auto_auth: self.auto_auth,
            auth_token: self.auth_token.clone(),
        }
    }
}

/// The first module with a name.
pub open spec fn named(modules: Seq<RegisteredModuleView>, name: Seq<char>) -> Option<
    RegisteredModuleView,
>
    decreases modules.len(),
{
    if modules.len() == 0 {
        None
    } else if modules[0].name == name {
        Some(modules[0])
    } else {
        named(modules.drop_first(), name)
    }
}

/// The first module with an instance id.
pub open spec fn with_uuid(modules: Seq<RegisteredModuleView>, uuid: Seq<char>) -> Option<
    RegisteredModuleView,
>
    decreases modules.len(),
{
    if modules.len() == 0 {
        None
    } else if modules[0].instance_uuid7 == uuid {
        Some(modules[0])
    } else {
        with_uuid(modules.drop_first(), uuid)
    }
}

/// The modules with one more, in place of the first of its name.
pub open spec fn registered(
    modules: Seq<RegisteredModuleView>,
    module: RegisteredModuleView,
) -> Seq<RegisteredModuleView>
    decreases modules.len(),
{
    if modules.len() == 0 {
        seq![module]
    } else if modules[0].name == module.name {
        seq![module] + modules.drop_first()
    } else {
        seq![modules[0]] + registered(modules.drop_first(), module)
    }
}

/// The modules of other names.
pub open spec fn removed(modules: Seq<RegisteredModuleView>, name: Seq<char>) -> Seq<
    RegisteredModuleView,
>
    decreases modules.len(),
{
    if modules.len() == 0 {
        Seq::empty()
    } else {
        let front = removed(modules.drop_last(), name);
        if modules.last().name == name {
            front
        } else {
            front.push(modules.last())
        }
    }
}

/// The modules that were approved before, and the file they are kept in.
pub struct ModuleRegistryPersistence {
    path: String,
    modules: Vec<RegisteredModule>,
}

impl View for ModuleRegistryPersistence {
    type V = Seq<RegisteredModuleView>;

    closed spec fn view(&self) -> Seq<RegisteredModuleView> {
        views(self.modules@)
    }
}

impl ModuleRegistryPersistence {
    /// The file.
    pub closed spec fn file(&self) -> Seq<char> {
        self.path@
    }

    /// A registry with what its file holds; an unreadable file holds nothing.
    pub fn load(path: String, stored: Option<Vec<RegisteredModule>>) -> (r: Self)
        ensures
            r.file() == path@,
            r@ == (match stored {
                Some(m) => views(m@),
                None => Seq::empty(),
            }),
    {
        match stored {
            Some(modules) => ModuleRegistryPersistence { path, modules },
            None => {
                let r = ModuleRegistryPersistence { path, modules: Vec::new() };
                assert(r@ =~= Seq::<RegisteredModuleView>::empty());
                r
            },
        }
    }

    /// The file that the registry is kept in.
    pub fn path(&self) -> (r: &str)
        ensures
            r@ == self.file(),
    {
        self.path.as_str()
    }

    fn seek(&self, name: &str) -> (r: usize)
        ensures
            r <= self.modules@.len(),
            forall|j: int| 0 <= j < r ==> (#[trigger] self@[j]).name != name@,
            r < self.modules@.len() ==> self@[r as int].name == name@,
            named(self@, name@) == (if r < self.modules@.len() {
                Some(self@[r as int])
            } else {
                None
            }),
    {
        let mut i: usize = 0;
        assert(self@.skip(0) =~= self@);
        while i < self.modules.len()
            invariant
                i <= self.modules@.len(),
                forall|j: int| 0 <= j < i ==> (#[trigger] self@[j]).name != name@,
                named(self@, name@) == named(self@.skip(i as int), name@),
            decreases self.modules@.len() - i,
        {
            assert(self@.skip(i as int)[0] == self.modules@[i as int]@);
            if same(self.modules[i].name.as_str(), name) {
                return i;
            }
            assert(self@.skip(i as int).drop_first() =~= self@.skip(i + 1));
            i = i + 1;
        }
        i
    }

    /// The module of a name.
    pub fn find_by_name(&self, name: &str) -> (r: Option<RegisteredModule>)
        ensures
            opt_view(r) == named(self@, name@),
    {
        let i = self.seek(name);
        if i < self.modules.len() {
            Some(self.modules[i].clone())
        } else {
            None
        }
    }

    /// The module of an instance.
    pub fn find_by_uuid(&self, uuid: &str) -> (r: Option<RegisteredModule>)
        ensures
            opt_view(r) == with_uuid(self@, uuid@),
    {
        let mut i: usize = 0;
        assert(self@.skip(0) =~= self@);
        while i < self.modules.len()
            invariant
                i <= self.modules@.len(),
                with_uuid(self@, uuid@) == with_uuid(self@.skip(i as int), uuid@),
            decreases self.modules@.len() - i,
        {
            assert(self@.skip(i as int)[0] == self.modules@[i as int]@);
            if same(self.modules[i].instance_uuid7.as_str(), uuid) {
                return Some(self.modules[i].clone());
            }
            assert(self@.skip(i as int).drop_first() =~= self@.skip(i + 1));
            i = i + 1;
        }
        None
    }

    /// Adds a module, in place of the one of its name. The file is to be written then.
    pub fn register(&mut self, module: RegisteredModule)
        ensures
            final(self)@ == registered(old(self)@, module@),
            final(self).file() == old(self).file(),
    {
        let i = self.seek(module.name.as_str());
        let ghost before = self@;
        proof {
            lemma_registered(before, module@, i as int);
        }
        if i < self.modules.len() {
            self.modules[i] = module;
            assert(self@ =~= before.update(i as int, module@));
        } else {
            self.modules.push(module);
            assert(self@ =~= before.push(module@));
        }
    }

    /// Whether a module was approved before and needs no question.
    pub fn is_known_and_auto_auth(&self, name: &str) -> (r: bool)
        ensures
            r == (named(self@, name@) matches Some(m) && m.auto_auth),
    {
        let i = self.seek(name);
        i < self.modules.len() && self.modules[i].auto_auth
    }

    /// The token that was issued to a module.
    pub fn get_token_for(&self, name: &str) -> (r: Option<String>)
        ensures
            (match named(self@, name@) {
                Some(m) => r matches Some(t) && t@ == m.auth_token,
                None => r is None,
            }),
    {
        let i = self.seek(name);
        if i < self.modules.len() {
            Some(self.modules[i].auth_token.clone())
        } else {
            None
        }
    }

    /// All modules.
    pub fn values(&self) -> (r: Vec<RegisteredModule>)
        ensures
            views(r@) == self@,
    {
        clone_all(&self.modules)
    }

    /// Takes a module out; says whether it was there. If it was, the file is to be written
    /// then.
    pub fn remove(&mut self, name: &str) -> (r: bool)
        ensures
            final(self)@ == removed(old(self)@, name@),
            final(self).file() == old(self).file(),
            r == named(old(self)@, name@) is Some,
    {
        let found = self.seek(name);
        let r = found < self.modules.len();
        let ghost all = self@;
        let mut out: Vec<RegisteredModule> = Vec::new();
        let mut i: usize = 0;
        assert(views(out@) =~= removed(all.take(0), name@));
        while i < self.modules.len()
            invariant
                i <= self.modules@.len(),
                all == self@,
                views(out@) == removed(all.take(i as int), name@),
            decreases self.modules@.len() - i,
        {
            assert(all.take(i + 1).drop_last() =~= all.take(i as int));
            let ghost before = out@;
            if !same(self.modules[i].name.as_str(), name) {
                out.push(self.modules[i].clone());
                assert(views(out@) =~= views(before).push(all[i as int]));
            }
            i = i + 1;
        }
        assert(all.take(i as int) =~= all);
        self.modules = out;
        r
    }
}

proof fn lemma_registered(
    modules: Seq<RegisteredModuleView>,
    module: RegisteredModuleView,
    i: int,
)
    requires
        0 <= i <= modules.len(),
        forall|j: int| 0 <= j < i ==> (#[trigger] modules[j]).name != module.name,
        i < modules.len() ==> modules[i].name == module.name,
    ensures
        registered(modules, module) == (if i < modules.len() {
            modules.update(i, module)
        } else {
            modules.push(module)
        }),
    decreases modules.len(),
{
    if modules.len() == 0 {
        assert(modules.push(module) =~= seq![module]);
    } else if i == 0 {
        assert(modules.update(0, module) =~= seq![module] + modules.drop_first());
    } else {
        assert(modules[0].name != module.name);
        let t = modules.drop_first();
        assert forall|j: int| 0 <= j < i - 1 implies (#[trigger] t[j]).name != module.name by {
            assert(t[j] == modules[j + 1]);
        }
        lemma_registered(t, module, i - 1);
        if i < modules.len() {
            assert(seq![modules[0]] + t.update(i - 1, module) =~= modules.update(i, module));
        } else {
            assert(seq![modules[0]] + t.push(module) =~= modules.push(module));
        }
    }
}

/// A module that was registered is found under its name, as it was registered.
pub proof fn law_registered_module_is_found(
    modules: Seq<RegisteredModuleView>,
    module: RegisteredModuleView,
)
    ensures
        named(registered(modules, module), module.name) == Some(module),
    decreases modules.len(),
{
    if modules.len() > 0 && modules[0].name != module.name {
        law_registered_module_is_found(modules.drop_first(), module);
        let after = registered(modules, module);
        assert(after.drop_first() =~= registered(modules.drop_first(), module));
    }
}

/// A module that was taken out is not found any more.
pub proof fn law_removed_module_is_gone(modules: Seq<RegisteredModuleView>, name: Seq<char>)
    ensures
        named(removed(modules, name), name) is None,
{
    lemma_removed(modules, name);
    lemma_unnamed(removed(modules, name), name);
}

proof fn lemma_removed(modules: Seq<RegisteredModuleView>, name: Seq<char>)
    ensures
        forall|i: int|
            0 <= i < removed(modules, name).len() ==> (#[trigger] removed(modules, name)[i]).name
                != name,
    decreases modules.len(),
{
    if modules.len() > 0 {
        lemma_removed(modules.drop_last(), name);
        let front = removed(modules.drop_last(), name);
        let all = removed(modules, name);
        assert forall|i: int| 0 <= i < all.len() implies (#[trigger] all[i]).name != name by {
            if i < front.len() {
                assert(all[i] == front[i]);
            }
        }
    }
}

proof fn lemma_unnamed(modules: Seq<RegisteredModuleView>, name: Seq<char>)
    requires
        forall|i: int| 0 <= i < modules.len() ==> (#[trigger] modules[i]).name != name,
    ensures
        named(modules, name) is None,
    decreases modules.len(),
{
    if modules.len() > 0 {
        assert(modules[0].name != name);
        let t = modules.drop_first();
        assert forall|i: int| 0 <= i < t.len() implies (#[trigger] t[i]).name != name by {
            assert(t[i] == modules[i + 1]);
        }
        lemma_unnamed(t, name);
    }
}

} // verus!
