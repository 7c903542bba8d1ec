//! The method registry: a mapping from method name to a tagged handler,
//! built before the server starts and read-only afterwards. Registering a
//! name twice fails with `DuplicateMethod` and leaves the registry unchanged.

use vstd::prelude::*;
use crate::json::{JsonValue, JsonModel, model_of};

verus! {

/// What a registered handler does with the params of a call.
#[derive(Debug)]
pub enum Handler {
    /// Answers every call with this value, whatever the params are.
    Constant(JsonValue),
    /// Fails on every call; the text stays on the server and is never sent.
    Failing(String),
}

/// The mathematical model of a handler.
pub enum HandlerModel {
    Constant(JsonModel),
    Failing(Seq<char>),
}

impl View for Handler {
    type V = HandlerModel;

    open spec fn view(&self) -> HandlerModel {
        match self {
            Handler::Constant(v) => HandlerModel::Constant(model_of(*v)),
            Handler::Failing(m) => HandlerModel::Failing(m@),
        }
    }
}

/// The one error of registry construction: the name is already taken.
#[derive(Debug, PartialEq, Eq, Structural)]
pub enum SetupError {
    DuplicateMethod,
}

/// One registered method: its name and its handler.
#[derive(Debug)]
pub struct RegistryEntry {
    pub name: String,
    pub handler: Handler,
}

/// The method registry. Its model is the map from method name to handler
/// model; the names of its entries are unique.
#[derive(Debug)]
pub struct Registry {
    entries: Vec<RegistryEntry>,
}

/// The map that a sequence of entries stands for, later entries inserted last.
pub open spec fn entries_map(s: Seq<RegistryEntry>) -> Map<Seq<char>, HandlerModel>
    decreases s,
{
    if s.len() == 0 {
        Map::empty()
    } else {
        entries_map(s.drop_last()).insert(s.last().name@, s.last().handler@)
    }
}

impl View for Registry {
    type V = Map<Seq<char>, HandlerModel>;

    closed spec fn view(&self) -> Map<Seq<char>, HandlerModel> {
        entries_map(self.entries@)
    }
}

/// A name is in the map of a sequence of entries exactly when an entry has it.
proof fn lemma_entries_map_domain(s: Seq<RegistryEntry>, name: Seq<char>)
    ensures
        entries_map(s).contains_key(name) <==> exists|i: int|
            0 <= i < s.len() && (#[trigger] s[i]).name@ == name,
    decreases s,
{
    if s.len() > 0 {
        lemma_entries_map_domain(s.drop_last(), name);
        if s.last().name@ == name {
            assert(s[s.len() - 1].name@ == name);
        } else {
            if entries_map(s).contains_key(name) {
                let i = choose|i: int| 0 <= i < s.drop_last().len() && (#[trigger] s.drop_last()[i]).name@ == name;
                assert(s[i].name@ == name);
            }
            if exists|i: int| 0 <= i < s.len() && (#[trigger] s[i]).name@ == name {
                let i = choose|i: int| 0 <= i < s.len() && (#[trigger] s[i]).name@ == name;
                assert(s.drop_last()[i].name@ == name);
            }
        }
    }
}

/// With unique names, the entry that carries a name gives the map's value.
proof fn lemma_entries_map_lookup(s: Seq<RegistryEntry>, i: int)
    requires
        0 <= i < s.len(),
        forall|a: int, b: int|
            0 <= a < b < s.len() ==> (#[trigger] s[a]).name@ != (#[trigger] s[b]).name@,
    ensures
        entries_map(s).contains_key(s[i].name@),
        entries_map(s)[s[i].name@] == s[i].handler@,
    decreases s,
{
    if i == s.len() - 1 {
    } else {
        lemma_entries_map_lookup(s.drop_last(), i);
        assert(s.drop_last()[i] == s[i]);
        assert(s[i].name@ != s[s.len() - 1].name@);
    }
}

impl Registry {
    /// The registry's names are unique, so its model determines each lookup.
    pub closed spec fn wf(&self) -> bool {
        forall|a: int, b: int|
            0 <= a < b < self.entries@.len() ==> (#[trigger] self.entries@[a]).name@ != (
            #[trigger] self.entries@[b]).name@
    }

    /// An empty registry: no method is known.
    pub fn new() -> (r: Registry)
        ensures
            r.wf(),
            r@ == Map::<Seq<char>, HandlerModel>::empty(),
    {
        Registry { entries: Vec::new() }
    }

    /// Registers `handler` under `name`. Fails with `DuplicateMethod` exactly
    /// when the name is already registered, and then changes nothing.
    pub fn register(&mut self, name: String, handler: Handler) -> (r: Result<(), SetupError>)
        requires
            old(self).wf(),
        ensures
            final(self).wf(),
            old(self)@.contains_key(name@) ==> r == Result::<(), SetupError>::Err(
                SetupError::DuplicateMethod,
            ) && final(self)@ == old(self)@,
            !old(self)@.contains_key(name@) ==> r == Result::<(), SetupError>::Ok(())
                && final(self)@ == old(self)@.insert(name@, handler@),
    {
        proof {
            lemma_entries_map_domain(self.entries@, name@);
        }
        let mut i: usize = 0;
        while i < self.entries.len()
            invariant
                *self == *old(self),
                old(self).wf(),
                i <= self.entries.len(),
                forall|j: int| 0 <= j < i ==> (#[trigger] self.entries@[j]).name@ != name@,
            decreases self.entries.len() - i,
        {
            if self.entries[i].name == name {
                proof {
                    lemma_entries_map_domain(self.entries@, name@);
                }
                return Err(SetupError::DuplicateMethod);
            }
            i += 1;
        }
        proof {
            lemma_entries_map_domain(self.entries@, name@);
        }
        let ghost before = self.entries@;
        self.entries.push(RegistryEntry { name, handler });
        proof {
            assert(self.entries@.drop_last() =~= before);
        }
        Ok(())
    }

    /// Whether `name` is a registered method.
    pub fn contains(&self, name: &String) -> (r: bool)
        ensures
            r == self@.contains_key(name@),
    {
        let mut i: usize = 0;
        while i < self.entries.len()
            invariant
                i <= self.entries.len(),
                forall|j: int| 0 <= j < i ==> (#[trigger] self.entries@[j]).name@ != name@,
            decreases self.entries.len() - i,
        {
            if self.entries[i].name == *name {
                proof {
                    lemma_entries_map_domain(self.entries@, name@);
                }
                return true;
            }
            i += 1;
        }
        proof {
            lemma_entries_map_domain(self.entries@, name@);
        }
        false
    }

    /// The handler registered under `name`, if the name is known.
    pub fn lookup(&self, name: &String) -> (r: Option<&Handler>)
        requires
            self.wf(),
        ensures
            match r {
                Option::Some(h) => self@.contains_key(name@) && h@ == self@[name@],
                Option::None => !self@.contains_key(name@),
            },
    {
        let mut i: usize = 0;
        while i < self.entries.len()
            invariant
                self.wf(),
                i <= self.entries.len(),
                forall|j: int| 0 <= j < i ==> (#[trigger] self.entries@[j]).name@ != name@,
            decreases self.entries.len() - i,
        {
            if self.entries[i].name == *name {
                proof {
                    lemma_entries_map_lookup(self.entries@, i as int);
                }
                return Some(&self.entries[i].handler);
            }
            i += 1;
        }
        proof {
            lemma_entries_map_domain(self.entries@, name@);
        }
        None
    }
}

} // verus!
