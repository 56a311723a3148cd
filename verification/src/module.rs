use vstd::prelude::*;

use crate::error::Error;
use crate::function::Function;
use crate::op::OpCode;
use crate::value::{FuncAddr, FuncIdx, FunctionType, ValueType};

verus! {

/// The number that `key` is bound to by the first entry that names it.
pub open spec fn find(entries: Seq<(Seq<char>, u32)>, key: Seq<char>) -> Option<u32>
    decreases entries.len(),
{
    if entries.len() == 0 {
        None
    } else if entries[0].0 == key {
        Some(entries[0].1)
    } else {
        find(entries.skip(1), key)
    }
}

/// No name is bound twice.
pub open spec fn distinct(entries: Seq<(Seq<char>, u32)>) -> bool {
    forall|i: int, j: int|
        0 <= i < j < entries.len() ==> (#[trigger] entries[i]).0 != (#[trigger] entries[j]).0
}

/// A name that no entry binds stays unbound until it is added, and is bound
/// to its number afterwards; every other name keeps its binding.
pub proof fn lemma_find_push(
    entries: Seq<(Seq<char>, u32)>,
    key: Seq<char>,
    value: u32,
    other: Seq<char>,
)
    requires
        find(entries, key) is None,
    ensures
        find(entries.push((key, value)), key) == Some(value),
        other != key ==> find(entries.push((key, value)), other) == find(entries, other),
        distinct(entries) ==> distinct(entries.push((key, value))),
    decreases entries.len(),
{
    let after = entries.push((key, value));
    if entries.len() == 0 {
        assert(after.skip(1) =~= Seq::empty());
        assert(after[0] == (key, value));
        assert(find(after.skip(1), other) is None);
    } else {
        assert(after.skip(1) =~= entries.skip(1).push((key, value)));
        assert(after[0] == entries[0]);
        lemma_find_push(entries.skip(1), key, value, other);
    }
    if distinct(entries) {
        assert forall|i: int, j: int| 0 <= i < j < after.len() implies (#[trigger] after[i]).0 != (
        #[trigger] after[j]).0 by {
            if j == entries.len() {
                lemma_find_none(entries, key, i);
            }
        }
    }
}

/// A name that is not found is the name of no entry.
pub proof fn lemma_find_none(entries: Seq<(Seq<char>, u32)>, key: Seq<char>, at: int)
    requires
        find(entries, key) is None,
        0 <= at < entries.len(),
    ensures
        entries[at].0 != key,
    decreases entries.len(),
{
    if at > 0 {
        lemma_find_none(entries.skip(1), key, at - 1);
    }
}

/// A name that is found is the name of an entry.
pub proof fn lemma_find_some(entries: Seq<(Seq<char>, u32)>, key: Seq<char>) -> (at: int)
    requires
        find(entries, key) is Some,
    ensures
        0 <= at < entries.len(),
        entries[at].0 == key,
    decreases entries.len(),
{
    if entries[0].0 == key {
        0
    } else {
        lemma_find_some(entries.skip(1), key) + 1
    }
}

/// Names bound to numbers, in the order in which they were added.
#[derive(Debug)]
pub struct NameMap {
    names: Vec<String>,
    values: Vec<u32>,
}

impl View for NameMap {
    type V = Seq<(Seq<char>, u32)>;

    closed spec fn view(&self) -> Seq<(Seq<char>, u32)> {
        Seq::new(self.names@.len(), |i: int| (self.names@[i]@, self.values@[i]))
    }
}

impl NameMap {
    pub closed spec fn wf(&self) -> bool {
        self.names@.len() == self.values@.len()
    }

    pub fn new() -> (m: NameMap)
        ensures
            m.wf(),
            m@ == Seq::<(Seq<char>, u32)>::empty(),
    {
        let m = NameMap { names: Vec::new(), values: Vec::new() };
        assert(m@ =~= Seq::empty());
        m
    }

    /// The number that `name` is bound to, if it is bound.
    pub fn get(&self, name: &str) -> (res: Option<u32>)
        requires
            self.wf(),
        ensures
            res == find(self@, name@),
    {
        let key = name.to_owned();
        let mut idx: usize = 0;
        assert(self@.skip(0) =~= self@);
        while idx < self.names.len()
            invariant
                self.wf(),
                idx <= self.names@.len(),
                key@ == name@,
                find(self@, name@) == find(self@.skip(idx as int), name@),
            decreases self.names@.len() - idx,
        {
            assert(self@.skip(idx as int).skip(1) =~= self@.skip(idx as int + 1));
            if self.names[idx] == key {
                return Some(self.values[idx]);
            }
            idx = idx + 1;
        }
        None
    }

    /// Binds a name that is not bound yet.
    pub fn insert(&mut self, name: &str, value: u32)
        requires
            old(self).wf(),
            find(old(self)@, name@) is None,
        ensures
            final(self).wf(),
            final(self)@ == old(self)@.push((name@, value)),
    {
        self.names.push(name.to_owned());
        self.values.push(value);
        assert(self@ =~= old(self)@.push((name@, value)));
    }
}

/// A function as the decoder delivers it.
#[derive(Debug)]
pub struct DecodedFunction {
    pub name: String,
    pub func_type: FunctionType,
    /// An imported function has no body of its own.
    pub is_imported: bool,
    /// The locals that the body declares beyond the parameters.
    pub locals: Vec<ValueType>,
    pub code: Vec<OpCode>,
}

/// A function that a module offers under a name.
#[derive(Debug)]
pub struct Export {
    pub field: String,
    /// Index into the functions of the module.
    pub func_idx: FuncIdx,
}

/// A validated module as the decoder delivers it: its functions, imported
/// ones first, and its function exports.
#[derive(Debug)]
pub struct DecodedModule {
    /// The function types that indirect calls name.
    pub types: Vec<FunctionType>,
    pub functions: Vec<DecodedFunction>,
    pub exports: Vec<Export>,
}

/// The functions that one loaded module owns in the function table of the
/// registry, and the names under which it offers some of them.
#[derive(Debug)]
pub struct ModuleInstance {
    name: String,
    funcs: Vec<FuncAddr>,
    exports: NameMap,
}

impl ModuleInstance {
    pub closed spec fn wf(&self) -> bool {
        self.exports.wf() && distinct(self.exports@)
    }

    pub closed spec fn name_view(&self) -> Seq<char> {
        self.name@
    }

    /// The address of each function of the module, by its index.
    pub closed spec fn funcs(&self) -> Seq<FuncAddr> {
        self.funcs@
    }

    /// The exported names, each bound to a function index.
    pub closed spec fn exports(&self) -> Seq<(Seq<char>, u32)> {
        self.exports@
    }

    /// The address that an exported name stands for.
    pub open spec fn resolve(&self, name: Seq<char>) -> Option<FuncAddr> {
        match find(self.exports(), name) {
            Some(idx) => if idx < self.funcs().len() {
                Some(self.funcs()[idx as int])
            } else {
                None
            },
            None => None,
        }
    }

    pub fn new(name: &str) -> (inst: ModuleInstance)
        ensures
            inst.wf(),
            inst.name_view() == name@,
            inst.funcs() == Seq::<FuncAddr>::empty(),
            inst.exports() == Seq::<(Seq<char>, u32)>::empty(),
    {
        ModuleInstance { name: name.to_owned(), funcs: Vec::new(), exports: NameMap::new() }
    }

    pub fn name(&self) -> (name: &str)
        ensures
            name@ == self.name_view(),
    {
        self.name.as_str()
    }

    /// Appends the address of the next function of the module.
    pub fn add_function(&mut self, addr: FuncAddr)
        requires
            old(self).wf(),
        ensures
            final(self).wf(),
            final(self).name_view() == old(self).name_view(),
            final(self).funcs() == old(self).funcs().push(addr),
            final(self).exports() == old(self).exports(),
    {
        self.funcs.push(addr);
    }

    /// Offers function `idx` under `name`. A name can be given once.
    pub fn add_export(&mut self, name: &str, idx: FuncIdx) -> (res: Result<(), Error>)
        requires
            old(self).wf(),
        ensures
            final(self).wf(),
            final(self).name_view() == old(self).name_view(),
            final(self).funcs() == old(self).funcs(),
            find(old(self).exports(), name@) is Some ==> res == Result::<(), Error>::Err(
                Error::FuncExists,
            ) && final(self).exports() == old(self).exports(),
            find(old(self).exports(), name@) is None ==> res == Result::<(), Error>::Ok(())
                && final(self).exports() == old(self).exports().push((name@, idx)),
    {
        if self.exports.get(name).is_some() {
            return Err(Error::FuncExists);
        }
        proof {
            lemma_find_push(self.exports@, name@, idx, name@);
        }
        self.exports.insert(name, idx);
        Ok(())
    }

    /// The address of the function that the module offers under `name`.
    pub fn find_function(&self, name: &str) -> (res: Result<FuncAddr, Error>)
        requires
            self.wf(),
        ensures
            res == match self.resolve(name@) {
                Some(addr) => Result::<FuncAddr, Error>::Ok(addr),
                None => Err(Error::FuncNotFound),
            },
    {
        match self.exports.get(name) {
            Some(idx) => if (idx as usize) < self.funcs.len() {
                Ok(self.funcs[idx as usize])
            } else {
                Err(Error::FuncNotFound)
            },
            None => Err(Error::FuncNotFound),
        }
    }
}

/// A named set of functions, each added under the name it is exported by.
#[derive(Debug)]
pub struct Module {
    name: String,
    funcs: Vec<Function>,
    exports: NameMap,
}

impl Module {
    pub closed spec fn wf(&self) -> bool {
        &&& self.exports.wf()
        &&& distinct(self.exports@)
        &&& self.funcs@.len() <= u32::MAX
    }

    pub closed spec fn name_view(&self) -> Seq<char> {
        self.name@
    }

    pub closed spec fn funcs(&self) -> Seq<Function> {
        self.funcs@
    }

    pub closed spec fn exports(&self) -> Seq<(Seq<char>, u32)> {
        self.exports@
    }

    pub fn new(name: &str) -> (m: Module)
        ensures
            m.wf(),
            m.name_view() == name@,
            m.funcs() == Seq::<Function>::empty(),
            m.exports() == Seq::<(Seq<char>, u32)>::empty(),
    {
        Module { name: name.to_owned(), funcs: Vec::new(), exports: NameMap::new() }
    }

    pub fn name(&self) -> (name: &str)
        ensures
            name@ == self.name_view(),
    {
        self.name.as_str()
    }

    /// Adds a function and exports it under `name`, and returns its index.
    /// A name can be given once, and the index must fit in 32 bits.
    pub fn add_function(&mut self, name: &str, function: Function) -> (res: Result<FuncIdx, Error>)
        requires
            old(self).wf(),
            old(self).funcs().len() < u32::MAX,
        ensures
            final(self).wf(),
            final(self).name_view() == old(self).name_view(),
            find(old(self).exports(), name@) is Some ==> res == Result::<FuncIdx, Error>::Err(
                Error::FuncExists,
            ) && final(self).funcs() == old(self).funcs() && final(self).exports() == old(
                self,
            ).exports(),
            find(old(self).exports(), name@) is None ==> res == Result::<FuncIdx, Error>::Ok(
                old(self).funcs().len() as u32,
            ) && final(self).funcs() == old(self).funcs().push(function) && final(self).exports()
                == old(self).exports().push((name@, old(self).funcs().len() as u32)),
    {
        if self.exports.get(name).is_some() {
            return Err(Error::FuncExists);
        }
        let idx = self.funcs.len() as FuncIdx;
        proof {
            lemma_find_push(self.exports@, name@, idx, name@);
        }
        self.funcs.push(function);
        self.exports.insert(name, idx);
        Ok(idx)
    }

    /// The function that was added under `name`.
    pub fn get_function(&self, name: &str) -> (res: Result<&Function, Error>)
        requires
            self.wf(),
        ensures
            match find(self.exports(), name@) {
                Some(idx) => if idx < self.funcs().len() {
                    res == Result::<&Function, Error>::Ok(&self.funcs()[idx as int])
                } else {
                    res == Result::<&Function, Error>::Err(Error::FuncNotFound)
                },
                None => res == Result::<&Function, Error>::Err(Error::FuncNotFound),
            },
    {
        match self.exports.get(name) {
            Some(idx) => if (idx as usize) < self.funcs.len() {
                Ok(&self.funcs[idx as usize])
            } else {
                Err(Error::FuncNotFound)
            },
            None => Err(Error::FuncNotFound),
        }
    }
}

} // verus!
