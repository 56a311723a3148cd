use std::sync::Arc;
use vstd::prelude::*;

use crate::compiler::{translated, valid, Compiler, DEFAULT_MAX_DEPTH};
use crate::error::{Error, Trap, TrapKind};
use crate::function::Function;
use crate::module::{
    distinct, find, lemma_find_push, lemma_find_some, DecodedModule, Export, ModuleInstance,
    NameMap,
};
use crate::semantics::{invoke, invoke_register};
use crate::stack::{cells_of, value_of, Stack, StackValue, StackView, DEFAULT_STACK_LIMIT};
use crate::value::{FuncAddr, ModuleInstanceAddr, RetValue, Value};

verus! {

/// How deep calls, blocks and operand expressions may nest in one call from
/// the host unless the store is made with another bound.
pub const DEFAULT_DEPTH_LIMIT: usize = 2048;

/// `Arc::clone`: hands out another pointer to the same allocation, so the
/// new pointer stands for the same registry.
#[verifier::external_body]
fn share_state(state: &Arc<State>) -> (res: Arc<State>)
    ensures
        res == *state,
{
    Arc::clone(state)
}

/// The names of the exports of a module, each bound to its function index.
pub open spec fn export_entries(exports: Seq<Export>) -> Seq<(Seq<char>, u32)> {
    Seq::new(exports.len(), |i: int| (exports[i].field@, exports[i].func_idx))
}

/// The addresses of `count` functions that follow one another from `base`.
pub open spec fn addresses(base: int, count: nat) -> Seq<FuncAddr> {
    Seq::new(count, |i: int| (base + i) as u32)
}

/// The registry: every compiled function, every loaded module, and the
/// names of the modules. It grows while modules are loaded and is only read
/// afterwards.
#[derive(Debug)]
pub struct State {
    funcs: Vec<Function>,
    module_instances: Vec<ModuleInstance>,
    modules: NameMap,
}

impl State {
    /// The function table: a function's address is its index.
    pub closed spec fn functions(&self) -> Seq<Function> {
        self.funcs@
    }

    /// The loaded modules: a module's address is its index.
    pub closed spec fn instances(&self) -> Seq<ModuleInstance> {
        self.module_instances@
    }

    /// The names of the loaded modules, each bound to a module address.
    pub closed spec fn names(&self) -> Seq<(Seq<char>, u32)> {
        self.modules@
    }

    pub closed spec fn wf(&self) -> bool {
        &&& self.modules.wf()
        &&& distinct(self.modules@)
        &&& self.funcs@.len() <= u32::MAX
        &&& self.module_instances@.len() <= u32::MAX
        &&& forall|i: int|
            0 <= i < self.module_instances@.len() ==> (#[trigger] self.module_instances@[i]).wf()
        &&& forall|i: int, k: int|
            0 <= i < self.module_instances@.len() && 0 <= k
                < self.module_instances@[i].funcs().len()
                ==> (#[trigger] self.module_instances@[i].funcs()[k]) < self.funcs@.len()
    }

    /// Every address that a loaded module offers is the address of a
    /// function of the table.
    pub proof fn lemma_exported_exists(&self, module: Seq<char>, name: Seq<char>)
        requires
            self.wf(),
        ensures
            self.exported(module, name) matches Ok(addr) ==> addr < self.functions().len(),
    {
        match find(self.names(), module) {
            Some(at) => {
                if at < self.instances().len() {
                    let inst = self.instances()[at as int];
                    match find(inst.exports(), name) {
                        Some(idx) => {
                            if idx < inst.funcs().len() {
                                assert(self.module_instances@[at as int].funcs()[idx as int]
                                    < self.funcs@.len());
                            }
                        },
                        None => {},
                    }
                }
            },
            None => {},
        }
    }

    /// The address of the function that a module offers under a name.
    pub open spec fn exported(&self, module: Seq<char>, name: Seq<char>) -> Result<FuncAddr, Error> {
        match find(self.names(), module) {
            Some(addr) => if addr < self.instances().len() {
                match self.instances()[addr as int].resolve(name) {
                    Some(func) => Ok(func),
                    None => Err(Error::FuncNotFound),
                }
            } else {
                Err(Error::ModuleNotFound)
            },
            None => Err(Error::ModuleNotFound),
        }
    }

    /// Whether the registry has room for the module and every function of
    /// the module can be translated.
    pub open spec fn accepts(&self, module: DecodedModule) -> bool {
        &&& self.instances().len() < u32::MAX
        &&& self.functions().len() + module.functions@.len() <= u32::MAX
        &&& valid(
            module,
            self.instances().len() as usize,
            self.functions().len() as u32,
            DEFAULT_MAX_DEPTH,
        )
    }

    /// How a load of `module` under `name` ends, and what it makes of the
    /// registry.
    ///
    /// It fails with `ModuleExists` if the name is taken, else with a
    /// validation error if the module is not accepted, else with
    /// `FuncExists` if two of its exports share a name, and a load that
    /// fails changes nothing. Otherwise it returns the address of the new
    /// module, whose functions follow the ones that the table held.
    pub open spec fn loaded(
        before: State,
        name: Seq<char>,
        module: DecodedModule,
        res: Result<ModuleInstanceAddr, Error>,
        after: State,
    ) -> bool {
        let taken = find(before.names(), name) is Some;
        let accepted = before.accepts(module);
        let unique = distinct(export_entries(module.exports@));
        let base = before.functions().len() as int;
        let addr = before.instances().len() as u32;
        let count = module.functions@.len();
        &&& taken ==> res == Result::<ModuleInstanceAddr, Error>::Err(Error::ModuleExists)
        &&& !taken && !accepted ==> res is Err && res->Err_0 is ValidationError
        &&& !taken && accepted && !unique ==> res == Result::<ModuleInstanceAddr, Error>::Err(
            Error::FuncExists,
        )
        &&& res is Err ==> after.functions() == before.functions() && after.instances()
            == before.instances() && after.names() == before.names()
        &&& !taken && accepted && unique ==> {
            &&& res == Result::<ModuleInstanceAddr, Error>::Ok(addr)
            &&& after.names() == before.names().push((name, addr))
            &&& after.instances().len() == addr + 1
            &&& after.instances().take(addr as int) == before.instances()
            &&& after.instances()[addr as int].name_view() == name
            &&& after.instances()[addr as int].funcs() == addresses(base, count)
            &&& after.instances()[addr as int].exports() == export_entries(module.exports@)
            &&& after.functions().len() == base + count
            &&& after.functions().take(base) == before.functions()
            &&& forall|i: int|
                0 <= i < count ==> Some((#[trigger] after.functions()[base + i])@) == translated(
                    module,
                    i,
                    addr as usize,
                    base as u32,
                    DEFAULT_MAX_DEPTH,
                )
        }
    }

    pub fn new() -> (s: State)
        ensures
            s.wf(),
            s.functions() == Seq::<Function>::empty(),
            s.instances() == Seq::<ModuleInstance>::empty(),
            s.names() == Seq::<(Seq<char>, u32)>::empty(),
    {
        State { funcs: Vec::new(), module_instances: Vec::new(), modules: NameMap::new() }
    }

    /// Loads a decoded module under `name`: translates its functions,
    /// appends them to the function table, and publishes its exports.
    ///
    /// Fails with `ModuleExists` if the name is taken, else with a validation
    /// error if the module is not accepted, else with `FuncExists` if two of
    /// its exports share a name. A load that fails changes nothing.
    pub fn load_module(&mut self, name: &str, module: &DecodedModule) -> (res: Result<
        ModuleInstanceAddr,
        Error,
    >)
        requires
            old(self).wf(),
        ensures
            final(self).wf(),
            State::loaded(*old(self), name@, *module, res, *final(self)),
    {
        if self.modules.get(name).is_some() {
            return Err(Error::ModuleExists);
        }
        let count = module.functions.len();
        if self.module_instances.len() >= u32::MAX as usize || count > u32::MAX as usize
            - self.funcs.len() {
            return Err(Error::ValidationError("registry is full".to_owned()));
        }
        let mod_addr = self.module_instances.len() as ModuleInstanceAddr;
        let base = self.funcs.len() as FuncAddr;
        let compiler = Compiler::new(module, mod_addr as usize, base);
        let mut funcs = compiler.compile()?;
        let mut mod_inst = self.compile_module(name, module, base)?;
        let ghost added = funcs@;
        self.funcs.append(&mut funcs);
        self.module_instances.push(mod_inst);
        proof {
            lemma_find_push(self.modules@, name@, mod_addr, name@);
        }
        self.modules.insert(name, mod_addr);
        proof {
            assert forall|i: int, k: int|
                0 <= i < self.module_instances@.len() && 0 <= k
                    < self.module_instances@[i].funcs().len() implies (
            #[trigger] self.module_instances@[i].funcs()[k]) < self.funcs@.len() by {
                if i < mod_addr {
                    assert(self.module_instances@[i] == old(self).module_instances@[i]);
                    assert(old(self).module_instances@[i].funcs()[k] < old(self).funcs@.len());
                }
            }
            assert(self.funcs@.take(base as int) =~= old(self).funcs@);
            assert(self.module_instances@.take(mod_addr as int) =~= old(self).module_instances@);
            assert forall|i: int| 0 <= i < count implies Some(
                (#[trigger] self.funcs@[base + i])@,
            ) == translated(*module, i, mod_addr as usize, base, DEFAULT_MAX_DEPTH) by {
                assert(self.funcs@[base + i] == added[i]);
            }
        }
        Ok(mod_addr)
    }

    /// The instance of a module whose functions get the addresses from
    /// `base` on. Fails with `FuncExists` if two exports share a name.
    fn compile_module(&self, name: &str, module: &DecodedModule, base: FuncAddr) -> (res: Result<
        ModuleInstance,
        Error,
    >)
        requires
            base + module.functions@.len() <= u32::MAX,
        ensures
            !distinct(export_entries(module.exports@)) ==> res == Result::<
                ModuleInstance,
                Error,
            >::Err(Error::FuncExists),
            distinct(export_entries(module.exports@)) ==> res is Ok && res->Ok_0.wf()
                && res->Ok_0.name_view() == name@ && res->Ok_0.funcs() == addresses(
                base as int,
                module.functions@.len(),
            ) && res->Ok_0.exports() == export_entries(module.exports@),
    {
        let mut mod_inst = ModuleInstance::new(name);
        let count = module.functions.len();
        let mut idx: usize = 0;
        while idx < count
            invariant
                idx <= count,
                count == module.functions@.len(),
                base + count <= u32::MAX,
                mod_inst.wf(),
                mod_inst.name_view() == name@,
                mod_inst.funcs() == addresses(base as int, idx as nat),
                mod_inst.exports() == Seq::<(Seq<char>, u32)>::empty(),
            decreases count - idx,
        {
            mod_inst.add_function(base + idx as u32);
            idx = idx + 1;
            assert(mod_inst.funcs() =~= addresses(base as int, idx as nat));
        }
        let ghost entries = export_entries(module.exports@);
        let mut at: usize = 0;
        assert(entries.take(0) =~= Seq::empty());
        while at < module.exports.len()
            invariant
                at <= module.exports@.len(),
                entries == export_entries(module.exports@),
                mod_inst.wf(),
                mod_inst.name_view() == name@,
                mod_inst.funcs() == addresses(base as int, module.functions@.len()),
                mod_inst.exports() == entries.take(at as int),
                distinct(entries.take(at as int)),
            decreases module.exports@.len() - at,
        {
            let export = &module.exports[at];
            let ghost before = entries.take(at as int);
            assert(entries.take(at as int + 1) =~= before.push(entries[at as int]));
            proof {
                if find(before, export.field@) is Some {
                    let same = lemma_find_some(before, export.field@);
                    assert(entries[same].0 == entries[at as int].0);
                } else {
                    lemma_find_push(before, export.field@, export.func_idx, export.field@);
                }
            }
            mod_inst.add_export(export.field.as_str(), export.func_idx)?;
            at = at + 1;
        }
        assert(entries.take(at as int) =~= entries);
        Ok(mod_inst)
    }

    pub fn get_function(&self, addr: FuncAddr) -> (res: Trap<&Function>)
        ensures
            res == if addr < self.functions().len() {
                Trap::<&Function>::Ok(&self.functions()[addr as int])
            } else {
                Err(TrapKind::InvalidFunctionAddr)
            },
    {
        if (addr as usize) < self.funcs.len() {
            Ok(&self.funcs[addr as usize])
        } else {
            Err(TrapKind::InvalidFunctionAddr)
        }
    }

    fn get_module_instance(&self, module: &str) -> (res: Result<&ModuleInstance, Error>)
        requires
            self.wf(),
        ensures
            match find(self.names(), module@) {
                Some(addr) => if addr < self.instances().len() {
                    res == Result::<&ModuleInstance, Error>::Ok(&self.instances()[addr as int])
                } else {
                    res == Result::<&ModuleInstance, Error>::Err(Error::ModuleNotFound)
                },
                None => res == Result::<&ModuleInstance, Error>::Err(Error::ModuleNotFound),
            },
    {
        match self.modules.get(module) {
            Some(addr) => if (addr as usize) < self.module_instances.len() {
                Ok(&self.module_instances[addr as usize])
            } else {
                Err(Error::ModuleNotFound)
            },
            None => Err(Error::ModuleNotFound),
        }
    }

    /// The address of the function that `module` offers under `name`.
    pub fn get_exported(&self, module: &str, name: &str) -> (res: Result<FuncAddr, Error>)
        requires
            self.wf(),
        ensures
            res == self.exported(module@, name@),
            res matches Ok(addr) ==> addr < self.functions().len(),
    {
        proof {
            self.lemma_exported_exists(module@, name@);
        }
        let mod_inst = self.get_module_instance(module)?;
        mod_inst.find_function(name)
    }
}

impl Default for State {
    fn default() -> (s: State)
        ensures
            s.wf(),
            s.functions() == Seq::<Function>::empty(),
            s.instances() == Seq::<ModuleInstance>::empty(),
            s.names() == Seq::<(Seq<char>, u32)>::empty(),
    {
        State::new()
    }
}

/// The value that a host call gives for what the function returned: the
/// cell read at the declared result type. A cell from a function that
/// declares no result is an unexpected signature.
pub open spec fn outcome_of(func: Function, ret: Trap<Option<StackValue>>) -> Result<
    RetValue,
    Error,
> {
    match ret {
        Err(trap) => Err(Error::RuntimeError(trap)),
        Ok(None) => Ok(None),
        Ok(Some(cell)) => match func.func_type.ret_type {
            Some(ret_type) => Ok(Some(value_of(cell, ret_type))),
            None => Err(Error::RuntimeError(TrapKind::UnexpectedSignature)),
        },
    }
}

/// What a call from the host returns: the function at `addr` is called
/// with the cells of `params` when `space` cells are free, and the cell it
/// returns is read at its declared result type.
pub open spec fn call_outcome(
    funcs: Seq<Function>,
    addr: FuncAddr,
    params: Seq<Value>,
    space: int,
    depth: nat,
) -> Result<RetValue, Error> {
    if addr >= funcs.len() {
        Err(Error::RuntimeError(TrapKind::InvalidFunctionAddr))
    } else if funcs[addr as int].params() != params.len() {
        Err(Error::RuntimeError(TrapKind::UnexpectedSignature))
    } else if space < params.len() {
        Err(Error::RuntimeError(TrapKind::StackOverflow))
    } else {
        outcome_of(
            funcs[addr as int],
            invoke(funcs, funcs[addr as int], cells_of(params), space - params.len(), depth),
        )
    }
}

/// Reads what a function returned at its declared result type.
fn read_result(func: &Function, ret: Trap<Option<StackValue>>) -> (res: Result<RetValue, Error>)
    ensures
        res == outcome_of(*func, ret),
{
    match ret {
        Err(trap) => Err(Error::RuntimeError(trap)),
        Ok(None) => Ok(None),
        Ok(Some(cell)) => match func.ret_type() {
            Some(ret_type) => Ok(Some(cell.to_value(ret_type))),
            None => Err(Error::RuntimeError(TrapKind::UnexpectedSignature)),
        },
    }
}

/// The data of one instance that changes while code runs: its operand stack
/// and its linear memory, beside the registry that it shares.
pub struct Store {
    /// The registry, which no store changes.
    pub state: Arc<State>,
    pub mem: Vec<u8>,
    pub stack: Stack,
    /// How deep calls, blocks and operand expressions may nest.
    pub depth_limit: usize,
}

impl Store {
    pub open spec fn state(&self) -> State {
        *self.state
    }

    pub open spec fn wf(&self) -> bool {
        self.stack.wf() && self.state().wf()
    }

    /// `after` is this store but for its stack.
    pub open spec fn same_but_stack(&self, after: &Store) -> bool {
        &&& after.mem@ == self.mem@
        &&& after.state() == self.state()
        &&& after.depth_limit == self.depth_limit
    }

    /// `after` is this store but for the locals of the running function:
    /// nothing outside its frame differs.
    pub open spec fn kept(&self, after: &Store) -> bool {
        &&& self.same_but_stack(after)
        &&& self.stack@.same_outside(after.stack@)
    }

    /// A store on the given registry with an empty stack of the default
    /// limits and an empty memory.
    pub fn new(state: Arc<State>) -> (s: Store)
        requires
            state.wf(),
        ensures
            s.wf(),
            s.state() == *state,
            s.mem@ == Seq::<u8>::empty(),
            s.stack@ == StackView::empty(DEFAULT_STACK_LIMIT as nat),
            s.depth_limit == DEFAULT_DEPTH_LIMIT,
    {
        Store { state, mem: Vec::new(), stack: Stack::new(), depth_limit: DEFAULT_DEPTH_LIMIT }
    }

    /// A store whose stack holds at most `stack_limit` cells and in which
    /// calls, blocks and operand expressions nest at most `depth_limit`
    /// deep.
    pub fn new_with_limits(state: Arc<State>, stack_limit: usize, depth_limit: usize) -> (s: Store)
        requires
            state.wf(),
        ensures
            s.wf(),
            s.state() == *state,
            s.mem@ == Seq::<u8>::empty(),
            s.stack@ == StackView::empty(stack_limit as nat),
            s.depth_limit == depth_limit,
    {
        Store { state, mem: Vec::new(), stack: Stack::new_with_limit(stack_limit), depth_limit }
    }

    pub fn get_exported(&self, module: &str, name: &str) -> (res: Result<FuncAddr, Error>)
        requires
            self.wf(),
        ensures
            res == self.state().exported(module@, name@),
            res matches Ok(addr) ==> addr < self.state().functions().len(),
    {
        self.state.get_exported(module, name)
    }

    /// Calls the function at `func_addr` with the topmost operands of the
    /// current frame as its arguments, the first of them taken from `l0`.
    pub fn invoke_function(&mut self, func_addr: FuncAddr, l0: &mut StackValue) -> (res: Trap<
        Option<StackValue>,
    >)
        requires
            old(self).wf(),
        ensures
            final(self).wf(),
            old(self).same_but_stack(final(self)),
            func_addr >= old(self).state().functions().len() ==> res == Trap::<
                Option<StackValue>,
            >::Err(TrapKind::InvalidFunctionAddr) && final(self).stack@ == old(self).stack@
                && *final(l0) == *old(l0),
            func_addr < old(self).state().functions().len() ==> {
                let func = old(self).state().functions()[func_addr as int];
                let stack = old(self).stack@;
                &&& stack.frame_size() < func.params() ==> res == Trap::<Option<StackValue>>::Err(
                    TrapKind::StackOverflow,
                ) && final(self).stack@ == stack && *final(l0) == *old(l0)
                &&& stack.frame_size() >= func.params() ==> final(self).stack@ == stack.truncate(
                    stack.len() - func.params(),
                ) && res == invoke(
                    old(self).state().functions(),
                    func,
                    stack.arguments(func.params() as int, *old(l0)),
                    stack.space(),
                    old(self).depth_limit as nat,
                ) && *final(l0) == invoke_register(
                    old(self).state().functions(),
                    func,
                    stack.arguments(func.params() as int, *old(l0)),
                    stack.space(),
                    old(self).depth_limit as nat,
                    *old(l0),
                )
            },
    {
        let state = share_state(&self.state);
        let func = state.get_function(func_addr)?;
        let depth = self.depth_limit;
        func.call(&state, self, l0, depth)
    }

    /// Calls the function at `func_addr` with the given values and reads
    /// the cell that it returns at its declared result type. The stack is
    /// left as it was, whatever the outcome.
    pub fn call(&mut self, func_addr: FuncAddr, params: &[Value]) -> (res: Result<RetValue, Error>)
        requires
            old(self).wf(),
        ensures
            final(self).wf(),
            old(self).same_but_stack(final(self)),
            final(self).stack@ == old(self).stack@,
            res == call_outcome(
                old(self).state().functions(),
                func_addr,
                params@,
                old(self).stack@.space(),
                old(self).depth_limit as nat,
            ),
    {
        let state = share_state(&self.state);
        let func = match state.get_function(func_addr) {
            Ok(func) => func,
            Err(trap) => {
                return Err(Error::RuntimeError(trap));
            },
        };
        if func.param_count() != params.len() {
            return Err(Error::RuntimeError(TrapKind::UnexpectedSignature));
        }
        let ghost before = self.stack@;
        let ghost funcs = state.functions();
        match self.stack.push_params(params) {
            Ok(_) => {},
            Err(trap) => {
                return Err(Error::RuntimeError(trap));
            },
        }
        let mut l0 = if params.len() > 0 {
            StackValue::from(params[0])
        } else {
            StackValue(0)
        };
        let ghost cells = cells_of(params@);
        let ghost pushed = self.stack@;
        proof {
            before.lemma_pushed(cells, l0);
            assert(pushed == before.with_cells(before.cells + cells));
            assert(pushed.len() - func.params() == before.cells.len());
        }
        let depth = self.depth_limit;
        let ret = func.call(&state, self, &mut l0, depth);
        assert(self.stack@ == before);
        assert(ret == invoke(
            funcs,
            *func,
            cells,
            before.space() - params@.len(),
            depth as nat,
        ));
        read_result(func, ret)
    }
}

/// One instance of the machine: a store of its own on a shared registry.
pub struct VMInstance {
    store: Store,
}

impl VMInstance {
    pub closed spec fn store(&self) -> Store {
        self.store
    }

    pub open spec fn wf(&self) -> bool {
        self.store().wf()
    }

    pub fn new(state: Arc<State>) -> (inst: VMInstance)
        requires
            state.wf(),
        ensures
            inst.wf(),
            inst.store().state() == *state,
            inst.store().mem@ == Seq::<u8>::empty(),
            inst.store().stack@ == StackView::empty(DEFAULT_STACK_LIMIT as nat),
            inst.store().depth_limit == DEFAULT_DEPTH_LIMIT,
    {
        VMInstance { store: Store::new(state) }
    }

    /// An instance with the given limits on its stack and on how deep calls,
    /// blocks and operand expressions nest.
    pub fn new_with_limits(state: Arc<State>, stack_limit: usize, depth_limit: usize) -> (inst:
        VMInstance)
        requires
            state.wf(),
        ensures
            inst.wf(),
            inst.store().state() == *state,
            inst.store().mem@ == Seq::<u8>::empty(),
            inst.store().stack@ == StackView::empty(stack_limit as nat),
            inst.store().depth_limit == depth_limit,
    {
        VMInstance { store: Store::new_with_limits(state, stack_limit, depth_limit) }
    }

    /// Calls the function that `module` offers under `name`. The stack of
    /// the instance is left as it was, whatever the outcome.
    pub fn call(&mut self, module: &str, name: &str, params: &[Value]) -> (res: Result<
        RetValue,
        Error,
    >)
        requires
            old(self).wf(),
        ensures
            final(self).wf(),
            old(self).store().same_but_stack(&final(self).store()),
            final(self).store().stack@ == old(self).store().stack@,
            res == match old(self).store().state().exported(module@, name@) {
                Err(error) => Err(error),
                Ok(func_addr) => call_outcome(
                    old(self).store().state().functions(),
                    func_addr,
                    params@,
                    old(self).store().stack@.space(),
                    old(self).store().depth_limit as nat,
                ),
            },
    {
        let func_addr = self.store.get_exported(module, name)?;
        self.store.call(func_addr, params)
    }
}

/// The machine while modules are loaded, and the handle that instances are
/// spawned from. The registry grows until the first instance is spawned;
/// from then on it is shared and can no longer change.
pub struct VM {
    building: Option<State>,
    shared: Option<Arc<State>>,
}

impl VM {
    /// The registry.
    pub closed spec fn state(&self) -> State {
        match self.shared {
            Some(state) => *state,
            None => self.building->Some_0,
        }
    }

    /// Whether the registry has been shared with an instance.
    pub closed spec fn is_shared(&self) -> bool {
        self.shared is Some
    }

    pub closed spec fn wf(&self) -> bool {
        &&& self.shared is Some <==> self.building is None
        &&& self.state().wf()
    }

    pub fn new() -> (vm: VM)
        ensures
            vm.wf(),
            !vm.is_shared(),
            vm.state().functions() == Seq::<Function>::empty(),
            vm.state().instances() == Seq::<ModuleInstance>::empty(),
            vm.state().names() == Seq::<(Seq<char>, u32)>::empty(),
    {
        VM { building: Some(State::new()), shared: None }
    }

    /// Loads a decoded module under `name`, as `State::load_module` does,
    /// unless the registry has been shared: then the load fails with
    /// `CannotModifyShared` and changes nothing.
    pub fn load_module(&mut self, name: &str, module: &DecodedModule) -> (res: Result<
        ModuleInstanceAddr,
        Error,
    >)
        requires
            old(self).wf(),
        ensures
            final(self).wf(),
            final(self).is_shared() == old(self).is_shared(),
            old(self).is_shared() ==> res == Result::<ModuleInstanceAddr, Error>::Err(
                Error::CannotModifyShared,
            ) && final(self).state() == old(self).state(),
            !old(self).is_shared() ==> State::loaded(
                old(self).state(),
                name@,
                *module,
                res,
                final(self).state(),
            ),
    {
        match self.building.take() {
            None => Err(Error::CannotModifyShared),
            Some(mut state) => {
                let res = state.load_module(name, module);
                self.building = Some(state);
                res
            },
        }
    }

    pub fn get_exported(&self, module: &str, name: &str) -> (res: Result<FuncAddr, Error>)
        requires
            self.wf(),
        ensures
            res == self.state().exported(module@, name@),
            res matches Ok(addr) ==> addr < self.state().functions().len(),
    {
        match &self.shared {
            Some(state) => state.get_exported(module, name),
            None => match &self.building {
                Some(state) => state.get_exported(module, name),
                None => Err(Error::ModuleNotFound),
            },
        }
    }

    /// A new instance on the registry, which is shared from now on.
    pub fn spawn(&mut self) -> (inst: VMInstance)
        requires
            old(self).wf(),
        ensures
            final(self).wf(),
            final(self).is_shared(),
            final(self).state() == old(self).state(),
            inst.wf(),
            inst.store().state() == old(self).state(),
            inst.store().mem@ == Seq::<u8>::empty(),
            inst.store().stack@ == StackView::empty(DEFAULT_STACK_LIMIT as nat),
            inst.store().depth_limit == DEFAULT_DEPTH_LIMIT,
    {
        let state = self.share();
        VMInstance::new(state)
    }

    /// A new instance with the given limits on the registry, which is
    /// shared from now on.
    pub fn spawn_with_limits(&mut self, stack_limit: usize, depth_limit: usize) -> (inst: VMInstance)
        requires
            old(self).wf(),
        ensures
            final(self).wf(),
            final(self).is_shared(),
            final(self).state() == old(self).state(),
            inst.wf(),
            inst.store().state() == old(self).state(),
            inst.store().mem@ == Seq::<u8>::empty(),
            inst.store().stack@ == StackView::empty(stack_limit as nat),
            inst.store().depth_limit == depth_limit,
    {
        let state = self.share();
        VMInstance::new_with_limits(state, stack_limit, depth_limit)
    }

    /// Another pointer to the registry, which is sealed if it was not.
    fn share(&mut self) -> (state: Arc<State>)
        requires
            old(self).wf(),
        ensures
            final(self).wf(),
            final(self).is_shared(),
            final(self).state() == old(self).state(),
            *state == old(self).state(),
    {
        match self.building.take() {
            Some(state) => {
                let shared = Arc::new(state);
                let handle = share_state(&shared);
                self.shared = Some(shared);
                handle
            },
            None => match &self.shared {
                Some(shared) => share_state(shared),
                None => {
                    let shared = Arc::new(State::new());
                    let handle = share_state(&shared);
                    self.shared = Some(shared);
                    handle
                },
            },
        }
    }
}

} // verus!
