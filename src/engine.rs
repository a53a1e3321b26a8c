//! The engine, its registered functions and modules, the state of one
//! evaluation, and function resolution with its cache.

use crate::ast::ScriptFnDef;
use crate::builtin::{binary_cell, has_binary_cell, op_of_symbol, parse_op, BuiltinFn};
use crate::dynamic::{Dynamic, TypeKind};
use crate::error::EvalError;
use std::collections::HashMap;
use vstd::prelude::*;

verus! {

broadcast use vstd::std_specs::hash::group_hash_axioms;

/// The highest index of `s` that holds `a`.
pub open spec fn last_index<A>(s: Seq<A>, a: A) -> Option<int>
    decreases s.len(),
{
    if s.len() == 0 {
        None
    } else if s.last() == a {
        Some(s.len() - 1)
    } else {
        last_index(s.drop_last(), a)
    }
}

pub proof fn lemma_last_index<A>(s: Seq<A>, a: A)
    ensures
        match last_index(s, a) {
            Some(i) => 0 <= i < s.len() && s[i] == a && forall|j: int| i < j < s.len() ==> s[j] != a,
            None => forall|j: int| 0 <= j < s.len() ==> s[j] != a,
        },
    decreases s.len(),
{
    if s.len() > 0 {
        let d = s.drop_last();
        lemma_last_index(d, a);
        assert forall|j: int| 0 <= j < d.len() implies d[j] == s[j] by {}
    }
}

/// Scanning down from `i`: the last index below `i` holding `a`, when there
/// is none at `i` or above.
proof fn lemma_last_index_step<A>(s: Seq<A>, a: A, i: int)
    requires
        0 < i <= s.len(),
    ensures
        last_index(s.subrange(0, i), a) == if s[i - 1] == a {
            Some(i - 1)
        } else {
            last_index(s.subrange(0, i - 1), a)
        },
{
    assert(s.subrange(0, i).drop_last() =~= s.subrange(0, i - 1));
}

/// A function written in Rust and registered with the engine.
///
/// Hosts implement this for their own functions.
pub trait PluginFunction {
    /// Call the function with the arguments provided.
    fn call(&self, args: &mut Vec<Dynamic>) -> Result<Dynamic, EvalError>;

    /// Is this function a method?
    fn is_method_call(&self) -> bool;
}

/// A variable resolver installed by the host: it sees every unqualified
/// variable reference before the scope is searched.
///
/// Hosts implement this for their own resolvers.
pub trait VariableResolver {
    /// Resolve `name`, with the parser's index hint (zero when there is
    /// none): a value, `None` to let the scope be searched, or an error.
    fn resolve(&self, name: &String, index: usize) -> Result<Option<Dynamic>, EvalError>;
}

/// The resolver of an engine that has none installed.
#[derive(Debug)]
pub struct NoResolver;

impl VariableResolver for NoResolver {
    fn resolve(&self, name: &String, index: usize) -> Result<Option<Dynamic>, EvalError> {
        Ok(None)
    }
}

/// A registered function: its name, the types of its parameters, and the
/// function itself.
#[derive(Debug)]
pub struct NativeEntry<F> {
    pub name: String,
    pub param_types: Vec<TypeKind>,
    pub func: F,
}

/// A module: named variables and registered functions.
#[derive(Debug)]
pub struct Module<F> {
    pub vars: Vec<(String, Dynamic)>,
    pub functions: Vec<NativeEntry<F>>,
}

/// The engine: its settings and what the host registered.
#[derive(Debug)]
pub struct Engine<F, R> {
    /// Are native operator calls sent to the built-in table first?
    pub fast_operators: bool,
    /// The ceiling on the operations of one evaluation.
    pub max_operations: u64,
    /// The limits on the data that array and object map literals build;
    /// zero means no limit.
    pub max_array_size: usize,
    pub max_map_size: usize,
    pub max_string_size: usize,
    /// Functions registered in the global namespace.
    pub functions: Vec<NativeEntry<F>>,
    /// Modules whose variables and functions are visible unqualified.
    pub global_modules: Vec<Module<F>>,
    /// Modules reachable by name in qualified references.
    pub global_sub_modules: Vec<(String, Module<F>)>,
    /// The variable resolver the host installed, if any.
    pub resolve_var: Option<R>,
    /// Custom syntax: the first token of each form with the host function
    /// that evaluates it from the values of its inputs.
    pub custom_syntax: Vec<(String, F)>,
}

/// The state of one evaluation.
#[derive(Debug)]
pub struct GlobalRuntimeState<F> {
    /// Operations counted so far.
    pub num_operations: u64,
    /// Search the scope by name at every variable reference, ignoring the
    /// parser's index hints.
    pub always_search_scope: bool,
    /// The import stack: module names with their modules.
    pub imports: Vec<(String, Module<F>)>,
    /// The constants reachable as `global::NAME`.
    pub constants: Vec<(String, Dynamic)>,
}

impl<F, R> Engine<F, R> {
    /// An engine with nothing registered: fast operators on, the widest
    /// operation ceiling, and no data-size limits.
    pub fn new() -> (r: Engine<F, R>)
        ensures
            r.fast_operators,
            r.max_operations == u64::MAX,
            r.max_array_size == 0 && r.max_map_size == 0 && r.max_string_size == 0,
            r.functions@.len() == 0,
            r.global_modules@.len() == 0,
            r.global_sub_modules@.len() == 0,
            r.resolve_var is None,
            r.custom_syntax@.len() == 0,
    {
        Engine {
            fast_operators: true,
            max_operations: u64::MAX,
            max_array_size: 0,
            max_map_size: 0,
            max_string_size: 0,
            functions: Vec::new(),
            global_modules: Vec::new(),
            global_sub_modules: Vec::new(),
            resolve_var: None,
            custom_syntax: Vec::new(),
        }
    }

    /// Register a function in the global namespace.
    pub fn register_fn(&mut self, name: String, param_types: Vec<TypeKind>, func: F)
        ensures
            final(self).functions@.len() == old(self).functions@.len() + 1,
            final(self).functions@.last().name@ == name@,
            final(self).functions@.last().param_types@ == param_types@,
            final(self).functions@.drop_last() == old(self).functions@,
            final(self).fast_operators == old(self).fast_operators,
            final(self).max_operations == old(self).max_operations,
            final(self).global_modules == old(self).global_modules,
            final(self).global_sub_modules == old(self).global_sub_modules,
    {
        self.functions.push(NativeEntry { name, param_types, func });
        proof {
            assert(self.functions@.drop_last() =~= old(self).functions@);
        }
    }

    /// Set the ceiling on the operations of one evaluation.
    pub fn set_max_operations(&mut self, max: u64)
        ensures
            final(self).max_operations == max,
            final(self).fast_operators == old(self).fast_operators,
            final(self).functions == old(self).functions,
    {
        self.max_operations = max;
    }

    /// Install a variable resolver.
    pub fn set_var_resolver(&mut self, resolver: R)
        ensures
            final(self).resolve_var == Some(resolver),
            final(self).functions == old(self).functions,
            final(self).fast_operators == old(self).fast_operators,
            final(self).max_operations == old(self).max_operations,
    {
        self.resolve_var = Some(resolver);
    }

    /// Register a custom syntax form by its first token.
    pub fn register_custom_syntax(&mut self, key: String, func: F)
        ensures
            final(self).custom_syntax@.len() == old(self).custom_syntax@.len() + 1,
            final(self).custom_syntax@.last().0@ == key@,
            final(self).custom_syntax@.drop_last() == old(self).custom_syntax@,
            final(self).functions == old(self).functions,
    {
        self.custom_syntax.push((key, func));
        proof {
            assert(self.custom_syntax@.drop_last() =~= old(self).custom_syntax@);
        }
    }

    /// Turn the fast-operator mode on or off.
    pub fn set_fast_operators(&mut self, on: bool)
        ensures
            final(self).fast_operators == on,
            final(self).max_operations == old(self).max_operations,
            final(self).functions == old(self).functions,
    {
        self.fast_operators = on;
    }
}

impl<F> GlobalRuntimeState<F> {
    /// The state at the start of an evaluation: no operations counted, no
    /// imports, no constants.
    pub fn new() -> (r: GlobalRuntimeState<F>)
        ensures
            r.num_operations == 0,
            !r.always_search_scope,
            r.imports@.len() == 0,
            r.constants@.len() == 0,
    {
        GlobalRuntimeState {
            num_operations: 0,
            always_search_scope: false,
            imports: Vec::new(),
            constants: Vec::new(),
        }
    }
}

/// What a call resolves to.
#[derive(Debug, Clone, Copy, PartialEq, Eq, Structural)]
pub enum Resolved {
    Builtin(BuiltinFn),
    /// A script function, by its index in the library.
    Script(usize),
    /// A function of the global namespace, by index.
    Native(usize),
    /// A function of a global module: module index, function index.
    ModuleNative(usize, usize),
    /// No function matches: the negative entry.
    NotFound,
}

/// The keys by which script functions are looked up: name and arity.
pub open spec fn script_keys(lib: Seq<ScriptFnDef>) -> Seq<(Seq<char>, nat)> {
    Seq::new(lib.len(), |i: int| (lib[i].name@, lib[i].params@.len()))
}

/// The keys by which registered functions are looked up: name and
/// parameter types.
pub open spec fn native_keys<F>(fns: Seq<NativeEntry<F>>) -> Seq<(Seq<char>, Seq<TypeKind>)> {
    Seq::new(fns.len(), |i: int| (fns[i].name@, fns[i].param_types@))
}

/// The names of named entries.
pub open spec fn entry_names<T>(s: Seq<(String, T)>) -> Seq<Seq<char>> {
    Seq::new(s.len(), |i: int| s[i].0@)
}

/// The first global module, from index `from` on, holding a function for
/// `key`, with the function's index there.
pub open spec fn first_module_native<F>(
    mods: Seq<Module<F>>,
    key: (Seq<char>, Seq<TypeKind>),
    from: int,
) -> Option<(int, int)>
    decreases mods.len() - from,
{
    if from < 0 || from >= mods.len() {
        None
    } else {
        match last_index(native_keys(mods[from].functions@), key) {
            Some(j) => Some((from, j)),
            None => first_module_native(mods, key, from + 1),
        }
    }
}

/// The built-in cell for a call with these argument types, if any.
pub open spec fn builtin_for(name: Seq<char>, types: Seq<TypeKind>) -> Option<BuiltinFn> {
    if types.len() == 2 {
        match op_of_symbol(name) {
            Some(o) => if binary_cell(o, types[0], types[1]) {
                Some(BuiltinFn { op: o, left: types[0], right: types[1] })
            } else {
                None
            },
            None => None,
        }
    } else {
        None
    }
}

/// Where a call of `name` with arguments of `types` goes. A native operator
/// call in fast-operator mode tries the built-in table first; otherwise the
/// script library, then the global namespace, then the global modules, and
/// for an operator the built-in table last.
pub open spec fn resolve_spec<F, R>(
    engine: &Engine<F, R>,
    lib: Seq<ScriptFnDef>,
    name: Seq<char>,
    types: Seq<TypeKind>,
    is_op: bool,
) -> Resolved {
    let builtin = builtin_for(name, types);
    if is_op && engine.fast_operators && builtin is Some {
        Resolved::Builtin(builtin->Some_0)
    } else {
        match last_index(script_keys(lib), (name, types.len())) {
            Some(i) => Resolved::Script(i as usize),
            None => match last_index(native_keys(engine.functions@), (name, types)) {
                Some(i) => Resolved::Native(i as usize),
                None => match first_module_native(engine.global_modules@, (name, types), 0) {
                    Some(p) => Resolved::ModuleNative(p.0 as usize, p.1 as usize),
                    None => if is_op && builtin is Some {
                        Resolved::Builtin(builtin->Some_0)
                    } else {
                        Resolved::NotFound
                    },
                },
            },
        }
    }
}

fn types_eq(a: &Vec<TypeKind>, b: &Vec<TypeKind>) -> (r: bool)
    ensures
        r == (a@ == b@),
{
    if a.len() != b.len() {
        return false;
    }
    let mut i: usize = 0;
    while i < a.len()
        invariant
            a@.len() == b@.len(),
            i <= a@.len(),
            forall|k: int| 0 <= k < i ==> a@[k] == b@[k],
        decreases a.len() - i,
    {
        if a[i] != b[i] {
            return false;
        }
        i = i + 1;
    }
    proof {
        assert(a@ =~= b@);
    }
    true
}

/// The last script function with this name and arity.
pub fn find_script_fn(lib: &Vec<ScriptFnDef>, name: &String, n: usize) -> (r: Option<usize>)
    ensures
        match last_index(script_keys(lib@), (name@, n as nat)) {
            Some(i) => r == Some(i as usize),
            None => r is None,
        },
{
    let ghost keys = script_keys(lib@);
    let ghost key = (name@, n as nat);
    let mut i = lib.len();
    proof {
        assert(keys.subrange(0, i as int) =~= keys);
    }
    while i > 0
        invariant
            i <= lib@.len(),
            keys == script_keys(lib@),
            key == (name@, n as nat),
            last_index(keys, key) == last_index(keys.subrange(0, i as int), key),
        decreases i,
    {
        proof {
            lemma_last_index_step(keys, key, i as int);
        }
        if lib[i - 1].name.eq(name) && lib[i - 1].params.len() == n {
            return Some(i - 1);
        }
        proof {
            assert(keys[i - 1] != key);
        }
        i = i - 1;
    }
    None
}

/// The last registered function with this name and these parameter types.
pub fn find_native_fn<F>(fns: &Vec<NativeEntry<F>>, name: &String, types: &Vec<TypeKind>) -> (r:
    Option<usize>)
    ensures
        match last_index(native_keys(fns@), (name@, types@)) {
            Some(i) => r == Some(i as usize),
            None => r is None,
        },
{
    let ghost keys = native_keys(fns@);
    let ghost key = (name@, types@);
    let mut i = fns.len();
    proof {
        assert(keys.subrange(0, i as int) =~= keys);
    }
    while i > 0
        invariant
            i <= fns@.len(),
            keys == native_keys(fns@),
            key == (name@, types@),
            last_index(keys, key) == last_index(keys.subrange(0, i as int), key),
        decreases i,
    {
        proof {
            lemma_last_index_step(keys, key, i as int);
        }
        if fns[i - 1].name.eq(name) && types_eq(&fns[i - 1].param_types, types) {
            return Some(i - 1);
        }
        proof {
            assert(keys[i - 1] != key);
        }
        i = i - 1;
    }
    None
}

/// The first global module with a function of this name and these
/// parameter types, and that function's index in it.
pub fn find_module_fn<F>(mods: &Vec<Module<F>>, name: &String, types: &Vec<TypeKind>) -> (r:
    Option<(usize, usize)>)
    ensures
        match first_module_native(mods@, (name@, types@), 0) {
            Some(p) => r == Some((p.0 as usize, p.1 as usize)),
            None => r is None,
        },
{
    let ghost key = (name@, types@);
    let mut i: usize = 0;
    while i < mods.len()
        invariant
            i <= mods@.len(),
            key == (name@, types@),
            first_module_native(mods@, key, 0) == first_module_native(mods@, key, i as int),
        decreases mods.len() - i,
    {
        match find_native_fn(&mods[i].functions, name, types) {
            Some(j) => {
                return Some((i, j));
            },
            None => {},
        }
        i = i + 1;
    }
    None
}

/// The built-in cell for a call with arguments of these types.
fn find_builtin(name: &String, types: &Vec<TypeKind>) -> (r: Option<BuiltinFn>)
    ensures
        r == builtin_for(name@, types@),
{
    if types.len() == 2 {
        match parse_op(name.as_str()) {
            Some(o) => if has_binary_cell(o, types[0], types[1]) {
                Some(BuiltinFn { op: o, left: types[0], right: types[1] })
            } else {
                None
            },
            None => None,
        }
    } else {
        None
    }
}

/// Resolve a call without the cache.
pub fn resolve_fn<F, R>(
    engine: &Engine<F, R>,
    lib: &Vec<ScriptFnDef>,
    name: &String,
    types: &Vec<TypeKind>,
    is_op: bool,
) -> (r: Resolved)
    ensures
        r == resolve_spec(engine, lib@, name@, types@, is_op),
{
    let builtin = find_builtin(name, types);
    if is_op && engine.fast_operators && builtin.is_some() {
        return Resolved::Builtin(builtin.unwrap());
    }
    match find_script_fn(lib, name, types.len()) {
        Some(i) => Resolved::Script(i),
        None => match find_native_fn(&engine.functions, name, types) {
            Some(i) => Resolved::Native(i),
            None => match find_module_fn(&engine.global_modules, name, types) {
                Some(p) => Resolved::ModuleNative(p.0, p.1),
                None => if is_op && builtin.is_some() {
                    Resolved::Builtin(builtin.unwrap())
                } else {
                    Resolved::NotFound
                },
            },
        },
    }
}

/// One entry of the resolution cache: the full call key and where it goes.
#[derive(Debug)]
pub struct CacheEntry {
    pub name: String,
    pub types: Vec<TypeKind>,
    pub is_op: bool,
    pub resolved: Resolved,
}

/// The function-resolution cache of one top-level evaluation, keyed by a
/// hash of the call site and the argument types.
#[derive(Debug)]
pub struct Caches {
    map: HashMap<u64, CacheEntry>,
}

/// A code for each type identity, mixed into the cache key.
pub open spec fn type_code_of(t: TypeKind) -> u64 {
    match t {
        TypeKind::Unit => 1,
        TypeKind::Bool => 2,
        TypeKind::Int => 3,
        TypeKind::Char => 4,
        TypeKind::Str => 5,
        TypeKind::Array => 6,
        TypeKind::Blob => 7,
        TypeKind::Object => 8,
        TypeKind::FnPtr => 9,
        TypeKind::Range => 10,
        TypeKind::RangeInclusive => 11,
        TypeKind::TimeStamp => 12,
        TypeKind::Decimal => 13,
        TypeKind::Variant(c) => c.wrapping_add(14),
    }
}

/// The cache key of a call: its call-site hash with the argument types mixed
/// in, left to right.
pub open spec fn call_key_of(hash: u64, types: Seq<TypeKind>) -> u64
    decreases types.len(),
{
    if types.len() == 0 {
        hash
    } else {
        call_key_of(hash, types.drop_last()).wrapping_mul(31).wrapping_add(
            type_code_of(types.last()),
        )
    }
}

fn type_code(t: TypeKind) -> (r: u64)
    ensures
        r == type_code_of(t),
{
    match t {
        TypeKind::Unit => 1,
        TypeKind::Bool => 2,
        TypeKind::Int => 3,
        TypeKind::Char => 4,
        TypeKind::Str => 5,
        TypeKind::Array => 6,
        TypeKind::Blob => 7,
        TypeKind::Object => 8,
        TypeKind::FnPtr => 9,
        TypeKind::Range => 10,
        TypeKind::RangeInclusive => 11,
        TypeKind::TimeStamp => 12,
        TypeKind::Decimal => 13,
        TypeKind::Variant(c) => c.wrapping_add(14),
    }
}

/// Combine a call-site hash with the argument types.
fn call_key(hash: u64, types: &Vec<TypeKind>) -> (r: u64)
    ensures
        r == call_key_of(hash, types@),
{
    let mut h = hash;
    let mut i: usize = 0;
    while i < types.len()
        invariant
            i <= types@.len(),
            h == call_key_of(hash, types@.subrange(0, i as int)),
        decreases types.len() - i,
    {
        proof {
            assert(types@.subrange(0, i + 1).drop_last() =~= types@.subrange(0, i as int));
        }
        h = h.wrapping_mul(31).wrapping_add(type_code(types[i]));
        i = i + 1;
    }
    proof {
        assert(types@.subrange(0, i as int) =~= types@);
    }
    h
}

impl Caches {
    /// Does every entry hold what resolution gives for its key?
    pub closed spec fn valid<F, R>(&self, engine: &Engine<F, R>, lib: Seq<ScriptFnDef>) -> bool {
        forall|k: u64|
            #![trigger self.map@[k]]
            self.map@.contains_key(k) ==> self.map@[k].resolved == resolve_spec(
                engine,
                lib,
                self.map@[k].name@,
                self.map@[k].types@,
                self.map@[k].is_op,
            )
    }

    /// An empty cache.
    pub fn new() -> (r: Caches)
        ensures
            r.is_empty(),
    {
        Caches { map: HashMap::new() }
    }

    /// Is the cache empty?
    pub closed spec fn is_empty(&self) -> bool {
        self.map@.dom() == Set::<u64>::empty()
    }

    /// An empty cache is valid for every engine and library.
    pub proof fn lemma_empty_valid<F, R>(&self, engine: &Engine<F, R>, lib: Seq<ScriptFnDef>)
        requires
            self.is_empty(),
        ensures
            self.valid(engine, lib),
    {
        assert forall|k: u64| self.map@.contains_key(k) implies false by {
            assert(self.map@.dom().contains(k));
        }
    }

    /// Does the cache hold an entry under `key`?
    pub closed spec fn has(&self, key: u64) -> bool {
        self.map@.contains_key(key)
    }

    /// The entry under `key`.
    pub closed spec fn entry(&self, key: u64) -> &CacheEntry {
        &self.map@[key]
    }

    /// Cache transparency: whatever a valid cache holds, warm or just
    /// cleared, is what resolution without a cache gives for the same call.
    pub proof fn lemma_cache_transparency<F, R>(&self, engine: &Engine<F, R>, lib: Seq<ScriptFnDef>, key: u64)
        requires
            self.valid(engine, lib),
            self.has(key),
        ensures
            self.entry(key).resolved == resolve_spec(
                engine,
                lib,
                self.entry(key).name@,
                self.entry(key).types@,
                self.entry(key).is_op,
            ),
    {
    }

    /// Does the entry under `key` hold this very call?
    pub closed spec fn hit(
        &self,
        key: u64,
        name: Seq<char>,
        types: Seq<TypeKind>,
        is_op: bool,
    ) -> bool {
        self.map@.contains_key(key) && self.map@[key].name@ == name && self.map@[key].types@
            == types && self.map@[key].is_op == is_op
    }

    /// Forget every entry.
    pub fn clear(&mut self)
        ensures
            final(self).is_empty(),
    {
        self.map = HashMap::new();
    }

    /// Resolve a call through the cache: a hit gives the stored entry, a
    /// miss resolves and stores the outcome, a failing one included.
    pub fn resolve<F, R>(
        &mut self,
        engine: &Engine<F, R>,
        lib: &Vec<ScriptFnDef>,
        name: &String,
        types: &Vec<TypeKind>,
        is_op: bool,
        hash: u64,
    ) -> (r: Resolved)
        requires
            old(self).valid(engine, lib@),
        ensures
            final(self).valid(engine, lib@),
            r == resolve_spec(engine, lib@, name@, types@, is_op),
            old(self).hit(call_key_of(hash, types@), name@, types@, is_op) ==> *final(self)
                == *old(self) && r == old(self).entry(call_key_of(hash, types@)).resolved,
            !old(self).hit(call_key_of(hash, types@), name@, types@, is_op) ==> {
                &&& final(self).hit(call_key_of(hash, types@), name@, types@, is_op)
                &&& final(self).entry(call_key_of(hash, types@)).resolved == r
                &&& forall|k: u64|
                    k != call_key_of(hash, types@) ==> (#[trigger] final(self).has(k) == old(
                        self,
                    ).has(k) && (old(self).has(k) ==> final(self).entry(k) == old(self).entry(k)))
            },
    {
        let key = call_key(hash, types);
        match self.map.get(&key) {
            Some(e) => {
                if e.name.eq(name) && types_eq(&e.types, types) && e.is_op == is_op {
                    return e.resolved;
                }
            },
            None => {},
        }
        let r = resolve_fn(engine, lib, name, types, is_op);
        let entry = CacheEntry {
            name: name.clone(),
            types: types.clone(),
            is_op,
            resolved: r,
        };
        proof {
            assert(entry.types@ == types@);
        }
        self.map.insert(key, entry);
        r
    }
}

} // verus!
