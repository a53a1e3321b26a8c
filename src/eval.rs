//! Evaluation of expressions, with the statement layer they need.

use crate::ast::{CustomExpr, Expr, FnCallExpr, Namespace, ScriptFnDef, Stmt, VarExpr};
use crate::builtin::get_builtin_op_assignment_fn;
use crate::dynamic::{
    lemma_vals_of, name_of_type, vals_of, AccessMode, Dynamic, TypeKind, Union, Val,
};
use crate::engine::{
    entry_names, last_index, lemma_last_index, Caches, Engine, GlobalRuntimeState, Module,
    PluginFunction, Resolved, VariableResolver,
};
use crate::error::{err_pos, with_pos, ErrVal, EvalError, Position};
use crate::scope::{last_index_of, Scope};
use crate::strings::chars_of;
use vstd::prelude::*;
use vstd::utf8::encode_utf8;

verus! {

/// A module found for a qualified name.
#[derive(Debug, Clone, Copy, PartialEq, Eq, Structural)]
pub enum ModuleRef {
    /// An entry of the import stack, by index.
    Import(usize),
    /// An engine-global sub-module, by index.
    SubModule(usize),
}

/// Where a variable reference leads.
#[derive(Debug)]
pub enum Target {
    /// A binding of the scope, by index.
    Scope(usize),
    /// A value from elsewhere.
    Value(Dynamic),
}

/// The mathematical content of a [`Target`].
pub enum TargetVal {
    Scope(int),
    Value(Val, AccessMode),
}

impl Target {
    pub open spec fn view(&self) -> TargetVal {
        match self {
            Target::Scope(i) => TargetVal::Scope(*i as int),
            Target::Value(d) => TargetVal::Value(d@, d.access),
        }
    }
}

/// `path` joined by `::`.
pub open spec fn join_path(path: Seq<Seq<char>>) -> Seq<char>
    decreases path.len(),
{
    if path.len() == 0 {
        Seq::empty()
    } else if path.len() == 1 {
        path[0]
    } else {
        join_path(path.drop_last()) + "::"@ + path.last()
    }
}

/// The names of a namespace's path.
pub open spec fn path_names(ns: &Namespace) -> Seq<Seq<char>> {
    Seq::new(ns.path@.len(), |i: int| ns.path@[i]@)
}

/// Does the library define a function of this name, of any arity?
pub open spec fn lib_has_fn(lib: Seq<ScriptFnDef>, name: Seq<char>) -> bool {
    exists|i: int| 0 <= i < lib.len() && #[trigger] lib[i].name@ == name
}

/// The first global module, from index `from` on, holding a variable of this
/// name, and its index there.
pub open spec fn first_module_var<F>(mods: Seq<Module<F>>, name: Seq<char>, from: int) -> Option<
    (int, int),
>
    decreases mods.len() - from,
{
    if from < 0 || from >= mods.len() {
        None
    } else {
        match last_index(entry_names(mods[from].vars@), name) {
            Some(j) => Some((from, j)),
            None => first_module_var(mods, name, from + 1),
        }
    }
}

/// The index of the last entry named `name`.
pub fn find_named<T>(v: &Vec<(String, T)>, name: &String) -> (r: Option<usize>)
    ensures
        match last_index(entry_names(v@), name@) {
            Some(i) => r == Some(i as usize),
            None => r is None,
        },
{
    let ghost keys = entry_names(v@);
    let mut i = v.len();
    proof {
        assert(keys.subrange(0, i as int) =~= keys);
    }
    while i > 0
        invariant
            i <= v@.len(),
            keys == entry_names(v@),
            last_index(keys, name@) == last_index(keys.subrange(0, i as int), name@),
        decreases i,
    {
        proof {
            assert(keys.subrange(0, i as int).drop_last() =~= keys.subrange(0, i - 1));
        }
        if v[i - 1].0.eq(name) {
            return Some(i - 1);
        }
        i = i - 1;
    }
    None
}

/// `path` joined by `::`.
pub fn join_namespace(ns: &Namespace) -> (r: String)
    ensures
        r@ == join_path(path_names(ns)),
{
    let ghost names = path_names(ns);
    let mut out = String::new();
    let mut i: usize = 0;
    while i < ns.path.len()
        invariant
            i <= ns.path@.len(),
            names == path_names(ns),
            out@ == join_path(names.subrange(0, i as int)),
        decreases ns.path.len() - i,
    {
        proof {
            assert(names.subrange(0, i + 1).drop_last() =~= names.subrange(0, i as int));
        }
        if i > 0 {
            out.append("::");
        }
        out.append(ns.path[i].as_str());
        i = i + 1;
    }
    proof {
        assert(names.subrange(0, i as int) =~= names);
    }
    out
}

/// Is `s` the word `w`?
fn is_word(s: &String, w: &str) -> (r: bool)
    ensures
        r == (s@ == w@),
{
    let t = String::from_str(w);
    s.eq(&t)
}

/// An outcome that a variable resolver's answer can give: a read-only
/// value, or an error that carries a position.
pub open spec fn resolver_answer(r: Result<Target, EvalError>) -> bool {
    match r {
        Ok(Target::Value(v)) => v.access == AccessMode::ReadOnly,
        Ok(Target::Scope(_)) => false,
        Err(_) => true,
    }
}

/// What the engine does with a variable resolver's answer: a value is used
/// read-only, `None` lets the search go on (`None` here), and an error gets
/// the variable's position where it carries none.
pub fn apply_resolution(answer: Result<Option<Dynamic>, EvalError>, pos: Position) -> (r: Option<
    Result<Target, EvalError>,
>)
    ensures
        match answer {
            Ok(Some(v)) => r is Some && r->Some_0 is Ok && r->Some_0->Ok_0 is Value
                && r->Some_0->Ok_0->Value_0@ == v@ && r->Some_0->Ok_0->Value_0.access
                == AccessMode::ReadOnly,
            Ok(None) => r is None,
            Err(e) => r is Some && r->Some_0 is Err && r->Some_0->Err_0@ == if err_pos(e@) == (
            Position { line: 0, col: 0 }) {
                with_pos(e@, pos)
            } else {
                e@
            },
        },
{
    match answer {
        Ok(Some(v)) => {
            let mut v = v;
            v.set_access_mode(AccessMode::ReadOnly);
            Some(Ok(Target::Value(v)))
        },
        Ok(None) => None,
        Err(e) => Some(Err(e.fill_position(pos))),
    }
}

impl<F: PluginFunction, R: VariableResolver> Engine<F, R> {
    /// Where `search_imports` finds the root module of a namespace.
    pub open spec fn search_imports_spec(&self, global: &GlobalRuntimeState<F>, ns: &Namespace) -> Option<
        ModuleRef,
    > {
        let n = global.imports@.len();
        let root = ns.path@[0]@;
        if !global.always_search_scope && ns.index is Some && 0 < ns.index->Some_0 <= n {
            Some(ModuleRef::Import((n - ns.index->Some_0) as usize))
        } else {
            match last_index(entry_names(global.imports@), root) {
                Some(i) => Some(ModuleRef::Import(i as usize)),
                None => match last_index(entry_names(self.global_sub_modules@), root) {
                    Some(j) => Some(ModuleRef::SubModule(j as usize)),
                    None => None,
                },
            }
        }
    }

    /// The module a reference names.
    pub open spec fn module_of(&self, global: &GlobalRuntimeState<F>, m: ModuleRef) -> Module<F> {
        match m {
            ModuleRef::Import(i) => global.imports@[i as int].1,
            ModuleRef::SubModule(j) => self.global_sub_modules@[j as int].1,
        }
    }

    /// Search for the root module of a namespace: the parser's index into
    /// the import stack when it holds and the scope is not always searched,
    /// else the last import of that name, else an engine-global sub-module.
    pub fn search_imports(&self, global: &GlobalRuntimeState<F>, namespace: &Namespace) -> (r:
        Option<ModuleRef>)
        requires
            namespace.path@.len() > 0,
        ensures
            r == self.search_imports_spec(global, namespace),
            r matches Some(ModuleRef::Import(i)) ==> i < global.imports@.len(),
            r matches Some(ModuleRef::SubModule(j)) ==> j < self.global_sub_modules@.len(),
    {
        let n = global.imports.len();
        if !global.always_search_scope {
            match namespace.index {
                Some(index) => {
                    if 0 < index && index <= n {
                        return Some(ModuleRef::Import(n - index));
                    }
                },
                None => {},
            }
        }
        let root = &namespace.path[0];
        proof {
            lemma_last_index(entry_names(global.imports@), root@);
            lemma_last_index(entry_names(self.global_sub_modules@), root@);
        }
        match find_named(&global.imports, root) {
            Some(i) => Some(ModuleRef::Import(i)),
            None => match find_named(&self.global_sub_modules, root) {
                Some(j) => Some(ModuleRef::SubModule(j)),
                None => None,
            },
        }
    }

    /// The first global module with a variable of this name.
    fn find_module_var(&self, name: &String) -> (r: Option<(usize, usize)>)
        ensures
            match first_module_var(self.global_modules@, name@, 0) {
                Some(p) => r == Some((p.0 as usize, p.1 as usize)),
                None => r is None,
            },
    {
        let mods = &self.global_modules;
        let mut i: usize = 0;
        while i < mods.len()
            invariant
                i <= mods@.len(),
                mods == &self.global_modules,
                first_module_var(mods@, name@, 0) == first_module_var(mods@, name@, i as int),
            decreases mods.len() - i,
        {
            match find_named(&mods[i].vars, name) {
                Some(j) => {
                    return Some((i, j));
                },
                None => {},
            }
            i = i + 1;
        }
        None
    }

    /// Where an unqualified variable reference leads.
    pub open spec fn search_scope_spec(
        &self,
        names: Seq<Seq<char>>,
        global: &GlobalRuntimeState<F>,
        lib: Seq<ScriptFnDef>,
        this_ptr: Option<(Val, AccessMode)>,
        var: &VarExpr,
    ) -> Result<TargetVal, ErrVal> {
        if var.index is None && var.name@ == "this"@ {
            match this_ptr {
                Some(t) => Ok(TargetVal::Value(t.0, t.1)),
                None => Err(ErrVal::UnboundThis(var.pos)),
            }
        } else if !global.always_search_scope && var.index is None && lib_has_fn(lib, var.name@) {
            Ok(TargetVal::Value(Val::FnPtr(var.name@), AccessMode::ReadWrite))
        } else {
            let hint: int = if global.always_search_scope {
                0
            } else {
                match var.index {
                    Some(i) => i as int,
                    None => 0,
                }
            };
            if 0 < hint <= names.len() {
                Ok(TargetVal::Scope(names.len() - hint))
            } else {
                match last_index_of(names, var.name@) {
                    Some(i) => Ok(TargetVal::Scope(i)),
                    None => match first_module_var(self.global_modules@, var.name@, 0) {
                        Some(p) => Ok(
                            TargetVal::Value(
                                self.global_modules@[p.0].vars@[p.1].1@,
                                self.global_modules@[p.0].vars@[p.1].1.access,
                            ),
                        ),
                        None => Err(ErrVal::VariableNotFound(var.name@, var.pos)),
                    },
                }
            }
        }
    }

    /// Does the library define a function of this name?
    fn lib_has_fn(lib: &Vec<ScriptFnDef>, name: &String) -> (r: bool)
        ensures
            r == lib_has_fn(lib@, name@),
    {
        let mut i: usize = 0;
        while i < lib.len()
            invariant
                i <= lib@.len(),
                forall|k: int| 0 <= k < i ==> lib@[k].name@ != name@,
            decreases lib.len() - i,
        {
            if lib[i].name.eq(name) {
                return true;
            }
            i = i + 1;
        }
        false
    }

    /// Search for an unqualified variable: the receiver for `this`, a
    /// function pointer for the name of a script function, the parser's
    /// index when it holds, else the last binding of the name, else a
    /// variable of a global module.
    pub fn search_scope_only(
        &self,
        scope: &Scope,
        global: &GlobalRuntimeState<F>,
        lib: &Vec<ScriptFnDef>,
        this_ptr: &Option<Dynamic>,
        var: &VarExpr,
    ) -> (r: Result<Target, EvalError>)
        requires
            scope.wf(),
        ensures
            match self.search_scope_spec(
                scope.names(),
                global,
                lib@,
                match this_ptr {
                    Some(d) => Some((d@, d.access)),
                    None => None,
                },
                var,
            ) {
                Ok(t) => r is Ok && r->Ok_0@ == t,
                Err(e) => r is Err && r->Err_0@ == e,
            } || (self.resolve_var is Some && resolver_answer(r)),
            r matches Ok(Target::Scope(i)) ==> i < scope.size(),
    {
        if var.index.is_none() && is_word(&var.name, "this") {
            return match this_ptr {
                Some(d) => Ok(Target::Value(d.clone_value())),
                None => Err(EvalError::UnboundThis(var.pos)),
            };
        }
        if !global.always_search_scope && var.index.is_none() && Self::lib_has_fn(lib, &var.name) {
            let f = Dynamic::from_union(Union::FnPtr(var.name.clone()));
            return Ok(Target::Value(f));
        }
        let hint: usize = if global.always_search_scope {
            0
        } else {
            match var.index {
                Some(i) => i,
                None => 0,
            }
        };
        match &self.resolve_var {
            Some(resolver) => {
                let answer = resolver.resolve(&var.name, hint);
                match apply_resolution(answer, var.pos) {
                    Some(t) => {
                        return t;
                    },
                    None => {},
                }
            },
            None => {},
        }
        let len = scope.len();
        if 0 < hint && hint <= len {
            return Ok(Target::Scope(len - hint));
        }
        proof {
            crate::scope::lemma_last_index_of(scope.names(), var.name@);
        }
        match scope.get_index(&var.name) {
            Some((i, _)) => Ok(Target::Scope(i)),
            None => match self.find_module_var(&var.name) {
                Some((m, j)) => {
                    proof {
                        lemma_module_var_bounds(self.global_modules@, var.name@, 0);
                        let p = first_module_var(self.global_modules@, var.name@, 0)->Some_0;
                        assert(self.global_modules.len() == self.global_modules@.len());
                        assert(self.global_modules@[p.0].vars.len()
                            == self.global_modules@[p.0].vars@.len());
                        assert(m == p.0 && j == p.1);
                    }
                    let d = self.global_modules[m].vars[j].1.clone_value();
                    Ok(Target::Value(d))
                },
                None => Err(EvalError::VariableNotFound(var.name.clone(), var.pos)),
            },
        }
    }
}

impl<F: PluginFunction, R: VariableResolver> Engine<F, R> {
    /// Where a variable reference leads, qualified or not.
    pub open spec fn search_namespace_spec(
        &self,
        names: Seq<Seq<char>>,
        global: &GlobalRuntimeState<F>,
        lib: Seq<ScriptFnDef>,
        this_ptr: Option<(Val, AccessMode)>,
        var: &VarExpr,
    ) -> Result<TargetVal, ErrVal> {
        let ns = &var.namespace;
        if ns.path@.len() == 0 {
            self.search_scope_spec(names, global, lib, this_ptr, var)
        } else {
            let qualified = join_path(path_names(ns)) + "::"@ + var.name@;
            match self.search_imports_spec(global, ns) {
                Some(m) => {
                    let vars = self.module_of(global, m).vars@;
                    match last_index(entry_names(vars), var.name@) {
                        Some(j) => Ok(TargetVal::Value(vars[j].1@, AccessMode::ReadOnly)),
                        None => Err(ErrVal::VariableNotFound(qualified, ns.pos)),
                    }
                },
                None => if ns.path@.len() == 1 && ns.path@[0]@ == "global"@ {
                    match last_index(entry_names(global.constants@), var.name@) {
                        Some(j) => Ok(
                            TargetVal::Value(global.constants@[j].1@, AccessMode::ReadOnly),
                        ),
                        None => Err(ErrVal::VariableNotFound(qualified, ns.pos)),
                    }
                } else {
                    Err(ErrVal::ModuleNotFound(join_path(path_names(ns)), ns.pos))
                },
            }
        }
    }

    /// Search for a variable in the scope, or in a module when the name is
    /// qualified. A variable found in a module is read-only.
    pub fn search_namespace(
        &self,
        scope: &Scope,
        global: &GlobalRuntimeState<F>,
        lib: &Vec<ScriptFnDef>,
        this_ptr: &Option<Dynamic>,
        var: &VarExpr,
    ) -> (r: Result<Target, EvalError>)
        requires
            scope.wf(),
        ensures
            match self.search_namespace_spec(
                scope.names(),
                global,
                lib@,
                match this_ptr {
                    Some(d) => Some((d@, d.access)),
                    None => None,
                },
                var,
            ) {
                Ok(t) => r is Ok && r->Ok_0@ == t,
                Err(e) => r is Err && r->Err_0@ == e,
            } || (self.resolve_var is Some && var.namespace.path@.len() == 0 && resolver_answer(r)),
            r matches Ok(Target::Scope(i)) ==> i < scope.size(),
    {
        let ns = &var.namespace;
        if ns.path.len() == 0 {
            return self.search_scope_only(scope, global, lib, this_ptr, var);
        }
        match self.search_imports(global, ns) {
            Some(m) => {
                let vars = match m {
                    ModuleRef::Import(i) => &global.imports[i].1.vars,
                    ModuleRef::SubModule(j) => &self.global_sub_modules[j].1.vars,
                };
                proof {
                    lemma_last_index(entry_names(vars@), var.name@);
                    assert(vars.len() == vars@.len());
                }
                match find_named(vars, &var.name) {
                    Some(j) => {
                        let mut v = vars[j].1.clone_value();
                        v.set_access_mode(AccessMode::ReadOnly);
                        Ok(Target::Value(v))
                    },
                    None => Err(EvalError::VariableNotFound(qualified_name(ns, &var.name), ns.pos)),
                }
            },
            None => {
                if ns.path.len() == 1 && is_word(&ns.path[0], "global") {
                    proof {
                        lemma_last_index(entry_names(global.constants@), var.name@);
                        assert(global.constants.len() == global.constants@.len());
                    }
                    match find_named(&global.constants, &var.name) {
                        Some(j) => {
                            let mut v = global.constants[j].1.clone_value();
                            v.set_access_mode(AccessMode::ReadOnly);
                            Ok(Target::Value(v))
                        },
                        None => Err(
                            EvalError::VariableNotFound(qualified_name(ns, &var.name), ns.pos),
                        ),
                    }
                } else {
                    Err(EvalError::ModuleNotFound(join_namespace(ns), ns.pos))
                }
            },
        }
    }
}

/// `ns::name`.
fn qualified_name(ns: &Namespace, name: &String) -> (r: String)
    ensures
        r@ == join_path(path_names(ns)) + "::"@ + name@,
{
    let mut s = join_namespace(ns);
    s.append("::");
    s.append(name.as_str());
    s
}

proof fn lemma_module_var_bounds<F>(mods: Seq<Module<F>>, name: Seq<char>, from: int)
    ensures
        first_module_var(mods, name, from) matches Some(p) ==> 0 <= p.0 < mods.len() && 0 <= p.1
            < mods[p.0].vars@.len(),
    decreases mods.len() - from,
{
    if 0 <= from < mods.len() {
        lemma_last_index(entry_names(mods[from].vars@), name);
        lemma_module_var_bounds(mods, name, from + 1);
    }
}

/// The signature shown when no function matches a call:
/// `name (type, type, ...)`.
pub open spec fn signature_of(name: Seq<char>, args: Seq<Val>) -> Seq<char> {
    name + " ("@ + type_list(args) + ")"@
}

/// The type names of `args`, separated by `, `.
pub open spec fn type_list(args: Seq<Val>) -> Seq<char>
    decreases args.len(),
{
    if args.len() == 0 {
        Seq::empty()
    } else if args.len() == 1 {
        name_of_type(args[0])
    } else {
        type_list(args.drop_last()) + ", "@ + name_of_type(args.last())
    }
}

/// The signature of a call of `name` with `args`.
pub fn fn_signature(name: &String, args: &Vec<Dynamic>) -> (r: String)
    ensures
        r@ == signature_of(name@, vals_of(args@)),
{
    let ghost vals = vals_of(args@);
    proof {
        lemma_vals_of(args@);
    }
    let mut list = String::new();
    let mut i: usize = 0;
    while i < args.len()
        invariant
            i <= args@.len(),
            vals == vals_of(args@),
            vals.len() == args@.len(),
            forall|k: int| 0 <= k < args@.len() ==> #[trigger] vals[k] == args@[k]@,
            list@ == type_list(vals.subrange(0, i as int)),
        decreases args.len() - i,
    {
        proof {
            assert(vals.subrange(0, i + 1).drop_last() =~= vals.subrange(0, i as int));
        }
        if i > 0 {
            list.append(", ");
        }
        let t = args[i].name_of_type_str();
        list.append(t.as_str());
        i = i + 1;
    }
    proof {
        assert(vals.subrange(0, i as int) =~= vals);
    }
    let mut s = name.clone();
    s.append(" (");
    s.append(list.as_str());
    s.append(")");
    s
}

/// The types of a list of values.
fn types_of(args: &Vec<Dynamic>) -> (r: Vec<TypeKind>)
    ensures
        r@.len() == args@.len(),
        forall|k: int| 0 <= k < args@.len() ==> r@[k] == crate::dynamic::type_of(#[trigger] args@[k]@),
{
    let mut r: Vec<TypeKind> = Vec::new();
    let mut i: usize = 0;
    while i < args.len()
        invariant
            i <= args@.len(),
            r@.len() == i,
            forall|k: int| 0 <= k < i ==> r@[k] == crate::dynamic::type_of(#[trigger] args@[k]@),
        decreases args.len() - i,
    {
        r.push(args[i].type_id());
        i = i + 1;
    }
    r
}

/// The name of an op-assignment symbol without its `=`.
fn base_op_name(op: &String) -> (r: String)
    ensures
        op@.len() > 0 ==> r@ == op@.drop_last(),
{
    let c = chars_of(op.as_str());
    let mut s = String::new();
    if c.len() == 0 {
        return s;
    }
    let n = c.len() - 1;
    let mut i: usize = 0;
    while i < n
        invariant
            n == c@.len() - 1,
            i <= n,
            s@ == c@.subrange(0, i as int),
        decreases n - i,
    {
        crate::strings::push_char(&mut s, c[i]);
        i = i + 1;
        proof {
            assert(s@ =~= c@.subrange(0, i as int));
        }
    }
    proof {
        assert(s@ =~= op@.drop_last());
    }
    s
}

/// The error a call of a script function with this body reports when the
/// body fails with `e`.
fn script_error_exec(body: &Vec<Stmt>, e: EvalError, sig: String, pos: Position) -> (r: EvalError)
    ensures
        r@ == match single_expr(body@) {
            Some(b) => script_error(b, e@, sig@, pos),
            None => e@,
        },
{
    if body.len() != 1 {
        return e;
    }
    match &body[0] {
        Stmt::Expr(Expr::FnCall(c)) => {
            if c.is_native_operator {
                match e {
                    EvalError::FunctionNotFound(s, p) => if p == c.pos {
                        EvalError::FunctionNotFound(sig, pos)
                    } else {
                        EvalError::FunctionNotFound(s, p)
                    },
                    other => other,
                }
            } else {
                e
            }
        },
        _ => e,
    }
}

/// The boolean an operand of `&&` or `||` holds; any other value is a
/// `TypeMismatch` naming its type, at the operand's position.
pub fn bool_operand(v: &Dynamic, pos: Position) -> (r: Result<bool, EvalError>)
    ensures
        match v@ {
            Val::Bool(b) => r is Ok && r->Ok_0 == b,
            _ => r is Err && r->Err_0@ == not_bool(v@, pos),
        },
{
    match v.as_bool() {
        Ok(b) => Ok(b),
        Err(t) => Err(EvalError::TypeMismatch(String::from_str("bool"), t, pos)),
    }
}

/// The token that names a custom syntax form; empty where it has none.
pub open spec fn custom_key(c: &CustomExpr) -> Seq<char> {
    if c.tokens@.len() > 0 {
        c.tokens@[0]@
    } else {
        Seq::empty()
    }
}

/// The literal value of a constant expression.
pub open spec fn constant_value(expr: &Expr) -> Option<Val> {
    match expr {
        Expr::DynamicConstant(d, _) => Some(d@),
        Expr::IntegerConstant(i, _) => Some(Val::Int(*i)),
        Expr::StringConstant(s, _) => Some(Val::Str(s@)),
        Expr::CharConstant(c, _) => Some(Val::Char(*c)),
        Expr::BoolConstant(b, _) => Some(Val::Bool(*b)),
        Expr::Unit(_) => Some(Val::Unit),
        _ => None,
    }
}

/// A data-size limit that is set and exceeded.
pub open spec fn over_limit(limit: usize, size: usize) -> bool {
    limit > 0 && size > limit
}

impl<F: PluginFunction, R: VariableResolver> Engine<F, R> {
    /// The operation counter moved forward, and stayed under the ceiling if
    /// it started there.
    pub open spec fn counted(&self, before: &GlobalRuntimeState<F>, after: &GlobalRuntimeState<F>) -> bool {
        &&& before.num_operations <= after.num_operations
        &&& before.num_operations <= self.max_operations ==> after.num_operations
            <= self.max_operations
        &&& after.always_search_scope == before.always_search_scope
        &&& after.imports == before.imports
        &&& after.constants == before.constants
    }

    /// Count one operation, or fail with `TooManyOperations` at the ceiling.
    pub fn inc_operations(&self, global: &mut GlobalRuntimeState<F>, pos: Position) -> (r: Result<
        (),
        EvalError,
    >)
        ensures
            final(global).always_search_scope == old(global).always_search_scope,
            final(global).imports == old(global).imports,
            final(global).constants == old(global).constants,
            old(global).num_operations < self.max_operations ==> r is Ok
                && final(global).num_operations == old(global).num_operations + 1,
            old(global).num_operations >= self.max_operations ==> r is Err && r->Err_0@
                == ErrVal::TooManyOperations(pos) && final(global).num_operations == old(
                global,
            ).num_operations,
    {
        if global.num_operations >= self.max_operations {
            Err(EvalError::TooManyOperations(pos))
        } else {
            global.num_operations = global.num_operations + 1;
            Ok(())
        }
    }

    /// Raise `DataTooLarge` where a data-size limit is exceeded.
    fn check_data_size(&self, sizes: (usize, usize, usize), pos: Position) -> (r: Result<
        (),
        EvalError,
    >)
        ensures
            r is Err == (over_limit(self.max_array_size, sizes.0) || over_limit(
                self.max_map_size,
                sizes.1,
            ) || over_limit(self.max_string_size, sizes.2)),
            r is Err ==> r->Err_0@ == ErrVal::DataTooLarge(pos),
    {
        if (self.max_array_size > 0 && sizes.0 > self.max_array_size) || (self.max_map_size > 0
            && sizes.1 > self.max_map_size) || (self.max_string_size > 0 && sizes.2
            > self.max_string_size) {
            Err(EvalError::DataTooLarge(pos))
        } else {
            Ok(())
        }
    }

    /// A value handed back by the host, checked against the data-size
    /// limits.
    fn check_result(&self, v: Dynamic, pos: Position) -> (r: Result<Dynamic, EvalError>)
        ensures
            match r {
                Ok(w) => w@ == v@ && !(over_limit(self.max_array_size, val_sizes(v@).0) || over_limit(
                    self.max_map_size,
                    val_sizes(v@).1,
                ) || over_limit(self.max_string_size, val_sizes(v@).2)),
                Err(e) => e@ == ErrVal::DataTooLarge(pos),
            },
    {
        let sizes = data_sizes(&v);
        match self.check_data_size(sizes, pos) {
            Ok(()) => Ok(v),
            Err(e) => Err(e),
        }
    }
}

/// Component-wise saturating sum of data sizes.
pub open spec fn sat3(a: (usize, usize, usize), b: (usize, usize, usize)) -> (usize, usize, usize) {
    (a.0.saturating_add(b.0), a.1.saturating_add(b.1), a.2.saturating_add(b.2))
}

/// The data a value holds, as (array elements and blob bytes, object map
/// entries, string bytes), counted through nested containers, saturating.
pub open spec fn val_sizes(v: Val) -> (usize, usize, usize)
    decreases v,
{
    match v {
        Val::Str(s) => (0, 0, encode_utf8(s).len() as usize),
        Val::Blob(b) => (b.len() as usize, 0, 0),
        Val::Array(a) => fold_sizes((a.len() as usize, 0, 0), a),
        Val::Object(m) => fold_entry_sizes((0, m.len() as usize, 0), m),
        _ => (0, 0, 0),
    }
}

/// `acc` with the sizes of the values of `a` added in order.
pub open spec fn fold_sizes(acc: (usize, usize, usize), a: Seq<Val>) -> (usize, usize, usize)
    decreases a,
{
    if a.len() == 0 {
        acc
    } else {
        sat3(fold_sizes(acc, a.drop_last()), val_sizes(a.last()))
    }
}

/// `acc` with the sizes of the values of the entries `m` added in order.
pub open spec fn fold_entry_sizes(acc: (usize, usize, usize), m: Seq<(Seq<char>, Val)>) -> (
    usize,
    usize,
    usize,
)
    decreases m,
{
    if m.len() == 0 {
        acc
    } else {
        sat3(fold_entry_sizes(acc, m.drop_last()), val_sizes(m.last().1))
    }
}

/// The data a value holds: array elements and blob bytes, object map
/// entries, string bytes; counted through nested containers, saturating.
fn data_sizes(v: &Dynamic) -> (r: (usize, usize, usize))
    ensures
        r == val_sizes(v@),
    decreases v,
{
    match &v.value {
        Union::Str(s) => (0, 0, s.as_str().len()),
        Union::Blob(b) => (b.len(), 0, 0),
        Union::Array(a) => {
            let ghost vs = vals_of(a@);
            proof {
                lemma_vals_of(a@);
            }
            let mut acc: (usize, usize, usize) = (a.len(), 0, 0);
            let mut i: usize = 0;
            while i < a.len()
                invariant
                    v.value == Union::Array(*a),
                    vs == vals_of(a@),
                    vs.len() == a@.len(),
                    forall|k: int| 0 <= k < a@.len() ==> #[trigger] vs[k] == a@[k]@,
                    i <= a@.len(),
                    acc == fold_sizes((a@.len() as usize, 0, 0), vs.subrange(0, i as int)),
                decreases a.len() - i,
            {
                proof {
                    vstd::std_specs::vec::axiom_vec_index_decreases(*a, i as int);
                    assert(decreases_to!(*v => v.value));
                    assert(decreases_to!(v.value => v.value->Array_0));
                    assert(decreases_to!(*a => a[i as int]));
                    assert(vs.subrange(0, i + 1).drop_last() =~= vs.subrange(0, i as int));
                    assert(vs.subrange(0, i + 1).last() == vs[i as int]);
                }
                let s = data_sizes(&a[i]);
                acc = (acc.0.saturating_add(s.0), acc.1.saturating_add(s.1), acc.2.saturating_add(s.2));
                i = i + 1;
            }
            proof {
                assert(vs.subrange(0, i as int) =~= vs);
            }
            acc
        },
        Union::Object(m) => {
            let ghost es = crate::dynamic::entries_of(m@);
            proof {
                crate::dynamic::lemma_entries_of(m@);
            }
            let mut acc: (usize, usize, usize) = (0, m.len(), 0);
            let mut i: usize = 0;
            while i < m.len()
                invariant
                    v.value == Union::Object(*m),
                    es == crate::dynamic::entries_of(m@),
                    es.len() == m@.len(),
                    forall|k: int|
                        0 <= k < m@.len() ==> #[trigger] es[k] == (m@[k].0@, m@[k].1@),
                    i <= m@.len(),
                    acc == fold_entry_sizes((0, m@.len() as usize, 0), es.subrange(0, i as int)),
                decreases m.len() - i,
            {
                proof {
                    vstd::std_specs::vec::axiom_vec_index_decreases(*m, i as int);
                    assert(decreases_to!(*v => v.value));
                    assert(decreases_to!(v.value => v.value->Object_0));
                    assert(decreases_to!(*m => m[i as int]));
                    assert(decreases_to!(m[i as int] => m[i as int].1));
                    assert(es.subrange(0, i + 1).drop_last() =~= es.subrange(0, i as int));
                    assert(es.subrange(0, i + 1).last() == es[i as int]);
                }
                let s = data_sizes(&m[i].1);
                acc = (acc.0.saturating_add(s.0), acc.1.saturating_add(s.1), acc.2.saturating_add(s.2));
                i = i + 1;
            }
            proof {
                assert(es.subrange(0, i as int) =~= es);
            }
            acc
        },
        _ => (0, 0, 0),
    }
}

/// The receiver, as a value and its access mode.
pub open spec fn this_view(this_ptr: &Option<Dynamic>) -> Option<(Val, AccessMode)> {
    match this_ptr {
        Some(d) => Some((d@, d.access)),
        None => None,
    }
}

/// The position of a statement.
pub open spec fn stmt_pos(stmt: &Stmt) -> Position {
    match stmt {
        Stmt::Noop => Position { line: 0, col: 0 },
        Stmt::Expr(e) => e.pos(),
        Stmt::Let(_, _, _, p) => *p,
        Stmt::Assign(_, _, p) => *p,
        Stmt::OpAssign(_, _, _, p) => *p,
        Stmt::If(_, _, _, p) => *p,
        Stmt::While(_, _, p) => *p,
        Stmt::For(_, _, _, p) => *p,
    }
}

fn stmt_position(stmt: &Stmt) -> (r: Position)
    ensures
        r == stmt_pos(stmt),
{
    match stmt {
        Stmt::Noop => Position::none(),
        Stmt::Expr(e) => e.position(),
        Stmt::Let(_, _, _, p) => *p,
        Stmt::Assign(_, _, p) => *p,
        Stmt::OpAssign(_, _, _, p) => *p,
        Stmt::If(_, _, _, p) => *p,
        Stmt::While(_, _, p) => *p,
        Stmt::For(_, _, _, p) => *p,
    }
}

/// What resolution tells of where a call goes, for arguments of `args`.
pub open spec fn fits<F, R>(engine: &Engine<F, R>, lib: Seq<ScriptFnDef>, resolved: Resolved, args: Seq<Dynamic>) -> bool {
    match resolved {
        Resolved::Builtin(f) => args.len() == 2 && f.wf() && crate::dynamic::type_of(args[0]@)
            == f.left && crate::dynamic::type_of(args[1]@) == f.right,
        Resolved::Script(i) => i < lib.len() && lib[i as int].params@.len() == args.len(),
        Resolved::Native(i) => i < engine.functions@.len(),
        Resolved::ModuleNative(m, j) => m < engine.global_modules@.len() && j
            < engine.global_modules@[m as int].functions@.len(),
        Resolved::NotFound => true,
    }
}

proof fn lemma_module_native_bounds<F>(
    mods: Seq<Module<F>>,
    key: (Seq<char>, Seq<TypeKind>),
    from: int,
)
    ensures
        crate::engine::first_module_native(mods, key, from) matches Some(p) ==> 0 <= p.0
            < mods.len() && 0 <= p.1 < mods[p.0].functions@.len(),
    decreases mods.len() - from,
{
    if 0 <= from < mods.len() {
        lemma_last_index(crate::engine::native_keys(mods[from].functions@), key);
        lemma_module_native_bounds(mods, key, from + 1);
    }
}

/// Resolution gives a function that fits the arguments it was asked for.
proof fn lemma_resolve_fits<F, R>(
    engine: &Engine<F, R>,
    lib: &Vec<ScriptFnDef>,
    name: Seq<char>,
    types: Seq<TypeKind>,
    is_op: bool,
    args: Seq<Dynamic>,
)
    requires
        types.len() == args.len(),
        forall|k: int| 0 <= k < args.len() ==> types[k] == crate::dynamic::type_of(#[trigger] args[k]@),
    ensures
        fits(engine, lib@, crate::engine::resolve_spec(engine, lib@, name, types, is_op), args),
{
    lemma_last_index(crate::engine::script_keys(lib@), (name, types.len()));
    lemma_last_index(crate::engine::native_keys(engine.functions@), (name, types));
    lemma_module_native_bounds(engine.global_modules@, (name, types), 0);
    assert(lib.len() == lib@.len());
    assert(engine.functions.len() == engine.functions@.len());
    assert(engine.global_modules.len() == engine.global_modules@.len());
    match crate::engine::first_module_native(engine.global_modules@, (name, types), 0) {
        Some(p) => {
            assert(engine.global_modules@[p.0].functions.len()
                == engine.global_modules@[p.0].functions@.len());
        },
        None => {},
    }
}

/// The number of expression nodes in `expr`: a bound on the operations
/// its evaluation counts when no function body or statement runs.
pub open spec fn expr_size(expr: &Expr) -> nat
    decreases expr,
{
    match expr {
        Expr::And(l, r, _) => 1 + expr_size(l) + expr_size(r),
        Expr::Or(l, r, _) => 1 + expr_size(l) + expr_size(r),
        Expr::Coalesce(l, r, _) => 1 + expr_size(l) + expr_size(r),
        Expr::FnCall(c) => 1 + args_size(c.args@),
        Expr::Array(items, _) => 1 + args_size(items@),
        Expr::InterpolatedString(parts, _) => 1 + args_size(parts@),
        Expr::Object(entries, _) => 1 + entries_size(entries@),
        _ => 1,
    }
}

/// The number of expression nodes in the values of an object map literal.
pub open spec fn entries_size(s: Seq<(String, Expr)>) -> nat
    decreases s,
{
    if s.len() == 0 {
        0
    } else {
        entries_size(s.drop_last()) + expr_size(&s.last().1)
    }
}

proof fn lemma_entries_size_prefix(s: Seq<(String, Expr)>, j: int)
    requires
        0 <= j <= s.len(),
    ensures
        entries_size(s.subrange(0, j)) <= entries_size(s),
    decreases s.len() - j,
{
    if j < s.len() {
        lemma_entries_size_prefix(s, j + 1);
        assert(s.subrange(0, j + 1).drop_last() =~= s.subrange(0, j));
    } else {
        assert(s.subrange(0, j) =~= s);
    }
}

/// The number of expression nodes in a list of expressions.
pub open spec fn args_size(s: Seq<Expr>) -> nat
    decreases s,
{
    if s.len() == 0 {
        0
    } else {
        args_size(s.drop_last()) + expr_size(&s.last())
    }
}

/// The type identities of a list of values.
pub open spec fn types_of_vals(vs: Seq<Val>) -> Seq<TypeKind> {
    Seq::new(vs.len(), |i: int| crate::dynamic::type_of(vs[i]))
}

proof fn lemma_args_size_prefix(s: Seq<Expr>, j: int)
    requires
        0 <= j <= s.len(),
    ensures
        args_size(s.subrange(0, j)) <= args_size(s),
    decreases s.len() - j,
{
    if j < s.len() {
        lemma_args_size_prefix(s, j + 1);
        assert(s.subrange(0, j + 1).drop_last() =~= s.subrange(0, j));
    } else {
        assert(s.subrange(0, j) =~= s);
    }
}

/// The part of an evaluation state that variable lookup reads.
pub open spec fn env_of<F>(g: &GlobalRuntimeState<F>) -> GlobalRuntimeState<F> {
    GlobalRuntimeState {
        num_operations: 0,
        always_search_scope: g.always_search_scope,
        imports: g.imports,
        constants: g.constants,
    }
}

/// `TypeMismatch` for a value that should have been a boolean.
pub open spec fn not_bool(v: Val, pos: Position) -> ErrVal {
    ErrVal::TypeMismatch("bool"@, name_of_type(v), pos)
}

impl<F: PluginFunction, R: VariableResolver> Engine<F, R> {
    /// What an expression evaluates to where that depends on the scope,
    /// the evaluation state and the operator tables alone: constants,
    /// variables, `&&`, `||`, `??`, interpolated strings, array and object
    /// map literals, and calls that resolve to the built-in operator table
    /// or to no function at all, over such expressions; array and object map
    /// literals fail with `DataTooLarge` where a set data-size limit is
    /// exceeded. `None` where a registered or script function, a statement
    /// or a method call may take part.
    pub open spec fn pure_eval(
        &self,
        names: Seq<Seq<char>>,
        vals: Seq<Val>,
        env: &GlobalRuntimeState<F>,
        lib: Seq<ScriptFnDef>,
        this_ptr: Option<(Val, AccessMode)>,
        expr: &Expr,
    ) -> Option<Result<Val, ErrVal>>
        decreases expr,
    {
        match expr {
            Expr::Variable(v) => if self.resolve_var is None || v.namespace.path@.len() > 0 {
                Some(
                    match self.search_namespace_spec(names, env, lib, this_ptr, v) {
                        Ok(TargetVal::Scope(i)) => Ok(vals[i]),
                        Ok(TargetVal::Value(x, _)) => Ok(x),
                        Err(e) => Err(e),
                    },
                )
            } else {
                None
            },
            Expr::And(l, r, _) => match self.pure_eval(names, vals, env, lib, this_ptr, l) {
                Some(Ok(Val::Bool(false))) => Some(Ok(Val::Bool(false))),
                Some(Ok(Val::Bool(true))) => match self.pure_eval(names, vals, env, lib, this_ptr, r) {
                    Some(Ok(Val::Bool(b))) => Some(Ok(Val::Bool(b))),
                    Some(Ok(x)) => Some(Err(not_bool(x, r.pos()))),
                    other => other,
                },
                Some(Ok(x)) => Some(Err(not_bool(x, l.pos()))),
                other => other,
            },
            Expr::Or(l, r, _) => match self.pure_eval(names, vals, env, lib, this_ptr, l) {
                Some(Ok(Val::Bool(true))) => Some(Ok(Val::Bool(true))),
                Some(Ok(Val::Bool(false))) => match self.pure_eval(names, vals, env, lib, this_ptr, r) {
                    Some(Ok(Val::Bool(b))) => Some(Ok(Val::Bool(b))),
                    Some(Ok(x)) => Some(Err(not_bool(x, r.pos()))),
                    other => other,
                },
                Some(Ok(x)) => Some(Err(not_bool(x, l.pos()))),
                other => other,
            },
            Expr::Coalesce(l, r, _) => match self.pure_eval(names, vals, env, lib, this_ptr, l) {
                Some(Ok(Val::Unit)) => self.pure_eval(names, vals, env, lib, this_ptr, r),
                other => other,
            },
            Expr::FnCall(c) => if c.namespace.path@.len() == 0 {
                self.pure_call(names, vals, env, lib, this_ptr, c)
            } else {
                None
            },
            Expr::Array(items, _) => match self.pure_array(names, vals, env, lib, this_ptr, items@) {
                Some(Ok(p)) => Some(Ok(Val::Array(p.0))),
                Some(Err(e)) => Some(Err(e)),
                None => None,
            },
            Expr::InterpolatedString(parts, _) => self.pure_interp(
                names,
                vals,
                env,
                lib,
                this_ptr,
                parts@,
            ),
            Expr::Object(entries, _) => match self.pure_entries(
                names,
                vals,
                env,
                lib,
                this_ptr,
                entries@,
            ) {
                Some(Ok(p)) => Some(Ok(Val::Object(p.0))),
                Some(Err(e)) => Some(Err(e)),
                None => None,
            },
            _ => match constant_value(expr) {
                Some(v) => Some(Ok(v)),
                None => None,
            },
        }
    }

    /// Is a data-size limit that is set exceeded by `sizes`?
    pub open spec fn over_sizes(&self, sizes: (usize, usize, usize)) -> bool {
        over_limit(self.max_array_size, sizes.0) || over_limit(self.max_map_size, sizes.1)
            || over_limit(self.max_string_size, sizes.2)
    }

    /// The elements of an array literal, evaluated in order, with the data
    /// they hold summed as they come; the first error ends it, and so does
    /// the first element after which a data-size limit is exceeded, with
    /// `DataTooLarge` at that element's position.
    pub open spec fn pure_array(
        &self,
        names: Seq<Seq<char>>,
        vals: Seq<Val>,
        env: &GlobalRuntimeState<F>,
        lib: Seq<ScriptFnDef>,
        this_ptr: Option<(Val, AccessMode)>,
        s: Seq<Expr>,
    ) -> Option<Result<(Seq<Val>, (usize, usize, usize)), ErrVal>>
        decreases s,
    {
        if s.len() == 0 {
            Some(Ok((Seq::empty(), (0usize, 0usize, 0usize))))
        } else {
            match self.pure_array(names, vals, env, lib, this_ptr, s.drop_last()) {
                Some(Ok(p)) => match self.pure_eval(names, vals, env, lib, this_ptr, &s.last()) {
                    Some(Ok(v)) => {
                        let sz = sat3(p.1, val_sizes(v));
                        if self.over_sizes(sz) {
                            Some(Err(ErrVal::DataTooLarge(s.last().pos())))
                        } else {
                            Some(Ok((p.0.push(v), sz)))
                        }
                    },
                    Some(Err(e)) => Some(Err(e)),
                    None => None,
                },
                other => other,
            }
        }
    }

    /// Left to right: a prefix of an array literal that fails, or is not
    /// covered, decides it.
    pub proof fn lemma_pure_array_prefix(
        &self,
        names: Seq<Seq<char>>,
        vals: Seq<Val>,
        env: &GlobalRuntimeState<F>,
        lib: Seq<ScriptFnDef>,
        this_ptr: Option<(Val, AccessMode)>,
        s: Seq<Expr>,
        j: int,
    )
        requires
            0 <= j <= s.len(),
            !(self.pure_array(names, vals, env, lib, this_ptr, s.subrange(0, j)) matches Some(Ok(_))),
        ensures
            self.pure_array(names, vals, env, lib, this_ptr, s) == self.pure_array(
                names,
                vals,
                env,
                lib,
                this_ptr,
                s.subrange(0, j),
            ),
        decreases s.len() - j,
    {
        if j < s.len() {
            assert(s.subrange(0, j + 1).drop_last() =~= s.subrange(0, j));
            self.lemma_pure_array_prefix(names, vals, env, lib, this_ptr, s, j + 1);
        } else {
            assert(s.subrange(0, j) =~= s);
        }
    }

    /// The parts of an interpolated string, evaluated in order and each
    /// appended to the text so far by the built-in `+=`; not covered where a
    /// part has no built-in `+=` cell.
    pub open spec fn pure_interp(
        &self,
        names: Seq<Seq<char>>,
        vals: Seq<Val>,
        env: &GlobalRuntimeState<F>,
        lib: Seq<ScriptFnDef>,
        this_ptr: Option<(Val, AccessMode)>,
        s: Seq<Expr>,
    ) -> Option<Result<Val, ErrVal>>
        decreases s,
    {
        if s.len() == 0 {
            Some(Ok(Val::Str(Seq::empty())))
        } else {
            match self.pure_interp(names, vals, env, lib, this_ptr, s.drop_last()) {
                Some(Ok(acc)) => match self.pure_eval(names, vals, env, lib, this_ptr, &s.last()) {
                    Some(Ok(v)) => match crate::builtin::op_assignment_fn("+="@, acc, v) {
                        Some(f) => Some(
                            match crate::builtin::assign_result(f.op, acc, v) {
                                Ok(w) => Ok(w),
                                Err(e) => Err(ErrVal::Arithmetic(e, s.last().pos())),
                            },
                        ),
                        None => None,
                    },
                    Some(Err(e)) => Some(Err(e)),
                    None => None,
                },
                other => other,
            }
        }
    }

    /// Left to right: a prefix of an interpolated string that fails, or is
    /// not covered, decides it.
    pub proof fn lemma_pure_interp_prefix(
        &self,
        names: Seq<Seq<char>>,
        vals: Seq<Val>,
        env: &GlobalRuntimeState<F>,
        lib: Seq<ScriptFnDef>,
        this_ptr: Option<(Val, AccessMode)>,
        s: Seq<Expr>,
        j: int,
    )
        requires
            0 <= j <= s.len(),
            !(self.pure_interp(names, vals, env, lib, this_ptr, s.subrange(0, j)) matches Some(Ok(_))),
        ensures
            self.pure_interp(names, vals, env, lib, this_ptr, s) == self.pure_interp(
                names,
                vals,
                env,
                lib,
                this_ptr,
                s.subrange(0, j),
            ),
        decreases s.len() - j,
    {
        if j < s.len() {
            assert(s.subrange(0, j + 1).drop_last() =~= s.subrange(0, j));
            self.lemma_pure_interp_prefix(names, vals, env, lib, this_ptr, s, j + 1);
        } else {
            assert(s.subrange(0, j) =~= s);
        }
    }

    /// The entries of an object map literal, their values evaluated in
    /// order with the data they hold summed as they come; the first error
    /// ends it, and so does the first value after which a data-size limit is
    /// exceeded, with `DataTooLarge` at that value's position.
    pub open spec fn pure_entries(
        &self,
        names: Seq<Seq<char>>,
        vals: Seq<Val>,
        env: &GlobalRuntimeState<F>,
        lib: Seq<ScriptFnDef>,
        this_ptr: Option<(Val, AccessMode)>,
        s: Seq<(String, Expr)>,
    ) -> Option<Result<(Seq<(Seq<char>, Val)>, (usize, usize, usize)), ErrVal>>
        decreases s,
    {
        if s.len() == 0 {
            Some(Ok((Seq::empty(), (0usize, 0usize, 0usize))))
        } else {
            match self.pure_entries(names, vals, env, lib, this_ptr, s.drop_last()) {
                Some(Ok(p)) => match self.pure_eval(names, vals, env, lib, this_ptr, &s.last().1) {
                    Some(Ok(v)) => {
                        let sz = sat3(p.1, val_sizes(v));
                        if self.over_sizes(sz) {
                            Some(Err(ErrVal::DataTooLarge(s.last().1.pos())))
                        } else {
                            Some(Ok((p.0.push((s.last().0@, v)), sz)))
                        }
                    },
                    Some(Err(e)) => Some(Err(e)),
                    None => None,
                },
                other => other,
            }
        }
    }

    /// Left to right: a prefix of an object map literal that fails, or is
    /// not covered, decides it.
    pub proof fn lemma_pure_entries_prefix(
        &self,
        names: Seq<Seq<char>>,
        vals: Seq<Val>,
        env: &GlobalRuntimeState<F>,
        lib: Seq<ScriptFnDef>,
        this_ptr: Option<(Val, AccessMode)>,
        s: Seq<(String, Expr)>,
        j: int,
    )
        requires
            0 <= j <= s.len(),
            !(self.pure_entries(names, vals, env, lib, this_ptr, s.subrange(0, j)) matches Some(Ok(_))),
        ensures
            self.pure_entries(names, vals, env, lib, this_ptr, s) == self.pure_entries(
                names,
                vals,
                env,
                lib,
                this_ptr,
                s.subrange(0, j),
            ),
        decreases s.len() - j,
    {
        if j < s.len() {
            assert(s.subrange(0, j + 1).drop_last() =~= s.subrange(0, j));
            self.lemma_pure_entries_prefix(names, vals, env, lib, this_ptr, s, j + 1);
        } else {
            assert(s.subrange(0, j) =~= s);
        }
    }

    /// A call whose arguments are covered and that resolves to the
    /// operator table, or to nothing.
    pub open spec fn pure_call(
        &self,
        names: Seq<Seq<char>>,
        vals: Seq<Val>,
        env: &GlobalRuntimeState<F>,
        lib: Seq<ScriptFnDef>,
        this_ptr: Option<(Val, AccessMode)>,
        c: &FnCallExpr,
    ) -> Option<Result<Val, ErrVal>>
        decreases c,
    {
        match self.pure_args(names, vals, env, lib, this_ptr, c.args@) {
            Some(Ok(vs)) => match crate::engine::resolve_spec(
                self,
                lib,
                c.name@,
                types_of_vals(vs),
                c.is_native_operator,
            ) {
                Resolved::Builtin(f) => Some(
                    match crate::builtin::binary_result(f.op, vs[0], vs[1]) {
                        Ok(v) => Ok(v),
                        Err(e) => Err(ErrVal::Arithmetic(e, c.pos)),
                    },
                ),
                Resolved::NotFound => Some(
                    Err(ErrVal::FunctionNotFound(signature_of(c.name@, vs), c.pos)),
                ),
                _ => None,
            },
            Some(Err(e)) => Some(Err(e)),
            None => None,
        }
    }

    /// A list of covered expressions, evaluated left to right; the first
    /// error ends it.
    pub open spec fn pure_args(
        &self,
        names: Seq<Seq<char>>,
        vals: Seq<Val>,
        env: &GlobalRuntimeState<F>,
        lib: Seq<ScriptFnDef>,
        this_ptr: Option<(Val, AccessMode)>,
        s: Seq<Expr>,
    ) -> Option<Result<Seq<Val>, ErrVal>>
        decreases s,
    {
        if s.len() == 0 {
            Some(Ok(Seq::empty()))
        } else {
            match self.pure_args(names, vals, env, lib, this_ptr, s.drop_last()) {
                Some(Ok(vs)) => match self.pure_eval(names, vals, env, lib, this_ptr, &s.last()) {
                    Some(Ok(v)) => Some(Ok(vs.push(v))),
                    Some(Err(e)) => Some(Err(e)),
                    None => None,
                },
                other => other,
            }
        }
    }

    /// Left to right: the elements of an array literal, or the arguments of
    /// a call, are evaluated in order, and a prefix that fails, or is not
    /// covered, decides the whole list; nothing after it changes the outcome.
    pub proof fn lemma_pure_args_prefix(
        &self,
        names: Seq<Seq<char>>,
        vals: Seq<Val>,
        env: &GlobalRuntimeState<F>,
        lib: Seq<ScriptFnDef>,
        this_ptr: Option<(Val, AccessMode)>,
        s: Seq<Expr>,
        j: int,
    )
        requires
            0 <= j <= s.len(),
            !(self.pure_args(names, vals, env, lib, this_ptr, s.subrange(0, j)) matches Some(Ok(_))),
        ensures
            self.pure_args(names, vals, env, lib, this_ptr, s) == self.pure_args(
                names,
                vals,
                env,
                lib,
                this_ptr,
                s.subrange(0, j),
            ),
        decreases s.len() - j,
    {
        if j < s.len() {
            assert(s.subrange(0, j + 1).drop_last() =~= s.subrange(0, j));
            self.lemma_pure_args_prefix(names, vals, env, lib, this_ptr, s, j + 1);
        } else {
            assert(s.subrange(0, j) =~= s);
        }
    }
}

/// `r` is the outcome `res`, or the operation ceiling cut the work short:
/// `cost` more operations from `ops0` would have passed `max`.
pub open spec fn outcome(
    res: Result<Val, ErrVal>,
    r: Result<Dynamic, EvalError>,
    ops0: u64,
    cost: nat,
    max: u64,
) -> bool {
    (match res {
        Ok(v) => r is Ok && r->Ok_0@ == v,
        Err(e) => r is Err && r->Err_0@ == e,
    }) || (r is Err && r->Err_0 is TooManyOperations && ops0 + cost > max)
}

/// The expression of a body made of one expression statement.
pub open spec fn single_expr(body: Seq<Stmt>) -> Option<Expr> {
    if body.len() == 1 && body[0] is Expr {
        Some(body[0]->Expr_0)
    } else {
        None
    }
}

/// The names of a script function's parameters.
pub open spec fn param_names(def: ScriptFnDef) -> Seq<Seq<char>> {
    Seq::new(def.params@.len(), |k: int| def.params@[k]@)
}

/// The error a call of a script function reports when its body fails with
/// `e`: where the body is one operator call and that very call has no
/// function for its operand types, the failure is the script function's
/// own, reported with the script call's signature; any other error passes.
pub open spec fn script_error(b: Expr, e: ErrVal, sig: Seq<char>, pos: Position) -> ErrVal {
    match b {
        Expr::FnCall(c) => if c.is_native_operator && e is FunctionNotFound
            && e->FunctionNotFound_1 == c.pos {
            ErrVal::FunctionNotFound(sig, pos)
        } else {
            e
        },
        _ => e,
    }
}

/// The operations a one-expression script body counts at most.
pub open spec fn body_cost(def: ScriptFnDef) -> nat {
    match single_expr(def.body@) {
        Some(b) => 1 + expr_size(&b),
        None => 0,
    }
}

impl<F: PluginFunction, R: VariableResolver> Engine<F, R> {
    /// What a call of script function `def` with argument values `vals`
    /// gives, where its body is one covered expression: the body evaluated in
    /// a scope that binds the parameters to the arguments.
    pub open spec fn script_result(
        &self,
        def: ScriptFnDef,
        vals: Seq<Val>,
        env: &GlobalRuntimeState<F>,
        lib: Seq<ScriptFnDef>,
        name: Seq<char>,
        pos: Position,
    ) -> Option<Result<Val, ErrVal>> {
        match single_expr(def.body@) {
            Some(b) => match self.pure_eval(param_names(def), vals, env, lib, None, &b) {
                Some(Ok(v)) => Some(Ok(v)),
                Some(Err(e)) => Some(Err(script_error(b, e, signature_of(name, vals), pos))),
                None => None,
            },
            None => None,
        }
    }

    /// A call whose arguments are covered and that resolves to a script
    /// function with a one-expression covered body gives that body's
    /// outcome, counting at most the arguments' and the body's operations.
    pub open spec fn script_call_claim(
        &self,
        names: Seq<Seq<char>>,
        vals: Seq<Val>,
        env: &GlobalRuntimeState<F>,
        lib: Seq<ScriptFnDef>,
        this_ptr: Option<(Val, AccessMode)>,
        call: &FnCallExpr,
        ops0: u64,
        ops1: u64,
        r: Result<Dynamic, EvalError>,
    ) -> bool {
        match self.pure_args(names, vals, env, lib, this_ptr, call.args@) {
            Some(Ok(vs)) => match crate::engine::resolve_spec(
                self,
                lib,
                call.name@,
                types_of_vals(vs),
                call.is_native_operator,
            ) {
                Resolved::Script(i) => match self.script_result(
                    lib[i as int],
                    vs,
                    env,
                    lib,
                    call.name@,
                    call.pos,
                ) {
                    Some(res) => ops1 <= ops0 + args_size(call.args@) + body_cost(lib[i as int])
                        && outcome(
                        res,
                        r,
                        ops0,
                        args_size(call.args@) + body_cost(lib[i as int]),
                        self.max_operations,
                    ),
                    None => true,
                },
                _ => true,
            },
            _ => true,
        }
    }
}

impl<F: PluginFunction, R: VariableResolver> Engine<F, R> {
    /// Deterministic evaluation: the outcome of a covered expression is a
    /// function of the scope, the library, the receiver and the part of the
    /// evaluation state that lookups read; in particular it does not depend
    /// on how many operations were counted before.
    pub proof fn lemma_deterministic(
        &self,
        names: Seq<Seq<char>>,
        vals: Seq<Val>,
        g1: &GlobalRuntimeState<F>,
        g2: &GlobalRuntimeState<F>,
        lib: Seq<ScriptFnDef>,
        this_ptr: Option<(Val, AccessMode)>,
        expr: &Expr,
    )
        requires
            g1.imports == g2.imports,
            g1.constants == g2.constants,
            g1.always_search_scope == g2.always_search_scope,
        ensures
            self.pure_eval(names, vals, &env_of(g1), lib, this_ptr, expr) == self.pure_eval(
                names,
                vals,
                &env_of(g2),
                lib,
                this_ptr,
                expr,
            ),
    {
        assert(env_of(g1) == env_of(g2));
    }

    /// Short-circuit: `false && X` is `false` and `true || X` is `true`,
    /// whatever `X` is, even one whose evaluation would fail or is not
    /// covered.
    pub proof fn lemma_short_circuit(
        &self,
        names: Seq<Seq<char>>,
        vals: Seq<Val>,
        env: &GlobalRuntimeState<F>,
        lib: Seq<ScriptFnDef>,
        this_ptr: Option<(Val, AccessMode)>,
        l: Expr,
        x: Expr,
        pos: Position,
    )
        ensures
            self.pure_eval(names, vals, env, lib, this_ptr, &l) == Some(
                Ok::<Val, ErrVal>(Val::Bool(false)),
            ) ==> self.pure_eval(
                names,
                vals,
                env,
                lib,
                this_ptr,
                &Expr::And(Box::new(l), Box::new(x), pos),
            ) == Some(Ok::<Val, ErrVal>(Val::Bool(false))),
            self.pure_eval(names, vals, env, lib, this_ptr, &l) == Some(
                Ok::<Val, ErrVal>(Val::Bool(true)),
            ) ==> self.pure_eval(
                names,
                vals,
                env,
                lib,
                this_ptr,
                &Expr::Or(Box::new(l), Box::new(x), pos),
            ) == Some(Ok::<Val, ErrVal>(Val::Bool(true))),
    {
    }
}

impl<F: PluginFunction, R: VariableResolver> Engine<F, R> {
    /// Evaluate an expression.
    ///
    /// The scope keeps its bindings, the cache stays valid, and the
    /// operation counter moves forward without passing the ceiling: every
    /// expression visited counts one operation, and a visit at the ceiling
    /// fails with `TooManyOperations`.
    #[verifier::rlimit(60)]
    pub fn eval_expr(
        &self,
        scope: &mut Scope,
        global: &mut GlobalRuntimeState<F>,
        caches: &mut Caches,
        lib: &Vec<ScriptFnDef>,
        this_ptr: &Option<Dynamic>,
        expr: &Expr,
    ) -> (r: Result<Dynamic, EvalError>)
        requires
            old(scope).wf(),
            old(caches).valid(self, lib@),
        ensures
            final(scope).wf(),
            final(scope).names() == old(scope).names(),
            final(caches).valid(self, lib@),
            self.counted(old(global), final(global)),
            r is Ok ==> final(global).num_operations > old(global).num_operations,
            old(global).num_operations >= self.max_operations ==> r is Err && r->Err_0@
                == ErrVal::TooManyOperations(expr.pos()) && final(scope).vals() == old(
                scope,
            ).vals(),
            old(global).num_operations < self.max_operations && constant_value(expr) is Some
                ==> r is Ok && r->Ok_0@ == constant_value(expr)->Some_0
                && final(global).num_operations == old(global).num_operations + 1,
            (expr is And || expr is Or) && r is Ok ==> r->Ok_0@ is Bool,
            old(global).num_operations < self.max_operations ==> match expr {
                Expr::Variable(v) => (self.resolve_var is None || v.namespace.path@.len() > 0)
                    ==> match self.search_namespace_spec(
                    old(scope).names(),
                    old(global),
                    lib@,
                    this_view(this_ptr),
                    v,
                ) {
                    Ok(TargetVal::Scope(i)) => r is Ok && r->Ok_0@ == old(scope).vals()[i],
                    Ok(TargetVal::Value(v, _)) => r is Ok && r->Ok_0@ == v,
                    Err(e) => r is Err && r->Err_0@ == e,
                },
                Expr::And(lhs, _, _) => constant_value(lhs) == Some(Val::Bool(false)) && old(
                    global,
                ).num_operations + 1 < self.max_operations ==> r is Ok && r->Ok_0@ == Val::Bool(
                    false,
                ) && final(global).num_operations == old(global).num_operations + 2,
                Expr::Or(lhs, _, _) => constant_value(lhs) == Some(Val::Bool(true)) && old(
                    global,
                ).num_operations + 1 < self.max_operations ==> r is Ok && r->Ok_0@ == Val::Bool(
                    true,
                ) && final(global).num_operations == old(global).num_operations + 2,
                Expr::Custom(c) => last_index(entry_names(self.custom_syntax@), custom_key(c))
                    is None ==> r is Err && r->Err_0@ == ErrVal::CustomSyntax(custom_key(c), c.pos),
                _ => true,
            },
            expr is Custom && r is Ok ==> !(over_limit(
                self.max_array_size,
                val_sizes(r->Ok_0@).0,
            ) || over_limit(self.max_map_size, val_sizes(r->Ok_0@).1) || over_limit(
                self.max_string_size,
                val_sizes(r->Ok_0@).2,
            )),
            match self.pure_eval(
                old(scope).names(),
                old(scope).vals(),
                &env_of(old(global)),
                lib@,
                this_view(this_ptr),
                expr,
            ) {
                Some(res) => {
                    &&& final(scope).vals() == old(scope).vals()
                    &&& final(global).num_operations <= old(global).num_operations + expr_size(
                        expr,
                    )
                    &&& (match res {
                        Ok(v) => r is Ok && r->Ok_0@ == v,
                        Err(e) => r is Err && r->Err_0@ == e,
                    } || (r is Err && r->Err_0 is TooManyOperations && old(global).num_operations
                        + expr_size(expr) > self.max_operations))
                },
                None => true,
            },
        decreases self.max_operations - old(global).num_operations, 0nat,
    {
        match self.inc_operations(global, expr.position()) {
            Err(e) => {
                return Err(e);
            },
            Ok(()) => {},
        }
        let ghost names0 = scope.names();
        match expr {
            Expr::DynamicConstant(d, _) => Ok(d.clone_value()),
            Expr::IntegerConstant(i, _) => Ok(Dynamic::from_int(*i)),
            Expr::StringConstant(s, _) => Ok(Dynamic::from_string(s.clone())),
            Expr::CharConstant(c, _) => Ok(Dynamic::from_char(*c)),
            Expr::BoolConstant(b, _) => Ok(Dynamic::from_bool(*b)),
            Expr::Unit(_) => Ok(Dynamic::unit()),
            Expr::Variable(v) => match self.search_namespace(scope, global, lib, this_ptr, v) {
                Ok(Target::Scope(i)) => Ok(scope.get_by_index(i).clone_value()),
                Ok(Target::Value(d)) => Ok(d),
                Err(e) => Err(e),
            },
            Expr::InterpolatedString(parts, _) => {
                let ghost vals0 = old(scope).vals();
                let ghost env0 = env_of(old(global));
                let ghost thisv = this_view(this_ptr);
                let mut concat = Dynamic::from_string(String::new());
                let op = String::from_str("+=");
                let mut i: usize = 0;
                while i < parts.len()
                    invariant
                        scope.wf(),
                        names0 == old(scope).names(),
                        vals0 == old(scope).vals(),
                        env0 == env_of(old(global)),
                        thisv == this_view(this_ptr),
                        op@ == "+="@,
                        scope.names() == names0,
                        caches.valid(self, lib@),
                        self.counted(old(global), global),
                        old(global).num_operations < global.num_operations,
                        global.num_operations <= self.max_operations,
                        expr is InterpolatedString,
                        expr->InterpolatedString_0 == *parts,
                        i <= parts@.len(),
                        match self.pure_interp(
                            names0,
                            vals0,
                            &env0,
                            lib@,
                            thisv,
                            parts@.subrange(0, i as int),
                        ) {
                            Some(Ok(acc)) => concat@ == acc && scope.vals() == vals0
                                && global.num_operations <= old(global).num_operations + 1
                                + args_size(parts@.subrange(0, i as int)),
                            Some(Err(_)) => false,
                            None => true,
                        },
                    decreases parts.len() - i,
                {
                    let ghost pre = parts@.subrange(0, i as int);
                    proof {
                        assert(parts@.subrange(0, i + 1).drop_last() =~= pre);
                        assert(parts@.subrange(0, i + 1).last() == parts@[i as int]);
                        lemma_args_size_prefix(parts@, i + 1);
                        if !(self.pure_interp(names0, vals0, &env0, lib@, thisv, pre) matches Some(Ok(_))) {
                            self.lemma_pure_interp_prefix(names0, vals0, &env0, lib@, thisv, parts@, i as int);
                        }
                    }
                    let item = match self.eval_expr(scope, global, caches, lib, this_ptr, &parts[i]) {
                        Ok(v) => v,
                        Err(e) => {
                            proof {
                                if !(self.pure_interp(
                                    names0,
                                    vals0,
                                    &env0,
                                    lib@,
                                    thisv,
                                    parts@.subrange(0, i + 1),
                                ) matches Some(Ok(_))) {
                                    self.lemma_pure_interp_prefix(
                                        names0,
                                        vals0,
                                        &env0,
                                        lib@,
                                        thisv,
                                        parts@,
                                        i + 1,
                                    );
                                }
                            }
                            return Err(e);
                        },
                    };
                    let r = self.eval_op_assignment(
                        global,
                        caches,
                        lib,
                        &mut concat,
                        &op,
                        item.flatten(),
                        parts[i].position(),
                    );
                    proof {
                        if !(self.pure_interp(
                            names0,
                            vals0,
                            &env0,
                            lib@,
                            thisv,
                            parts@.subrange(0, i + 1),
                        ) matches Some(Ok(_))) {
                            self.lemma_pure_interp_prefix(
                                names0,
                                vals0,
                                &env0,
                                lib@,
                                thisv,
                                parts@,
                                i + 1,
                            );
                        }
                    }
                    match r {
                        Ok(()) => {},
                        Err(e) => {
                            return Err(e);
                        },
                    }
                    i = i + 1;
                }
                proof {
                    assert(parts@.subrange(0, i as int) =~= parts@);
                }
                Ok(concat)
            },
            Expr::Array(items, _) => {
                let ghost vals0 = old(scope).vals();
                let ghost env0 = env_of(old(global));
                let ghost thisv = this_view(this_ptr);
                let mut arr: Vec<Dynamic> = Vec::new();
                let mut sizes: (usize, usize, usize) = (0, 0, 0);
                let mut i: usize = 0;
                while i < items.len()
                    invariant
                        scope.wf(),
                        names0 == old(scope).names(),
                        vals0 == old(scope).vals(),
                        env0 == env_of(old(global)),
                        thisv == this_view(this_ptr),
                        scope.names() == names0,
                        caches.valid(self, lib@),
                        self.counted(old(global), global),
                        old(global).num_operations < global.num_operations,
                        global.num_operations <= self.max_operations,
                        expr is Array,
                        expr->Array_0 == *items,
                        i <= items@.len(),
                        match self.pure_array(
                            names0,
                            vals0,
                            &env0,
                            lib@,
                            thisv,
                            items@.subrange(0, i as int),
                        ) {
                            Some(Ok(p)) => vals_of(arr@) == p.0 && sizes == p.1 && scope.vals() == vals0
                                && global.num_operations <= old(global).num_operations + 1
                                + args_size(items@.subrange(0, i as int)),
                            Some(Err(_)) => false,
                            None => true,
                        },
                    decreases items.len() - i,
                {
                    let ghost pre = items@.subrange(0, i as int);
                    proof {
                        assert(items@.subrange(0, i + 1).drop_last() =~= pre);
                        assert(items@.subrange(0, i + 1).last() == items@[i as int]);
                        lemma_args_size_prefix(items@, i + 1);
                        if !(self.pure_array(names0, vals0, &env0, lib@, thisv, pre) matches Some(Ok(_))) {
                            self.lemma_pure_array_prefix(names0, vals0, &env0, lib@, thisv, items@, i as int);
                        }
                    }
                    let value = match self.eval_expr(scope, global, caches, lib, this_ptr, &items[i]) {
                        Ok(v) => v.flatten(),
                        Err(e) => {
                            proof {
                                if !(self.pure_array(
                                    names0,
                                    vals0,
                                    &env0,
                                    lib@,
                                    thisv,
                                    items@.subrange(0, i + 1),
                                ) matches Some(Ok(_))) {
                                    self.lemma_pure_array_prefix(
                                        names0,
                                        vals0,
                                        &env0,
                                        lib@,
                                        thisv,
                                        items@,
                                        i + 1,
                                    );
                                }
                            }
                            return Err(e);
                        },
                    };
                    let vs = data_sizes(&value);
                    let ghost before = arr@;
                    arr.push(value);
                    proof {
                        crate::dynamic::lemma_vals_of_push(before, value);
                    }
                    sizes = (
                        sizes.0.saturating_add(vs.0),
                        sizes.1.saturating_add(vs.1),
                        sizes.2.saturating_add(vs.2),
                    );
                    let checked = self.check_data_size(sizes, items[i].position());
                    proof {
                        if !(self.pure_array(
                            names0,
                            vals0,
                            &env0,
                            lib@,
                            thisv,
                            items@.subrange(0, i + 1),
                        ) matches Some(Ok(_))) {
                            self.lemma_pure_array_prefix(
                                names0,
                                vals0,
                                &env0,
                                lib@,
                                thisv,
                                items@,
                                i + 1,
                            );
                        }
                    }
                    match checked {
                        Ok(()) => {},
                        Err(e) => {
                            return Err(e);
                        },
                    }
                    i = i + 1;
                }
                proof {
                    assert(items@.subrange(0, i as int) =~= items@);
                }
                Ok(Dynamic::from_array(arr))
            },
            Expr::Object(entries, _) => {
                let ghost vals0 = old(scope).vals();
                let ghost env0 = env_of(old(global));
                let ghost thisv = this_view(this_ptr);
                let mut map: Vec<(String, Dynamic)> = Vec::new();
                let mut sizes: (usize, usize, usize) = (0, 0, 0);
                let mut i: usize = 0;
                while i < entries.len()
                    invariant
                        scope.wf(),
                        names0 == old(scope).names(),
                        vals0 == old(scope).vals(),
                        env0 == env_of(old(global)),
                        thisv == this_view(this_ptr),
                        scope.names() == names0,
                        caches.valid(self, lib@),
                        self.counted(old(global), global),
                        old(global).num_operations < global.num_operations,
                        global.num_operations <= self.max_operations,
                        expr is Object,
                        expr->Object_0 == *entries,
                        i <= entries@.len(),
                        match self.pure_entries(
                            names0,
                            vals0,
                            &env0,
                            lib@,
                            thisv,
                            entries@.subrange(0, i as int),
                        ) {
                            Some(Ok(p)) => crate::dynamic::entries_of(map@) == p.0 && sizes == p.1
                                && scope.vals()
                                == vals0 && global.num_operations <= old(global).num_operations + 1
                                + entries_size(entries@.subrange(0, i as int)),
                            Some(Err(_)) => false,
                            None => true,
                        },
                    decreases entries.len() - i,
                {
                    let ghost pre = entries@.subrange(0, i as int);
                    proof {
                        assert(entries@.subrange(0, i + 1).drop_last() =~= pre);
                        assert(entries@.subrange(0, i + 1).last() == entries@[i as int]);
                        lemma_entries_size_prefix(entries@, i + 1);
                        if !(self.pure_entries(names0, vals0, &env0, lib@, thisv, pre) matches Some(Ok(_))) {
                            self.lemma_pure_entries_prefix(names0, vals0, &env0, lib@, thisv, entries@, i as int);
                        }
                    }
                    let value = match self.eval_expr(
                        scope,
                        global,
                        caches,
                        lib,
                        this_ptr,
                        &entries[i].1,
                    ) {
                        Ok(v) => v.flatten(),
                        Err(e) => {
                            proof {
                                if !(self.pure_entries(
                                    names0,
                                    vals0,
                                    &env0,
                                    lib@,
                                    thisv,
                                    entries@.subrange(0, i + 1),
                                ) matches Some(Ok(_))) {
                                    self.lemma_pure_entries_prefix(
                                        names0,
                                        vals0,
                                        &env0,
                                        lib@,
                                        thisv,
                                        entries@,
                                        i + 1,
                                    );
                                }
                            }
                            return Err(e);
                        },
                    };
                    let vs = data_sizes(&value);
                    let key = entries[i].0.clone();
                    let ghost before = map@;
                    map.push((key, value));
                    proof {
                        assert(map@.drop_last() =~= before);
                    }
                    sizes = (
                        sizes.0.saturating_add(vs.0),
                        sizes.1.saturating_add(vs.1),
                        sizes.2.saturating_add(vs.2),
                    );
                    let checked = self.check_data_size(sizes, entries[i].1.position());
                    proof {
                        if !(self.pure_entries(
                            names0,
                            vals0,
                            &env0,
                            lib@,
                            thisv,
                            entries@.subrange(0, i + 1),
                        ) matches Some(Ok(_))) {
                            self.lemma_pure_entries_prefix(
                                names0,
                                vals0,
                                &env0,
                                lib@,
                                thisv,
                                entries@,
                                i + 1,
                            );
                        }
                    }
                    match checked {
                        Ok(()) => {},
                        Err(e) => {
                            return Err(e);
                        },
                    }
                    i = i + 1;
                }
                proof {
                    assert(entries@.subrange(0, i as int) =~= entries@);
                }
                Ok(Dynamic::from_union(Union::Object(map)))
            },
            Expr::And(lhs, rhs, _) => {
                let lv = match self.eval_expr(scope, global, caches, lib, this_ptr, lhs) {
                    Ok(v) => v,
                    Err(e) => {
                        return Err(e);
                    },
                };
                let lb = match bool_operand(&lv, lhs.position()) {
                    Ok(b) => b,
                    Err(e) => {
                        return Err(e);
                    },
                };
                if !lb {
                    return Ok(Dynamic::from_bool(false));
                }
                let rv = match self.eval_expr(scope, global, caches, lib, this_ptr, rhs) {
                    Ok(v) => v,
                    Err(e) => {
                        return Err(e);
                    },
                };
                match bool_operand(&rv, rhs.position()) {
                    Ok(b) => Ok(Dynamic::from_bool(b)),
                    Err(e) => Err(e),
                }
            },
            Expr::Or(lhs, rhs, _) => {
                let lv = match self.eval_expr(scope, global, caches, lib, this_ptr, lhs) {
                    Ok(v) => v,
                    Err(e) => {
                        return Err(e);
                    },
                };
                let lb = match bool_operand(&lv, lhs.position()) {
                    Ok(b) => b,
                    Err(e) => {
                        return Err(e);
                    },
                };
                if lb {
                    return Ok(Dynamic::from_bool(true));
                }
                let rv = match self.eval_expr(scope, global, caches, lib, this_ptr, rhs) {
                    Ok(v) => v,
                    Err(e) => {
                        return Err(e);
                    },
                };
                match bool_operand(&rv, rhs.position()) {
                    Ok(b) => Ok(Dynamic::from_bool(b)),
                    Err(e) => Err(e),
                }
            },
            Expr::Coalesce(lhs, rhs, _) => {
                match self.eval_expr(scope, global, caches, lib, this_ptr, lhs) {
                    Ok(v) => if v.is_unit() {
                        self.eval_expr(scope, global, caches, lib, this_ptr, rhs)
                    } else {
                        Ok(v)
                    },
                    Err(e) => Err(e),
                }
            },
            Expr::FnCall(call) => self.eval_fn_call_expr(scope, global, caches, lib, this_ptr, call),
            Expr::Dot(obj, call, _) => {
                let o = match self.eval_expr(scope, global, caches, lib, this_ptr, obj) {
                    Ok(v) => v.flatten(),
                    Err(e) => {
                        return Err(e);
                    },
                };
                self.eval_call(scope, global, caches, lib, this_ptr, call, Some(o))
            },
            Expr::Custom(c) => {
                let key = if c.tokens.len() > 0 {
                    c.tokens[0].clone()
                } else {
                    String::new()
                };
                proof {
                    lemma_last_index(entry_names(self.custom_syntax@), key@);
                    assert(self.custom_syntax.len() == self.custom_syntax@.len());
                }
                let k = match find_named(&self.custom_syntax, &key) {
                    None => {
                        return Err(EvalError::CustomSyntax(key, c.pos));
                    },
                    Some(k) => k,
                };
                let mut inputs: Vec<Dynamic> = Vec::new();
                let mut i: usize = 0;
                while i < c.inputs.len()
                    invariant
                        scope.wf(),
                        names0 == old(scope).names(),
                        scope.names() == names0,
                        caches.valid(self, lib@),
                        self.counted(old(global), global),
                        old(global).num_operations < global.num_operations,
                        global.num_operations <= self.max_operations,
                        expr is Custom,
                        expr->Custom_0 == *c,
                        k < self.custom_syntax@.len(),
                        last_index(entry_names(self.custom_syntax@), custom_key(c)) is Some,
                    decreases c.inputs.len() - i,
                {
                    let v = match self.eval_expr(scope, global, caches, lib, this_ptr, &c.inputs[i]) {
                        Ok(v) => v.flatten(),
                        Err(e) => {
                            return Err(e);
                        },
                    };
                    inputs.push(v);
                    i = i + 1;
                }
                match self.custom_syntax[k].1.call(&mut inputs) {
                    Ok(v) => self.check_result(v, c.pos),
                    Err(e) => Err(e),
                }
            },
            Expr::Stmt(stmts, _) => {
                if stmts.len() == 0 {
                    Ok(Dynamic::unit())
                } else {
                    self.eval_stmt_block(scope, global, caches, lib, this_ptr, stmts)
                }
            },
        }
    }

    /// Evaluate a function call expression: the arguments left to right,
    /// then the call, resolved through the cache.
    pub fn eval_fn_call_expr(
        &self,
        scope: &mut Scope,
        global: &mut GlobalRuntimeState<F>,
        caches: &mut Caches,
        lib: &Vec<ScriptFnDef>,
        this_ptr: &Option<Dynamic>,
        call: &FnCallExpr,
    ) -> (r: Result<Dynamic, EvalError>)
        requires
            old(scope).wf(),
            old(caches).valid(self, lib@),
        ensures
            final(scope).wf(),
            final(scope).names() == old(scope).names(),
            final(caches).valid(self, lib@),
            self.counted(old(global), final(global)),
            call.namespace.path@.len() == 0 ==> match self.pure_call(
                old(scope).names(),
                old(scope).vals(),
                &env_of(old(global)),
                lib@,
                this_view(this_ptr),
                call,
            ) {
                Some(res) => {
                    &&& final(scope).vals() == old(scope).vals()
                    &&& final(global).num_operations <= old(global).num_operations + args_size(
                        call.args@,
                    )
                    &&& (match res {
                        Ok(v) => r is Ok && r->Ok_0@ == v,
                        Err(e) => r is Err && r->Err_0@ == e,
                    } || (r is Err && r->Err_0 is TooManyOperations && old(global).num_operations
                        + args_size(call.args@) > self.max_operations))
                },
                None => true,
            },
            call.namespace.path@.len() == 0 ==> self.script_call_claim(
                old(scope).names(),
                old(scope).vals(),
                &env_of(old(global)),
                lib@,
                this_view(this_ptr),
                call,
                old(global).num_operations,
                final(global).num_operations,
                r,
            ),
            call.namespace.path@.len() > 0 ==> match self.pure_args(
                old(scope).names(),
                old(scope).vals(),
                &env_of(old(global)),
                lib@,
                this_view(this_ptr),
                call.args@,
            ) {
                Some(Ok(vs)) => match self.search_imports_spec(old(global), &call.namespace) {
                    None => outcome(
                        Err(ErrVal::ModuleNotFound(join_path(path_names(&call.namespace)), call.namespace.pos)),
                        r,
                        old(global).num_operations,
                        args_size(call.args@),
                        self.max_operations,
                    ),
                    Some(m) => last_index(
                        crate::engine::native_keys(self.module_of(old(global), m).functions@),
                        (call.name@, types_of_vals(vs)),
                    ) is None ==> outcome(
                        Err(ErrVal::FunctionNotFound(signature_of(call.name@, vs), call.pos)),
                        r,
                        old(global).num_operations,
                        args_size(call.args@),
                        self.max_operations,
                    ),
                },
                _ => true,
            },
        decreases self.max_operations - old(global).num_operations, 5nat,
    {
        if global.num_operations > self.max_operations {
            return Err(EvalError::TooManyOperations(call.pos));
        }
        self.eval_call(scope, global, caches, lib, this_ptr, call, None)
    }

    /// Evaluate a call, with the object of a method call as its first
    /// argument.
    fn eval_call(
        &self,
        scope: &mut Scope,
        global: &mut GlobalRuntimeState<F>,
        caches: &mut Caches,
        lib: &Vec<ScriptFnDef>,
        this_ptr: &Option<Dynamic>,
        call: &FnCallExpr,
        first: Option<Dynamic>,
    ) -> (r: Result<Dynamic, EvalError>)
        requires
            old(scope).wf(),
            old(caches).valid(self, lib@),
            old(global).num_operations <= self.max_operations,
        ensures
            final(scope).wf(),
            final(scope).names() == old(scope).names(),
            final(caches).valid(self, lib@),
            self.counted(old(global), final(global)),
            first is None && call.namespace.path@.len() == 0 ==> match self.pure_call(
                old(scope).names(),
                old(scope).vals(),
                &env_of(old(global)),
                lib@,
                this_view(this_ptr),
                call,
            ) {
                Some(res) => {
                    &&& final(scope).vals() == old(scope).vals()
                    &&& final(global).num_operations <= old(global).num_operations + args_size(
                        call.args@,
                    )
                    &&& (match res {
                        Ok(v) => r is Ok && r->Ok_0@ == v,
                        Err(e) => r is Err && r->Err_0@ == e,
                    } || (r is Err && r->Err_0 is TooManyOperations && old(global).num_operations
                        + args_size(call.args@) > self.max_operations))
                },
                None => true,
            },
            first is None && call.namespace.path@.len() == 0 ==> self.script_call_claim(
                old(scope).names(),
                old(scope).vals(),
                &env_of(old(global)),
                lib@,
                this_view(this_ptr),
                call,
                old(global).num_operations,
                final(global).num_operations,
                r,
            ),
            first is None && call.namespace.path@.len() > 0 ==> match self.pure_args(
                old(scope).names(),
                old(scope).vals(),
                &env_of(old(global)),
                lib@,
                this_view(this_ptr),
                call.args@,
            ) {
                Some(Ok(vs)) => match self.search_imports_spec(old(global), &call.namespace) {
                    None => outcome(
                        Err(ErrVal::ModuleNotFound(join_path(path_names(&call.namespace)), call.namespace.pos)),
                        r,
                        old(global).num_operations,
                        args_size(call.args@),
                        self.max_operations,
                    ),
                    Some(m) => last_index(
                        crate::engine::native_keys(self.module_of(old(global), m).functions@),
                        (call.name@, types_of_vals(vs)),
                    ) is None ==> outcome(
                        Err(ErrVal::FunctionNotFound(signature_of(call.name@, vs), call.pos)),
                        r,
                        old(global).num_operations,
                        args_size(call.args@),
                        self.max_operations,
                    ),
                },
                _ => true,
            },
        decreases self.max_operations - old(global).num_operations, 4nat,
    {
        let ghost names0 = scope.names();
        let ghost vals0 = scope.vals();
        let ghost env0 = env_of(old(global));
        let ghost thisv = this_view(this_ptr);
        let ghost plain = first is None;
        let mut args: Vec<Dynamic> = Vec::new();
        match first {
            Some(f) => args.push(f),
            None => {},
        }
        let mut i: usize = 0;
        while i < call.args.len()
            invariant
                scope.wf(),
                names0 == old(scope).names(),
                vals0 == old(scope).vals(),
                env0 == env_of(old(global)),
                thisv == this_view(this_ptr),
                plain == (first is None),
                scope.names() == names0,
                caches.valid(self, lib@),
                self.counted(old(global), global),
                global.num_operations <= self.max_operations,
                i <= call.args@.len(),
                plain ==> match self.pure_args(
                    names0,
                    vals0,
                    &env0,
                    lib@,
                    thisv,
                    call.args@.subrange(0, i as int),
                ) {
                    Some(Ok(vs)) => vals_of(args@) == vs && scope.vals() == vals0
                        && global.num_operations <= old(global).num_operations + args_size(
                        call.args@.subrange(0, i as int),
                    ),
                    Some(Err(_)) => false,
                    None => true,
                },
            decreases call.args.len() - i,
        {
            let ghost pre = call.args@.subrange(0, i as int);
            let ghost ops_before = global.num_operations;
            proof {
                assert(call.args@.subrange(0, i + 1).drop_last() =~= pre);
                assert(call.args@.subrange(0, i + 1).last() == call.args@[i as int]);
                lemma_args_size_prefix(call.args@, i + 1);
                if plain && !(self.pure_args(names0, vals0, &env0, lib@, thisv, pre) matches Some(Ok(_))) {
                    self.lemma_pure_args_prefix(names0, vals0, &env0, lib@, thisv, call.args@, i as int);
                }
            }
            let v = match self.eval_expr(scope, global, caches, lib, this_ptr, &call.args[i]) {
                Ok(v) => v.flatten(),
                Err(e) => {
                    proof {
                        if plain && !(self.pure_args(
                            names0,
                            vals0,
                            &env0,
                            lib@,
                            thisv,
                            call.args@.subrange(0, i + 1),
                        ) matches Some(Ok(_))) {
                            self.lemma_pure_args_prefix(
                                names0,
                                vals0,
                                &env0,
                                lib@,
                                thisv,
                                call.args@,
                                i + 1,
                            );
                        }

                    }
                    return Err(e);
                },
            };
            let ghost before = args@;
            args.push(v);
            proof {
                crate::dynamic::lemma_vals_of_push(before, v);
            }
            i = i + 1;
        }
        proof {
            assert(call.args@.subrange(0, i as int) =~= call.args@);
            lemma_vals_of(args@);
        }
        let types = types_of(&args);
        proof {
            if plain {
                match self.pure_args(names0, vals0, &env0, lib@, thisv, call.args@) {
                    Some(Ok(vs)) => {
                        assert(types@ =~= types_of_vals(vs));
                    },
                    _ => {},
                }
            }
        }
        if call.namespace.path.len() > 0 {
            match self.search_imports(global, &call.namespace) {
                None => Err(EvalError::ModuleNotFound(join_namespace(&call.namespace), call.namespace.pos)),
                Some(m) => {
                    let fns = match m {
                        ModuleRef::Import(k) => &global.imports[k].1.functions,
                        ModuleRef::SubModule(k) => &self.global_sub_modules[k].1.functions,
                    };
                    proof {
                        lemma_last_index(crate::engine::native_keys(fns@), (call.name@, types@));
                        assert(fns.len() == fns@.len());
                    }
                    match crate::engine::find_native_fn(fns, &call.name, &types) {
                        Some(k) => fns[k].func.call(&mut args),
                        None => Err(EvalError::FunctionNotFound(fn_signature(&call.name, &args), call.pos)),
                    }
                },
            }
        } else {
            let resolved = caches.resolve(
                self,
                lib,
                &call.name,
                &types,
                call.is_native_operator,
                call.hash,
            );
            proof {
                lemma_resolve_fits(self, lib, call.name@, types@, call.is_native_operator, args@);
            }
            self.call_resolved(global, caches, lib, resolved, &call.name, args, call.pos)
        }
    }

    /// Call what a call resolved to.
    fn call_resolved(
        &self,
        global: &mut GlobalRuntimeState<F>,
        caches: &mut Caches,
        lib: &Vec<ScriptFnDef>,
        resolved: Resolved,
        name: &String,
        args: Vec<Dynamic>,
        pos: Position,
    ) -> (r: Result<Dynamic, EvalError>)
        requires
            old(caches).valid(self, lib@),
            old(global).num_operations <= self.max_operations,
            fits(self, lib@, resolved, args@),
        ensures
            final(caches).valid(self, lib@),
            self.counted(old(global), final(global)),
            resolved is NotFound ==> r is Err && r->Err_0@ == ErrVal::FunctionNotFound(
                signature_of(name@, vals_of(args@)),
                pos,
            ),
            resolved is Builtin || resolved is NotFound ==> final(global).num_operations == old(global).num_operations,
            (resolved is Native || resolved is ModuleNative) && r is Ok ==> !(over_limit(
                self.max_array_size,
                val_sizes(r->Ok_0@).0,
            ) || over_limit(self.max_map_size, val_sizes(r->Ok_0@).1) || over_limit(
                self.max_string_size,
                val_sizes(r->Ok_0@).2,
            )),
            resolved matches Resolved::Script(i) ==> match self.script_result(
                lib@[i as int],
                vals_of(args@),
                &env_of(old(global)),
                lib@,
                name@,
                pos,
            ) {
                Some(res) => final(global).num_operations <= old(global).num_operations + body_cost(
                    lib@[i as int],
                ) && outcome(
                    res,
                    r,
                    old(global).num_operations,
                    body_cost(lib@[i as int]),
                    self.max_operations,
                ),
                None => true,
            },
            resolved matches Resolved::Builtin(f) ==> match crate::builtin::binary_result(
                f.op,
                args@[0]@,
                args@[1]@,
            ) {
                Ok(v) => r is Ok && r->Ok_0@ == v,
                Err(e) => r is Err && r->Err_0@ == ErrVal::Arithmetic(e, pos),
            },
        decreases self.max_operations - old(global).num_operations, 3nat,
    {
        match resolved {
            Resolved::Builtin(f) => match f.call(&args[0], &args[1]) {
                Ok(v) => Ok(v),
                Err(e) => Err(EvalError::Arithmetic(e, pos)),
            },
            Resolved::Script(i) => {
                let def = &lib[i];
                let sig = fn_signature(name, &args);
                let ghost args0 = args@;
                let ghost vals0 = vals_of(args@);
                proof {
                    lemma_vals_of(args0);
                }
                let mut fscope = Scope::new();
                let mut args = args;
                let n = args.len();
                let mut k: usize = 0;
                proof {
                    assert(fscope.names() =~= param_names(*def).subrange(0, 0));
                    fscope.lemma_lens();
                    assert(fscope.vals() =~= vals0.subrange(0, 0));
                    assert(args@ =~= args0.subrange(0, n as int));
                }
                while k < n
                    invariant
                        fscope.wf(),
                        fscope.size() == k,
                        k <= n,
                        n == args0.len(),
                        args@ == args0.subrange(k as int, n as int),
                        def.params@.len() == n,
                        vals0 == vals_of(args0),
                        vals0.len() == n,
                        forall|j: int| 0 <= j < n ==> #[trigger] vals0[j] == args0[j]@,
                        fscope.names() == param_names(*def).subrange(0, k as int),
                        fscope.vals() == vals0.subrange(0, k as int),
                    decreases n - k,
                {
                    let a = args.remove(0);
                    proof {
                        assert(a == args0[k as int]);
                        assert(args@ =~= args0.subrange(k + 1, n as int));
                    }
                    fscope.push(def.params[k].clone(), a.flatten(), false);
                    proof {
                        assert(fscope.names() =~= param_names(*def).subrange(0, k + 1));
                        assert(fscope.vals() =~= vals0.subrange(0, k + 1));
                    }
                    k = k + 1;
                }
                proof {
                    assert(fscope.names() =~= param_names(*def));
                    assert(fscope.vals() =~= vals0);
                }
                let no_this: Option<Dynamic> = None;
                match self.eval_stmt_block(&mut fscope, global, caches, lib, &no_this, &def.body) {
                    Ok(v) => Ok(v),
                    Err(e) => Err(script_error_exec(&def.body, e, sig, pos)),
                }
            },
            Resolved::Native(i) => {
                let mut args = args;
                match self.functions[i].func.call(&mut args) {
                    Ok(v) => self.check_result(v, pos),
                    Err(e) => Err(e),
                }
            },
            Resolved::ModuleNative(m, j) => {
                let mut args = args;
                match self.global_modules[m].functions[j].func.call(&mut args) {
                    Ok(v) => self.check_result(v, pos),
                    Err(e) => Err(e),
                }
            },
            Resolved::NotFound => Err(EvalError::FunctionNotFound(fn_signature(name, &args), pos)),
        }
    }

    /// Apply an op-assignment (`+=`, ...) to `target`: the built-in cell
    /// where there is one, else the registered function of the operator.
    pub fn eval_op_assignment(
        &self,
        global: &mut GlobalRuntimeState<F>,
        caches: &mut Caches,
        lib: &Vec<ScriptFnDef>,
        target: &mut Dynamic,
        op: &String,
        rhs: Dynamic,
        pos: Position,
    ) -> (r: Result<(), EvalError>)
        requires
            old(caches).valid(self, lib@),
        ensures
            final(caches).valid(self, lib@),
            self.counted(old(global), final(global)),
            final(target).access == old(target).access,
            crate::builtin::op_assignment_fn(op@, old(target)@, rhs@) is Some
                ==> final(global).num_operations == old(global).num_operations,
            match crate::builtin::op_assignment_fn(op@, old(target)@, rhs@) {
                Some(f) => match crate::builtin::assign_result(f.op, old(target)@, rhs@) {
                    Ok(v) => r is Ok && final(target)@ == v,
                    Err(e) => r is Err && r->Err_0@ == ErrVal::Arithmetic(e, pos),
                },
                None => true,
            },
        decreases self.max_operations - old(global).num_operations, 4nat,
    {
        match get_builtin_op_assignment_fn(op.as_str(), target, &rhs) {
            Some(f) => match f.call(target, rhs) {
                Ok(()) => Ok(()),
                Err(e) => Err(EvalError::Arithmetic(e, pos)),
            },
            None => {
                let base = base_op_name(op);
                let mut args: Vec<Dynamic> = Vec::new();
                args.push(target.clone_value());
                args.push(rhs);
                let types = types_of(&args);
                if global.num_operations > self.max_operations {
                    return Err(EvalError::TooManyOperations(pos));
                }
                let resolved = caches.resolve(self, lib, &base, &types, true, 0);
                proof {
                    lemma_resolve_fits(self, lib, base@, types@, true, args@);
                }
                match self.call_resolved(global, caches, lib, resolved, &base, args, pos) {
                    Ok(v) => {
                        let access = target.access;
                        *target = v;
                        target.access = access;
                        Ok(())
                    },
                    Err(e) => Err(e),
                }
            },
        }
    }

    /// Evaluate a block of statements in a new lexical scope: the bindings
    /// it makes are dropped at its end, whether it succeeds or fails. Its
    /// value is that of its last statement.
    pub fn eval_stmt_block(
        &self,
        scope: &mut Scope,
        global: &mut GlobalRuntimeState<F>,
        caches: &mut Caches,
        lib: &Vec<ScriptFnDef>,
        this_ptr: &Option<Dynamic>,
        stmts: &Vec<Stmt>,
    ) -> (r: Result<Dynamic, EvalError>)
        requires
            old(scope).wf(),
            old(caches).valid(self, lib@),
        ensures
            final(scope).wf(),
            final(scope).names() == old(scope).names(),
            final(caches).valid(self, lib@),
            self.counted(old(global), final(global)),
            match single_expr(stmts@) {
                Some(e) => match self.pure_eval(
                    old(scope).names(),
                    old(scope).vals(),
                    &env_of(old(global)),
                    lib@,
                    this_view(this_ptr),
                    &e,
                ) {
                    Some(res) => {
                        &&& final(scope).vals() == old(scope).vals()
                        &&& final(global).num_operations <= old(global).num_operations + 1
                            + expr_size(&e)
                        &&& outcome(
                            res,
                            r,
                            old(global).num_operations,
                            1 + expr_size(&e),
                            self.max_operations,
                        )
                    },
                    None => true,
                },
                None => true,
            },
            stmts@.len() == 0 ==> (r is Ok && final(global).num_operations == old(
                global,
            ).num_operations) || (r is Err && r->Err_0 is TooManyOperations),
        decreases self.max_operations - old(global).num_operations, 2nat,
    {
        if global.num_operations > self.max_operations {
            let p = if stmts.len() > 0 {
                stmt_position(&stmts[0])
            } else {
                Position::none()
            };
            return Err(EvalError::TooManyOperations(p));
        }
        let ghost names0 = scope.names();
        let ghost vals0 = scope.vals();
        let ghost ops0 = global.num_operations;
        let ghost claim = match single_expr(stmts@) {
            Some(e) => self.pure_eval(
                names0,
                vals0,
                &env_of(old(global)),
                lib@,
                this_view(this_ptr),
                &e,
            ),
            None => None,
        };
        let len = scope.len();
        let mut last = Dynamic::unit();
        let mut i: usize = 0;
        while i < stmts.len()
            invariant
                scope.wf(),
                names0 == old(scope).names(),
                vals0 == old(scope).vals(),
                ops0 == old(global).num_operations,
                claim == match single_expr(stmts@) {
                    Some(e) => self.pure_eval(
                        names0,
                        vals0,
                        &env_of(old(global)),
                        lib@,
                        this_view(this_ptr),
                        &e,
                    ),
                    None => None,
                },
                len == names0.len(),
                scope.names().len() >= len,
                scope.names().subrange(0, len as int) == names0,
                caches.valid(self, lib@),
                self.counted(old(global), global),
                global.num_operations <= self.max_operations,
                i <= stmts@.len(),
                i == 0 ==> scope.vals() == vals0 && scope.names() == names0
                    && global.num_operations == ops0,
                claim is Some && i == 1 ==> {
                    &&& scope.names() == names0
                    &&& scope.vals() == vals0
                    &&& global.num_operations <= ops0 + 1 + expr_size(
                        &single_expr(stmts@)->Some_0,
                    )
                    &&& match claim->Some_0 {
                        Ok(v) => last@ == v,
                        Err(_) => false,
                    }
                },
            decreases stmts.len() - i,
        {
            match self.eval_stmt(scope, global, caches, lib, this_ptr, &stmts[i]) {
                Ok(v) => {
                    last = v;
                },
                Err(e) => {
                    proof {
                        scope.lemma_lens();
                        if scope.size() == len {
                            assert(scope.vals().subrange(0, len as int) =~= scope.vals());
                        }
                    }
                    scope.pop_to(len);
                    return Err(e);
                },
            }
            i = i + 1;
        }
        proof {
            scope.lemma_lens();
            if scope.size() == len {
                assert(scope.vals().subrange(0, len as int) =~= scope.vals());
            }
        }
        scope.pop_to(len);
        Ok(last)
    }

    /// Evaluate one statement. It may add bindings on top of the scope and
    /// leaves those below as they were named.
    pub fn eval_stmt(
        &self,
        scope: &mut Scope,
        global: &mut GlobalRuntimeState<F>,
        caches: &mut Caches,
        lib: &Vec<ScriptFnDef>,
        this_ptr: &Option<Dynamic>,
        stmt: &Stmt,
    ) -> (r: Result<Dynamic, EvalError>)
        requires
            old(scope).wf(),
            old(caches).valid(self, lib@),
        ensures
            final(scope).wf(),
            final(scope).names().len() >= old(scope).names().len(),
            final(scope).names().subrange(0, old(scope).names().len() as int) == old(
                scope,
            ).names(),
            final(caches).valid(self, lib@),
            self.counted(old(global), final(global)),
            r is Ok ==> final(global).num_operations > old(global).num_operations,
            match stmt {
                Stmt::Expr(e) => match self.pure_eval(
                    old(scope).names(),
                    old(scope).vals(),
                    &env_of(old(global)),
                    lib@,
                    this_view(this_ptr),
                    e,
                ) {
                    Some(res) => {
                        &&& final(scope).names() == old(scope).names()
                        &&& final(scope).vals() == old(scope).vals()
                        &&& final(global).num_operations <= old(global).num_operations + 1
                            + expr_size(e)
                        &&& outcome(
                            res,
                            r,
                            old(global).num_operations,
                            1 + expr_size(e),
                            self.max_operations,
                        )
                    },
                    None => true,
                },
                _ => true,
            },
            match stmt {
                Stmt::While(c, body, _) => constant_value(c) == Some(Val::Bool(true))
                    && body@.len() == 0 ==> r is Err && r->Err_0 is TooManyOperations,
                _ => true,
            },
        decreases self.max_operations - old(global).num_operations, 1nat,
    {
        match self.inc_operations(global, stmt_position(stmt)) {
            Err(e) => {
                return Err(e);
            },
            Ok(()) => {},
        }
        let ghost names0 = scope.names();
        proof {
            assert(names0.subrange(0, names0.len() as int) =~= names0);
        }
        match stmt {
            Stmt::Noop => Ok(Dynamic::unit()),
            Stmt::Expr(e) => self.eval_expr(scope, global, caches, lib, this_ptr, e),
            Stmt::Let(name, e, is_const, _) => {
                let v = match self.eval_expr(scope, global, caches, lib, this_ptr, e) {
                    Ok(v) => v.flatten(),
                    Err(e) => {
                        return Err(e);
                    },
                };
                scope.push(name.clone(), v, *is_const);
                proof {
                    assert(scope.names().subrange(0, names0.len() as int) =~= names0);
                }
                Ok(Dynamic::unit())
            },
            Stmt::Assign(name, e, pos) => {
                let v = match self.eval_expr(scope, global, caches, lib, this_ptr, e) {
                    Ok(v) => v.flatten(),
                    Err(e) => {
                        return Err(e);
                    },
                };
                proof {
                    crate::scope::lemma_last_index_of(scope.names(), name@);
                }
                match scope.get_index(name) {
                    None => Err(EvalError::VariableNotFound(name.clone(), *pos)),
                    Some((i, mode)) => {
                        if mode == AccessMode::ReadOnly {
                            Err(EvalError::AssignmentToConstant(name.clone(), *pos))
                        } else {
                            let mut v = v;
                            v.access = AccessMode::ReadWrite;
                            scope.swap_value(i, &mut v);
                            Ok(Dynamic::unit())
                        }
                    },
                }
            },
            Stmt::OpAssign(name, op, e, pos) => {
                let v = match self.eval_expr(scope, global, caches, lib, this_ptr, e) {
                    Ok(v) => v.flatten(),
                    Err(e) => {
                        return Err(e);
                    },
                };
                proof {
                    crate::scope::lemma_last_index_of(scope.names(), name@);
                }
                match scope.get_index(name) {
                    None => Err(EvalError::VariableNotFound(name.clone(), *pos)),
                    Some((i, mode)) => {
                        if mode == AccessMode::ReadOnly {
                            Err(EvalError::AssignmentToConstant(name.clone(), *pos))
                        } else {
                            let mut cur = Dynamic::unit();
                            scope.swap_value(i, &mut cur);
                            let r = self.eval_op_assignment(global, caches, lib, &mut cur, op, v, *pos);
                            scope.swap_value(i, &mut cur);
                            match r {
                                Ok(()) => Ok(Dynamic::unit()),
                                Err(e) => Err(e),
                            }
                        }
                    },
                }
            },
            Stmt::If(c, then_block, else_block, _) => {
                let cv = match self.eval_expr(scope, global, caches, lib, this_ptr, c) {
                    Ok(v) => v,
                    Err(e) => {
                        return Err(e);
                    },
                };
                match cv.as_bool() {
                    Ok(true) => self.eval_stmt_block(scope, global, caches, lib, this_ptr, then_block),
                    Ok(false) => self.eval_stmt_block(scope, global, caches, lib, this_ptr, else_block),
                    Err(t) => Err(EvalError::TypeMismatch(String::from_str("bool"), t, c.position())),
                }
            },
            Stmt::While(c, body, _) => {
                loop
                    invariant
                        scope.wf(),
                        names0 == old(scope).names(),
                        scope.names() == names0,
                        caches.valid(self, lib@),
                        self.counted(old(global), global),
                        old(global).num_operations < global.num_operations,
                        global.num_operations <= self.max_operations,
                        stmt is While,
                        stmt->While_0 == *c,
                        stmt->While_1 == *body,
                    ensures
                        constant_value(c) != Some(Val::Bool(true)),
                    decreases self.max_operations - global.num_operations,
                {
                    let cv = match self.eval_expr(scope, global, caches, lib, this_ptr, c) {
                        Ok(v) => v,
                        Err(e) => {
                            return Err(e);
                        },
                    };
                    let b = match cv.as_bool() {
                        Ok(b) => b,
                        Err(t) => {
                            return Err(
                                EvalError::TypeMismatch(String::from_str("bool"), t, c.position()),
                            );
                        },
                    };
                    if !b {
                        break;
                    }
                    match self.eval_stmt_block(scope, global, caches, lib, this_ptr, body) {
                        Ok(_) => {},
                        Err(e) => {
                            return Err(e);
                        },
                    }
                }
                Ok(Dynamic::unit())
            },
            Stmt::For(name, e, body, pos) => {
                let iv = match self.eval_expr(scope, global, caches, lib, this_ptr, e) {
                    Ok(v) => v,
                    Err(e) => {
                        return Err(e);
                    },
                };
                let (start, end, inclusive) = match &iv.value {
                    Union::Range(a, b) => (*a, *b, false),
                    Union::RangeInclusive(a, b) => (*a, *b, true),
                    _ => {
                        return Err(
                            EvalError::TypeMismatch(
                                String::from_str("range"),
                                iv.name_of_type_str(),
                                e.position(),
                            ),
                        );
                    },
                };
                let len = scope.len();
                let mut i = start;
                loop
                    invariant
                        scope.wf(),
                        names0 == old(scope).names(),
                        scope.names() == names0,
                        len == names0.len(),
                        caches.valid(self, lib@),
                        self.counted(old(global), global),
                        old(global).num_operations < global.num_operations,
                        global.num_operations <= self.max_operations,
                        stmt is For,
                    decreases self.max_operations - global.num_operations,
                {
                    let more = if inclusive {
                        i <= end
                    } else {
                        i < end
                    };
                    if !more {
                        break;
                    }
                    match self.inc_operations(global, *pos) {
                        Err(e) => {
                            return Err(e);
                        },
                        Ok(()) => {},
                    }
                    scope.push(name.clone(), Dynamic::from_int(i), false);
                    let r = self.eval_stmt_block(scope, global, caches, lib, this_ptr, body);
                    scope.pop_to(len);
                    proof {
                        assert(scope.names() =~= names0);
                    }
                    match r {
                        Err(e) => {
                            return Err(e);
                        },
                        Ok(_) => {},
                    }
                    if i == i64::MAX {
                        break;
                    }
                    i = i + 1;
                }
                Ok(Dynamic::unit())
            },
        }
    }
}


impl<F: PluginFunction, R: VariableResolver> Engine<F, R> {
    /// Evaluate a script's statements in `scope`, with a fresh evaluation
    /// state and cache; the bindings the script makes are dropped at its
    /// end.
    pub fn eval_ast_with_scope(&self, scope: &mut Scope, ast: &crate::ast::AST) -> (r: Result<
        Dynamic,
        EvalError,
    >)
        requires
            old(scope).wf(),
        ensures
            final(scope).wf(),
            final(scope).names() == old(scope).names(),
    {
        let mut global: GlobalRuntimeState<F> = GlobalRuntimeState::new();
        let mut caches = Caches::new();
        proof {
            caches.lemma_empty_valid(self, ast.lib@);
        }
        let no_this: Option<Dynamic> = None;
        self.eval_stmt_block(scope, &mut global, &mut caches, &ast.lib, &no_this, &ast.statements)
    }

    /// Evaluate a script's statements in an empty scope.
    pub fn eval_ast(&self, ast: &crate::ast::AST) -> (r: Result<Dynamic, EvalError>) {
        let mut scope = Scope::new();
        self.eval_ast_with_scope(&mut scope, ast)
    }
}

} // verus!
