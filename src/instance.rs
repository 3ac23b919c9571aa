//! Instances: a compiled module bound to resolved imports, with the exports
//! taken from its native handle.

use vstd::prelude::*;
use std::sync::Arc;

verus! {

/// The type of an external value.
#[derive(Debug, Clone, Copy, PartialEq, Eq, Structural)]
pub enum ExternType {
    /// A function of the signature with this index.
    Function { sig: u32 },
    /// A linear memory of at least `minimum` pages.
    Memory { minimum: u32 },
    /// A table of at least `minimum` elements.
    Table { minimum: u32 },
    /// A global of value type `ty`.
    Global { ty: u32, mutable: bool },
}

/// A value of type `found` satisfies a declaration of type `declared`: the
/// same kind, the same signature or global type, and for memories and
/// tables at least the declared minimum.
pub open spec fn compatible(found: ExternType, declared: ExternType) -> bool {
    match (found, declared) {
        (ExternType::Function { sig: a }, ExternType::Function { sig: b }) => a == b,
        (ExternType::Memory { minimum: a }, ExternType::Memory { minimum: b }) => a >= b,
        (ExternType::Table { minimum: a }, ExternType::Table { minimum: b }) => a >= b,
        (ExternType::Global { ty: a, mutable: m }, ExternType::Global { ty: b, mutable: n }) => a
            == b && m == n,
        _ => false,
    }
}

/// Decide `compatible(found, declared)`.
pub fn is_compatible(found: ExternType, declared: ExternType) -> (r: bool)
    ensures
        r == compatible(found, declared),
{
    match (found, declared) {
        (ExternType::Function { sig: a }, ExternType::Function { sig: b }) => a == b,
        (ExternType::Memory { minimum: a }, ExternType::Memory { minimum: b }) => a >= b,
        (ExternType::Table { minimum: a }, ExternType::Table { minimum: b }) => a >= b,
        (ExternType::Global { ty: a, mutable: m }, ExternType::Global { ty: b, mutable: n }) => a
            == b && m == n,
        _ => false,
    }
}

/// An external value: its type and its index in the store that owns it.
#[derive(Debug, Clone, Copy, PartialEq, Eq, Structural)]
pub struct Extern {
    pub ty: ExternType,
    pub handle: u64,
}

/// One import that a module declares.
#[derive(Debug)]
pub struct ImportDecl {
    pub module: String,
    pub name: String,
    pub ty: ExternType,
}

/// Where an export lives: the `i`-th resolved import, or the `i`-th entity
/// that the native handle defines.
#[derive(Debug, Clone, Copy, PartialEq, Eq, Structural)]
pub enum ExportIndex {
    Import(u32),
    Local(u32),
}

/// One export that a module declares.
#[derive(Debug)]
pub struct ExportDecl {
    pub name: String,
    pub index: ExportIndex,
}

/// A compiled module: what it imports, how many entities it defines, and
/// what it exports.
#[derive(Debug)]
pub struct Module {
    pub imports: Vec<ImportDecl>,
    pub n_locals: usize,
    pub exports: Vec<ExportDecl>,
}

impl Module {
    /// Each export names a declared import or a defined entity.
    pub open spec fn wf(&self) -> bool {
        exports_in_range(self.exports@, self.imports@.len(), self.n_locals as nat)
    }
}

/// A native handle that the engine made for one instantiation: the entities
/// it defines, in the module's order.
#[derive(Debug)]
pub struct NativeHandle {
    pub id: u64,
    pub locals: Vec<Extern>,
}

/// Why an import could not be resolved.
#[derive(Debug, Clone, PartialEq, Eq)]
pub enum LinkError {
    /// Nothing is bound under this module and name.
    Missing { module: String, name: String },
    /// What is bound there has the wrong type.
    Mismatch { module: String, name: String, expected: ExternType, found: ExternType },
}

/// Why an instance could not be made.
#[derive(Debug, Clone, PartialEq, Eq)]
pub enum InstantiationError {
    /// An import is missing or has the wrong type.
    Link(LinkError),
    /// The start function trapped.
    Start(String),
    /// The host lacks a processor feature the module was compiled for.
    CpuFeature(String),
    /// A host environment could not be initialized.
    HostEnvInitialization(String),
}

/// A binding of one module and name to a value.
#[derive(Debug)]
pub struct Import {
    pub module: String,
    pub name: String,
    pub value: Extern,
}

/// The key of a binding or a declaration.
pub type ImportKey = (Seq<char>, Seq<char>);

/// The value bound under `key` in `s`: the latest binding wins.
pub open spec fn find_import(s: Seq<Import>, key: ImportKey) -> Option<Extern>
    decreases s.len(),
{
    if s.len() == 0 {
        None
    } else if (s.last().module@, s.last().name@) == key {
        Some(s.last().value)
    } else {
        find_import(s.drop_last(), key)
    }
}

/// Values bound under a module name and a field name.
#[derive(Debug)]
pub struct Imports {
    entries: Vec<Import>,
}

impl View for Imports {
    type V = Seq<Import>;

    closed spec fn view(&self) -> Seq<Import> {
        self.entries@
    }
}

impl Imports {
    /// No bindings.
    pub fn new() -> (r: Imports)
        ensures
            forall|k: ImportKey| find_import(r@, k) is None,
    {
        Imports { entries: Vec::new() }
    }

    /// Bind `value` under `module` and `name`; it takes the place of any
    /// earlier binding under that key.
    pub fn define(&mut self, module: &str, name: &str, value: Extern)
        ensures
            find_import(final(self)@, (module@, name@)) == Some(value),
            forall|k: ImportKey| k != (module@, name@) ==> find_import(final(self)@, k)
                == find_import(old(self)@, k),
    {
        self.entries.push(Import { module: module.to_owned(), name: name.to_owned(), value });
        proof {
            assert(self.entries@.drop_last() =~= old(self).entries@);
        }
    }

    /// The value bound under `module` and `name`.
    pub fn get(&self, module: &String, name: &String) -> (r: Option<Extern>)
        ensures
            r == find_import(self@, (module@, name@)),
    {
        let mut i: usize = self.entries.len();
        proof {
            assert(self@.take(i as int) =~= self@);
        }
        while i > 0
            invariant
                i <= self.entries@.len(),
                find_import(self@, (module@, name@)) == find_import(self@.take(i as int), (module@, name@)),
            decreases i,
        {
            let e = &self.entries[i - 1];
            proof {
                assert(self@.take(i as int).drop_last() =~= self@.take(i - 1));
                assert(self@.take(i as int).last() == self@[i - 1]);
            }
            let same_module = e.module == *module;
            let same_name = e.name == *name;
            if same_module && same_name {
                return Some(e.value);
            }
            i = i - 1;
        }
        None
    }
}

/// The key a declaration is resolved under.
pub open spec fn decl_key(d: ImportDecl) -> ImportKey {
    (d.module@, d.name@)
}

/// The values that `imports` gives the declarations `decls`, in order, or
/// the error for the first that it cannot satisfy.
pub open spec fn resolve_spec(decls: Seq<ImportDecl>, imports: Seq<Import>) -> Result<
    Seq<Extern>,
    LinkError,
>
    decreases decls.len(),
{
    if decls.len() == 0 {
        Ok(Seq::empty())
    } else {
        match resolve_spec(decls.drop_last(), imports) {
            Err(e) => Err(e),
            Ok(prefix) => {
                let d = decls.last();
                match find_import(imports, decl_key(d)) {
                    None => Err(LinkError::Missing { module: d.module, name: d.name }),
                    Some(v) => if compatible(v.ty, d.ty) {
                        Ok(prefix.push(v))
                    } else {
                        Err(
                            LinkError::Mismatch {
                                module: d.module,
                                name: d.name,
                                expected: d.ty,
                                found: v.ty,
                            },
                        )
                    },
                }
            },
        }
    }
}

/// Every declaration of `decls` has a compatible value in `imports`.
pub open spec fn all_resolvable(decls: Seq<ImportDecl>, imports: Seq<Import>) -> bool {
    forall|i: int|
        0 <= i < decls.len() ==> {
            let found = #[trigger] find_import(imports, decl_key(decls[i]));
            found is Some && compatible(found->Some_0.ty, decls[i].ty)
        }
}

/// Resolution fails exactly where some declaration has no value, or a value
/// of the wrong type; where it succeeds, each declaration gets the value
/// bound under its key.
pub proof fn lemma_resolve_fails_iff_unresolvable(decls: Seq<ImportDecl>, imports: Seq<Import>)
    ensures
        resolve_spec(decls, imports) is Ok <==> all_resolvable(decls, imports),
        resolve_spec(decls, imports) is Ok ==> {
            let vals = resolve_spec(decls, imports)->Ok_0;
            &&& vals.len() == decls.len()
            &&& forall|i: int|
                0 <= i < decls.len() ==> Some(#[trigger] vals[i]) == find_import(
                    imports,
                    decl_key(decls[i]),
                )
        },
    decreases decls.len(),
{
    if decls.len() > 0 {
        let p = decls.drop_last();
        lemma_resolve_fails_iff_unresolvable(p, imports);
        if all_resolvable(decls, imports) {
            assert forall|i: int| 0 <= i < p.len() implies {
                let found = #[trigger] find_import(imports, decl_key(p[i]));
                found is Some && compatible(found->Some_0.ty, p[i].ty)
            } by {
                assert(p[i] == decls[i]);
                assert(find_import(imports, decl_key(decls[i])) == find_import(imports, decl_key(p[i])));
            }
        }
        if resolve_spec(decls, imports) is Ok {
            let vals = resolve_spec(decls, imports)->Ok_0;
            assert forall|i: int| 0 <= i < decls.len() implies {
                let found = #[trigger] find_import(imports, decl_key(decls[i]));
                found is Some && compatible(found->Some_0.ty, decls[i].ty)
            } by {
                if i < p.len() {
                    assert(p[i] == decls[i]);
                }
            }
        }
        if !all_resolvable(p, imports) {
            let i = choose|i: int| 0 <= i < p.len() && !({
                let found = #[trigger] find_import(imports, decl_key(p[i]));
                found is Some && compatible(found->Some_0.ty, p[i].ty)
            });
            assert(p[i] == decls[i]);
        }
    }
}

/// Resolve each import that `decls` declares against `imports`, in order.
pub fn resolve_imports(decls: &Vec<ImportDecl>, imports: &Imports) -> (r: Result<
    Vec<Extern>,
    LinkError,
>)
    ensures
        match resolve_spec(decls@, imports@) {
            Ok(vals) => r is Ok && r->Ok_0@ == vals,
            Err(e) => r == Err::<Vec<Extern>, LinkError>(e),
        },
{
    let mut out: Vec<Extern> = Vec::new();
    let mut i: usize = 0;
    while i < decls.len()
        invariant
            i <= decls@.len(),
            resolve_spec(decls@.take(i as int), imports@) == Ok::<Seq<Extern>, LinkError>(out@),
        decreases decls@.len() - i,
    {
        let d = &decls[i];
        proof {
            assert(decls@.take(i + 1).drop_last() =~= decls@.take(i as int));
            assert(decls@.take(i + 1).last() == d);
        }
        match imports.get(&d.module, &d.name) {
            None => {
                let e = LinkError::Missing { module: d.module.clone(), name: d.name.clone() };
                proof {
                    lemma_resolve_error_persists(decls@, imports@, i + 1);
                }
                return Err(e);
            },
            Some(v) => {
                if !is_compatible(v.ty, d.ty) {
                    let e = LinkError::Mismatch {
                        module: d.module.clone(),
                        name: d.name.clone(),
                        expected: d.ty,
                        found: v.ty,
                    };
                    proof {
                        lemma_resolve_error_persists(decls@, imports@, i + 1);
                    }
                    return Err(e);
                }
                out.push(v);
            },
        }
        i = i + 1;
    }
    proof {
        assert(decls@.take(i as int) =~= decls@);
    }
    Ok(out)
}

/// Once a prefix of the declarations fails, all of them fail the same way.
proof fn lemma_resolve_error_persists(decls: Seq<ImportDecl>, imports: Seq<Import>, n: int)
    requires
        0 <= n <= decls.len(),
        resolve_spec(decls.take(n), imports) is Err,
    ensures
        resolve_spec(decls, imports) == resolve_spec(decls.take(n), imports),
    decreases decls.len() - n,
{
    if n < decls.len() {
        assert(decls.take(n + 1).drop_last() =~= decls.take(n));
        lemma_resolve_error_persists(decls, imports, n + 1);
    } else {
        assert(decls.take(n) =~= decls);
    }
}

/// The values `externs` gives the declarations `decls` by position, or the
/// error for the first declaration that has no value or a value of the wrong
/// type. Values past the declarations are not used.
pub open spec fn resolve_by_index_spec(decls: Seq<ImportDecl>, externs: Seq<Extern>) -> Result<
    Seq<Extern>,
    LinkError,
>
    decreases decls.len(),
{
    if decls.len() == 0 {
        Ok(Seq::empty())
    } else {
        match resolve_by_index_spec(decls.drop_last(), externs) {
            Err(e) => Err(e),
            Ok(prefix) => {
                let i = decls.len() - 1;
                let d = decls[i];
                if i >= externs.len() {
                    Err(LinkError::Missing { module: d.module, name: d.name })
                } else if compatible(externs[i].ty, d.ty) {
                    Ok(prefix.push(externs[i]))
                } else {
                    Err(
                        LinkError::Mismatch {
                            module: d.module,
                            name: d.name,
                            expected: d.ty,
                            found: externs[i].ty,
                        },
                    )
                }
            },
        }
    }
}

/// Once a prefix of the declarations fails positionally, all of them fail
/// the same way.
proof fn lemma_by_index_error_persists(decls: Seq<ImportDecl>, externs: Seq<Extern>, n: int)
    requires
        0 <= n <= decls.len(),
        resolve_by_index_spec(decls.take(n), externs) is Err,
    ensures
        resolve_by_index_spec(decls, externs) == resolve_by_index_spec(decls.take(n), externs),
    decreases decls.len() - n,
{
    if n < decls.len() {
        assert(decls.take(n + 1).drop_last() =~= decls.take(n));
        lemma_by_index_error_persists(decls, externs, n + 1);
    } else {
        assert(decls.take(n) =~= decls);
    }
}

/// A positional resolution gives one value per declaration.
proof fn lemma_by_index_len(decls: Seq<ImportDecl>, externs: Seq<Extern>)
    ensures
        resolve_by_index_spec(decls, externs) is Ok ==> resolve_by_index_spec(decls, externs)->Ok_0.len()
            == decls.len(),
    decreases decls.len(),
{
    if decls.len() > 0 {
        lemma_by_index_len(decls.drop_last(), externs);
    }
}

/// Resolve the declarations `decls` against `externs` by position.
pub fn resolve_by_index(decls: &Vec<ImportDecl>, externs: &[Extern]) -> (r: Result<
    Vec<Extern>,
    LinkError,
>)
    ensures
        match resolve_by_index_spec(decls@, externs@) {
            Ok(vals) => r is Ok && r->Ok_0@ == vals,
            Err(e) => r == Err::<Vec<Extern>, LinkError>(e),
        },
{
    let mut out: Vec<Extern> = Vec::new();
    let mut i: usize = 0;
    while i < decls.len()
        invariant
            i <= decls@.len(),
            resolve_by_index_spec(decls@.take(i as int), externs@) == Ok::<Seq<Extern>, LinkError>(
                out@,
            ),
        decreases decls@.len() - i,
    {
        let d = &decls[i];
        proof {
            assert(decls@.take(i + 1).drop_last() =~= decls@.take(i as int));
            assert(decls@.take(i + 1)[i as int] == d);
        }
        if i >= externs.len() {
            let e = LinkError::Missing { module: d.module.clone(), name: d.name.clone() };
            proof {
                lemma_by_index_error_persists(decls@, externs@, i + 1);
            }
            return Err(e);
        }
        let v = externs[i];
        if !is_compatible(v.ty, d.ty) {
            let e = LinkError::Mismatch {
                module: d.module.clone(),
                name: d.name.clone(),
                expected: d.ty,
                found: v.ty,
            };
            proof {
                lemma_by_index_error_persists(decls@, externs@, i + 1);
            }
            return Err(e);
        }
        out.push(v);
        i = i + 1;
    }
    proof {
        assert(decls@.take(i as int) =~= decls@);
    }
    Ok(out)
}

/// Each export names a resolved import or an entity the handle defines.
pub open spec fn exports_in_range(exports: Seq<ExportDecl>, n_imports: nat, n_locals: nat) -> bool {
    forall|k: int|
        0 <= k < exports.len() ==> match (#[trigger] exports[k]).index {
            ExportIndex::Import(i) => i < n_imports,
            ExportIndex::Local(i) => i < n_locals,
        }
}

/// The value an export of index `idx` stands for.
pub open spec fn export_value(idx: ExportIndex, resolved: Seq<Extern>, locals: Seq<Extern>) -> Extern {
    match idx {
        ExportIndex::Import(i) => resolved[i as int],
        ExportIndex::Local(i) => locals[i as int],
    }
}

/// The exports of an instance: each declared name with its value.
pub open spec fn exports_spec(exports: Seq<ExportDecl>, resolved: Seq<Extern>, locals: Seq<Extern>) -> Seq<
    (Seq<char>, Extern),
> {
    Seq::new(exports.len(), |k: int| (exports[k].name@, export_value(exports[k].index, resolved, locals)))
}

/// Exported names as character sequences, with their values.
pub open spec fn named(v: Seq<(String, Extern)>) -> Seq<(Seq<char>, Extern)> {
    Seq::new(v.len(), |i: int| (v[i].0@, v[i].1))
}

/// Take each export that the module declares from the resolved imports or
/// from the handle.
fn get_exports(exports: &Vec<ExportDecl>, resolved: &Vec<Extern>, locals: &Vec<Extern>) -> (r: Vec<
    (String, Extern),
>)
    requires
        exports_in_range(exports@, resolved@.len(), locals@.len()),
    ensures
        named(r@) == exports_spec(exports@, resolved@, locals@),
{
    let mut out: Vec<(String, Extern)> = Vec::new();
    let mut k: usize = 0;
    while k < exports.len()
        invariant
            k <= exports@.len(),
            exports_in_range(exports@, resolved@.len(), locals@.len()),
            out@.len() == k,
            named(out@) == exports_spec(exports@, resolved@, locals@).take(k as int),
        decreases exports@.len() - k,
    {
        let e = &exports[k];
        let value = match e.index {
            ExportIndex::Import(i) => resolved[i as usize],
            ExportIndex::Local(i) => locals[i as usize],
        };
        let ghost prev = out@;
        let name = e.name.clone();
        out.push((name, value));
        proof {
            let want = exports_spec(exports@, resolved@, locals@);
            assert forall|j: int| 0 <= j < k + 1 implies named(out@)[j] == want.take(k + 1)[j] by {
                if j < k {
                    assert(out@[j] == prev[j]);
                    assert(named(prev)[j] == want.take(k as int)[j]);
                }
            }
            assert(named(out@) =~= want.take(k + 1));
        }
        k = k + 1;
    }
    proof {
        assert(exports_spec(exports@, resolved@, locals@).take(k as int) =~= exports_spec(exports@, resolved@, locals@));
    }
    out
}

/// An instance as plain values: its resolved imports, its native handle and
/// the entities that defines, and its exports.
pub ghost struct InstanceModel {
    pub imports: Seq<Extern>,
    pub handle: u64,
    pub locals: Seq<Extern>,
    pub exports: Seq<(Seq<char>, Extern)>,
}

/// A module bound to resolved imports through a native handle, with the
/// exports taken from them. Built once; only duplicated afterwards.
#[derive(Debug)]
pub struct Instance {
    module: Arc<Module>,
    imports: Vec<Extern>,
    handle: NativeHandle,
    exports: Vec<(String, Extern)>,
}

impl View for Instance {
    type V = InstanceModel;

    closed spec fn view(&self) -> InstanceModel {
        InstanceModel {
            imports: self.imports@,
            handle: self.handle.id,
            locals: self.handle.locals@,
            exports: named(self.exports@),
        }
    }
}

/// What an instance of `module` bound to `vals` through `handle` is.
pub open spec fn instance_of(module: Module, vals: Seq<Extern>, handle: NativeHandle) -> InstanceModel {
    InstanceModel {
        imports: vals,
        handle: handle.id,
        locals: handle.locals@,
        exports: exports_spec(module.exports@, vals, handle.locals@),
    }
}

impl Instance {
    /// The module this instance was made from.
    pub closed spec fn spec_module(&self) -> Module {
        *self.module
    }

    /// The native handle of this instance.
    pub closed spec fn spec_handle(&self) -> NativeHandle {
        self.handle
    }

    /// Instantiate `module` with `imports`: resolve every declared import,
    /// have the engine make a native handle for the resolved values, take
    /// the exports, and initialize the host environments against the new
    /// instance. Any failure discards everything made so far.
    pub fn new<I, H>(module: Arc<Module>, imports: &Imports, instantiate: I, init_host_envs: H) -> (r:
        Result<Instance, InstantiationError>) where
        I: Fn(&Vec<Extern>) -> Result<NativeHandle, InstantiationError>,
        H: Fn(&Instance) -> Result<(), String>,

        requires
            module.wf(),
            forall|v: &Vec<Extern>| #[trigger] instantiate.requires((v,)),
            forall|i: &Instance| #[trigger] init_host_envs.requires((i,)),
            forall|v: &Vec<Extern>, h: Result<NativeHandle, InstantiationError>|
                #[trigger] instantiate.ensures((v,), h) ==> match h {
                    Ok(handle) => handle.locals@.len() == module.n_locals,
                    Err(e) => !(e is Link),
                },
        ensures
            (r is Err && r->Err_0 is Link) <==> !all_resolvable(module.imports@, imports@),
            match resolve_spec(module.imports@, imports@) {
                Err(e) => r == Err::<Instance, InstantiationError>(InstantiationError::Link(e)),
                Ok(vals) => match r {
                    Ok(inst) => {
                        &&& inst.spec_module() == *module
                        &&& exists|v: &Vec<Extern>, h: NativeHandle|
                            v@ == vals && #[trigger] instantiate.ensures(
                                (v,),
                                Ok::<NativeHandle, InstantiationError>(h),
                            ) && inst@ == instance_of(*module, vals, h)
                        &&& init_host_envs.ensures((&inst,), Ok::<(), String>(()))
                    },
                    Err(e) => (exists|v: &Vec<Extern>|
                        v@ == vals && #[trigger] instantiate.ensures(
                            (v,),
                            Err::<NativeHandle, InstantiationError>(e),
                        )) || (e is HostEnvInitialization && exists|i: &Instance|
                        #[trigger] init_host_envs.ensures(
                            (i,),
                            Err::<(), String>(e->HostEnvInitialization_0),
                        )),
                },
            },
    {
        proof {
            lemma_resolve_fails_iff_unresolvable(module.imports@, imports@);
        }
        let vals = match resolve_imports(&module.imports, imports) {
            Ok(vals) => vals,
            Err(e) => return Err(InstantiationError::Link(e)),
        };
        let handle = match instantiate(&vals) {
            Ok(h) => h,
            Err(e) => return Err(e),
        };
        Self::finish(module, vals, handle, init_host_envs)
    }

    /// Instantiate `module` with `externs` given in the order the imports are
    /// declared, rather than by name. Otherwise as `new`.
    pub fn new_by_index<I, H>(module: Arc<Module>, externs: &[Extern], instantiate: I, init_host_envs: H) -> (r:
        Result<Instance, InstantiationError>) where
        I: Fn(&Vec<Extern>) -> Result<NativeHandle, InstantiationError>,
        H: Fn(&Instance) -> Result<(), String>,

        requires
            module.wf(),
            forall|v: &Vec<Extern>| #[trigger] instantiate.requires((v,)),
            forall|i: &Instance| #[trigger] init_host_envs.requires((i,)),
            forall|v: &Vec<Extern>, h: Result<NativeHandle, InstantiationError>|
                #[trigger] instantiate.ensures((v,), h) ==> match h {
                    Ok(handle) => handle.locals@.len() == module.n_locals,
                    Err(e) => !(e is Link),
                },
        ensures
            (r is Err && r->Err_0 is Link) <==> resolve_by_index_spec(module.imports@, externs@) is Err,
            match resolve_by_index_spec(module.imports@, externs@) {
                Err(e) => r == Err::<Instance, InstantiationError>(InstantiationError::Link(e)),
                Ok(vals) => match r {
                    Ok(inst) => {
                        &&& inst.spec_module() == *module
                        &&& exists|v: &Vec<Extern>, h: NativeHandle|
                            v@ == vals && #[trigger] instantiate.ensures(
                                (v,),
                                Ok::<NativeHandle, InstantiationError>(h),
                            ) && inst@ == instance_of(*module, vals, h)
                        &&& init_host_envs.ensures((&inst,), Ok::<(), String>(()))
                    },
                    Err(e) => (exists|v: &Vec<Extern>|
                        v@ == vals && #[trigger] instantiate.ensures(
                            (v,),
                            Err::<NativeHandle, InstantiationError>(e),
                        )) || (e is HostEnvInitialization && exists|i: &Instance|
                        #[trigger] init_host_envs.ensures(
                            (i,),
                            Err::<(), String>(e->HostEnvInitialization_0),
                        )),
                },
            },
    {
        let vals = match resolve_by_index(&module.imports, externs) {
            Ok(vals) => vals,
            Err(e) => return Err(InstantiationError::Link(e)),
        };
        proof {
            lemma_by_index_len(module.imports@, externs@);
        }
        let handle = match instantiate(&vals) {
            Ok(h) => h,
            Err(e) => return Err(e),
        };
        Self::finish(module, vals, handle, init_host_envs)
    }

    /// Build the instance around `handle` and initialize its host
    /// environments.
    fn finish<H>(module: Arc<Module>, vals: Vec<Extern>, handle: NativeHandle, init_host_envs: H) -> (r:
        Result<Instance, InstantiationError>) where H: Fn(&Instance) -> Result<(), String>,
        requires
            module.wf(),
            vals@.len() == module.imports@.len(),
            handle.locals@.len() == module.n_locals,
            forall|i: &Instance| #[trigger] init_host_envs.requires((i,)),
        ensures
            r is Ok ==> r->Ok_0.spec_module() == *module,
            r is Ok ==> r->Ok_0@ == instance_of(*module, vals@, handle),
            r is Ok ==> init_host_envs.ensures((&r->Ok_0,), Ok::<(), String>(())),
            r is Err ==> r->Err_0 is HostEnvInitialization,
            r is Err ==> exists|i: &Instance|
                #[trigger] init_host_envs.ensures(
                    (i,),
                    Err::<(), String>(r->Err_0->HostEnvInitialization_0),
                ),
    {
        let exports = get_exports(&module.exports, &vals, &handle.locals);
        let instance = Instance { module, imports: vals, handle, exports };
        let outcome = init_host_envs(&instance);
        match outcome {
            Ok(u) => {
                let ghost unit: () = u;
                assert(unit == ());
                Ok(instance)
            },
            Err(msg) => {
                assert(init_host_envs.ensures((&instance,), Err::<(), String>(msg)));
                assert(exists|i: &Instance| #[trigger] init_host_envs.ensures((i,), Err::<(), String>(msg)));
                let r = Err(InstantiationError::HostEnvInitialization(msg));
                assert(r->Err_0->HostEnvInitialization_0 == msg);
                r
            },
        }
    }

    /// Make an independent sibling of this instance bound to `imports`:
    /// resolve them against the same module, have the engine duplicate the
    /// native handle over the resolved values (memories copied on write,
    /// data re-applied to the copy only), take the exports, and initialize
    /// the host environments against the sibling. This instance is left as
    /// it was.
    pub fn duplicate<D, H>(&self, imports: &Imports, duplicate_handle: D, init_host_envs: H) -> (r:
        Result<Instance, InstantiationError>) where
        D: Fn(&NativeHandle, &Vec<Extern>) -> NativeHandle,
        H: Fn(&Instance) -> Result<(), String>,

        requires
            self.spec_module().wf(),
            forall|s: &NativeHandle, v: &Vec<Extern>| #[trigger] duplicate_handle.requires((s, v)),
            forall|i: &Instance| #[trigger] init_host_envs.requires((i,)),
            forall|s: &NativeHandle, v: &Vec<Extern>, h: NativeHandle|
                #[trigger] duplicate_handle.ensures((s, v), h) ==> h.locals@.len()
                    == self.spec_module().n_locals,
        ensures
            (r is Err && r->Err_0 is Link) <==> !all_resolvable(
                self.spec_module().imports@,
                imports@,
            ),
            match resolve_spec(self.spec_module().imports@, imports@) {
                Err(e) => r == Err::<Instance, InstantiationError>(InstantiationError::Link(e)),
                Ok(vals) => match r {
                    Ok(inst) => {
                        &&& inst.spec_module() == self.spec_module()
                        &&& exists|v: &Vec<Extern>, h: NativeHandle|
                            v@ == vals && #[trigger] duplicate_handle.ensures((&self.spec_handle(), v), h)
                                && inst@ == instance_of(self.spec_module(), vals, h)
                        &&& init_host_envs.ensures((&inst,), Ok::<(), String>(()))
                    },
                    Err(e) => e is HostEnvInitialization && exists|i: &Instance|
                        #[trigger] init_host_envs.ensures(
                            (i,),
                            Err::<(), String>(e->HostEnvInitialization_0),
                        ),
                },
            },
    {
        proof {
            lemma_resolve_fails_iff_unresolvable(self.module.imports@, imports@);
        }
        let vals = match resolve_imports(&self.module.imports, imports) {
            Ok(vals) => vals,
            Err(e) => return Err(InstantiationError::Link(e)),
        };
        let handle = duplicate_handle(&self.handle, &vals);
        assert(duplicate_handle.ensures((&self.spec_handle(), &vals), handle));
        let module = Arc::clone(&self.module);
        assert(*module == self.spec_module());
        Self::finish(module, vals, handle, init_host_envs)
    }

    /// The module this instance was made from.
    pub fn module(&self) -> (r: &Module)
        ensures
            *r == self.spec_module(),
    {
        &self.module
    }

    /// The exports, by name, in the order the module declares them.
    pub fn exports(&self) -> (r: &Vec<(String, Extern)>)
        ensures
            named(r@) == self@.exports,
    {
        &self.exports
    }

    /// The export called `name`, if there is one.
    pub fn export(&self, name: &str) -> (r: Option<Extern>)
        ensures
            r is Some <==> exists|k: int|
                0 <= k < self@.exports.len() && (#[trigger] self@.exports[k]).0 == name@,
            r is Some ==> exists|k: int|
                0 <= k < self@.exports.len() && (#[trigger] self@.exports[k]) == (name@, r->Some_0),
    {
        let wanted = name.to_owned();
        let mut k: usize = 0;
        while k < self.exports.len()
            invariant
                k <= self.exports@.len(),
                wanted@ == name@,
                self@.exports.len() == self.exports@.len(),
                forall|j: int| 0 <= j < k ==> (#[trigger] self@.exports[j]).0 != name@,
            decreases self.exports@.len() - k,
        {
            let e = &self.exports[k];
            assert(self@.exports[k as int] == (e.0@, e.1));
            let same = e.0 == wanted;
            if same {
                assert(self@.exports[k as int] == (name@, e.1));
                return Some(e.1);
            }
            k = k + 1;
        }
        None
    }

    /// The values the imports resolved to, in declaration order.
    pub fn imports(&self) -> (r: &Vec<Extern>)
        ensures
            r@ == self@.imports,
    {
        &self.imports
    }
}

/// Two instances of one module made with different imports: each export
/// that forwards an import gives, in each instance, the value bound in that
/// instance's own imports, whatever entities the handles define.
pub proof fn lemma_exports_follow_own_imports(
    module: Module,
    imports1: Seq<Import>,
    imports2: Seq<Import>,
    locals1: Seq<Extern>,
    locals2: Seq<Extern>,
    k: int,
)
    requires
        module.wf(),
        all_resolvable(module.imports@, imports1),
        all_resolvable(module.imports@, imports2),
        locals1.len() == module.n_locals,
        locals2.len() == module.n_locals,
        0 <= k < module.exports@.len(),
        module.exports@[k].index is Import,
    ensures
        ({
            let i = module.exports@[k].index->Import_0 as int;
            let key = decl_key(module.imports@[i]);
            let e1 = exports_spec(
                module.exports@,
                resolve_spec(module.imports@, imports1)->Ok_0,
                locals1,
            );
            let e2 = exports_spec(
                module.exports@,
                resolve_spec(module.imports@, imports2)->Ok_0,
                locals2,
            );
            &&& Some(e1[k].1) == find_import(imports1, key)
            &&& Some(e2[k].1) == find_import(imports2, key)
            &&& find_import(imports1, key) != find_import(imports2, key) ==> e1[k].1 != e2[k].1
        }),
{
    lemma_resolve_fails_iff_unresolvable(module.imports@, imports1);
    lemma_resolve_fails_iff_unresolvable(module.imports@, imports2);
    let i = module.exports@[k].index->Import_0 as int;
    assert(0 <= i < module.imports@.len());
}

} // verus!
