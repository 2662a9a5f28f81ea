//! The resolved WIT graph that drives generation: packages, interfaces,
//! worlds, type definitions and functions, exactly as a resolver hands them
//! over. Named types are referred to by index into `Graph::typedefs`;
//! structural types (lists, options, results, tuples) are inline.

use vstd::prelude::*;

verus! {

broadcast use vstd::std_specs::vec::axiom_vec_index_decreases;

/// A WIT type expression.
pub enum Ty {
    Bool,
    U8,
    U16,
    U32,
    U64,
    S8,
    S16,
    S32,
    S64,
    Float32,
    Float64,
    Char,
    Str,
    List(Box<Ty>),
    Opt(Box<Ty>),
    Res(Option<Box<Ty>>, Option<Box<Ty>>),
    Tuple(Vec<Ty>),
    Named(usize),
}

/// How a function is attached to its owner.
pub enum FuncKind {
    Freestanding,
    Method,
    Static,
    Constructor,
}

pub struct Param {
    pub name: String,
    pub ty: Ty,
}

pub struct Func {
    pub name: String,
    pub kind: FuncKind,
    pub params: Vec<Param>,
    pub result: Option<Ty>,
}

pub struct Field {
    pub name: String,
    pub ty: Ty,
}

pub struct Case {
    pub name: String,
    pub payload: Option<Ty>,
}

/// The shape of a named type definition.
pub enum DefKind {
    Record(Vec<Field>),
    Variant(Vec<Case>),
    Enum(Vec<String>),
    Flags(Vec<String>),
    Alias(Ty),
    Resource(Vec<Func>),
}

/// A named type owned by an interface.
pub struct TypeDef {
    pub owner: usize,
    pub name: String,
    pub kind: DefKind,
}

pub struct Package {
    pub namespace: String,
    pub name: String,
    pub version: Option<String>,
}

pub struct Interface {
    pub package: usize,
    pub name: String,
    pub typedefs: Vec<usize>,
    pub funcs: Vec<Func>,
}

pub enum WorldItemKind {
    Func(Func),
    Iface(usize),
}

/// One import or export of a world, under the name the world gives it.
pub struct WorldItem {
    pub name: String,
    pub kind: WorldItemKind,
}

pub struct World {
    pub package: usize,
    pub name: String,
    pub imports: Vec<WorldItem>,
    pub exports: Vec<WorldItem>,
}

pub struct Graph {
    pub packages: Vec<Package>,
    pub interfaces: Vec<Interface>,
    pub typedefs: Vec<TypeDef>,
    pub worlds: Vec<World>,
}

/// Every `Named` index inside a type expression resolves to a type definition.
pub open spec fn ty_wf(g: Graph, ty: Ty) -> bool
    decreases ty, 0int,
{
    match ty {
        Ty::List(t) => ty_wf(g, *t),
        Ty::Opt(t) => ty_wf(g, *t),
        Ty::Res(ok, err) => {
            &&& match ok {
                Some(t) => ty_wf(g, *t),
                None => true,
            }
            &&& match err {
                Some(t) => ty_wf(g, *t),
                None => true,
            }
        },
        Ty::Tuple(ts) => tys_wf(g, ts, 0),
        Ty::Named(id) => id < g.typedefs.len(),
        _ => true,
    }
}

pub open spec fn tys_wf(g: Graph, ts: Vec<Ty>, i: int) -> bool
    decreases ts, ts.len() - i,
{
    if i < 0 || i >= ts.len() {
        true
    } else {
        ty_wf(g, ts[i]) && tys_wf(g, ts, i + 1)
    }
}

pub open spec fn func_wf(g: Graph, f: Func) -> bool {
    &&& params_wf(g, f.params, 0)
    &&& match f.result {
        Some(t) => ty_wf(g, t),
        None => true,
    }
}

pub open spec fn params_wf(g: Graph, ps: Vec<Param>, i: int) -> bool
    decreases ps.len() - i,
{
    if i < 0 || i >= ps.len() {
        true
    } else {
        ty_wf(g, ps[i].ty) && params_wf(g, ps, i + 1)
    }
}

pub open spec fn funcs_wf(g: Graph, fs: Vec<Func>, i: int) -> bool
    decreases fs.len() - i,
{
    if i < 0 || i >= fs.len() {
        true
    } else {
        func_wf(g, fs[i]) && funcs_wf(g, fs, i + 1)
    }
}

pub open spec fn def_kind_wf(g: Graph, k: DefKind) -> bool {
    match k {
        DefKind::Record(fields) => fields_wf(g, fields, 0),
        DefKind::Variant(cases) => cases_wf(g, cases, 0),
        DefKind::Enum(_) => true,
        DefKind::Flags(_) => true,
        DefKind::Alias(t) => ty_wf(g, t),
        DefKind::Resource(fs) => funcs_wf(g, fs, 0),
    }
}

pub open spec fn fields_wf(g: Graph, fields: Vec<Field>, i: int) -> bool
    decreases fields.len() - i,
{
    if i < 0 || i >= fields.len() {
        true
    } else {
        ty_wf(g, fields[i].ty) && fields_wf(g, fields, i + 1)
    }
}

pub open spec fn cases_wf(g: Graph, cases: Vec<Case>, i: int) -> bool
    decreases cases.len() - i,
{
    if i < 0 || i >= cases.len() {
        true
    } else {
        (match cases[i].payload {
            Some(t) => ty_wf(g, t),
            None => true,
        }) && cases_wf(g, cases, i + 1)
    }
}

pub open spec fn typedef_wf(g: Graph, t: TypeDef) -> bool {
    &&& t.owner < g.interfaces.len()
    &&& def_kind_wf(g, t.kind)
}

pub open spec fn ids_wf(g: Graph, ids: Vec<usize>, i: int) -> bool
    decreases ids.len() - i,
{
    if i < 0 || i >= ids.len() {
        true
    } else {
        ids[i] < g.typedefs.len() && ids_wf(g, ids, i + 1)
    }
}

pub open spec fn iface_wf(g: Graph, itf: Interface) -> bool {
    &&& itf.package < g.packages.len()
    &&& ids_wf(g, itf.typedefs, 0)
    &&& funcs_wf(g, itf.funcs, 0)
}

pub open spec fn items_wf(g: Graph, items: Vec<WorldItem>, i: int) -> bool
    decreases items.len() - i,
{
    if i < 0 || i >= items.len() {
        true
    } else {
        (match items[i].kind {
            WorldItemKind::Func(f) => func_wf(g, f),
            WorldItemKind::Iface(id) => id < g.interfaces.len(),
        }) && items_wf(g, items, i + 1)
    }
}

pub open spec fn world_wf(g: Graph, w: World) -> bool {
    &&& w.package < g.packages.len()
    &&& items_wf(g, w.imports, 0)
    &&& items_wf(g, w.exports, 0)
}

/// The resolver invariant the generator relies on: every index in the graph
/// is in bounds.
pub open spec fn graph_wf(g: Graph) -> bool {
    &&& forall|i: int|
        0 <= i < g.interfaces.len() ==> #[trigger] iface_wf(g, g.interfaces[i])
    &&& forall|i: int|
        0 <= i < g.typedefs.len() ==> #[trigger] typedef_wf(g, g.typedefs[i])
    &&& forall|i: int| 0 <= i < g.worlds.len() ==> #[trigger] world_wf(g, g.worlds[i])
}

#[verifier::loop_isolation(false)]
pub fn check_ty(g: &Graph, ty: &Ty) -> (b: bool)
    ensures
        b == ty_wf(*g, *ty),
    decreases ty, 0int,
{
    match ty {
        Ty::List(t) => check_ty(g, t),
        Ty::Opt(t) => check_ty(g, t),
        Ty::Res(ok, err) => {
            let ok_fine = match ok {
                Some(t) => check_ty(g, t),
                None => true,
            };
            let err_fine = match err {
                Some(t) => check_ty(g, t),
                None => true,
            };
            ok_fine && err_fine
        },
        Ty::Tuple(ts) => {
            let mut i: usize = 0;
            while i < ts.len()
                invariant
                    i <= ts.len(),
                    tys_wf(*g, *ts, 0) == tys_wf(*g, *ts, i as int),
                decreases ts.len() - i,
            {
                if !check_ty(g, &ts[i]) {
                    return false;
                }
                i = i + 1;
            }
            true
        },
        Ty::Named(id) => *id < g.typedefs.len(),
        _ => true,
    }
}

pub fn check_opt_ty(g: &Graph, ty: &Option<Ty>) -> (b: bool)
    ensures
        b == match *ty {
            Some(t) => ty_wf(*g, t),
            None => true,
        },
{
    match ty {
        Some(t) => check_ty(g, t),
        None => true,
    }
}

pub fn check_func(g: &Graph, f: &Func) -> (b: bool)
    ensures
        b == func_wf(*g, *f),
{
    let mut i: usize = 0;
    while i < f.params.len()
        invariant
            i <= f.params.len(),
            params_wf(*g, f.params, 0) == params_wf(*g, f.params, i as int),
        decreases f.params.len() - i,
    {
        if !check_ty(g, &f.params[i].ty) {
            return false;
        }
        i = i + 1;
    }
    check_opt_ty(g, &f.result)
}

pub fn check_funcs(g: &Graph, fs: &Vec<Func>) -> (b: bool)
    ensures
        b == funcs_wf(*g, *fs, 0),
{
    let mut i: usize = 0;
    while i < fs.len()
        invariant
            i <= fs.len(),
            funcs_wf(*g, *fs, 0) == funcs_wf(*g, *fs, i as int),
        decreases fs.len() - i,
    {
        if !check_func(g, &fs[i]) {
            return false;
        }
        i = i + 1;
    }
    true
}

#[verifier::loop_isolation(false)]
pub fn check_typedef(g: &Graph, t: &TypeDef) -> (b: bool)
    ensures
        b == typedef_wf(*g, *t),
{
    if !(t.owner < g.interfaces.len()) {
        return false;
    }
    match &t.kind {
        DefKind::Record(fields) => {
            let mut i: usize = 0;
            while i < fields.len()
                invariant
                    i <= fields.len(),
                    fields_wf(*g, *fields, 0) == fields_wf(*g, *fields, i as int),
                decreases fields.len() - i,
            {
                if !check_ty(g, &fields[i].ty) {
                    return false;
                }
                i = i + 1;
            }
            true
        },
        DefKind::Variant(cases) => {
            let mut i: usize = 0;
            while i < cases.len()
                invariant
                    i <= cases.len(),
                    cases_wf(*g, *cases, 0) == cases_wf(*g, *cases, i as int),
                decreases cases.len() - i,
            {
                if !check_opt_ty(g, &cases[i].payload) {
                    return false;
                }
                i = i + 1;
            }
            true
        },
        DefKind::Enum(_) => true,
        DefKind::Flags(_) => true,
        DefKind::Alias(t) => check_ty(g, t),
        DefKind::Resource(fs) => check_funcs(g, fs),
    }
}

pub fn check_iface(g: &Graph, itf: &Interface) -> (b: bool)
    ensures
        b == iface_wf(*g, *itf),
{
    if !(itf.package < g.packages.len()) {
        return false;
    }
    let mut i: usize = 0;
    while i < itf.typedefs.len()
        invariant
            i <= itf.typedefs.len(),
            ids_wf(*g, itf.typedefs, 0) == ids_wf(*g, itf.typedefs, i as int),
        decreases itf.typedefs.len() - i,
    {
        if !(itf.typedefs[i] < g.typedefs.len()) {
            return false;
        }
        i = i + 1;
    }
    check_funcs(g, &itf.funcs)
}

pub fn check_items(g: &Graph, items: &Vec<WorldItem>) -> (b: bool)
    ensures
        b == items_wf(*g, *items, 0),
{
    let mut i: usize = 0;
    while i < items.len()
        invariant
            i <= items.len(),
            items_wf(*g, *items, 0) == items_wf(*g, *items, i as int),
        decreases items.len() - i,
    {
        let fine = match &items[i].kind {
            WorldItemKind::Func(f) => check_func(g, f),
            WorldItemKind::Iface(id) => *id < g.interfaces.len(),
        };
        if !fine {
            return false;
        }
        i = i + 1;
    }
    true
}

pub fn check_world(g: &Graph, w: &World) -> (b: bool)
    ensures
        b == world_wf(*g, *w),
{
    if !(w.package < g.packages.len()) {
        return false;
    }
    check_items(g, &w.imports) && check_items(g, &w.exports)
}

/// Runtime validation of the resolver invariant: a graph that fails it is
/// reported as an unresolved reference rather than trusted.
pub fn check_graph(g: &Graph) -> (b: bool)
    ensures
        b == graph_wf(*g),
{
    let mut i: usize = 0;
    while i < g.interfaces.len()
        invariant
            i <= g.interfaces.len(),
            forall|j: int| 0 <= j < i ==> #[trigger] iface_wf(*g, g.interfaces[j]),
        decreases g.interfaces.len() - i,
    {
        if !check_iface(g, &g.interfaces[i]) {
            return false;
        }
        i = i + 1;
    }
    let mut k: usize = 0;
    while k < g.typedefs.len()
        invariant
            k <= g.typedefs.len(),
            forall|j: int| 0 <= j < k ==> #[trigger] typedef_wf(*g, g.typedefs[j]),
            forall|j: int| 0 <= j < g.interfaces.len() ==> #[trigger] iface_wf(*g, g.interfaces[j]),
        decreases g.typedefs.len() - k,
    {
        if !check_typedef(g, &g.typedefs[k]) {
            return false;
        }
        k = k + 1;
    }
    let mut m: usize = 0;
    while m < g.worlds.len()
        invariant
            m <= g.worlds.len(),
            forall|j: int| 0 <= j < m ==> #[trigger] world_wf(*g, g.worlds[j]),
            forall|j: int| 0 <= j < g.interfaces.len() ==> #[trigger] iface_wf(*g, g.interfaces[j]),
            forall|j: int| 0 <= j < g.typedefs.len() ==> #[trigger] typedef_wf(*g, g.typedefs[j]),
        decreases g.worlds.len() - m,
    {
        if !check_world(g, &g.worlds[m]) {
            return false;
        }
        m = m + 1;
    }
    true
}

} // verus!
