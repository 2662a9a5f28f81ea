//! A TypeScript declaration generator for resolved WIT worlds: it projects a
//! resolved graph of packages, interfaces, worlds and types onto `.d.ts`
//! sources, one ambient module per reachable imported interface and one
//! top-level file for the chosen world.

use vstd::prelude::*;

pub mod driver;
pub mod emit;
pub mod graph;
pub mod laws;
pub mod modfile;
pub mod names;
pub mod printer;
pub mod text;

verus! {

use crate::driver::generate_world;
use crate::driver::sp_generate;
use crate::graph::Graph;
use crate::graph::check_graph;
use crate::graph::graph_wf;
use crate::graph::world_wf;
use crate::text::str_eq;

/// The one error family of a generation run.
#[derive(Debug, PartialEq, Eq, Structural)]
pub enum GenError {
    /// The requested world identifier is absent from the resolved graph.
    WorldNotFound,
    /// An index in the resolved graph does not resolve; the resolver broke
    /// its invariant.
    UnresolvedReference,
}

pub open spec fn sp_error_message(e: GenError) -> Seq<char> {
    match e {
        GenError::WorldNotFound => "world not found in the resolved graph"@,
        GenError::UnresolvedReference => "unresolved reference in the resolved graph"@,
    }
}

impl GenError {
    /// A human-readable description of the error.
    pub fn message(&self) -> (r: String)
        ensures
            r@ == sp_error_message(*self),
    {
        match self {
            GenError::WorldNotFound => "world not found in the resolved graph".to_owned(),
            GenError::UnresolvedReference => "unresolved reference in the resolved graph".to_owned(),
        }
    }
}

/// The index of the first world with the requested name, or `-1`.
pub open spec fn sp_find_world(g: Graph, name: Seq<char>, i: int) -> int
    decreases g.worlds.len() - i,
{
    if i < 0 || i >= g.worlds.len() {
        -1
    } else if g.worlds[i].name@ == name {
        i
    } else {
        sp_find_world(g, name, i + 1)
    }
}

#[verifier::loop_isolation(false)]
fn find_world(g: &Graph, name: &str) -> (r: Option<usize>)
    ensures
        match r {
            Some(i) => sp_find_world(*g, name@, 0) == i as int && i < g.worlds.len(),
            None => sp_find_world(*g, name@, 0) == -1,
        },
{
    let mut i: usize = 0;
    while i < g.worlds.len()
        invariant
            i <= g.worlds.len(),
            sp_find_world(*g, name@, 0) == sp_find_world(*g, name@, i as int),
        decreases g.worlds.len() - i,
    {
        if str_eq(g.worlds[i].name.as_str(), name) {
            return Some(i);
        }
        i = i + 1;
    }
    None
}

/// Generates the TypeScript declaration files for the world named `world` in
/// the resolved graph `g`: one ambient module file per reachable imported
/// interface, sorted by fully qualified name, then the world's own file.
/// Each output pair is a forward-slash path and the file text, whose UTF-8
/// bytes are the file content. The graph is validated first: a graph that
/// breaks the resolver invariant is rejected, and a missing world is
/// reported, so the call succeeds exactly on a well-formed graph that holds
/// the world.
pub fn generate(g: &Graph, world: &str) -> (r: Result<Vec<(String, String)>, GenError>)
    ensures
        !graph_wf(*g) ==> (r matches Err(e) && e == GenError::UnresolvedReference),
        graph_wf(*g) && sp_find_world(*g, world@, 0) == -1 ==> (r matches Err(e) && e
            == GenError::WorldNotFound),
        graph_wf(*g) && sp_find_world(*g, world@, 0) >= 0 ==> (r matches Ok(files) && {
            let outs = sp_generate(*g, g.worlds[sp_find_world(*g, world@, 0)]);
            &&& files@.len() == outs.len()
            &&& forall|i: int|
                0 <= i < outs.len() ==> (#[trigger] files@[i]).0@ == outs[i].0 && files@[i].1@
                    == outs[i].1
        }),
{
    if !check_graph(g) {
        return Err(GenError::UnresolvedReference);
    }
    match find_world(g, world) {
        None => Err(GenError::WorldNotFound),
        Some(wi) => {
            proof {
                assert(world_wf(*g, g.worlds[wi as int]));
            }
            Ok(generate_world(g, &g.worlds[wi]))
        },
    }
}

} // verus!
