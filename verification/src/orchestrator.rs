//! The build orchestrator's bookkeeping. Driving the external compiler is
//! the caller's business; the state here records, node by node in
//! compilation order, what each compilation produced: bytecode accumulates
//! by replacement (the final node's bytecode — the root project's — is the
//! build's output), ABI entries accumulate by concatenation, a library's
//! namespace handle is recorded for later namespace composition, and a
//! source-map entry is recorded for every node's path.

use vstd::prelude::*;

verus! {

/// Parameters to pass through to the compiler collaborator.
#[derive(Debug)]
pub struct BuildConfig {
    pub use_ir: bool,
    pub print_ir: bool,
    pub print_finalized_asm: bool,
    pub print_intermediate_asm: bool,
    pub silent: bool,
}

/// One entry of a compiled package's ABI description, by name. The entry's
/// full content belongs to the compiler collaborator; the orchestrator only
/// accumulates entries.
#[derive(Debug)]
pub struct AbiEntry {
    pub name: String,
}

impl Clone for AbiEntry {
    fn clone(&self) -> (r: Self)
        ensures
            r@ == self@,
    {
        AbiEntry { name: self.name.clone() }
    }
}

impl View for AbiEntry {
    type V = Seq<char>;

    open spec fn view(&self) -> Seq<char> {
        self.name@
    }
}

/// The result of successfully compiling a package.
#[derive(Debug)]
pub struct Compiled {
    pub json_abi: Vec<AbiEntry>,
    pub bytecode: Vec<u8>,
}

pub ghost struct CompiledView {
    pub json_abi: Seq<Seq<char>>,
    pub bytecode: Seq<u8>,
}

impl View for Compiled {
    type V = CompiledView;

    open spec fn view(&self) -> CompiledView {
        CompiledView {
            json_abi: self.json_abi@.map_values(|e: AbiEntry| e@),
            bytecode: self.bytecode@,
        }
    }
}

/// The accumulating state of one build pass over a plan's compilation
/// order.
#[derive(Debug)]
pub struct BuildProgress {
    compiled_count: usize,
    namespace_handles: Vec<Option<usize>>,
    json_abi: Vec<AbiEntry>,
    bytecode: Vec<u8>,
    source_map_deps: Vec<String>,
}

pub ghost struct BuildProgressView {
    pub compiled_count: int,
    pub handles: Seq<Option<usize>>,
    pub json_abi: Seq<Seq<char>>,
    pub bytecode: Seq<u8>,
    pub source_map_deps: Seq<Seq<char>>,
}

impl View for BuildProgress {
    type V = BuildProgressView;

    closed spec fn view(&self) -> BuildProgressView {
        BuildProgressView {
            compiled_count: self.compiled_count as int,
            handles: self.namespace_handles@,
            json_abi: self.json_abi@.map_values(|e: AbiEntry| e@),
            bytecode: self.bytecode@,
            source_map_deps: self.source_map_deps@.map_values(|s: String| s@),
        }
    }
}

impl BuildProgress {
    /// Fresh state for a graph of `node_count` nodes: nothing compiled, no
    /// namespace recorded, no output accumulated.
    pub fn new(node_count: usize) -> (r: BuildProgress)
        ensures
            r@.compiled_count == 0,
            r@.handles.len() == node_count,
            forall|i: int| 0 <= i < node_count ==> r@.handles[i] is None,
            r@.json_abi.len() == 0,
            r@.bytecode.len() == 0,
            r@.source_map_deps.len() == 0,
    {
        let mut handles: Vec<Option<usize>> = Vec::new();
        while handles.len() < node_count
            invariant
                handles@.len() <= node_count,
                forall|i: int| 0 <= i < handles@.len() ==> handles@[i] is None,
            decreases node_count - handles@.len(),
        {
            handles.push(None);
        }
        BuildProgress {
            compiled_count: 0,
            namespace_handles: handles,
            json_abi: Vec::new(),
            bytecode: Vec::new(),
            source_map_deps: Vec::new(),
        }
    }

    /// The namespace handles recorded so far, for composing the next
    /// node's dependency namespace.
    pub fn namespace_handles(&self) -> (r: &Vec<Option<usize>>)
        ensures
            r@ == self@.handles,
    {
        &self.namespace_handles
    }

    /// Record one node's compilation output: extend the accumulated ABI,
    /// replace the accumulated bytecode, note the node's source path, and,
    /// for a library package, record the namespace it exposes to
    /// dependents.
    pub fn record(
        &mut self,
        node: usize,
        compiled: Compiled,
        lib_namespace: Option<usize>,
        dep_path: String,
    )
        requires
            node < old(self)@.handles.len(),
            old(self)@.compiled_count < usize::MAX,
        ensures
            final(self)@.compiled_count == old(self)@.compiled_count + 1,
            final(self)@.handles == (if lib_namespace is Some {
                old(self)@.handles.update(node as int, lib_namespace)
            } else {
                old(self)@.handles
            }),
            final(self)@.json_abi == old(self)@.json_abi + compiled@.json_abi,
            final(self)@.bytecode == compiled@.bytecode,
            final(self)@.source_map_deps == old(self)@.source_map_deps.push(dep_path@),
    {
        let ghost abi_view = compiled@.json_abi;
        let ghost bc_view = compiled@.bytecode;
        let ghost path_view = dep_path@;
        let mut compiled = compiled;
        if lib_namespace.is_some() {
            self.namespace_handles.set(node, lib_namespace);
        }
        self.json_abi.append(&mut compiled.json_abi);
        self.bytecode = compiled.bytecode;
        self.source_map_deps.push(dep_path);
        self.compiled_count = self.compiled_count + 1;
        proof {
            assert(self@.json_abi =~= old(self)@.json_abi + abi_view);
            assert(self@.source_map_deps =~= old(self)@.source_map_deps.push(path_view));
        }
    }

    /// Take the finished output: the accumulated ABI with the final
    /// bytecode, and the recorded source-map paths.
    pub fn finish(self) -> (r: (Compiled, Vec<String>))
        ensures
            r.0@.json_abi == self@.json_abi,
            r.0@.bytecode == self@.bytecode,
            r.1@.map_values(|s: String| s@) == self@.source_map_deps,
    {
        (Compiled { json_abi: self.json_abi, bytecode: self.bytecode }, self.source_map_deps)
    }
}

} // verus!
