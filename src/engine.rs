//! The incremental engine: interned source files with stable handles, and
//! per-file memo tables for the pipeline's queries. A query on a file whose
//! result is cached returns the cached value, which always equals what
//! running the stage again would give.

use vstd::prelude::*;
use crate::assembly;
use crate::ast::TranslationUnit;
use crate::codegen::{
    fits_codegen_limits, generate_assembly, generate_assembly_spec, program_within_limits,
};
use crate::diagnostics::{diagnostics_model, Diagnostic, DiagnosticModel};
use crate::lowering::{fits_lowering_limits, lower, lower_spec, within_limits};
use crate::tacky;
use crate::text::Text;

verus! {

/// The stable identity of an interned object. `NodeId(0)` is never handed
/// out, so it serves as a placeholder.
#[derive(Debug, Copy, Clone, PartialEq, Eq, Hash, Structural)]
pub struct NodeId(pub usize);

impl NodeId {
    /// Whether this identity was handed out by a generator.
    pub fn is_valid(&self) -> (r: bool)
        ensures
            r == (self.0 != 0),
    {
        self.0 != 0
    }

    /// The identity that no object has.
    pub fn placeholder() -> (r: NodeId)
        ensures
            r.0 == 0,
    {
        NodeId(0)
    }
}

/// Hands out identities `1, 2, 3, ...`.
#[derive(Debug, Default, Clone, PartialEq, Eq)]
pub struct NodeIdGenerator {
    pub last_id: usize,
}

impl NodeIdGenerator {
    pub fn new() -> (r: NodeIdGenerator)
        ensures
            r.last_id == 0,
    {
        NodeIdGenerator { last_id: 0 }
    }

    /// The next identity, one more than the last.
    pub fn next_id(&mut self) -> (r: NodeId)
        requires
            old(self).last_id < usize::MAX,
        ensures
            final(self).last_id == old(self).last_id + 1,
            r.0 == final(self).last_id,
            r.0 != 0,
    {
        self.last_id = self.last_id + 1;
        NodeId(self.last_id)
    }
}

/// A source file: its display path, its contents, and the syntax tree parsed
/// from them.
#[derive(Debug, PartialEq, Eq)]
pub struct SourceFile {
    pub path: Text,
    pub contents: Text,
    pub tree: TranslationUnit,
}

/// The result of the lowering query: the program and its diagnostics.
#[derive(Debug, Clone, PartialEq, Eq)]
pub struct Lowered {
    pub program: tacky::Program,
    pub diagnostics: Vec<Diagnostic>,
}

impl View for Lowered {
    type V = (tacky::ProgramModel, Seq<DiagnosticModel>);

    open spec fn view(&self) -> (tacky::ProgramModel, Seq<DiagnosticModel>) {
        (self.program@, diagnostics_model(self.diagnostics@))
    }
}

/// A compilation session: the interned files and the memo tables.
pub struct Database {
    pub ids: NodeIdGenerator,
    pub files: Vec<SourceFile>,
    pub lowered: Vec<Option<Lowered>>,
    pub assembly: Vec<Option<assembly::Program>>,
}

impl Database {
    /// The file with identity `k + 1` is `files[k]`, and every cached result
    /// is the one its stage gives on that file.
    pub open spec fn wf(&self) -> bool {
        &&& self.ids.last_id == self.files.len()
        &&& self.lowered.len() == self.files.len()
        &&& self.assembly.len() == self.files.len()
        &&& forall|k: int|
            0 <= k < self.files.len() ==> match #[trigger] self.lowered@[k] {
                Some(l) => l@ == lower_spec(self.files@[k].tree) && within_limits(
                    self.files@[k].tree,
                ),
                None => true,
            }
        &&& forall|k: int|
            0 <= k < self.files.len() ==> match #[trigger] self.assembly@[k] {
                Some(a) => a@ == generate_assembly_spec(lower_spec(self.files@[k].tree).0)
                    && within_limits(self.files@[k].tree) && program_within_limits(
                    lower_spec(self.files@[k].tree).0,
                ),
                None => true,
            }
    }

    /// Whether `id` names a file of this session.
    pub open spec fn has(&self, id: NodeId) -> bool {
        1 <= id.0 <= self.files.len()
    }

    /// The syntax tree of the file named `id`.
    pub open spec fn tree_of(&self, id: NodeId) -> TranslationUnit {
        self.files@[id.0 - 1].tree
    }

    pub fn new() -> (r: Database)
        ensures
            r.wf(),
            r.files@.len() == 0,
    {
        Database {
            ids: NodeIdGenerator::new(),
            files: Vec::new(),
            lowered: Vec::new(),
            assembly: Vec::new(),
        }
    }

    /// Intern a source file and return its identity.
    pub fn add_file(&mut self, file: SourceFile) -> (r: NodeId)
        requires
            old(self).wf(),
            old(self).files.len() < usize::MAX,
        ensures
            final(self).wf(),
            final(self).has(r),
            final(self).tree_of(r) == file.tree,
            final(self).files@.len() == old(self).files@.len() + 1,
            forall|id: NodeId| old(self).has(id) ==> final(self).tree_of(id) == old(self).tree_of(id),
    {
        let id = self.ids.next_id();
        self.files.push(file);
        self.lowered.push(None);
        self.assembly.push(None);
        proof {
            assert forall|k: int| 0 <= k < old(self).files.len() implies self.files@[k] == old(self).files@[k] by {}
        }
        id
    }

    /// Run the lowering query for `id`, unless its result is cached. Returns
    /// `false`, and leaves the session as it was, where a function of the
    /// file is too large to lower.
    pub fn lower(&mut self, id: NodeId) -> (r: bool)
        requires
            old(self).wf(),
            old(self).has(id),
        ensures
            final(self).wf(),
            final(self).files@ == old(self).files@,
            r == within_limits(old(self).tree_of(id)),
            r ==> final(self).lowered@[id.0 - 1] is Some,
            old(self).lowered@[id.0 - 1] is Some ==> final(self).lowered@ == old(self).lowered@,
            final(self).assembly@ == old(self).assembly@,
    {
        let k = id.0 - 1;
        if self.lowered[k].is_some() {
            return true;
        }
        if !fits_lowering_limits(&self.files[k].tree) {
            return false;
        }
        let (program, diagnostics) = lower(&self.files[k].tree);
        self.lowered.set(k, Some(Lowered { program, diagnostics }));
        true
    }

    /// The cached result of the lowering query for `id`.
    pub fn lowered(&self, id: NodeId) -> (r: &Lowered)
        requires
            self.wf(),
            self.has(id),
            self.lowered@[id.0 - 1] is Some,
        ensures
            r@ == lower_spec(self.tree_of(id)),
    {
        self.lowered[id.0 - 1].as_ref().unwrap()
    }

    /// Run the code generation query for `id`, lowering first where needed,
    /// unless its result is cached. Returns `false`, with no assembly cached,
    /// where the file is too large for lowering or for code generation.
    pub fn generate(&mut self, id: NodeId) -> (r: bool)
        requires
            old(self).wf(),
            old(self).has(id),
        ensures
            final(self).wf(),
            final(self).files@ == old(self).files@,
            r == (within_limits(old(self).tree_of(id)) && program_within_limits(
                lower_spec(old(self).tree_of(id)).0,
            )),
            r ==> final(self).assembly@[id.0 - 1] is Some,
            old(self).assembly@[id.0 - 1] is Some ==> final(self).assembly@ == old(self).assembly@
                && final(self).lowered@ == old(self).lowered@,
    {
        let k = id.0 - 1;
        if self.assembly[k].is_some() {
            return true;
        }
        if !self.lower(id) {
            return false;
        }
        let fits = fits_codegen_limits(&self.lowered(id).program);
        if !fits {
            return false;
        }
        let code = generate_assembly(&self.lowered(id).program);
        self.assembly.set(k, Some(code));
        true
    }

    /// The cached result of the code generation query for `id`.
    pub fn assembly_of(&self, id: NodeId) -> (r: &assembly::Program)
        requires
            self.wf(),
            self.has(id),
            self.assembly@[id.0 - 1] is Some,
        ensures
            r@ == generate_assembly_spec(lower_spec(self.tree_of(id)).0),
    {
        self.assembly[id.0 - 1].as_ref().unwrap()
    }
}

/// Asking a session for a query's result twice, with any queries in
/// between, gives equal results: each cached value is the stage's result on
/// the file, which does not change.
pub proof fn lemma_queries_idempotent(first: Database, second: Database, id: NodeId)
    requires
        first.wf(),
        second.wf(),
        first.has(id),
        second.has(id),
        first.tree_of(id) == second.tree_of(id),
    ensures
        (first.lowered@[id.0 - 1] is Some && second.lowered@[id.0 - 1] is Some) ==> first.lowered@[
            id.0 - 1
        ]->Some_0@ == second.lowered@[id.0 - 1]->Some_0@,
        (first.assembly@[id.0 - 1] is Some && second.assembly@[id.0 - 1] is Some) ==> first.assembly@[
            id.0 - 1
        ]->Some_0@ == second.assembly@[id.0 - 1]->Some_0@,
{
    let k = id.0 - 1;
    assert(first.files@[k].tree == second.files@[k].tree);
}

} // verus!
