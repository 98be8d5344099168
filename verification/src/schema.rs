//! The compiled schema facade: built from a root schema under a chosen
//! draft, it owns the node table and exposes the two evaluation modes, the
//! boolean short-circuit `is_valid` and the error-producing `validate`.

use vstd::prelude::*;

use crate::compiler::compilable;
use crate::compiler::compile_validators;
use crate::compiler::node_fails_resolution;
use crate::compiler::node_matches;
use crate::compiler::Draft;
use crate::errors::errs_match;
use crate::errors::CompilationError;
use crate::errors::GError;
use crate::errors::ValidationError;
use crate::json::json_wf;
use crate::json::JsonValue;
use crate::paths::json_at;
use crate::paths::GChunk;
use crate::paths::InstancePath;
use crate::validator::all_errors_of;
use crate::validator::all_valid_of;
use crate::validator::lemma_vals_errors_addressed;
use crate::validator::lemma_vals_errors_empty;
use crate::validator::nodes_wf;
use crate::validator::vals_errors;
use crate::validator::vals_valid;
use crate::validator::Validator;

verus! {

/// A single-pass stream of validation errors, in the order the validator
/// tree produced them.
pub struct ErrorIterator {
    errors: Vec<ValidationError>,
    pos: usize,
}

impl ErrorIterator {
    /// The errors not yet handed out.
    pub closed spec fn remaining(&self) -> Seq<ValidationError> {
        self.errors@.skip(self.pos as int)
    }

    /// The stream never hands out more than it holds.
    pub closed spec fn wf(&self) -> bool {
        self.pos <= self.errors@.len()
    }

    /// The next error, or `None` once the stream is exhausted.
    pub fn next(&mut self) -> (r: Option<&ValidationError>)
        requires
            old(self).wf(),
        ensures
            final(self).wf(),
            match r {
                Some(e) => old(self).remaining().len() > 0 && *e == old(self).remaining()[0]
                    && final(self).remaining() == old(self).remaining().drop_first(),
                None => old(self).remaining().len() == 0 && *final(self) == *old(self),
            },
    {
        if self.pos < self.errors.len() {
            let e = &self.errors[self.pos];
            self.pos = self.pos + 1;
            proof {
                assert(old(self).remaining()[0] == self.errors@[old(self).pos as int]);
                assert(self.errors@.skip(self.pos as int) =~= old(self).remaining().drop_first());
            }
            Some(e)
        } else {
            None
        }
    }

    /// How many errors are left in the stream.
    pub fn remaining_len(&self) -> (n: usize)
        requires
            self.wf(),
        ensures
            n == self.remaining().len(),
    {
        self.errors.len() - self.pos
    }
}

/// Build-time options: the draft to compile under.
pub struct CompilationOptions {
    pub draft: Draft,
}

impl CompilationOptions {
    /// Options with the default draft.
    pub fn new() -> (r: CompilationOptions)
        ensures
            r.draft == Draft::Draft7,
    {
        CompilationOptions { draft: Draft::Draft7 }
    }

    /// Selects the draft to compile under.
    pub fn with_draft(self, draft: Draft) -> (r: CompilationOptions)
        ensures
            r.draft == draft,
    {
        CompilationOptions { draft }
    }

    /// Compiles a root schema under these options.
    pub fn compile(&self, schema: &JsonValue) -> (r: Result<JSONSchema, CompilationError>)
        requires
            json_wf(*schema),
        ensures
            match r {
                Ok(c) => compilable(self.draft, *schema) && c.wf() && c.spec_draft() == self.draft
                    && node_matches(self.draft, *schema, c.root_node()),
                Err(e) => !compilable(self.draft, *schema) && (e is ResolutionError
                    <==> node_fails_resolution(self.draft, *schema)),
            },
    {
        JSONSchema::compile_with(self, schema)
    }
}

/// A compiled schema: the root validator node, the node table references
/// resolve into, and the draft it was compiled under.
pub struct JSONSchema {
    nodes: Vec<Vec<Validator>>,
    pub draft: Draft,
}

impl JSONSchema {
    /// A compiled schema holds exactly the root node, and every validator in
    /// the table is well-formed.
    pub closed spec fn wf(&self) -> bool {
        self.nodes@.len() == 1 && nodes_wf(self.nodes@)
    }

    /// The root node's validators.
    pub closed spec fn root_node(&self) -> Seq<Validator> {
        self.nodes@[0]@
    }

    /// The draft this schema was compiled under.
    pub closed spec fn spec_draft(&self) -> Draft {
        self.draft
    }

    /// Whether an instance satisfies this schema.
    pub closed spec fn spec_is_valid(&self, inst: JsonValue) -> bool {
        vals_valid(self.nodes@, self.root_node(), inst, self.nodes@.len() as nat)
    }

    /// The errors an instance earns under this schema, in evaluation order.
    pub closed spec fn spec_errors(&self, inst: JsonValue) -> Seq<GError> {
        vals_errors(
            self.nodes@,
            self.root_node(),
            inst,
            Seq::empty(),
            self.nodes@.len() as nat,
        )
    }

    /// A fresh set of build-time options.
    pub fn options() -> (r: CompilationOptions)
        ensures
            r.draft == Draft::Draft7,
    {
        CompilationOptions::new()
    }

    /// Compiles a root schema under the given options.
    pub fn compile_with(options: &CompilationOptions, schema: &JsonValue) -> (r: Result<
        JSONSchema,
        CompilationError,
    >)
        requires
            json_wf(*schema),
        ensures
            match r {
                Ok(c) => compilable(options.draft, *schema) && c.wf() && c.spec_draft()
                    == options.draft && node_matches(options.draft, *schema, c.root_node()),
                Err(e) => !compilable(options.draft, *schema) && (e is ResolutionError
                    <==> node_fails_resolution(options.draft, *schema)),
            },
    {
        match compile_validators(options.draft, schema) {
            Ok(root) => {
                let mut nodes: Vec<Vec<Validator>> = Vec::new();
                nodes.push(root);
                Ok(JSONSchema { nodes, draft: options.draft })
            },
            Err(e) => Err(e),
        }
    }

    /// The boolean short-circuit evaluation mode.
    pub fn is_valid(&self, instance: &JsonValue) -> (r: bool)
        requires
            self.wf(),
            json_wf(*instance),
        ensures
            r == self.spec_is_valid(*instance),
    {
        all_valid_of(&self.nodes, &self.nodes[0], instance, self.nodes.len())
    }

    /// The error-producing evaluation mode: `Ok` exactly when the instance
    /// satisfies the schema, otherwise the non-empty error stream, in
    /// evaluation order.
    pub fn validate(&self, instance: &JsonValue) -> (r: Result<(), ErrorIterator>)
        requires
            self.wf(),
            json_wf(*instance),
        ensures
            match r {
                Ok(_) => self.spec_is_valid(*instance),
                Err(it) => !self.spec_is_valid(*instance) && it.wf() && it.remaining().len() > 0
                    && errs_match(it.remaining(), self.spec_errors(*instance)),
            },
    {
        let path = InstancePath::new();
        let errs = all_errors_of(&self.nodes, &self.nodes[0], instance, &path, self.nodes.len());
        proof {
            lemma_vals_errors_empty(
                self.nodes@,
                self.root_node(),
                *instance,
                Seq::empty(),
                self.nodes@.len() as nat,
            );
        }
        if errs.len() == 0 {
            Ok(())
        } else {
            let it = ErrorIterator { errors: errs, pos: 0 };
            proof {
                assert(it.remaining() =~= it.errors@);
            }
            Err(it)
        }
    }
}

/// An instance satisfies a compiled schema exactly when validating it
/// yields no error.
pub proof fn lemma_valid_iff_no_errors(c: JSONSchema, inst: JsonValue)
    ensures
        c.spec_is_valid(inst) <==> c.spec_errors(inst).len() == 0,
{
    lemma_vals_errors_empty(
        c.nodes@,
        c.root_node(),
        inst,
        Seq::empty(),
        c.nodes@.len() as nat,
    );
}

/// Every error a compiled schema emits for an instance carries a path that
/// addresses, inside that instance, exactly the error's own value.
pub proof fn lemma_errors_addressed(c: JSONSchema, inst: JsonValue)
    ensures
        forall|k: int|
            0 <= k < c.spec_errors(inst).len() ==> json_at(
                inst,
                (#[trigger] c.spec_errors(inst)[k]).path,
            ) == Some(c.spec_errors(inst)[k].value),
{
    assert(json_at(inst, Seq::<GChunk>::empty()) == Some(inst));
    lemma_vals_errors_addressed(
        c.nodes@,
        c.root_node(),
        inst,
        inst,
        Seq::empty(),
        c.nodes@.len() as nat,
    );
}

/// Determinism of compilation: any two compiled forms of one root schema
/// give every instance the same verdict (instances compared by structural
/// identity, as two parses of the same text are).
pub proof fn lemma_recompile_same_verdicts(
    c1: JSONSchema,
    c2: JSONSchema,
    draft: Draft,
    schema: JsonValue,
    inst1: JsonValue,
    inst2: JsonValue,
)
    requires
        c1.wf(),
        c2.wf(),
        node_matches(draft, schema, c1.root_node()),
        node_matches(draft, schema, c2.root_node()),
        crate::json::same_json(inst1, inst2),
    ensures
        c1.spec_is_valid(inst1) == c2.spec_is_valid(inst2),
{
    crate::determinism::lemma_node_matches_unique(draft, schema, c1.root_node(), c2.root_node());
    assert(crate::determinism::similar_nodes(c1.nodes@, c2.nodes@));
    crate::determinism::lemma_vals_valid_congruent(
        c1.nodes@,
        c2.nodes@,
        c1.root_node(),
        c2.root_node(),
        inst1,
        inst2,
        c1.nodes@.len() as nat,
    );
}

/// Determinism of compilation, for the error stream as well: any two
/// compiled forms of one root schema produce, for every instance, error
/// sequences that agree in content — the same kinds at the same paths, over
/// structurally identical offending values.
pub proof fn lemma_recompile_same_errors(
    c1: JSONSchema,
    c2: JSONSchema,
    draft: Draft,
    schema: JsonValue,
    inst1: JsonValue,
    inst2: JsonValue,
)
    requires
        c1.wf(),
        c2.wf(),
        node_matches(draft, schema, c1.root_node()),
        node_matches(draft, schema, c2.root_node()),
        crate::json::same_json(inst1, inst2),
    ensures
        crate::determinism::gerrs_similar(c1.spec_errors(inst1), c2.spec_errors(inst2)),
{
    crate::determinism::lemma_node_matches_unique(draft, schema, c1.root_node(), c2.root_node());
    assert(crate::determinism::similar_nodes(c1.nodes@, c2.nodes@));
    crate::determinism::lemma_vals_errors_congruent(
        c1.nodes@,
        c2.nodes@,
        c1.root_node(),
        c2.root_node(),
        inst1,
        inst2,
        Seq::empty(),
        c1.nodes@.len() as nat,
    );
}

} // verus!
