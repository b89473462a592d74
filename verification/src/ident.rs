//! Identifier replacement: a code-generation instruction stored in cells.
//!
//! An [`IdentReplacement`] records a replacement text for the identifier at
//! a given path of a syntax tree. The tree path itself is a value type, so
//! replacements reference it through a handle rather than owning it.

use vstd::prelude::*;

use core::marker::PhantomData;

use crate::engine::Engine;
use crate::locator::ValueTypeId;
use crate::primitives::{
    CodeGenerateable, ValueDebug, AST_PATH_VALUE_TYPE, IDENT_REPLACEMENT_VALUE_TYPE,
};
use crate::value::{dup_usize_vec, Value, ValueV};
use crate::vc::{CellMode, Upcast, Vc, VcValueType};

verus! {

/// A path into a syntax tree: the sequence of child positions taken from the
/// root.
#[derive(Hash)]
pub struct AstPath {
    pub steps: Vec<usize>,
}

impl VcValueType for AstPath {
    open spec fn value_type_id_spec() -> ValueTypeId {
        AST_PATH_VALUE_TYPE
    }

    fn value_type_id() -> ValueTypeId {
        AST_PATH_VALUE_TYPE
    }

    open spec fn cell_mode_spec() -> CellMode {
        CellMode::New
    }

    fn cell_mode() -> CellMode {
        CellMode::New
    }

    open spec fn to_value_spec(self) -> Value {
        Value::Path(self.steps)
    }

    fn into_value(self) -> Value {
        Value::Path(self.steps)
    }

    open spec fn of_value_spec(v: Value) -> bool {
        v is Path
    }

    fn from_value(v: &Value) -> Option<AstPath> {
        match v {
            Value::Path(p) => Some(AstPath { steps: dup_usize_vec(p) }),
            _ => None,
        }
    }

    proof fn embedding_roundtrip(t: AstPath, v: Value) {
    }
}

impl Upcast<ValueDebug> for AstPath {

}

/// Replaces the identifier at `path` with the given text during code
/// generation.
#[derive(Hash)]
pub struct IdentReplacement {
    pub value: String,
    pub path: Vc<AstPath>,
}

impl VcValueType for IdentReplacement {
    open spec fn value_type_id_spec() -> ValueTypeId {
        IDENT_REPLACEMENT_VALUE_TYPE
    }

    fn value_type_id() -> ValueTypeId {
        IDENT_REPLACEMENT_VALUE_TYPE
    }

    open spec fn cell_mode_spec() -> CellMode {
        CellMode::New
    }

    fn cell_mode() -> CellMode {
        CellMode::New
    }

    open spec fn to_value_spec(self) -> Value {
        Value::Ident { value: self.value, path: self.path.node }
    }

    fn into_value(self) -> Value {
        Value::Ident { value: self.value, path: self.path.node }
    }

    open spec fn of_value_spec(v: Value) -> bool {
        v is Ident
    }

    fn from_value(v: &Value) -> Option<IdentReplacement> {
        match v {
            Value::Ident { value, path } => Some(
                IdentReplacement { value: value.clone(), path: Vc { node: *path, _t: PhantomData } },
            ),
            _ => None,
        }
    }

    proof fn embedding_roundtrip(t: IdentReplacement, v: Value) {
    }
}

impl Upcast<ValueDebug> for IdentReplacement {

}

impl Upcast<CodeGenerateable> for IdentReplacement {

}

impl IdentReplacement {
    /// Stores a new identifier-replacement instruction as a cell of the
    /// current task (or execution, under local-cells mode).
    pub fn new(engine: &mut Engine, value: String, path: Vc<AstPath>) -> (vc: Vc<IdentReplacement>)
        requires
            old(engine).wf(),
            old(engine).tasks@[old(engine).cur_task()].cells@.len() < usize::MAX,
            old(engine).executions@[old(engine).current as int].cells@.len() < usize::MAX,
        ensures
            final(engine).wf(),
            ({
                let v = ValueV::Ident { value: value@, path: path.node };
                if old(engine).executions@[old(engine).current as int].local_cells {
                    Engine::local_cell_post(
                        *old(engine),
                        *final(engine),
                        vc.node,
                        IDENT_REPLACEMENT_VALUE_TYPE,
                        v,
                    )
                } else {
                    Engine::new_cell_post(
                        *old(engine),
                        *final(engine),
                        vc.node,
                        IDENT_REPLACEMENT_VALUE_TYPE,
                        v,
                    )
                }
            }),
    {
        Vc::<IdentReplacement>::cell(engine, IdentReplacement { value, path })
    }
}

} // verus!
