//! The built-in value types and capability sets, and the startup
//! registration that installs them into an engine's registry.

use vstd::prelude::*;

use crate::engine::Engine;
use crate::locator::{TraitTypeId, ValueTypeId};
use crate::value::Value;
use crate::vc::{CellMode, Upcast, VcValueTrait, VcValueType};

verus! {

/// Runtime type id of [`u64`] values.
pub const U64_VALUE_TYPE: ValueTypeId = 0;

/// Runtime type id of [`String`] values.
pub const STRING_VALUE_TYPE: ValueTypeId = 1;

/// Runtime type id of [`crate::ident::AstPath`] values.
pub const AST_PATH_VALUE_TYPE: ValueTypeId = 2;

/// Runtime type id of [`crate::ident::IdentReplacement`] values.
pub const IDENT_REPLACEMENT_VALUE_TYPE: ValueTypeId = 3;

/// Capability id of the code-generation capability set.
pub const CODE_GENERATEABLE_TRAIT: TraitTypeId = 0;

/// Capability id of the debug-formatting capability set.
pub const VALUE_DEBUG_TRAIT: TraitTypeId = 1;

/// The capability set of values that can generate code; handles may be typed
/// over it instead of a concrete value type.
#[derive(Hash)]
pub struct CodeGenerateable;

impl VcValueTrait for CodeGenerateable {
    open spec fn trait_type_id_spec() -> TraitTypeId {
        CODE_GENERATEABLE_TRAIT
    }

    fn get_trait_type_id() -> TraitTypeId {
        CODE_GENERATEABLE_TRAIT
    }
}

/// The capability set of values that can render themselves for diagnostics.
#[derive(Hash)]
pub struct ValueDebug;

impl VcValueTrait for ValueDebug {
    open spec fn trait_type_id_spec() -> TraitTypeId {
        VALUE_DEBUG_TRAIT
    }

    fn get_trait_type_id() -> TraitTypeId {
        VALUE_DEBUG_TRAIT
    }
}

impl VcValueType for u64 {
    open spec fn value_type_id_spec() -> ValueTypeId {
        U64_VALUE_TYPE
    }

    fn value_type_id() -> ValueTypeId {
        U64_VALUE_TYPE
    }

    open spec fn cell_mode_spec() -> CellMode {
        CellMode::New
    }

    fn cell_mode() -> CellMode {
        CellMode::New
    }

    open spec fn to_value_spec(self) -> Value {
        Value::U64(self)
    }

    fn into_value(self) -> Value {
        Value::U64(self)
    }

    open spec fn of_value_spec(v: Value) -> bool {
        v is U64
    }

    fn from_value(v: &Value) -> Option<u64> {
        match v {
            Value::U64(n) => Some(*n),
            _ => None,
        }
    }

    proof fn embedding_roundtrip(t: u64, v: Value) {
    }
}

impl VcValueType for String {
    open spec fn value_type_id_spec() -> ValueTypeId {
        STRING_VALUE_TYPE
    }

    fn value_type_id() -> ValueTypeId {
        STRING_VALUE_TYPE
    }

    open spec fn cell_mode_spec() -> CellMode {
        CellMode::Shared
    }

    fn cell_mode() -> CellMode {
        CellMode::Shared
    }

    open spec fn to_value_spec(self) -> Value {
        Value::Text(self)
    }

    fn into_value(self) -> Value {
        Value::Text(self)
    }

    open spec fn of_value_spec(v: Value) -> bool {
        v is Text
    }

    fn from_value(v: &Value) -> Option<String> {
        match v {
            Value::Text(s) => Some(s.clone()),
            _ => None,
        }
    }

    proof fn embedding_roundtrip(t: String, v: Value) {
    }
}

impl Upcast<ValueDebug> for u64 {

}

impl Upcast<ValueDebug> for String {

}

/// Installs the built-in value types and capability sets into a fresh
/// registry: the registration phase that runs once, at startup, before the
/// registry is read.
pub fn install_default_registry(engine: &mut Engine)
    requires
        old(engine).wf(),
        old(engine).registry.value_types@.len() == 0,
        old(engine).registry.trait_count == 0,
    ensures
        final(engine).wf(),
        final(engine).registry.trait_count == 2,
        final(engine).registry.value_types@.len() == 4,
        final(engine).registry.implements_spec(U64_VALUE_TYPE, VALUE_DEBUG_TRAIT),
        final(engine).registry.implements_spec(STRING_VALUE_TYPE, VALUE_DEBUG_TRAIT),
        final(engine).registry.implements_spec(AST_PATH_VALUE_TYPE, VALUE_DEBUG_TRAIT),
        final(engine).registry.implements_spec(IDENT_REPLACEMENT_VALUE_TYPE, VALUE_DEBUG_TRAIT),
        final(engine).registry.implements_spec(
            IDENT_REPLACEMENT_VALUE_TYPE,
            CODE_GENERATEABLE_TRAIT,
        ),
        !final(engine).registry.implements_spec(U64_VALUE_TYPE, CODE_GENERATEABLE_TRAIT),
        !final(engine).registry.implements_spec(STRING_VALUE_TYPE, CODE_GENERATEABLE_TRAIT),
        !final(engine).registry.implements_spec(AST_PATH_VALUE_TYPE, CODE_GENERATEABLE_TRAIT),
        final(engine).registry.value_types@[U64_VALUE_TYPE as int].name@ == "u64"@,
        final(engine).registry.value_types@[STRING_VALUE_TYPE as int].name@ == "String"@,
        final(engine).registry.value_types@[AST_PATH_VALUE_TYPE as int].name@ == "AstPath"@,
        final(engine).registry.value_types@[IDENT_REPLACEMENT_VALUE_TYPE as int].name@
            == "IdentReplacement"@,
        final(engine).tasks == old(engine).tasks,
        final(engine).executions == old(engine).executions,
        final(engine).current == old(engine).current,
{
    let cg = engine.registry.register_trait();
    let dbg = engine.registry.register_trait();
    let mut u64_traits: Vec<TraitTypeId> = Vec::new();
    u64_traits.push(dbg);
    let v0 = engine.registry.register_value_type(String::from_str("u64"), u64_traits);
    let mut string_traits: Vec<TraitTypeId> = Vec::new();
    string_traits.push(dbg);
    let v1 = engine.registry.register_value_type(String::from_str("String"), string_traits);
    let mut path_traits: Vec<TraitTypeId> = Vec::new();
    path_traits.push(dbg);
    let v2 = engine.registry.register_value_type(String::from_str("AstPath"), path_traits);
    let mut ident_traits: Vec<TraitTypeId> = Vec::new();
    ident_traits.push(dbg);
    ident_traits.push(cg);
    let v3 = engine.registry.register_value_type(
        String::from_str("IdentReplacement"),
        ident_traits,
    );
    proof {
        assert forall|t2: int| 0 <= t2 < engine.tasks@.len() implies #[trigger] engine.task_wf(
            t2,
        ) by {
            assert(old(engine).task_wf(t2));
        }
        assert(engine.registry.value_types@[0].traits@ == seq![VALUE_DEBUG_TRAIT]);
        assert(engine.registry.value_types@[1].traits@ == seq![VALUE_DEBUG_TRAIT]);
        assert(engine.registry.value_types@[2].traits@ == seq![VALUE_DEBUG_TRAIT]);
        assert(engine.registry.value_types@[3].traits@ == seq![
            VALUE_DEBUG_TRAIT,
            CODE_GENERATEABLE_TRAIT,
        ]);
    }
}

} // verus!
