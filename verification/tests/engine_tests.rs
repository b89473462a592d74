use turbo_vc::engine::{Engine, FatalError, ResolveError};
use turbo_vc::ident::{AstPath, IdentReplacement};
use turbo_vc::locator::{CellId, RawVc};
use turbo_vc::primitives::{
    install_default_registry, CodeGenerateable, ValueDebug, IDENT_REPLACEMENT_VALUE_TYPE,
    STRING_VALUE_TYPE, U64_VALUE_TYPE, VALUE_DEBUG_TRAIT,
};
use turbo_vc::value::Value;
use turbo_vc::vc::Vc;

use std::hash::{Hash, Hasher};

fn ready_engine() -> Engine {
    let mut e = Engine::new();
    install_default_registry(&mut e);
    e
}

/// Builds a finished task whose output is a fresh cell holding `n`, and
/// returns (engine, task id).
fn engine_with_u64_task(n: u64) -> (Engine, usize) {
    let mut e = ready_engine();
    let t = e.create_task();
    e.begin_execution(t, false);
    let h = Vc::<u64>::cell(&mut e, n);
    e.complete_task(t, Vc::into_raw(h));
    e.begin_execution(0, false);
    (e, t)
}

#[test]
fn global_cell_clone_resolve_and_read_42() {
    let (e, t) = engine_with_u64_task(42);
    let h: Vc<u64> = Vc::from(RawVc::TaskOutput { task: t });
    let h1 = h.clone();
    let h2 = h;
    let h3 = h.clone();
    let r1 = match h1.resolve(&e) {
        Ok(v) => v,
        Err(_) => panic!("resolve failed"),
    };
    let r2 = match h2.resolve(&e) {
        Ok(v) => v,
        Err(_) => panic!("resolve failed"),
    };
    let r3 = match h3.resolve(&e) {
        Ok(v) => v,
        Err(_) => panic!("resolve failed"),
    };
    assert!(r1 == r2);
    assert!(r2 == r3);
    let rr = r2.into_read(&e).ok().unwrap();
    assert_eq!(rr.typed(), Some(42u64));
}

#[test]
fn unresolved_handles_unequal_until_resolved() {
    let mut e = ready_engine();
    // the first task's output forwards to the second task's output
    let ta = e.create_task();
    let tb = e.create_task();
    e.begin_execution(tb, false);
    let h = Vc::<u64>::cell(&mut e, 7);
    e.complete_task(tb, Vc::into_raw(h));
    e.complete_task(ta, RawVc::TaskOutput { task: tb });
    let a: Vc<u64> = Vc::from(RawVc::TaskOutput { task: ta });
    let b: Vc<u64> = Vc::from(RawVc::TaskOutput { task: tb });
    assert!(a != b);
    let ra = a.resolve(&e).ok().expect("resolve a");
    let rb = b.resolve(&e).ok().expect("resolve b");
    assert!(ra == rb);
}

#[test]
fn resolve_is_idempotent() {
    let (e, t) = engine_with_u64_task(5);
    let h: Vc<u64> = Vc::from(RawVc::TaskOutput { task: t });
    let r1 = h.resolve(&e).ok().expect("first resolve");
    let r2 = r1.resolve(&e).ok().expect("second resolve");
    assert!(r1 == r2);
    assert!(r1.is_resolved());
}

#[test]
fn reads_share_storage_and_compare_equal() {
    let (e, t) = engine_with_u64_task(9);
    let h: Vc<u64> = Vc::from(RawVc::TaskOutput { task: t });
    let rr1 = h.into_read(&e).ok().unwrap();
    let rr2 = h.into_read(&e).ok().unwrap();
    assert!(rr1.snapshot_eq(&rr2));
    assert!(rr1.shares_storage(&rr2));
}

#[test]
fn distinct_cells_with_equal_values_do_not_share_storage() {
    let mut e = ready_engine();
    let h1 = Vc::<u64>::cell(&mut e, 42);
    let h2 = Vc::<u64>::cell(&mut e, 42);
    assert!(h1 != h2);
    let rr1 = h1.into_read(&e).ok().unwrap();
    let rr2 = h2.into_read(&e).ok().unwrap();
    assert!(rr1.snapshot_eq(&rr2));
    assert!(!rr1.shares_storage(&rr2));
}

#[test]
fn shared_mode_dedups_equal_values() {
    let mut e = ready_engine();
    let h1 = Vc::<String>::cell(&mut e, String::from("dup"));
    let h2 = Vc::<String>::cell(&mut e, String::from("dup"));
    let h3 = Vc::<String>::cell(&mut e, String::from("other"));
    assert!(h1 == h2);
    assert!(h1 != h3);
    let rr = h2.into_read(&e).ok().unwrap();
    assert_eq!(rr.typed(), Some(String::from("dup")));
}

#[test]
fn local_cell_valid_here_invalid_elsewhere() {
    let mut e = ready_engine();
    let h = Vc::<String>::local_cell(&mut e, String::from("x"));
    assert!(h.is_local());
    assert!(h.is_resolved());
    let rr = h.into_read(&e).ok().unwrap();
    assert_eq!(rr.typed(), Some(String::from("x")));
    // switch to a different execution and try again
    e.begin_execution(0, false);
    match h.resolve(&e) {
        Err(err) => assert_eq!(err, ResolveError::InvalidReference),
        Ok(_) => panic!("foreign local cell must not resolve"),
    }
    match h.into_read(&e) {
        Err(err) => assert_eq!(err, ResolveError::InvalidReference),
        Ok(_) => panic!("foreign local cell must not be readable"),
    }
}

#[test]
fn local_cells_mode_makes_cell_local() {
    let mut e = ready_engine();
    let t = e.create_task();
    e.begin_execution(t, true);
    let h = Vc::<u64>::cell(&mut e, 3);
    assert!(h.is_local());
    let rr = h.into_read(&e).ok().unwrap();
    assert_eq!(rr.typed(), Some(3u64));
}

#[test]
fn fatal_failure_propagates_to_every_operation() {
    let mut e = ready_engine();
    let t = e.create_task();
    e.fail_task(t, FatalError { code: 7 });
    let h: Vc<u64> = Vc::from(RawVc::TaskOutput { task: t });
    match h.resolve(&e) {
        Err(err) => assert_eq!(err, ResolveError::Fatal(FatalError { code: 7 })),
        Ok(_) => panic!("resolve must propagate the failure"),
    }
    match h.into_read(&e) {
        Err(err) => assert_eq!(err, ResolveError::Fatal(FatalError { code: 7 })),
        Ok(_) => panic!("read must propagate the failure"),
    }
    let hd: Vc<ValueDebug> = Vc::from(RawVc::TaskOutput { task: t });
    match Vc::try_resolve_sidecast::<CodeGenerateable>(hd, &e) {
        Err(err) => assert_eq!(err, ResolveError::Fatal(FatalError { code: 7 })),
        Ok(_) => panic!("cast must propagate the failure"),
    }
}

#[test]
fn pending_task_reports_unfinished() {
    let mut e = ready_engine();
    let t = e.create_task();
    let h: Vc<u64> = Vc::from(RawVc::TaskOutput { task: t });
    match h.resolve(&e) {
        Err(err) => assert_eq!(err, ResolveError::Unfinished(t)),
        Ok(_) => panic!("pending task must not resolve"),
    }
}

#[test]
fn type_mismatch_is_reported() {
    let mut e = ready_engine();
    let h = Vc::<u64>::cell(&mut e, 1);
    let wrong: Vc<String> = Vc::from(Vc::into_raw(h));
    match wrong.into_read(&e) {
        Err(ResolveError::TypeMismatch { expected, found }) => {
            assert_eq!(expected, STRING_VALUE_TYPE);
            assert_eq!(found, U64_VALUE_TYPE);
        },
        _ => panic!("mismatched tag must be reported"),
    }
}

#[test]
fn sidecast_present_iff_registered() {
    let mut e = ready_engine();
    let steps = AstPath { steps: vec![1, 2] };
    let path = Vc::<AstPath>::cell(&mut e, steps);
    let ident = IdentReplacement::new(&mut e, String::from("foo"), path);
    let cg: Vc<CodeGenerateable> = Vc::upcast(ident);
    // IdentReplacement implements the debug capability: present
    let dbg = match Vc::try_resolve_sidecast::<ValueDebug>(cg, &e) {
        Ok(o) => o,
        Err(_) => panic!("sidecast must not fail"),
    };
    assert!(dbg.is_some());
    // u64 does not implement code generation: absent, not an error
    let num = Vc::<u64>::cell(&mut e, 4);
    let nd: Vc<ValueDebug> = Vc::upcast(num);
    match Vc::try_resolve_sidecast::<CodeGenerateable>(nd, &e) {
        Ok(o) => assert!(o.is_none()),
        Err(_) => panic!("absence is not a failure"),
    }
}

#[test]
fn downcast_type_matches_concrete_type() {
    let mut e = ready_engine();
    let steps = AstPath { steps: vec![0] };
    let path = Vc::<AstPath>::cell(&mut e, steps);
    let ident = IdentReplacement::new(&mut e, String::from("bar"), path);
    let cg: Vc<CodeGenerateable> = Vc::upcast(ident);
    let back = match Vc::try_resolve_downcast_type::<IdentReplacement>(cg, &e) {
        Ok(o) => o,
        Err(_) => panic!("downcast must not fail"),
    };
    let back = back.expect("concrete type matches");
    let rr = back.into_read(&e).ok().unwrap();
    let again = rr.typed().expect("read back the instruction");
    assert_eq!(again.value, String::from("bar"));
    assert!(again.path == path);
    // downcasting the wrong concrete type is absent
    let num = Vc::<u64>::cell(&mut e, 4);
    let nd: Vc<ValueDebug> = Vc::upcast(num);
    match Vc::try_resolve_downcast_type::<IdentReplacement>(nd, &e) {
        Ok(o) => assert!(o.is_none()),
        Err(_) => panic!("absence is not a failure"),
    }
}

#[test]
fn cast_with_unregistered_capability_is_an_error() {
    // no registration phase ran here, so the registry knows no capability
    let mut e = Engine::new();
    let num = Vc::<u64>::cell(&mut e, 4);
    let nd: Vc<ValueDebug> = Vc::upcast(num);
    match Vc::try_resolve_sidecast::<CodeGenerateable>(nd, &e) {
        Err(err) => assert_eq!(err, ResolveError::UnknownTrait(0)),
        Ok(_) => panic!("an unknown capability id must be a lookup error"),
    }
}

#[test]
fn to_resolved_carries_settled_locator() {
    let (e, t) = engine_with_u64_task(8);
    let h: Vc<u64> = Vc::from(RawVc::TaskOutput { task: t });
    let rv = h.to_resolved(&e).ok().expect("to_resolved");
    let v = rv.vc();
    assert!(v.is_resolved());
    let rv2 = h.to_resolved(&e).ok().expect("to_resolved again");
    assert!(rv.same_cell(&rv2));
}

#[test]
fn strongly_consistent_waits_for_subgraph() {
    let mut e = ready_engine();
    let t = e.create_task();
    e.begin_execution(t, false);
    let h = Vc::<u64>::cell(&mut e, 42);
    let child = e.create_task();
    e.complete_task(t, Vc::into_raw(h));
    // the child is still pending, so a strongly consistent resolve suspends
    match h.resolve_strongly_consistent(&e) {
        Err(err) => assert_eq!(err, ResolveError::Unfinished(child)),
        Ok(_) => panic!("unfinished subgraph must be reported"),
    }
    // plain resolution does not wait for the subgraph
    assert!(h.resolve(&e).is_ok());
    // finish the child, then the strongly consistent read succeeds
    e.begin_execution(child, false);
    let hc = Vc::<u64>::cell(&mut e, 1);
    e.complete_task(child, Vc::into_raw(hc));
    let rr = h.strongly_consistent(&e).ok().unwrap();
    assert_eq!(rr.typed(), Some(42u64));
}

#[test]
fn strongly_consistent_propagates_subgraph_fatal_failure() {
    let mut e = ready_engine();
    let t = e.create_task();
    e.begin_execution(t, false);
    let h = Vc::<u64>::cell(&mut e, 42);
    let child = e.create_task();
    e.complete_task(t, Vc::into_raw(h));
    e.fail_task(child, FatalError { code: 13 });
    // the handle's own resolution chain is in order...
    assert!(h.resolve(&e).is_ok());
    // ...but a fatal failure inside the subgraph surfaces, never a value
    match h.resolve_strongly_consistent(&e) {
        Err(err) => assert_eq!(err, ResolveError::Fatal(FatalError { code: 13 })),
        Ok(_) => panic!("a fatal failure in the subgraph must surface"),
    }
    match h.strongly_consistent(&e) {
        Err(err) => assert_eq!(err, ResolveError::Fatal(FatalError { code: 13 })),
        Ok(_) => panic!("a fatal failure in the subgraph must surface on reads"),
    }
}

#[test]
fn subgraph_fatal_failure_outranks_pending_work() {
    let mut e = ready_engine();
    let t = e.create_task();
    e.begin_execution(t, false);
    let h = Vc::<u64>::cell(&mut e, 1);
    let _pending_child = e.create_task();
    let failed_child = e.create_task();
    e.complete_task(t, Vc::into_raw(h));
    e.fail_task(failed_child, FatalError { code: 99 });
    match h.resolve_strongly_consistent(&e) {
        Err(err) => assert_eq!(err, ResolveError::Fatal(FatalError { code: 99 })),
        Ok(_) => panic!("the failure must surface, not the pending task"),
    }
}

#[test]
fn debug_identifier_renders_type_index_task() {
    let (e, t) = engine_with_u64_task(6);
    let h: Vc<u64> = Vc::from(RawVc::TaskOutput { task: t });
    let s = Vc::debug_identifier(h, &e).ok().unwrap();
    assert_eq!(s, format!("u64#0: {}", t));
}

#[test]
fn collectibles_aggregate_over_subgraph_deduplicated() {
    let mut e = ready_engine();
    let root = e.create_task();
    e.begin_execution(root, false);
    let h = Vc::<u64>::cell(&mut e, 0);
    let c1 = RawVc::TaskCell { task: root, cell: CellId { type_id: U64_VALUE_TYPE, index: 0 } };
    e.emit_collectible(VALUE_DEBUG_TRAIT, c1);
    e.emit_collectible(VALUE_DEBUG_TRAIT, c1); // duplicate, must be deduplicated
    let child = e.create_task();
    e.begin_execution(child, false);
    let c2 = RawVc::TaskOutput { task: child };
    e.emit_collectible(VALUE_DEBUG_TRAIT, c2);
    // a collectible under another capability is not included
    e.emit_collectible(
        turbo_vc::primitives::CODE_GENERATEABLE_TRAIT,
        RawVc::TaskOutput { task: root },
    );
    let peeked = h.peek_collectibles::<ValueDebug>(&e);
    let mut raws: Vec<RawVc> = peeked.iter().map(|v| Vc::into_raw(*v)).collect();
    raws.sort_by_key(|r| format!("{:?}", r));
    assert_eq!(raws.len(), 2);
    assert!(raws.contains(&c1));
    assert!(raws.contains(&c2));
    // peeking is non-destructive
    let again = h.peek_collectibles::<ValueDebug>(&e);
    assert_eq!(again.len(), 2);
}

#[test]
fn take_collectibles_drains_the_subgraph() {
    let mut e = ready_engine();
    let root = e.create_task();
    e.begin_execution(root, false);
    let h = Vc::<u64>::cell(&mut e, 0);
    let c1 = RawVc::TaskCell { task: root, cell: CellId { type_id: U64_VALUE_TYPE, index: 0 } };
    e.emit_collectible(VALUE_DEBUG_TRAIT, c1);
    let child = e.create_task();
    e.begin_execution(child, false);
    e.emit_collectible(VALUE_DEBUG_TRAIT, RawVc::TaskOutput { task: child });
    // a collectible under another capability survives the take
    e.emit_collectible(turbo_vc::primitives::CODE_GENERATEABLE_TRAIT, c1);
    let taken = h.take_collectibles::<ValueDebug>(&mut e);
    assert_eq!(taken.len(), 2);
    // drained: nothing of that capability is aggregated any more
    let after = h.peek_collectibles::<ValueDebug>(&e);
    assert_eq!(after.len(), 0);
    // the other capability is untouched
    let other = h.peek_collectibles::<CodeGenerateable>(&e);
    assert_eq!(other.len(), 1);
}

#[test]
fn collectibles_are_keyed_by_post_resolution_identity() {
    let mut e = ready_engine();
    let root = e.create_task();
    let worker = e.create_task();
    e.begin_execution(worker, false);
    let h = Vc::<u64>::cell(&mut e, 5);
    e.complete_task(worker, Vc::into_raw(h));
    // back in an execution of the root task, emit the same target twice:
    // once as the settled cell, once as the worker's unsettled output
    e.begin_execution(root, false);
    let anchor = Vc::<u64>::cell(&mut e, 0);
    e.emit_collectible(VALUE_DEBUG_TRAIT, Vc::into_raw(h));
    e.emit_collectible(VALUE_DEBUG_TRAIT, RawVc::TaskOutput { task: worker });
    let peeked = anchor.peek_collectibles::<ValueDebug>(&e);
    assert_eq!(peeked.len(), 1);
    assert!(Vc::into_raw(peeked[0]) == Vc::into_raw(h));
}

#[test]
fn equal_handles_hash_equally() {
    let (e, t) = engine_with_u64_task(4);
    let a: Vc<u64> = Vc::from(RawVc::TaskOutput { task: t });
    let b = a.clone();
    let mut ha = std::collections::hash_map::DefaultHasher::new();
    let mut hb = std::collections::hash_map::DefaultHasher::new();
    a.hash(&mut ha);
    b.hash(&mut hb);
    assert_eq!(ha.finish(), hb.finish());
    let ra = a.to_resolved(&e).ok().expect("resolve a");
    let rb = b.to_resolved(&e).ok().expect("resolve b");
    let mut hra = std::collections::hash_map::DefaultHasher::new();
    let mut hrb = std::collections::hash_map::DefaultHasher::new();
    ra.hash(&mut hra);
    rb.hash(&mut hrb);
    assert_eq!(hra.finish(), hrb.finish());
}

#[test]
fn local_cell_upgrades_to_crossable_reference() {
    let mut e = ready_engine();
    let t = e.create_task();
    e.begin_execution(t, false);
    let h = Vc::<u64>::local_cell(&mut e, 11);
    let upgraded = match e.upgrade_local(Vc::into_raw(h)) {
        Ok(loc) => loc,
        Err(_) => panic!("upgrade of an own local cell must succeed"),
    };
    // the upgraded reference is visible from another execution
    e.begin_execution(0, false);
    let crossed: Vc<u64> = Vc::from(upgraded);
    let rr = crossed.into_read(&e).ok().unwrap();
    assert_eq!(rr.typed(), Some(11u64));
    // while the raw local locator itself stays confined
    match h.resolve(&e) {
        Err(err) => assert_eq!(err, ResolveError::InvalidReference),
        Ok(_) => panic!("foreign local cell must not resolve"),
    }
}

#[test]
fn connect_records_dependency() {
    let mut e = ready_engine();
    let h = Vc::<u64>::cell(&mut e, 2);
    Vc::connect(h, &mut e);
    assert_eq!(e.tasks[0].dependencies.len(), 1);
    assert!(e.tasks[0].dependencies[0] == Vc::into_raw(h));
}

#[test]
fn value_eq_compares_observable_contents() {
    let a = Value::Text(String::from("abc"));
    let b = Value::Text(String::from("abc"));
    let c = Value::U64(1);
    assert!(turbo_vc::value::value_eq(&a, &b));
    assert!(!turbo_vc::value::value_eq(&a, &c));
    let p1 = Value::Path(vec![1, 2, 3]);
    let p2 = Value::Path(vec![1, 2, 3]);
    let p3 = Value::Path(vec![1, 2]);
    assert!(turbo_vc::value::value_eq(&p1, &p2));
    assert!(!turbo_vc::value::value_eq(&p1, &p3));
}

#[test]
fn registry_reports_implementations() {
    let e = ready_engine();
    assert!(e.registry.implements(U64_VALUE_TYPE, VALUE_DEBUG_TRAIT));
    assert!(!e.registry.implements(
        U64_VALUE_TYPE,
        turbo_vc::primitives::CODE_GENERATEABLE_TRAIT,
    ));
    assert!(e.registry.implements(
        IDENT_REPLACEMENT_VALUE_TYPE,
        turbo_vc::primitives::CODE_GENERATEABLE_TRAIT,
    ));
    assert!(e.registry.name_of(U64_VALUE_TYPE).is_some());
    assert!(e.registry.name_of(99).is_none());
}
