use es_runtime::promises::{EngineStep, PromiseAnswer, PromiseAnswers, ResolverOutcome};
use es_runtime::registry::CachedObjectRegistry;
use es_runtime::value::EsValueFacade;

type Answers = PromiseAnswers<EsValueFacade, &'static str>;

fn prepared_id(v: &EsValueFacade) -> u64 {
    assert!(v.is_prepped_promise());
    v.get_prepared_promise_id()
}

#[test]
fn test_prepped_prom() {
    // the resolvers finish before the engine sees the promises
    let mut answers: Answers = PromiseAnswers::new();
    let prom_esvf = EsValueFacade::new_promise(&mut answers);
    let prom_esvf_rej = EsValueFacade::new_promise(&mut answers);
    let id = prepared_id(&prom_esvf);
    let id_rej = prepared_id(&prom_esvf_rej);
    assert_ne!(id, id_rej);
    assert_eq!(answers.len(), 2);

    let out = answers.resolver_done(id, Ok(EsValueFacade::new_i32(123)));
    assert!(matches!(out, ResolverOutcome::Stored));
    let out = answers.resolver_done(id_rej, Err("456".to_string()));
    assert!(matches!(out, ResolverOutcome::Stored));

    match answers.engine_lookup(id) {
        EngineStep::SettleNow(Ok(v)) => assert_eq!(v.get_i32(), &123),
        _ => panic!("expected the stored answer"),
    }
    match answers.engine_lookup(id_rej) {
        EngineStep::SettleNow(Err(e)) => assert_eq!(e, "456"),
        _ => panic!("expected the stored rejection"),
    }
    assert_eq!(answers.len(), 0);
    assert!(!answers.is_materializable(id));
}

#[test]
fn test_prepped_prom_resolve() {
    // the engine makes the promise before the resolver finishes
    let mut answers: Answers = PromiseAnswers::new();
    let mut reg: CachedObjectRegistry<&'static str> = CachedObjectRegistry::new();
    let prom_esvf = EsValueFacade::new_promise(&mut answers);
    let id = prepared_id(&prom_esvf);

    assert!(matches!(answers.engine_lookup(id), EngineStep::CreatePending));
    let cached_id = reg.register("engine promise").ok().unwrap();
    assert!(answers.await_engine(id, cached_id, "runtime"));
    assert!(!answers.is_materializable(id));

    match answers.resolver_done(id, Ok(EsValueFacade::new_i32(123))) {
        ResolverOutcome::Settle { cached_id: c, runtime, result } => {
            assert_eq!(c, cached_id);
            assert_eq!(runtime, "runtime");
            assert_eq!(result.ok().unwrap().get_i32(), &123);
            assert_eq!(reg.consume(c), Some("engine promise"));
        }
        _ => panic!("expected the engine promise to be settled"),
    }
    assert_eq!(answers.len(), 0);
    assert_eq!(reg.len(), 0);
}

#[test]
fn released_pending_promise_leaves_no_entry() {
    let mut answers: Answers = PromiseAnswers::new();
    let keep = EsValueFacade::new_promise(&mut answers);
    let baseline = answers.len();
    let dropped = EsValueFacade::new_promise(&mut answers);
    assert_eq!(answers.len(), baseline + 1);
    answers.release(prepared_id(&dropped));
    assert_eq!(answers.len(), baseline);
    // a resolver finishing later finds nobody waiting
    let out = answers.resolver_done(prepared_id(&dropped), Ok(EsValueFacade::new_i32(1)));
    assert!(matches!(out, ResolverOutcome::Discarded(Ok(_))));
    assert_eq!(answers.len(), baseline);
    let _ = keep;
}

#[test]
fn released_answered_promise_leaves_no_entry() {
    let mut answers: Answers = PromiseAnswers::new();
    let baseline = answers.len();
    let value = EsValueFacade::new_promise(&mut answers);
    let id = prepared_id(&value);
    answers.resolver_done(id, Err("no".to_string()));
    assert_eq!(value.release(&mut answers), Vec::<i32>::new());
    assert_eq!(answers.len(), baseline);
    assert!(!answers.is_materializable(id));
}

#[test]
fn release_keeps_promise_the_engine_waits_for() {
    let mut answers: Answers = PromiseAnswers::new();
    let id = answers.prepare();
    assert!(matches!(answers.engine_lookup(id), EngineStep::CreatePending));
    assert!(answers.await_engine(id, 3, "rt"));
    answers.release(id);
    assert_eq!(answers.len(), 1);
    assert!(matches!(answers.resolver_done(id, Ok(EsValueFacade::new_i32(1))), ResolverOutcome::Settle { .. }));
}

#[test]
fn second_resolver_result_is_discarded() {
    let mut answers: Answers = PromiseAnswers::new();
    let id = answers.prepare();
    assert!(matches!(answers.resolver_done(id, Ok(EsValueFacade::new_i32(1))), ResolverOutcome::Stored));
    assert!(matches!(
        answers.resolver_done(id, Ok(EsValueFacade::new_i32(2))),
        ResolverOutcome::Discarded(_)
    ));
    match answers.engine_lookup(id) {
        EngineStep::SettleNow(Ok(v)) => assert_eq!(v.get_i32(), &1),
        _ => panic!("expected the first answer"),
    }
}

#[test]
fn await_engine_needs_pending_entry() {
    let mut answers: Answers = PromiseAnswers::new();
    assert!(!answers.await_engine(5, 1, "rt"));
    assert_eq!(answers.len(), 0);
    let _ = PromiseAnswer::<EsValueFacade, &'static str>::Pending;
}

#[test]
fn prepared_ids_are_distinct() {
    let mut answers: Answers = PromiseAnswers::new();
    let mut ids = Vec::new();
    for _ in 0..50 {
        ids.push(answers.prepare());
    }
    ids.sort();
    ids.dedup();
    assert_eq!(ids.len(), 50);
    assert_eq!(answers.len(), 50);
}

#[test]
fn releasing_values() {
    let mut answers: Answers = PromiseAnswers::new();
    let prepared = EsValueFacade::new_promise(&mut answers);
    assert_eq!(prepared.release(&mut answers), Vec::<i32>::new());
    assert_eq!(answers.len(), 0);
    assert_eq!(EsValueFacade::FunctionRef(12).release(&mut answers), vec![12]);
    assert_eq!(EsValueFacade::new_i32(1).release(&mut answers), Vec::<i32>::new());
}

#[test]
fn recording_engine_promise_needs_pending_entry() {
    let mut answers: Answers = PromiseAnswers::new();
    let mut reg: CachedObjectRegistry<&'static str> = CachedObjectRegistry::new();
    let id = answers.prepare();
    let pid = answers.record_engine_promise(&mut reg, id, "p", "rt").ok().unwrap();
    assert_eq!(reg.get(pid), Some(&"p"));
    assert!(!answers.is_materializable(id));
    assert_eq!(answers.record_engine_promise(&mut reg, id, "q", "rt").err(), Some("q"));
    assert_eq!(answers.record_engine_promise(&mut reg, id.wrapping_add(1), "r", "rt").err(), Some("r"));
    assert_eq!(reg.len(), 1);
    match answers.resolver_done(id, Err("e".to_string())) {
        ResolverOutcome::Settle { cached_id, .. } => assert_eq!(cached_id, pid),
        _ => panic!("expected the engine promise to be settled"),
    }
}

#[test]
fn releasing_nested_values() {
    let mut answers: Answers = PromiseAnswers::new();
    let baseline = answers.len();
    let inner = EsValueFacade::new_promise(&mut answers);
    let nested = EsValueFacade::new_promise(&mut answers);
    let answered = prepared_id(&nested);
    answers.resolver_done(answered, Ok(EsValueFacade::new_i32(5)));
    let value = EsValueFacade::new_array(vec![
        EsValueFacade::FunctionRef(3),
        EsValueFacade::new_obj(vec![
            ("p".to_string(), inner),
            ("f".to_string(), EsValueFacade::FunctionRef(4)),
            ("q".to_string(), EsValueFacade::new_array(vec![nested, EsValueFacade::FunctionRef(9)])),
        ]),
        EsValueFacade::new_i32(1),
    ]);
    assert_eq!(answers.len(), baseline + 2);
    assert_eq!(value.function_refs(), vec![3, 4, 9]);
    assert_eq!(value.release(&mut answers), vec![3, 4, 9]);
    assert_eq!(answers.len(), baseline);
}

#[test]
fn materializable_ids() {
    let mut answers: Answers = PromiseAnswers::new();
    let id = answers.prepare();
    assert!(answers.is_materializable(id));
    answers.resolver_done(id, Ok(EsValueFacade::new_i32(2)));
    assert!(answers.is_materializable(id));
    assert!(!answers.is_materializable(id.wrapping_add(1)));
}
