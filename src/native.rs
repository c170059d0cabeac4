//! Conversion between the value facade and engine values.
//!
//! An engine value is described by `NativeValue`: what the conversion reads
//! of it (its kind, scalar payload, elements in index order, own properties),
//! with a callable object carried by a persistent handle `H`. Converting an
//! engine function into a facade value retains it in the cached object
//! registry; everything else is copied.

use crate::registry::CachedObjectRegistry;
use crate::value::{is_well_formed, names_distinct, EsValueFacade};
use vstd::prelude::*;

verus! {

/// An engine value, as the conversion sees it.
pub enum NativeValue<H> {
    /// `undefined`, `null`, or a value of no kind the facade carries.
    Undefined,
    Boolean(bool),
    Int32(i32),
    /// A double, as its IEEE-754 bit pattern.
    Double(u64),
    String(String),
    /// An array-like object: its elements at indices `0 .. length`.
    Array(Vec<NativeValue<H>>),
    /// A promise, registered with the engine's settlement hook under this id.
    Promise(i32),
    /// A callable object, held by a persistent handle.
    Function(H),
    /// A plain object: its own properties.
    Object(Vec<(String, NativeValue<H>)>),
    /// The engine promise to be made for the prepared promise with this id.
    NewPromise(u64),
}

/// How an engine object is classified, in this order: array, promise,
/// callable, plain object.
#[derive(Clone, Copy, Debug, PartialEq, Eq, Structural)]
pub enum ObjectKind {
    Array,
    Promise,
    Function,
    Plain,
}

/// Classifies an engine object from the engine's own predicates.
pub fn classify_object(is_array: bool, is_promise: bool, is_callable: bool) -> (r: ObjectKind)
    ensures
        is_array ==> r == ObjectKind::Array,
        !is_array && is_promise ==> r == ObjectKind::Promise,
        !is_array && !is_promise && is_callable ==> r == ObjectKind::Function,
        !is_array && !is_promise && !is_callable ==> r == ObjectKind::Plain,
{
    if is_array {
        ObjectKind::Array
    } else if is_promise {
        ObjectKind::Promise
    } else if is_callable {
        ObjectKind::Function
    } else {
        ObjectKind::Plain
    }
}

pub open spec fn native_child_count<H>(n: NativeValue<H>) -> nat {
    match n {
        NativeValue::Array(items) => items@.len(),
        NativeValue::Object(props) => props@.len(),
        _ => 0,
    }
}

/// For an array or object `n` and `k <= native_child_count(n)`: how many
/// functions its first `k` elements or property values hold. For `k` beyond
/// that, and for every other value: how many functions `n` holds.
pub open spec fn functions_upto<H>(n: NativeValue<H>, k: nat) -> nat
    decreases n, k,
{
    match n {
        NativeValue::Function(_) => 1,
        NativeValue::Array(items) => if k > items@.len() {
            functions_upto(n, items@.len())
        } else if k == 0 {
            0
        } else {
            functions_upto(n, (k - 1) as nat) + functions_upto(
                items@[k - 1],
                native_child_count(items@[k - 1]) + 1,
            )
        },
        NativeValue::Object(props) => if k > props@.len() {
            functions_upto(n, props@.len())
        } else if k == 0 {
            0
        } else {
            functions_upto(n, (k - 1) as nat) + functions_upto(
                props@[k - 1].1,
                native_child_count(props@[k - 1].1) + 1,
            )
        },
        _ => 0,
    }
}

/// How many functions the engine value `n` holds, at any depth.
pub open spec fn function_count<H>(n: NativeValue<H>) -> nat {
    functions_upto(n, native_child_count(n) + 1)
}

/// The ids from `from` up to, not including, `to`.
pub open spec fn id_range(from: int, to: int) -> Set<i32> {
    Set::new(|k: i32| from <= k < to)
}

/// `v` is what converting the engine value `n` yields when the functions of
/// `n`, in depth-first order, are retained in `reg` under the ids `first`,
/// `first + 1`, and so on.
pub open spec fn lifts<H>(n: NativeValue<H>, v: EsValueFacade, reg: Map<i32, H>, first: int) -> bool
    decreases n,
{
    match n {
        NativeValue::Undefined => v is Undefined,
        NativeValue::Boolean(b) => v == EsValueFacade::Boolean(b),
        NativeValue::Int32(i) => v == EsValueFacade::Int32(i),
        NativeValue::Double(d) => v == EsValueFacade::Float64(d),
        NativeValue::String(s) => match v {
            EsValueFacade::String(t) => t@ == s@,
            _ => false,
        },
        NativeValue::Array(items) => match v {
            EsValueFacade::Array(vs) => {
                &&& vs@.len() == items@.len()
                &&& forall|i: int|
                    0 <= i < items@.len() ==> lifts(
                        items@[i],
                        #[trigger] vs@[i],
                        reg,
                        first + functions_upto(n, i as nat),
                    )
            },
            _ => false,
        },
        NativeValue::Promise(id) => v == EsValueFacade::ManagedPromise(id),
        NativeValue::Function(h) => match v {
            EsValueFacade::FunctionRef(id) => id == first && reg.contains_key(id) && reg[id] == h,
            _ => false,
        },
        NativeValue::Object(props) => match v {
            EsValueFacade::Object(ps) => {
                &&& ps@.len() == props@.len()
                &&& forall|i: int|
                    0 <= i < props@.len() ==> (#[trigger] ps@[i]).0@ == props@[i].0@ && lifts(
                        props@[i].1,
                        ps@[i].1,
                        reg,
                        first + functions_upto(n, i as nat),
                    )
            },
            _ => false,
        },
        NativeValue::NewPromise(id) => v == EsValueFacade::PreparedPromise(id),
    }
}

/// Whether the engine value `n` holds no function anywhere.
pub open spec fn native_without_functions<H>(n: NativeValue<H>) -> bool
    decreases n,
{
    match n {
        NativeValue::Function(_) => false,
        NativeValue::Array(items) => forall|i: int|
            0 <= i < items@.len() ==> native_without_functions(#[trigger] items@[i]),
        NativeValue::Object(props) => forall|i: int|
            0 <= i < props@.len() ==> native_without_functions((#[trigger] props@[i]).1),
        _ => true,
    }
}

/// `lifts` keeps holding as the registry grows.
proof fn lemma_lifts_grow<H>(
    n: NativeValue<H>,
    v: EsValueFacade,
    r1: Map<i32, H>,
    r2: Map<i32, H>,
    first: int,
)
    requires
        lifts(n, v, r1, first),
        r1.submap_of(r2),
    ensures
        lifts(n, v, r2, first),
    decreases n,
{
    match n {
        NativeValue::Array(items) => {
            let vs = v->Array_0;
            assert forall|i: int| 0 <= i < items@.len() implies lifts(
                items@[i],
                #[trigger] vs@[i],
                r2,
                first + functions_upto(n, i as nat),
            ) by {
                lemma_lifts_grow(items@[i], vs@[i], r1, r2, first + functions_upto(n, i as nat));
            }
        },
        NativeValue::Object(props) => {
            let ps = v->Object_0;
            assert forall|i: int| 0 <= i < props@.len() implies (#[trigger] ps@[i]).0@ == props@[i].0@
                && lifts(props@[i].1, ps@[i].1, r2, first + functions_upto(n, i as nat)) by {
                lemma_lifts_grow(props@[i].1, ps@[i].1, r1, r2, first + functions_upto(n, i as nat));
            }
        },
        NativeValue::Function(h) => {
            let id = v->FunctionRef_0;
            assert(r1.contains_key(id));
        },
        _ => {},
    }
}

proof fn lemma_id_ranges_join(a: int, b: int, c: int)
    requires
        a <= b <= c,
    ensures
        id_range(a, b) + id_range(b, c) == id_range(a, c),
{
    assert(id_range(a, b) + id_range(b, c) =~= id_range(a, c));
}

proof fn lemma_functions_upto_mono<H>(n: NativeValue<H>, a: nat, b: nat)
    requires
        a <= b,
    ensures
        functions_upto(n, a) <= functions_upto(n, b),
    decreases b,
{
    if a < b {
        let p = (b - 1) as nat;
        lemma_functions_upto_mono(n, a, p);
        match n {
            NativeValue::Array(items) => {
                if b > items@.len() {
                    if p > items@.len() {
                        assert(functions_upto(n, p) == functions_upto(n, items@.len()));
                    }
                    assert(functions_upto(n, b) == functions_upto(n, items@.len()));
                } else {
                    assert(functions_upto(n, b) >= functions_upto(n, p));
                }
            },
            NativeValue::Object(props) => {
                if b > props@.len() {
                    if p > props@.len() {
                        assert(functions_upto(n, p) == functions_upto(n, props@.len()));
                    }
                    assert(functions_upto(n, b) == functions_upto(n, props@.len()));
                } else {
                    assert(functions_upto(n, b) >= functions_upto(n, p));
                }
            },
            _ => {},
        }
    }
}

fn lift_value<H>(n: NativeValue<H>, reg: &mut CachedObjectRegistry<H>) -> (r: Option<
    EsValueFacade,
>)
    requires
        old(reg).wf(),
    ensures
        final(reg).wf(),
        old(reg)@.submap_of(final(reg)@),
        old(reg).next() <= final(reg).next(),
        final(reg)@.dom() == old(reg)@.dom() + id_range(old(reg).next(), final(reg).next()),
        match r {
            Some(v) => {
                &&& lifts(n, v, final(reg)@, old(reg).next())
                &&& final(reg).next() == old(reg).next() + function_count(n)
            },
            None => {
                &&& final(reg).next() == i32::MAX
                &&& old(reg).next() + function_count(n) > i32::MAX
            },
        },
        native_without_functions(n) ==> r is Some && *final(reg) == *old(reg),
    decreases n,
{
    proof {
        assert(old(reg)@.dom() + id_range(old(reg).next(), old(reg).next()) =~= old(reg)@.dom());
    }
    match n {
        NativeValue::Undefined => Some(EsValueFacade::Undefined),
        NativeValue::Boolean(b) => Some(EsValueFacade::Boolean(b)),
        NativeValue::Int32(i) => Some(EsValueFacade::Int32(i)),
        NativeValue::Double(d) => Some(EsValueFacade::Float64(d)),
        NativeValue::String(s) => Some(EsValueFacade::String(s)),
        NativeValue::Promise(id) => Some(EsValueFacade::ManagedPromise(id)),
        NativeValue::NewPromise(id) => Some(EsValueFacade::PreparedPromise(id)),
        NativeValue::Function(h) => {
            match reg.register(h) {
                Ok(id) => {
                    proof {
                        assert(reg@.dom() =~= old(reg)@.dom() + id_range(
                            old(reg).next(),
                            reg.next(),
                        ));
                    }
                    Some(EsValueFacade::FunctionRef(id))
                },
                Err(_) => None,
            }
        },
        NativeValue::Array(items) => {
            let ghost all = items@;
            let ghost reg0 = *reg;
            let mut rest = items;
            let mut out: Vec<EsValueFacade> = Vec::new();
            while rest.len() > 0
                invariant
                    reg.wf(),
                    reg0 == *old(reg),
                    reg0@.submap_of(reg@),
                    reg0.next() <= reg.next(),
                    reg@.dom() == reg0@.dom() + id_range(reg0.next(), reg.next()),
                    reg.next() == reg0.next() + functions_upto(n, out@.len() as nat),
                    out@.len() + rest@.len() == all.len(),
                    rest@ == all.subrange(out@.len() as int, all.len() as int),
                    forall|j: int|
                        0 <= j < out@.len() ==> lifts(
                            all[j],
                            #[trigger] out@[j],
                            reg@,
                            reg0.next() + functions_upto(n, j as nat),
                        ),
                    native_without_functions(n) ==> *reg == reg0,
                    n == NativeValue::Array(items),
                    all == items@,
                decreases rest@.len(),
            {
                let ghost k = out@.len() as int;
                let item = rest.remove(0);
                assert(item == all[k]);
                proof {
                    assert(n->Array_0 == items);
                    assert(n->Array_0@[k] == all[k]);
                    assert(functions_upto(n, (k + 1) as nat) == functions_upto(n, k as nat)
                        + function_count(all[k]));
                }
                let ghost before = *reg;
                let converted = lift_value(item, reg);
                proof {
                    vstd::map_lib::lemma_submap_of_trans(reg0@, before@, reg@);
                    lemma_id_ranges_join(reg0.next(), before.next(), reg.next());
                    assert(reg@.dom() =~= reg0@.dom() + id_range(reg0.next(), reg.next()));
                }
                match converted {
                    Some(v) => {
                        proof {
                            assert forall|j: int| 0 <= j < out@.len() implies lifts(
                                all[j],
                                #[trigger] out@[j],
                                reg@,
                                reg0.next() + functions_upto(n, j as nat),
                            ) by {
                                lemma_lifts_grow(
                                    all[j],
                                    out@[j],
                                    before@,
                                    reg@,
                                    reg0.next() + functions_upto(n, j as nat),
                                );
                            }
                        }
                        out.push(v);
                        proof {
                            assert(rest@ =~= all.subrange(out@.len() as int, all.len() as int));
                        }
                    },
                    None => {
                        proof {
                            lemma_functions_upto_mono(n, (k + 1) as nat, all.len() as nat);
                            assert(function_count(n) == functions_upto(n, all.len() as nat));
                        }
                        return None;
                    },
                }
            }
            proof {
                assert(function_count(n) == functions_upto(n, all.len() as nat));
            }
            Some(EsValueFacade::Array(out))
        },
        NativeValue::Object(props) => {
            let ghost all = props@;
            let ghost reg0 = *reg;
            let mut rest = props;
            let mut out: Vec<(String, EsValueFacade)> = Vec::new();
            while rest.len() > 0
                invariant
                    reg.wf(),
                    reg0 == *old(reg),
                    reg0@.submap_of(reg@),
                    reg0.next() <= reg.next(),
                    reg@.dom() == reg0@.dom() + id_range(reg0.next(), reg.next()),
                    reg.next() == reg0.next() + functions_upto(n, out@.len() as nat),
                    out@.len() + rest@.len() == all.len(),
                    rest@ == all.subrange(out@.len() as int, all.len() as int),
                    forall|j: int|
                        0 <= j < out@.len() ==> (#[trigger] out@[j]).0@ == all[j].0@ && lifts(
                            all[j].1,
                            out@[j].1,
                            reg@,
                            reg0.next() + functions_upto(n, j as nat),
                        ),
                    native_without_functions(n) ==> *reg == reg0,
                    n == NativeValue::Object(props),
                    all == props@,
                decreases rest@.len(),
            {
                let ghost k = out@.len() as int;
                let (name, item) = rest.remove(0);
                assert(item == all[k].1);
                proof {
                    assert(n->Object_0 == props);
                    assert(n->Object_0@[k] == all[k]);
                    assert(functions_upto(n, (k + 1) as nat) == functions_upto(n, k as nat)
                        + function_count(all[k].1));
                }
                let ghost before = *reg;
                let converted = lift_value(item, reg);
                proof {
                    vstd::map_lib::lemma_submap_of_trans(reg0@, before@, reg@);
                    lemma_id_ranges_join(reg0.next(), before.next(), reg.next());
                    assert(reg@.dom() =~= reg0@.dom() + id_range(reg0.next(), reg.next()));
                }
                match converted {
                    Some(v) => {
                        proof {
                            assert forall|j: int| 0 <= j < out@.len() implies (#[trigger] out@[j]).0@
                                == all[j].0@ && lifts(
                                all[j].1,
                                out@[j].1,
                                reg@,
                                reg0.next() + functions_upto(n, j as nat),
                            ) by {
                                lemma_lifts_grow(
                                    all[j].1,
                                    out@[j].1,
                                    before@,
                                    reg@,
                                    reg0.next() + functions_upto(n, j as nat),
                                );
                            }
                        }
                        out.push((name, v));
                        proof {
                            assert(rest@ =~= all.subrange(out@.len() as int, all.len() as int));
                        }
                    },
                    None => {
                        proof {
                            lemma_functions_upto_mono(n, (k + 1) as nat, all.len() as nat);
                            assert(function_count(n) == functions_upto(n, all.len() as nat));
                        }
                        return None;
                    },
                }
            }
            proof {
                assert(function_count(n) == functions_upto(n, all.len() as nat));
            }
            Some(EsValueFacade::Object(out))
        },
    }
}

/// `n` is the engine value that converting the facade value `v` produces.
/// Functions and engine promises have no engine form of their own here and
/// become `undefined`; a prepared promise becomes a promise to be made.
pub open spec fn lowers<H>(v: EsValueFacade, n: NativeValue<H>) -> bool
    decreases v,
{
    match v {
        EsValueFacade::Undefined => n is Undefined,
        EsValueFacade::String(s) => match n {
            NativeValue::String(t) => t@ == s@,
            _ => false,
        },
        EsValueFacade::Int32(i) => n == NativeValue::<H>::Int32(i),
        EsValueFacade::Float64(d) => n == NativeValue::<H>::Double(d),
        EsValueFacade::Boolean(b) => n == NativeValue::<H>::Boolean(b),
        EsValueFacade::Array(vs) => match n {
            NativeValue::Array(ns) => {
                &&& ns@.len() == vs@.len()
                &&& forall|i: int| 0 <= i < vs@.len() ==> lowers(vs@[i], #[trigger] ns@[i])
            },
            _ => false,
        },
        EsValueFacade::Object(ps) => match n {
            NativeValue::Object(nps) => {
                &&& nps@.len() == ps@.len()
                &&& forall|i: int|
                    0 <= i < ps@.len() ==> (#[trigger] nps@[i]).0@ == ps@[i].0@ && lowers(
                        ps@[i].1,
                        nps@[i].1,
                    )
            },
            _ => false,
        },
        EsValueFacade::ManagedPromise(_) => n is Undefined,
        EsValueFacade::FunctionRef(_) => n is Undefined,
        EsValueFacade::PreparedPromise(id) => n == NativeValue::<H>::NewPromise(id),
    }
}

/// Whether `v` is made of scalars, arrays and objects only: no function and
/// no promise anywhere in it.
pub open spec fn is_plain(v: EsValueFacade) -> bool
    decreases v,
{
    match v {
        EsValueFacade::ManagedPromise(_) => false,
        EsValueFacade::PreparedPromise(_) => false,
        EsValueFacade::FunctionRef(_) => false,
        EsValueFacade::Array(vs) => forall|i: int| 0 <= i < vs@.len() ==> is_plain(#[trigger] vs@[i]),
        EsValueFacade::Object(ps) => forall|i: int|
            0 <= i < ps@.len() ==> is_plain((#[trigger] ps@[i]).1),
        _ => true,
    }
}

/// Deep equality of facade values: same kind, same scalars, same text, and
/// the same elements and properties in the same order.
pub open spec fn same_value(a: EsValueFacade, b: EsValueFacade) -> bool
    decreases a,
{
    match a {
        EsValueFacade::String(s) => match b {
            EsValueFacade::String(t) => s@ == t@,
            _ => false,
        },
        EsValueFacade::Array(xs) => match b {
            EsValueFacade::Array(ys) => {
                &&& ys@.len() == xs@.len()
                &&& forall|i: int| 0 <= i < xs@.len() ==> same_value(xs@[i], #[trigger] ys@[i])
            },
            _ => false,
        },
        EsValueFacade::Object(ps) => match b {
            EsValueFacade::Object(qs) => {
                &&& qs@.len() == ps@.len()
                &&& forall|i: int|
                    0 <= i < ps@.len() ==> (#[trigger] qs@[i]).0@ == ps@[i].0@ && same_value(
                        ps@[i].1,
                        qs@[i].1,
                    )
            },
            _ => false,
        },
        _ => a == b,
    }
}

fn lower_value<H>(v: &EsValueFacade) -> (r: NativeValue<H>)
    ensures
        lowers(*v, r),
    decreases v,
{
    match v {
        EsValueFacade::Undefined => NativeValue::Undefined,
        EsValueFacade::String(s) => NativeValue::String(s.clone()),
        EsValueFacade::Int32(i) => NativeValue::Int32(*i),
        EsValueFacade::Float64(d) => NativeValue::Double(*d),
        EsValueFacade::Boolean(b) => NativeValue::Boolean(*b),
        EsValueFacade::Array(vs) => {
            let mut out: Vec<NativeValue<H>> = Vec::new();
            let mut i: usize = 0;
            while i < vs.len()
                invariant
                    *v == EsValueFacade::Array(*vs),
                    i <= vs@.len(),
                    out@.len() == i,
                    forall|j: int| 0 <= j < i ==> lowers(vs@[j], #[trigger] out@[j]),
                decreases vs@.len() - i,
            {
                assert(v->Array_0@[i as int] == vs@[i as int]);
                let c = lower_value::<H>(&vs[i]);
                out.push(c);
                i += 1;
            }
            NativeValue::Array(out)
        },
        EsValueFacade::Object(ps) => {
            let mut out: Vec<(String, NativeValue<H>)> = Vec::new();
            let mut i: usize = 0;
            while i < ps.len()
                invariant
                    *v == EsValueFacade::Object(*ps),
                    i <= ps@.len(),
                    out@.len() == i,
                    forall|j: int|
                        0 <= j < i ==> (#[trigger] out@[j]).0@ == ps@[j].0@ && lowers(
                            ps@[j].1,
                            out@[j].1,
                        ),
                decreases ps@.len() - i,
            {
                assert(v->Object_0@[i as int] == ps@[i as int]);
                let c = lower_value::<H>(&ps[i].1);
                out.push((ps[i].0.clone(), c));
                i += 1;
            }
            NativeValue::Object(out)
        },
        EsValueFacade::ManagedPromise(_) => NativeValue::Undefined,
        EsValueFacade::FunctionRef(_) => NativeValue::Undefined,
        EsValueFacade::PreparedPromise(id) => NativeValue::NewPromise(*id),
    }
}

/// Round trip: converting a plain facade value (scalars, arrays and objects,
/// with no function or promise) into an engine value and back yields an
/// equal value; and the engine value holds no function, so converting it
/// back retains nothing.
pub proof fn lemma_round_trip<H>(
    v: EsValueFacade,
    n: NativeValue<H>,
    w: EsValueFacade,
    reg: Map<i32, H>,
    first: int,
)
    requires
        is_plain(v),
        lowers(v, n),
        lifts(n, w, reg, first),
    ensures
        same_value(v, w),
        native_without_functions(n),
    decreases v,
{
    match v {
        EsValueFacade::Array(xs) => {
            let ns = n->Array_0;
            let ys = w->Array_0;
            assert forall|i: int| 0 <= i < xs@.len() implies same_value(xs@[i], #[trigger] ys@[i])
                && native_without_functions(ns@[i]) by {
                assert(v->Array_0@[i] == xs@[i]);
                lemma_round_trip(xs@[i], ns@[i], ys@[i], reg, first + functions_upto(n, i as nat));
            }
            assert forall|i: int| 0 <= i < ns@.len() implies native_without_functions(
                #[trigger] ns@[i],
            ) by {
                assert(v->Array_0@[i] == xs@[i]);
                assert(lifts(ns@[i], ys@[i], reg, first + functions_upto(n, i as nat)));
                lemma_round_trip(xs@[i], ns@[i], ys@[i], reg, first + functions_upto(n, i as nat));
            }
        },
        EsValueFacade::Object(ps) => {
            let nps = n->Object_0;
            let qs = w->Object_0;
            assert forall|i: int| 0 <= i < ps@.len() implies (#[trigger] qs@[i]).0@ == ps@[i].0@
                && same_value(ps@[i].1, qs@[i].1) && native_without_functions(nps@[i].1) by {
                assert(v->Object_0@[i] == ps@[i]);
                assert(nps@[i].0@ == ps@[i].0@);
                lemma_round_trip(ps@[i].1, nps@[i].1, qs@[i].1, reg, first + functions_upto(n, i as nat));
            }
            assert forall|i: int| 0 <= i < nps@.len() implies native_without_functions(
                (#[trigger] nps@[i]).1,
            ) by {
                assert(v->Object_0@[i] == ps@[i]);
                assert(qs@[i].0@ == nps@[i].0@ && lifts(nps@[i].1, qs@[i].1, reg, first + functions_upto(n, i as nat)));
                lemma_round_trip(ps@[i].1, nps@[i].1, qs@[i].1, reg, first + functions_upto(n, i as nat));
            }
        },
        _ => {},
    }
}

/// Converts the arguments of a call, in order.
pub fn to_engine_values<H>(args: &Vec<EsValueFacade>) -> (r: Vec<NativeValue<H>>)
    ensures
        r@.len() == args@.len(),
        forall|i: int| 0 <= i < args@.len() ==> lowers(args@[i], #[trigger] r@[i]),
{
    let mut out: Vec<NativeValue<H>> = Vec::new();
    let mut i: usize = 0;
    while i < args.len()
        invariant
            i <= args@.len(),
            out@.len() == i,
            forall|j: int| 0 <= j < i ==> lowers(args@[j], #[trigger] out@[j]),
        decreases args@.len() - i,
    {
        out.push(to_engine_value::<H>(&args[i]));
        i += 1;
    }
    out
}

/// The property names of every plain object in `n`, at any depth, are
/// distinct (as the engine's own properties are).
pub open spec fn native_well_formed<H>(n: NativeValue<H>) -> bool
    decreases n,
{
    match n {
        NativeValue::Array(items) => forall|i: int|
            0 <= i < items@.len() ==> native_well_formed(#[trigger] items@[i]),
        NativeValue::Object(props) => {
            &&& forall|i: int, j: int|
                0 <= i < props@.len() && 0 <= j < props@.len() && i != j ==> #[trigger] props@[i].0@
                    != #[trigger] props@[j].0@
            &&& forall|i: int|
                0 <= i < props@.len() ==> native_well_formed((#[trigger] props@[i]).1)
        },
        _ => true,
    }
}

/// Converting a well-formed engine value yields a well-formed facade value.
pub proof fn lemma_lifts_well_formed<H>(
    n: NativeValue<H>,
    v: EsValueFacade,
    reg: Map<i32, H>,
    first: int,
)
    requires
        native_well_formed(n),
        lifts(n, v, reg, first),
    ensures
        is_well_formed(v),
    decreases n,
{
    match n {
        NativeValue::Array(items) => {
            let vs = v->Array_0;
            assert forall|i: int| 0 <= i < vs@.len() implies is_well_formed(#[trigger] vs@[i]) by {
                assert(n->Array_0@[i] == items@[i]);
                assert(lifts(items@[i], vs@[i], reg, first + functions_upto(n, i as nat)));
                lemma_lifts_well_formed(items@[i], vs@[i], reg, first + functions_upto(n, i as nat));
            }
        },
        NativeValue::Object(props) => {
            let ps = v->Object_0;
            assert forall|i: int| 0 <= i < ps@.len() implies is_well_formed((#[trigger] ps@[i]).1) by {
                assert(n->Object_0@[i] == props@[i]);
                assert(ps@[i].0@ == props@[i].0@ && lifts(props@[i].1, ps@[i].1, reg, first + functions_upto(n, i as nat)));
                lemma_lifts_well_formed(props@[i].1, ps@[i].1, reg, first + functions_upto(n, i as nat));
            }
            assert forall|i: int, j: int|
                0 <= i < ps@.len() && 0 <= j < ps@.len() && i != j implies #[trigger] ps@[i].0@
                != #[trigger] ps@[j].0@ by {
                assert(ps@[i].0@ == props@[i].0@);
                assert(ps@[j].0@ == props@[j].0@);
                assert(props@[i].0@ != props@[j].0@);
            }
            assert(names_distinct(ps@));
        },
        _ => {},
    }
}

/// Converting a well-formed facade value yields a well-formed engine value.
pub proof fn lemma_lowers_well_formed<H>(v: EsValueFacade, n: NativeValue<H>)
    requires
        is_well_formed(v),
        lowers(v, n),
    ensures
        native_well_formed(n),
    decreases v,
{
    match v {
        EsValueFacade::Array(vs) => {
            let ns = n->Array_0;
            assert forall|i: int| 0 <= i < ns@.len() implies native_well_formed(#[trigger] ns@[i]) by {
                assert(v->Array_0@[i] == vs@[i]);
                assert(lowers(vs@[i], ns@[i]));
                lemma_lowers_well_formed(vs@[i], ns@[i]);
            }
        },
        EsValueFacade::Object(ps) => {
            let nps = n->Object_0;
            assert forall|i: int| 0 <= i < nps@.len() implies native_well_formed(
                (#[trigger] nps@[i]).1,
            ) by {
                assert(v->Object_0@[i] == ps@[i]);
                assert(nps@[i].0@ == ps@[i].0@ && lowers(ps@[i].1, nps@[i].1));
                lemma_lowers_well_formed(ps@[i].1, nps@[i].1);
            }
            assert forall|i: int, j: int|
                0 <= i < nps@.len() && 0 <= j < nps@.len() && i != j implies #[trigger] nps@[i].0@
                != #[trigger] nps@[j].0@ by {
                assert(nps@[i].0@ == ps@[i].0@);
                assert(nps@[j].0@ == ps@[j].0@);
                assert(ps@[i].0@ != ps@[j].0@);
            }
        },
        _ => {},
    }
}

/// Converts an engine value into a facade value, depth first. Each function
/// met on the way is retained in `reg` under a fresh id: in depth-first
/// order they get `old(reg).next()`, the next id, and so on, and `reg` gains
/// exactly those entries. A value without functions leaves `reg` as it was.
/// The result is `None` only when the registry has run out of ids. A
/// well-formed engine value gives a well-formed facade value.
pub fn from_engine_value<H>(n: NativeValue<H>, reg: &mut CachedObjectRegistry<H>) -> (r: Option<
    EsValueFacade,
>)
    requires
        old(reg).wf(),
    ensures
        final(reg).wf(),
        old(reg)@.submap_of(final(reg)@),
        old(reg).next() <= final(reg).next(),
        final(reg)@.dom() == old(reg)@.dom() + id_range(old(reg).next(), final(reg).next()),
        old(reg)@.dom().disjoint(id_range(old(reg).next(), final(reg).next())),
        r is Some <==> old(reg).next() + function_count(n) <= i32::MAX,
        match r {
            Some(v) => {
                &&& lifts(n, v, final(reg)@, old(reg).next())
                &&& final(reg).next() == old(reg).next() + function_count(n)
                &&& native_well_formed(n) ==> is_well_formed(v)
            },
            None => final(reg).next() == i32::MAX,
        },
        native_without_functions(n) ==> r is Some && *final(reg) == *old(reg),
{
    let ghost n0 = n;
    proof {
        old(reg).lemma_ids_below_next();
    }
    let r = lift_value(n, reg);
    proof {
        reg.lemma_ids_below_next();
        assert(old(reg)@.dom().disjoint(id_range(old(reg).next(), reg.next())));
        if r is Some && native_well_formed(n0) {
            lemma_lifts_well_formed(n0, r->Some_0, reg@, old(reg).next());
        }
    }
    r
}

/// Converts a facade value into an engine value, children first. A
/// well-formed value gives a well-formed engine value.
pub fn to_engine_value<H>(v: &EsValueFacade) -> (r: NativeValue<H>)
    ensures
        lowers(*v, r),
        is_well_formed(*v) ==> native_well_formed(r),
{
    let r = lower_value(v);
    proof {
        if is_well_formed(*v) {
            lemma_lowers_well_formed(*v, r);
        }
    }
    r
}

} // verus!
