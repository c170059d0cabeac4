//! The value facade: the one representation of engine data that crosses
//! threads.

use crate::promises::{after_releases, lemma_after_releases_concat, PromiseAnswers};
use vstd::prelude::*;

verus! {

/// A host-owned copy of an engine value. Exactly one variant holds at a
/// time; `Undefined` is the empty value.
#[derive(Debug)]
pub enum EsValueFacade {
    Undefined,
    String(String),
    Int32(i32),
    /// A double, kept as its IEEE-754 bit pattern.
    Float64(u64),
    Boolean(bool),
    /// Named properties; names are distinct.
    Object(Vec<(String, EsValueFacade)>),
    Array(Vec<EsValueFacade>),
    /// An engine promise the host waits for, known by the id under which
    /// its settlement will be reported.
    ManagedPromise(i32),
    /// A host-resolved promise not yet handed to the engine, known by its
    /// id in the promise answer table.
    PreparedPromise(u64),
    /// An engine function kept alive in the cached object registry under
    /// this id.
    FunctionRef(i32),
}

/// Whether the property names of `props` are distinct.
pub open spec fn names_distinct(props: Seq<(String, EsValueFacade)>) -> bool {
    forall|i: int, j: int|
        0 <= i < props.len() && 0 <= j < props.len() && i != j ==> #[trigger] props[i].0@
            != #[trigger] props[j].0@
}

/// The invariant of the data model: the property names of every object in
/// `v`, at any depth, are distinct.
pub open spec fn is_well_formed(v: EsValueFacade) -> bool
    decreases v,
{
    match v {
        EsValueFacade::Array(vs) => forall|i: int|
            0 <= i < vs@.len() ==> is_well_formed(#[trigger] vs@[i]),
        EsValueFacade::Object(ps) => {
            &&& names_distinct(ps@)
            &&& forall|i: int| 0 <= i < ps@.len() ==> is_well_formed((#[trigger] ps@[i]).1)
        },
        _ => true,
    }
}

pub open spec fn child_count(v: EsValueFacade) -> nat {
    match v {
        EsValueFacade::Array(vs) => vs@.len(),
        EsValueFacade::Object(ps) => ps@.len(),
        _ => 0,
    }
}

/// For an array or object `v` and `k <= child_count(v)`: the cached ids of
/// the functions in its first `k` elements or property values, depth first.
/// For `k` beyond that, and for every other value: those of all of `v`.
pub open spec fn function_ids_upto(v: EsValueFacade, k: nat) -> Seq<i32>
    decreases v, k,
{
    match v {
        EsValueFacade::FunctionRef(id) => seq![id],
        EsValueFacade::Array(vs) => if k > vs@.len() {
            function_ids_upto(v, vs@.len())
        } else if k == 0 {
            Seq::empty()
        } else {
            function_ids_upto(v, (k - 1) as nat) + function_ids_upto(
                vs@[k - 1],
                child_count(vs@[k - 1]) + 1,
            )
        },
        EsValueFacade::Object(ps) => if k > ps@.len() {
            function_ids_upto(v, ps@.len())
        } else if k == 0 {
            Seq::empty()
        } else {
            function_ids_upto(v, (k - 1) as nat) + function_ids_upto(
                ps@[k - 1].1,
                child_count(ps@[k - 1].1) + 1,
            )
        },
        _ => Seq::empty(),
    }
}

/// The cached ids of every function `v` holds, at any depth, depth first.
pub open spec fn function_ids(v: EsValueFacade) -> Seq<i32> {
    function_ids_upto(v, child_count(v) + 1)
}

/// Like `function_ids_upto`, for the ids of prepared promises.
pub open spec fn prepared_ids_upto(v: EsValueFacade, k: nat) -> Seq<u64>
    decreases v, k,
{
    match v {
        EsValueFacade::PreparedPromise(id) => seq![id],
        EsValueFacade::Array(vs) => if k > vs@.len() {
            prepared_ids_upto(v, vs@.len())
        } else if k == 0 {
            Seq::empty()
        } else {
            prepared_ids_upto(v, (k - 1) as nat) + prepared_ids_upto(
                vs@[k - 1],
                child_count(vs@[k - 1]) + 1,
            )
        },
        EsValueFacade::Object(ps) => if k > ps@.len() {
            prepared_ids_upto(v, ps@.len())
        } else if k == 0 {
            Seq::empty()
        } else {
            prepared_ids_upto(v, (k - 1) as nat) + prepared_ids_upto(
                ps@[k - 1].1,
                child_count(ps@[k - 1].1) + 1,
            )
        },
        _ => Seq::empty(),
    }
}

/// The answer-table ids of every prepared promise `v` holds, at any depth,
/// depth first.
pub open spec fn prepared_ids(v: EsValueFacade) -> Seq<u64> {
    prepared_ids_upto(v, child_count(v) + 1)
}

impl EsValueFacade {
    /// The properties of an object value; empty for other kinds.
    pub open spec fn props(&self) -> Seq<(String, EsValueFacade)> {
        match self {
            EsValueFacade::Object(ps) => ps@,
            _ => Seq::empty(),
        }
    }

    /// The empty value.
    pub fn undefined() -> (r: Self)
        ensures
            r is Undefined,
    {
        EsValueFacade::Undefined
    }

    pub fn new_i32(num: i32) -> (r: Self)
        ensures
            r == EsValueFacade::Int32(num),
    {
        EsValueFacade::Int32(num)
    }

    pub fn new_str(s: String) -> (r: Self)
        ensures
            r == EsValueFacade::String(s),
    {
        EsValueFacade::String(s)
    }

    pub fn new_bool(b: bool) -> (r: Self)
        ensures
            r == EsValueFacade::Boolean(b),
    {
        EsValueFacade::Boolean(b)
    }

    /// A double given by its IEEE-754 bit pattern.
    pub fn new_f64_bits(bits: u64) -> (r: Self)
        ensures
            r == EsValueFacade::Float64(bits),
    {
        EsValueFacade::Float64(bits)
    }

    pub fn new_array(vals: Vec<EsValueFacade>) -> (r: Self)
        ensures
            r == EsValueFacade::Array(vals),
    {
        EsValueFacade::Array(vals)
    }

    /// An object with the given properties, whose names must be distinct.
    pub fn new_obj(props: Vec<(String, EsValueFacade)>) -> (r: Self)
        requires
            names_distinct(props@),
        ensures
            r == EsValueFacade::Object(props),
    {
        EsValueFacade::Object(props)
    }

    /// A host-resolved promise: records it as pending in `answers` under a
    /// fresh id. The caller runs its resolver off the engine thread and
    /// reports the result with `PromiseAnswers::resolver_done`.
    pub fn new_promise<W>(answers: &mut PromiseAnswers<EsValueFacade, W>) -> (r: Self)
        requires
            old(answers).wf(),
        ensures
            final(answers).wf(),
            match r {
                EsValueFacade::PreparedPromise(id) => {
                    &&& !old(answers)@.contains_key(id)
                    &&& final(answers)@ == old(answers)@.insert(
                        id,
                        crate::promises::PromiseAnswer::Pending,
                    )
                },
                _ => false,
            },
    {
        EsValueFacade::PreparedPromise(answers.prepare())
    }

    pub fn is_string(&self) -> (r: bool)
        ensures
            r == self is String,
    {
        match self {
            EsValueFacade::String(_) => true,
            _ => false,
        }
    }

    pub fn is_i32(&self) -> (r: bool)
        ensures
            r == self is Int32,
    {
        match self {
            EsValueFacade::Int32(_) => true,
            _ => false,
        }
    }

    pub fn is_f64(&self) -> (r: bool)
        ensures
            r == self is Float64,
    {
        match self {
            EsValueFacade::Float64(_) => true,
            _ => false,
        }
    }

    pub fn is_boolean(&self) -> (r: bool)
        ensures
            r == self is Boolean,
    {
        match self {
            EsValueFacade::Boolean(_) => true,
            _ => false,
        }
    }

    pub fn is_managed_object(&self) -> (r: bool)
        ensures
            r == self is ManagedPromise,
    {
        match self {
            EsValueFacade::ManagedPromise(_) => true,
            _ => false,
        }
    }

    /// Whether this is an engine promise the host can wait for.
    pub fn is_promise(&self) -> (r: bool)
        ensures
            r == self is ManagedPromise,
    {
        self.is_managed_object()
    }

    pub fn is_prepped_promise(&self) -> (r: bool)
        ensures
            r == self is PreparedPromise,
    {
        match self {
            EsValueFacade::PreparedPromise(_) => true,
            _ => false,
        }
    }

    pub fn is_object(&self) -> (r: bool)
        ensures
            r == self is Object,
    {
        match self {
            EsValueFacade::Object(_) => true,
            _ => false,
        }
    }

    pub fn is_array(&self) -> (r: bool)
        ensures
            r == self is Array,
    {
        match self {
            EsValueFacade::Array(_) => true,
            _ => false,
        }
    }

    pub fn is_function(&self) -> (r: bool)
        ensures
            r == self is FunctionRef,
    {
        match self {
            EsValueFacade::FunctionRef(_) => true,
            _ => false,
        }
    }

    /// The text of a string value. Asking a value of another kind is a
    /// caller's error, excluded here.
    pub fn get_string(&self) -> (r: &String)
        requires
            self is String,
        ensures
            *self == EsValueFacade::String(*r),
    {
        match self {
            EsValueFacade::String(s) => s,
            _ => vstd::pervasive::unreached(),
        }
    }

    pub fn get_i32(&self) -> (r: &i32)
        requires
            self is Int32,
        ensures
            *self == EsValueFacade::Int32(*r),
    {
        match self {
            EsValueFacade::Int32(n) => n,
            _ => vstd::pervasive::unreached(),
        }
    }

    pub fn get_boolean(&self) -> (r: bool)
        requires
            self is Boolean,
        ensures
            *self == EsValueFacade::Boolean(r),
    {
        match self {
            EsValueFacade::Boolean(b) => *b,
            _ => false,
        }
    }

    /// The bit pattern of a double value.
    pub fn get_f64_bits(&self) -> (r: u64)
        requires
            self is Float64,
        ensures
            *self == EsValueFacade::Float64(r),
    {
        match self {
            EsValueFacade::Float64(b) => *b,
            _ => 0,
        }
    }

    /// The id under which the settlement of an engine promise is reported.
    pub fn get_managed_object_id(&self) -> (r: i32)
        requires
            self is ManagedPromise,
        ensures
            *self == EsValueFacade::ManagedPromise(r),
    {
        match self {
            EsValueFacade::ManagedPromise(id) => *id,
            _ => 0,
        }
    }

    /// The answer-table id of a prepared promise.
    pub fn get_prepared_promise_id(&self) -> (r: u64)
        requires
            self is PreparedPromise,
        ensures
            *self == EsValueFacade::PreparedPromise(r),
    {
        match self {
            EsValueFacade::PreparedPromise(id) => *id,
            _ => 0,
        }
    }

    /// The cached object id of a retained function.
    pub fn get_function_id(&self) -> (r: i32)
        requires
            self is FunctionRef,
        ensures
            *self == EsValueFacade::FunctionRef(r),
    {
        match self {
            EsValueFacade::FunctionRef(id) => *id,
            _ => 0,
        }
    }

    pub fn get_array(&self) -> (r: &Vec<EsValueFacade>)
        requires
            self is Array,
        ensures
            *self == EsValueFacade::Array(*r),
    {
        match self {
            EsValueFacade::Array(vs) => vs,
            _ => vstd::pervasive::unreached(),
        }
    }

    /// The properties of an object value.
    pub fn get_object(&self) -> (r: &Vec<(String, EsValueFacade)>)
        requires
            self is Object,
        ensures
            *self == EsValueFacade::Object(*r),
    {
        match self {
            EsValueFacade::Object(ps) => ps,
            _ => vstd::pervasive::unreached(),
        }
    }

    /// The property named `name` of an object value, if it has one.
    pub fn get_prop(&self, name: &String) -> (r: Option<&EsValueFacade>)
        requires
            self is Object,
        ensures
            ({
                let ps = self.props();
                match r {
                    Some(v) => exists|i: int|
                        0 <= i < ps.len() && ps[i].0@ == name@ && #[trigger] ps[i].1 == *v,
                    None => forall|i: int| 0 <= i < ps.len() ==> #[trigger] ps[i].0@ != name@,
                }
            }),
    {
        let ps = self.get_object();
        let mut i: usize = 0;
        while i < ps.len()
            invariant
                *self == EsValueFacade::Object(*ps),
                i <= ps@.len(),
                forall|j: int| 0 <= j < i ==> #[trigger] ps@[j].0@ != name@,
            decreases ps@.len() - i,
        {
            if ps[i].0 == *name {
                let r = &ps[i].1;
                assert(self.props() == ps@);
                assert(ps@[i as int].0@ == name@ && ps@[i as int].1 == *r);
                return Some(r);
            }
            i += 1;
        }
        None
    }

    /// The cached object ids of every function this value holds, at any
    /// depth, in depth-first order.
    pub fn function_refs(&self) -> (r: Vec<i32>)
        ensures
            r@ == function_ids(*self),
    {
        let mut out: Vec<i32> = Vec::new();
        collect_function_ids(self, &mut out);
        assert(out@ =~= function_ids(*self));
        out
    }

    /// What discarding this value requires, for it and every value nested
    /// in it. Each prepared promise leaves the answer table here (see
    /// `after_release`). The retained functions are returned by their
    /// cached object ids, in depth-first order: the caller consumes those
    /// entries of the registry on the engine thread, where the handles may
    /// be unrooted.
    pub fn release<W>(&self, answers: &mut PromiseAnswers<EsValueFacade, W>) -> (r: Vec<i32>)
        requires
            old(answers).wf(),
        ensures
            final(answers).wf(),
            final(answers)@ == after_releases(old(answers)@, prepared_ids(*self)),
            r@ == function_ids(*self),
    {
        release_prepared(self, answers);
        self.function_refs()
    }
}

fn collect_function_ids(v: &EsValueFacade, out: &mut Vec<i32>)
    ensures
        final(out)@ == old(out)@ + function_ids(*v),
    decreases v,
{
    let ghost start = old(out)@;
    match v {
        EsValueFacade::FunctionRef(id) => {
            out.push(*id);
        },
        EsValueFacade::Array(vs) => {
            let mut i: usize = 0;
            while i < vs.len()
                invariant
                    *v == EsValueFacade::Array(*vs),
                    i <= vs@.len(),
                    out@ == start + function_ids_upto(*v, i as nat),
                decreases vs@.len() - i,
            {
                assert(v->Array_0@[i as int] == vs@[i as int]);
                collect_function_ids(&vs[i], out);
                proof {
                    assert(function_ids_upto(*v, (i + 1) as nat) == function_ids_upto(*v, i as nat)
                        + function_ids(vs@[i as int]));
                    assert(out@ =~= start + function_ids_upto(*v, (i + 1) as nat));
                }
                i += 1;
            }
        },
        EsValueFacade::Object(ps) => {
            let mut i: usize = 0;
            while i < ps.len()
                invariant
                    *v == EsValueFacade::Object(*ps),
                    i <= ps@.len(),
                    out@ == start + function_ids_upto(*v, i as nat),
                decreases ps@.len() - i,
            {
                assert(v->Object_0@[i as int] == ps@[i as int]);
                collect_function_ids(&ps[i].1, out);
                proof {
                    assert(function_ids_upto(*v, (i + 1) as nat) == function_ids_upto(*v, i as nat)
                        + function_ids(ps@[i as int].1));
                    assert(out@ =~= start + function_ids_upto(*v, (i + 1) as nat));
                }
                i += 1;
            }
        },
        _ => {},
    }
    proof {
        assert(out@ =~= start + function_ids(*v));
    }
}

fn release_prepared<W>(v: &EsValueFacade, answers: &mut PromiseAnswers<EsValueFacade, W>)
    requires
        old(answers).wf(),
    ensures
        final(answers).wf(),
        final(answers)@ == after_releases(old(answers)@, prepared_ids(*v)),
    decreases v,
{
    let ghost start = old(answers)@;
    match v {
        EsValueFacade::PreparedPromise(id) => {
            answers.release(*id);
            proof {
                let ids = prepared_ids(*v);
                assert(ids =~= seq![*id]);
                assert(ids.drop_last() =~= Seq::<u64>::empty());
                assert(after_releases(start, ids.drop_last()) == start);
                assert(ids.last() == *id);
            }
        },
        EsValueFacade::Array(vs) => {
            let mut i: usize = 0;
            while i < vs.len()
                invariant
                    *v == EsValueFacade::Array(*vs),
                    i <= vs@.len(),
                    answers.wf(),
                    answers@ == after_releases(start, prepared_ids_upto(*v, i as nat)),
                decreases vs@.len() - i,
            {
                assert(v->Array_0@[i as int] == vs@[i as int]);
                release_prepared(&vs[i], answers);
                proof {
                    assert(prepared_ids_upto(*v, (i + 1) as nat) == prepared_ids_upto(*v, i as nat)
                        + prepared_ids(vs@[i as int]));
                    lemma_after_releases_concat(
                        start,
                        prepared_ids_upto(*v, i as nat),
                        prepared_ids(vs@[i as int]),
                    );
                }
                i += 1;
            }
        },
        EsValueFacade::Object(ps) => {
            let mut i: usize = 0;
            while i < ps.len()
                invariant
                    *v == EsValueFacade::Object(*ps),
                    i <= ps@.len(),
                    answers.wf(),
                    answers@ == after_releases(start, prepared_ids_upto(*v, i as nat)),
                decreases ps@.len() - i,
            {
                assert(v->Object_0@[i as int] == ps@[i as int]);
                release_prepared(&ps[i].1, answers);
                proof {
                    assert(prepared_ids_upto(*v, (i + 1) as nat) == prepared_ids_upto(*v, i as nat)
                        + prepared_ids(ps@[i as int].1));
                    lemma_after_releases_concat(
                        start,
                        prepared_ids_upto(*v, i as nat),
                        prepared_ids(ps@[i as int].1),
                    );
                }
                i += 1;
            }
        },
        _ => {},
    }
}

} // verus!
