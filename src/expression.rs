//! Rendering a facade value as script source text.

use crate::value::{child_count, EsValueFacade};
use vstd::prelude::*;
use vstd::string::StringExecFns;

verus! {

pub open spec fn digit_char(d: nat) -> char {
    if d == 0 {
        '0'
    } else if d == 1 {
        '1'
    } else if d == 2 {
        '2'
    } else if d == 3 {
        '3'
    } else if d == 4 {
        '4'
    } else if d == 5 {
        '5'
    } else if d == 6 {
        '6'
    } else if d == 7 {
        '7'
    } else if d == 8 {
        '8'
    } else {
        '9'
    }
}

/// The decimal digits of `n`, without leading zeros.
pub open spec fn decimal(n: nat) -> Seq<char>
    decreases n,
{
    if n < 10 {
        seq![digit_char(n)]
    } else {
        decimal(n / 10).push(digit_char(n % 10))
    }
}

/// The decimal text of an integer, with a leading `-` when negative.
pub open spec fn int_text(i: int) -> Seq<char> {
    if i < 0 {
        seq!['-'] + decimal((-i) as nat)
    } else {
        decimal(i as nat)
    }
}

/// For an array or object `v` and `k <= child_count(v)`: the text of its
/// first `k` elements or properties, separated by `, `. For `k` beyond that,
/// and for every other kind of value: the whole expression.
pub open spec fn js_text(v: EsValueFacade, k: nat) -> Seq<char>
    decreases v, k,
{
    match v {
        EsValueFacade::Boolean(b) => if b {
            "true"@
        } else {
            "false"@
        },
        EsValueFacade::Int32(i) => int_text(i as int),
        EsValueFacade::Float64(bits) => "new Float64Array(new BigUint64Array(["@ + decimal(
            bits as nat,
        ) + "n]).buffer)[0]"@,
        EsValueFacade::String(s) => "\""@ + s@ + "\""@,
        EsValueFacade::ManagedPromise(id) => "/* Future "@ + int_text(id as int) + " */"@,
        EsValueFacade::Array(vs) => if k > vs@.len() {
            "["@ + js_text(v, vs@.len()) + "]"@
        } else if k == 0 {
            Seq::empty()
        } else {
            let item = js_text(vs@[k - 1], child_count(vs@[k - 1]) + 1);
            if k == 1 {
                item
            } else {
                js_text(v, (k - 1) as nat) + ", "@ + item
            }
        },
        EsValueFacade::Object(ps) => if k > ps@.len() {
            "{"@ + js_text(v, ps@.len()) + "}"@
        } else if k == 0 {
            Seq::empty()
        } else {
            let entry = "\""@ + ps@[k - 1].0@ + "\": "@ + js_text(
                ps@[k - 1].1,
                child_count(ps@[k - 1].1) + 1,
            );
            if k == 1 {
                entry
            } else {
                js_text(v, (k - 1) as nat) + ", "@ + entry
            }
        },
        _ => "null"@,
    }
}

/// The script expression for `v`: `true`/`false`, decimal integers, a
/// double rebuilt exactly from its bit pattern, double-quoted text,
/// `[a, b]` arrays, `{"name": value}` objects, a comment naming a promise
/// the host waits for, and `null` for the rest.
pub open spec fn js_expr(v: EsValueFacade) -> Seq<char> {
    js_text(v, child_count(v) + 1)
}

fn digit_str(d: u64) -> (r: &'static str)
    requires
        d < 10,
    ensures
        r@ == seq![digit_char(d as nat)],
{
    proof {
        reveal_strlit("0");
        reveal_strlit("1");
        reveal_strlit("2");
        reveal_strlit("3");
        reveal_strlit("4");
        reveal_strlit("5");
        reveal_strlit("6");
        reveal_strlit("7");
        reveal_strlit("8");
        reveal_strlit("9");
    }
    if d == 0 {
        "0"
    } else if d == 1 {
        "1"
    } else if d == 2 {
        "2"
    } else if d == 3 {
        "3"
    } else if d == 4 {
        "4"
    } else if d == 5 {
        "5"
    } else if d == 6 {
        "6"
    } else if d == 7 {
        "7"
    } else if d == 8 {
        "8"
    } else {
        "9"
    }
}

fn write_decimal(out: &mut String, n: u64)
    ensures
        final(out)@ == old(out)@ + decimal(n as nat),
    decreases n,
{
    if n >= 10 {
        write_decimal(out, n / 10);
    }
    out.append(digit_str(n % 10));
    proof {
        if n >= 10 {
            assert(old(out)@ + decimal((n / 10) as nat) + seq![digit_char((n % 10) as nat)] =~= old(
                out,
            )@ + decimal(n as nat));
        } else {
            assert(decimal(n as nat) == seq![digit_char((n % 10) as nat)]);
        }
    }
}

fn write_int(out: &mut String, i: i32)
    ensures
        final(out)@ == old(out)@ + int_text(i as int),
{
    if i < 0 {
        out.append("-");
        proof {
            reveal_strlit("-");
        }
        let m: u64 = (-(i as i64)) as u64;
        write_decimal(out, m);
        proof {
            assert(old(out)@ + seq!['-'] + decimal(m as nat) =~= old(out)@ + int_text(i as int));
        }
    } else {
        write_decimal(out, i as u64);
    }
}

fn write_js(v: &EsValueFacade, out: &mut String)
    ensures
        final(out)@ == old(out)@ + js_expr(*v),
    decreases v,
{
    let ghost start = old(out)@;
    match v {
        EsValueFacade::Boolean(b) => {
            if *b {
                out.append("true");
            } else {
                out.append("false");
            }
        },
        EsValueFacade::Int32(i) => {
            write_int(out, *i);
        },
        EsValueFacade::Float64(bits) => {
            out.append("new Float64Array(new BigUint64Array([");
            write_decimal(out, *bits);
            out.append("n]).buffer)[0]");
            proof {
                assert(out@ =~= start + js_expr(*v));
            }
        },
        EsValueFacade::String(s) => {
            out.append("\"");
            out.append(s.as_str());
            out.append("\"");
            proof {
                assert(out@ =~= start + js_expr(*v));
            }
        },
        EsValueFacade::ManagedPromise(id) => {
            out.append("/* Future ");
            write_int(out, *id);
            out.append(" */");
            proof {
                assert(out@ =~= start + js_expr(*v));
            }
        },
        EsValueFacade::Array(vs) => {
            out.append("[");
            let mut i: usize = 0;
            while i < vs.len()
                invariant
                    *v == EsValueFacade::Array(*vs),
                    i <= vs@.len(),
                    out@ == start + "["@ + js_text(*v, i as nat),
                decreases vs@.len() - i,
            {
                let ghost before = out@;
                if i > 0 {
                    out.append(", ");
                }
                assert(v->Array_0@[i as int] == vs@[i as int]);
                write_js(&vs[i], out);
                proof {
                    let item = js_expr(vs@[i as int]);
                    if i == 0 {
                        assert(js_text(*v, 1) == item);
                        assert(out@ =~= start + "["@ + js_text(*v, 1));
                    } else {
                        assert(js_text(*v, (i + 1) as nat) == js_text(*v, i as nat) + ", "@ + item);
                        assert(out@ =~= start + "["@ + js_text(*v, (i + 1) as nat));
                    }
                }
                i += 1;
            }
            out.append("]");
            proof {
                assert(out@ =~= start + js_expr(*v));
            }
        },
        EsValueFacade::Object(ps) => {
            out.append("{");
            let mut i: usize = 0;
            while i < ps.len()
                invariant
                    *v == EsValueFacade::Object(*ps),
                    i <= ps@.len(),
                    out@ == start + "{"@ + js_text(*v, i as nat),
                decreases ps@.len() - i,
            {
                if i > 0 {
                    out.append(", ");
                }
                let ghost mid = out@;
                assert(v->Object_0@[i as int] == ps@[i as int]);
                out.append("\"");
                out.append(ps[i].0.as_str());
                out.append("\": ");
                write_js(&ps[i].1, out);
                proof {
                    let entry = "\""@ + ps@[i as int].0@ + "\": "@ + js_expr(ps@[i as int].1);
                    assert(out@ =~= mid + entry);
                    if i == 0 {
                        assert(js_text(*v, 1) == entry);
                        assert(out@ =~= start + "{"@ + js_text(*v, 1));
                    } else {
                        assert(js_text(*v, (i + 1) as nat) == js_text(*v, i as nat) + ", "@ + entry);
                        assert(out@ =~= start + "{"@ + js_text(*v, (i + 1) as nat));
                    }
                }
                i += 1;
            }
            out.append("}");
            proof {
                assert(out@ =~= start + js_expr(*v));
            }
        },
        _ => {
            out.append("null");
        },
    }
}

impl EsValueFacade {
    /// This value as script source text (see `js_expr`).
    pub fn as_js_expression_str(&self) -> (r: String)
        ensures
            r@ == js_expr(*self),
    {
        let mut out = String::new();
        write_js(self, &mut out);
        proof {
            assert(out@ =~= js_expr(*self));
        }
        out
    }
}

} // verus!
