//! A JSON document tree and the edits made to it before it is persisted.
//!
//! Numbers are kept as their text; the edits here move values around and
//! never read a number.

use vstd::prelude::*;
use crate::text::str_eq;

verus! {

/// Key whose values are derived data (recomputed from canonical metadata
/// and overrides) and so are not written to disk.
pub const DERIVED_KEY: &'static str = "params_info";

/// A JSON value. Object members keep their order.
#[derive(Debug)]
pub enum Json {
    Null,
    Bool(bool),
    Number(String),
    Str(String),
    Array(Vec<Json>),
    Object(Vec<(String, Json)>),
}

/// `r` is `j` with every object member named `params_info` removed, at any
/// depth; everything else is unchanged.
pub open spec fn is_stripped(j: Json, r: Json) -> bool
    decreases j,
{
    match j {
        Json::Array(a) => match r {
            Json::Array(b) => {
                &&& b@.len() == a@.len()
                &&& forall|i: int| 0 <= i < a@.len() ==> is_stripped(#[trigger] a@[i], b@[i])
            },
            _ => false,
        },
        Json::Object(m) => match r {
            Json::Object(n) => kept_members(m@, n@),
            _ => false,
        },
        _ => r == j,
    }
}

/// `n` is `m` without its `params_info` members, each kept value stripped.
pub open spec fn kept_members(m: Seq<(String, Json)>, n: Seq<(String, Json)>) -> bool
    decreases m, 0int,
{
    if m.len() == 0 {
        n.len() == 0
    } else if m[0].0@ == DERIVED_KEY@ {
        kept_members(m.drop_first(), n)
    } else {
        &&& n.len() > 0
        &&& n[0].0@ == m[0].0@
        &&& is_stripped(m[0].1, n[0].1)
        &&& kept_members(m.drop_first(), n.drop_first())
    }
}

/// Remove every member named `params_info` from `j`, at any depth.
#[verifier::loop_isolation(false)]
pub fn strip_derived(j: Json) -> (r: Json)
    ensures
        is_stripped(j, r),
    decreases j,
{
    let ghost whole = j;
    match j {
        Json::Array(a) => {
            let ghost orig = a@;
            proof {
                assert forall|i: int| 0 <= i < orig.len() implies decreases_to!(whole => orig[i]) by {
                    assert(decreases_to!(whole => a));
                    assert(decreases_to!(a => a@));
                    assert(decreases_to!(a@ => a@[i]));
                }
            }
            let mut rest = a;
            let mut out: Vec<Json> = Vec::new();
            let ghost mut k: int = 0;
            while rest.len() > 0
                invariant
                    forall|i: int| 0 <= i < orig.len() ==> decreases_to!(whole => orig[i]),
                    0 <= k <= orig.len(),
                    rest@ == orig.skip(k),
                    out@.len() == k,
                    forall|i: int| 0 <= i < k ==> is_stripped(#[trigger] orig[i], out@[i]),
                decreases rest.len(),
            {
                let x = rest.remove(0);
                proof {
                    assert(x == orig[k]);
                }
                let y = strip_derived(x);
                out.push(y);
                proof {
                    k = k + 1;
                    assert(rest@ =~= orig.skip(k));
                }
            }
            let r = Json::Array(out);
            proof {
                assert(k == orig.len());
                assert(orig =~= a@);
                assert(is_stripped(whole, r));
            }
            r
        },
        Json::Object(m) => {
            let ghost orig = m@;
            proof {
                assert forall|i: int| 0 <= i < orig.len() implies decreases_to!(whole => orig[i].1) by {
                    assert(decreases_to!(whole => m));
                    assert(decreases_to!(m => m@));
                    assert(decreases_to!(m@ => m@[i]));
                    assert(decreases_to!(m@[i] => m@[i].1));
                }
            }
            let mut rest = m;
            let mut out: Vec<(String, Json)> = Vec::new();
            let ghost mut k: int = 0;
            assert forall|tail: Seq<(String, Json)>|
                kept_members(orig.skip(0), tail) implies kept_members(orig, out@ + tail) by {
                assert(orig.skip(0) =~= orig);
                assert(out@ + tail =~= tail);
            }
            while rest.len() > 0
                invariant
                    forall|i: int| 0 <= i < orig.len() ==> decreases_to!(whole => orig[i].1),
                    0 <= k <= orig.len(),
                    rest@ == orig.skip(k),
                    forall|tail: Seq<(String, Json)>|
                        kept_members(orig.skip(k), tail) ==> kept_members(orig, out@ + tail),
                decreases rest.len(),
            {
                let ghost rest0 = rest@;
                let (key, value) = rest.remove(0);
                proof {
                    assert(rest0[0] == (key, value));
                    assert(orig.skip(k)[0] == (key, value));
                    assert(orig.skip(k).drop_first() =~= orig.skip(k + 1));
                }
                if str_eq(key.as_str(), DERIVED_KEY) {
                    proof {
                        assert forall|tail: Seq<(String, Json)>|
                            kept_members(orig.skip(k + 1), tail) implies kept_members(
                            orig,
                            out@ + tail,
                        ) by {
                            assert(kept_members(orig.skip(k), tail));
                        }
                        k = k + 1;
                        assert(rest@ =~= orig.skip(k));
                    }
                } else {
                    let v = strip_derived(value);
                    let ghost before = out@;
                    out.push((key, v));
                    proof {
                        assert forall|tail: Seq<(String, Json)>|
                            kept_members(orig.skip(k + 1), tail) implies kept_members(
                            orig,
                            out@ + tail,
                        ) by {
                            let t2 = seq![(key, v)] + tail;
                            assert(t2.drop_first() =~= tail);
                            assert(kept_members(orig.skip(k), t2));
                            assert(before + t2 =~= out@ + tail);
                        }
                        k = k + 1;
                        assert(rest@ =~= orig.skip(k));
                    }
                }
            }
            let r = Json::Object(out);
            proof {
                let empty = Seq::<(String, Json)>::empty();
                assert(orig.skip(k).len() == 0);
                assert(kept_members(orig.skip(k), empty));
                assert(kept_members(orig, out@ + empty));
                assert(out@ + empty =~= out@);
                assert(orig =~= m@);
                assert(is_stripped(whole, r));
            }
            r
        },
        other => other,
    }
}

/// No object member named `params_info`, at any depth.
pub open spec fn no_derived(j: Json) -> bool
    decreases j,
{
    match j {
        Json::Array(a) => forall|i: int| 0 <= i < a@.len() ==> no_derived(#[trigger] a@[i]),
        Json::Object(m) => forall|i: int|
            0 <= i < m@.len() ==> (#[trigger] m@[i]).0@ != DERIVED_KEY@ && no_derived(m@[i].1),
        _ => true,
    }
}

/// What `strip_derived` returns holds no `params_info` member at any depth.
pub proof fn law_stripped_has_no_derived(j: Json, r: Json)
    requires
        is_stripped(j, r),
    ensures
        no_derived(r),
    decreases j, 1int,
{
    match j {
        Json::Array(a) => {
            let b = r->Array_0;
            assert forall|i: int| 0 <= i < b@.len() implies no_derived(#[trigger] b@[i]) by {
                assert(decreases_to!(j => a));
                assert(decreases_to!(a => a@));
                assert(decreases_to!(a@ => a@[i]));
                law_stripped_has_no_derived(a@[i], b@[i]);
            }
        },
        Json::Object(m) => {
            let n = r->Object_0;
            lemma_kept_has_no_derived(j, m@, n@);
        },
        _ => {},
    }
}

proof fn lemma_kept_has_no_derived(j: Json, m: Seq<(String, Json)>, n: Seq<(String, Json)>)
    requires
        kept_members(m, n),
        forall|i: int| 0 <= i < m.len() ==> decreases_to!(j => (#[trigger] m[i]).1),
    ensures
        forall|i: int| 0 <= i < n.len() ==> (#[trigger] n[i]).0@ != DERIVED_KEY@ && no_derived(n[i].1),
    decreases j, 0int, m.len(),
{
    if m.len() > 0 {
        assert forall|i: int| 0 <= i < m.drop_first().len() implies decreases_to!(
            j => (#[trigger] m.drop_first()[i]).1
        ) by {
            assert(m.drop_first()[i] == m[i + 1]);
        }
        if m[0].0@ == DERIVED_KEY@ {
            lemma_kept_has_no_derived(j, m.drop_first(), n);
        } else {
            lemma_kept_has_no_derived(j, m.drop_first(), n.drop_first());
            law_stripped_has_no_derived(m[0].1, n[0].1);
            assert forall|i: int| 0 <= i < n.len() implies (#[trigger] n[i]).0@ != DERIVED_KEY@
                && no_derived(n[i].1) by {
                if i > 0 {
                    assert(n[i] == n.drop_first()[i - 1]);
                }
            }
        }
    }
}

} // verus!
