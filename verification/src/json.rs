//! A plain JSON value tree.
//!
//! The wire protocol carries JSON text frames; the transport layer outside
//! this crate turns text into this tree and back. All protocol logic in this
//! crate works on the tree, so every decoding decision is verified on plain
//! data.

use vstd::prelude::*;

verus! {

broadcast use vstd::std_specs::vec::group_vec_axioms;

/// Mathematical model of a JSON value.
///
/// Objects are modelled as ordered association sequences so that a value
/// remembers the order of its members; the codec never depends on the order
/// of the members it looks up.
pub enum JVal {
    Null,
    Bool(bool),
    Int(i64),
    Num(Seq<char>),
    Str(Seq<char>),
    Arr(Seq<JVal>),
    Obj(Seq<(Seq<char>, JVal)>),
}

/// Executable JSON value. Every number the protocol itself reads (sequence
/// ids, timestamps, status codes) is a 64-bit signed integer and is held as
/// `Int`; any other number (fractional or out of range) is held as `Num`,
/// its decimal text verbatim, never inspected, and carried through
/// losslessly.
#[derive(Debug, PartialEq)]
pub enum JsonValue {
    Null,
    Bool(bool),
    Int(i64),
    Num(String),
    Str(String),
    Arr(Vec<JsonValue>),
    Obj(Vec<(String, JsonValue)>),
}

/// Model of one executable JSON value.
pub open spec fn jval_of(v: JsonValue) -> JVal
    decreases v,
{
    match v {
        JsonValue::Null => JVal::Null,
        JsonValue::Bool(b) => JVal::Bool(b),
        JsonValue::Int(i) => JVal::Int(i),
        JsonValue::Num(s) => JVal::Num(s@),
        JsonValue::Str(s) => JVal::Str(s@),
        JsonValue::Arr(a) => JVal::Arr(jvals_of(a@)),
        JsonValue::Obj(o) => JVal::Obj(jmembers_of(o@)),
    }
}

/// Model of a sequence of executable JSON values.
pub open spec fn jvals_of(s: Seq<JsonValue>) -> Seq<JVal>
    decreases s,
{
    if s.len() == 0 {
        Seq::empty()
    } else {
        seq![jval_of(s[0])] + jvals_of(s.drop_first())
    }
}

/// Model of a sequence of executable JSON object members.
pub open spec fn jmembers_of(s: Seq<(String, JsonValue)>) -> Seq<(Seq<char>, JVal)>
    decreases s,
{
    if s.len() == 0 {
        Seq::empty()
    } else {
        seq![(s[0].0@, jval_of(s[0].1))] + jmembers_of(s.drop_first())
    }
}

impl View for JsonValue {
    type V = JVal;

    open spec fn view(&self) -> JVal {
        jval_of(*self)
    }
}

impl Clone for JsonValue {
    /// A clone has the same model as the original.
    #[verifier::loop_isolation(false)]
    fn clone(&self) -> (r: Self)
        ensures
            r@ == self@,
        decreases *self,
    {
        match self {
            JsonValue::Null => JsonValue::Null,
            JsonValue::Bool(b) => JsonValue::Bool(*b),
            JsonValue::Int(i) => JsonValue::Int(*i),
            JsonValue::Num(s) => JsonValue::Num(s.clone()),
            JsonValue::Str(s) => JsonValue::Str(s.clone()),
            JsonValue::Arr(a) => {
                let mut out: Vec<JsonValue> = Vec::new();
                let n = a.len();
                for i in 0..n
                    invariant
                        n == a.len(),
                        out.len() == i,
                        forall|k: int| 0 <= k < i ==> out@[k]@ == a@[k]@,
                {
                    proof {
                        assert(decreases_to!(a => a[i as int]));
                    }
                    out.push(a[i].clone());
                }
                proof {
                    lemma_jvals_of(out@);
                    lemma_jvals_of(a@);
                    assert(jvals_of(out@) =~= jvals_of(a@));
                }
                JsonValue::Arr(out)
            },
            JsonValue::Obj(o) => {
                let mut out: Vec<(String, JsonValue)> = Vec::new();
                let n = o.len();
                for i in 0..n
                    invariant
                        n == o.len(),
                        out.len() == i,
                        forall|k: int|
                            0 <= k < i ==> out@[k].0@ == o@[k].0@ && out@[k].1@ == o@[k].1@,
                {
                    proof {
                        assert(decreases_to!(o => o[i as int]));
                        assert(decreases_to!(o[i as int] => o[i as int].1));
                    }
                    out.push((o[i].0.clone(), o[i].1.clone()));
                }
                proof {
                    lemma_jmembers_of(out@);
                    lemma_jmembers_of(o@);
                    assert(jmembers_of(out@) =~= jmembers_of(o@));
                }
                JsonValue::Obj(out)
            },
        }
    }
}

pub proof fn lemma_jvals_of(s: Seq<JsonValue>)
    ensures
        jvals_of(s).len() == s.len(),
        forall|i: int| 0 <= i < s.len() ==> jvals_of(s)[i] == jval_of(s[i]),
    decreases s,
{
    if s.len() > 0 {
        lemma_jvals_of(s.drop_first());
        assert forall|i: int| 0 <= i < s.len() implies jvals_of(s)[i] == jval_of(s[i]) by {
            if i > 0 {
                assert(s.drop_first()[i - 1] == s[i]);
            }
        }
    }
}

pub proof fn lemma_jmembers_of(s: Seq<(String, JsonValue)>)
    ensures
        jmembers_of(s).len() == s.len(),
        forall|i: int| 0 <= i < s.len() ==> jmembers_of(s)[i] == (s[i].0@, jval_of(s[i].1)),
    decreases s,
{
    if s.len() > 0 {
        lemma_jmembers_of(s.drop_first());
        assert forall|i: int| 0 <= i < s.len() implies jmembers_of(s)[i] == (
        s[i].0@,
        jval_of(s[i].1),
        ) by {
            if i > 0 {
                assert(s.drop_first()[i - 1] == s[i]);
            }
        }
    }
}

/// First member of `o` named `key`, if any.
pub open spec fn obj_get_spec(o: Seq<(Seq<char>, JVal)>, key: Seq<char>) -> Option<JVal>
    decreases o.len(),
{
    if o.len() == 0 {
        None
    } else if o[0].0 == key {
        Some(o[0].1)
    } else {
        obj_get_spec(o.drop_first(), key)
    }
}

/// Looking up the name of member `i` finds member `i`, provided no earlier
/// member shares that name.
pub proof fn lemma_obj_get_at(o: Seq<(Seq<char>, JVal)>, i: int)
    requires
        0 <= i < o.len(),
        forall|j: int| 0 <= j < i ==> o[j].0 != o[i].0,
    ensures
        obj_get_spec(o, o[i].0) == Some(o[i].1),
    decreases i,
{
    if i > 0 {
        assert(o.drop_first()[i - 1] == o[i]);
        assert forall|j: int| 0 <= j < i - 1 implies (#[trigger] o.drop_first()[j]).0 != o.drop_first()[
            i - 1
        ].0 by {
            assert(o.drop_first()[j] == o[j + 1]);
        }
        lemma_obj_get_at(o.drop_first(), i - 1);
    }
}

/// Look a member up by name in an object's member list.
pub fn obj_get<'a>(members: &'a Vec<(String, JsonValue)>, key: &String) -> (r: Option<
    &'a JsonValue,
>)
    ensures
        match r {
            Some(v) => obj_get_spec(jmembers_of(members@), key@) == Some(v@),
            None => obj_get_spec(jmembers_of(members@), key@) is None,
        },
{
    proof {
        lemma_jmembers_of(members@);
    }
    let ghost o = jmembers_of(members@);
    let n = members.len();
    proof {
        assert(o.skip(0) =~= o);
    }
    for idx in 0..n
        invariant
            n == members.len(),
            o == jmembers_of(members@),
            o.len() == n,
            forall|k: int| 0 <= k < n ==> o[k] == (members@[k].0@, jval_of(members@[k].1)),
            obj_get_spec(o, key@) == obj_get_spec(o.skip(idx as int), key@),
    {
        proof {
            assert(o.skip(idx as int).len() == n - idx);
            assert(o.skip(idx as int)[0] == o[idx as int]);
        }
        if members[idx].0.eq(key) {
            proof {
                assert(o.skip(idx as int)[0].0 == key@);
                assert(obj_get_spec(o.skip(idx as int), key@) == Some(o[idx as int].1));
            }
            return Some(&members[idx].1);
        }
        proof {
            assert(o.skip(idx as int)[0].0 != key@);
            assert(obj_get_spec(o.skip(idx as int), key@) == obj_get_spec(
                o.skip(idx as int).drop_first(),
                key@,
            ));
            assert(o.skip(idx as int).drop_first() =~= o.skip(idx as int + 1));
        }
    }
    proof {
        assert(o.skip(n as int) =~= Seq::<(Seq<char>, JVal)>::empty());
    }
    None
}

} // verus!
