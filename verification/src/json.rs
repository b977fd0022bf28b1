//! The JSON values that cross the guest boundary.
//!
//! Payloads at the boundary are JSON; the core handles them as plain data.
//! A floating-point number is carried as the raw bits of its IEEE-754
//! double encoding, so the core can move and compare it without performing
//! floating-point arithmetic.

use vstd::prelude::*;

verus! {

/// A JSON value.  `Real` holds the bits of an IEEE-754 double; `Obj` holds
/// its members in order, first occurrence of a key winning on lookup.
#[derive(Debug, PartialEq, Eq)]
pub enum JVal {
    Null,
    Bool(bool),
    Int(i64),
    Real(u64),
    Str(String),
    Arr(Vec<JVal>),
    Obj(Vec<(String, JVal)>),
}

/// The value of the first member with the given key, if any.
pub open spec fn obj_get_seq(fields: Seq<(String, JVal)>, key: Seq<char>) -> Option<JVal>
    decreases fields.len(),
{
    if fields.len() == 0 {
        Option::None
    } else if fields[0].0@ == key {
        Option::Some(fields[0].1)
    } else {
        obj_get_seq(fields.drop_first(), key)
    }
}

/// Look up the first member with the given key.
pub fn obj_get<'a>(fields: &'a Vec<(String, JVal)>, key: &String) -> (r: Option<&'a JVal>)
    ensures
        match r {
            Option::Some(v) => obj_get_seq(fields@, key@) == Option::Some(*v),
            Option::None => obj_get_seq(fields@, key@) is None,
        },
{
    let n = fields.len();
    let mut i: usize = 0;
    proof {
        assert(fields@.skip(0) =~= fields@);
    }
    while i < n
        invariant
            n == fields@.len(),
            i <= n,
            obj_get_seq(fields@, key@) == obj_get_seq(fields@.skip(i as int), key@),
        decreases n - i,
    {
        if fields[i].0 == *key {
            proof {
                assert(fields@.skip(i as int)[0] == fields@[i as int]);
            }
            return Option::Some(&fields[i].1);
        }
        proof {
            assert(fields@.skip(i as int).drop_first() =~= fields@.skip(i + 1));
            assert(fields@.skip(i as int)[0] == fields@[i as int]);
        }
        i += 1;
    }
    proof {
        assert(fields@.skip(n as int).len() == 0);
    }
    Option::None
}

} // verus!
