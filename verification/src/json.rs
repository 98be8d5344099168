//! The in-memory JSON value model: a tagged union over the seven JSON kinds.
//!
//! Numbers are held exactly as fixed-point decimals: a value is
//! `units + nanos / 1_000_000_000` with `0 <= nanos < 1_000_000_000` in a
//! well-formed number, so `-1.5` is `units == -2, nanos == 500_000_000`.
//! Equality and ordering of numbers go by that mathematical value, which makes
//! `1` and `1.0` the same number whatever token they came from.

use vstd::prelude::*;

verus! {

/// Nanos per unit in the fixed-point number representation.
pub const NANOS_PER_UNIT: u32 = 1_000_000_000;

/// A JSON number: the value is `units + nanos / 1_000_000_000`.
#[derive(Clone, Copy, PartialEq, Eq, Structural, Debug)]
pub struct JsonNumber {
    pub units: i128,
    pub nanos: u32,
}

impl JsonNumber {
    /// The mathematical value of this number, scaled by `1_000_000_000`.
    pub open spec fn scaled(self) -> int {
        self.units * (NANOS_PER_UNIT as int) + self.nanos
    }

    /// A well-formed number keeps its fractional part below one unit.
    pub open spec fn wf(self) -> bool {
        self.nanos < NANOS_PER_UNIT
    }

    /// A number is integral when its value is a whole number of units.
    pub open spec fn is_integral(self) -> bool {
        self.scaled() % (NANOS_PER_UNIT as int) == 0
    }

    /// The number holding a signed whole value.
    pub fn from_i64(units: i64) -> (r: JsonNumber)
        ensures
            r.wf(),
            r.scaled() == units * (NANOS_PER_UNIT as int),
            r.is_integral(),
    {
        let r = JsonNumber { units: units as i128, nanos: 0 };
        proof {
            lemma_scaled_mod(r);
        }
        r
    }

    /// The number holding an unsigned whole value.
    pub fn from_u64(units: u64) -> (r: JsonNumber)
        ensures
            r.wf(),
            r.scaled() == units * (NANOS_PER_UNIT as int),
            r.is_integral(),
    {
        let r = JsonNumber { units: units as i128, nanos: 0 };
        proof {
            lemma_scaled_mod(r);
        }
        r
    }

    /// Builds a number from its units and fractional nanos; rejects a
    /// fractional part of a whole unit or more.
    pub fn from_parts(units: i128, nanos: u32) -> (r: Option<JsonNumber>)
        ensures
            match r {
                Some(n) => n.wf() && n == (JsonNumber { units, nanos }),
                None => nanos >= NANOS_PER_UNIT,
            },
    {
        if nanos < NANOS_PER_UNIT {
            Some(JsonNumber { units, nanos })
        } else {
            None
        }
    }

    /// Whether the value is a whole number.
    pub fn integral(&self) -> (r: bool)
        requires
            self.wf(),
        ensures
            r == self.is_integral(),
    {
        proof {
            lemma_scaled_mod(*self);
        }
        self.nanos == 0
    }

    /// Numeric equality, honoring the mathematical value.
    pub fn num_eq(&self, other: &JsonNumber) -> (r: bool)
        requires
            self.wf(),
            other.wf(),
        ensures
            r == (self.scaled() == other.scaled()),
    {
        self.units == other.units && self.nanos == other.nanos
    }

    /// Strict numeric order by mathematical value.
    pub fn num_lt(&self, other: &JsonNumber) -> (r: bool)
        requires
            self.wf(),
            other.wf(),
        ensures
            r == (self.scaled() < other.scaled()),
    {
        self.units < other.units || (self.units == other.units && self.nanos < other.nanos)
    }

    /// Non-strict numeric order by mathematical value.
    pub fn num_le(&self, other: &JsonNumber) -> (r: bool)
        requires
            self.wf(),
            other.wf(),
        ensures
            r == (self.scaled() <= other.scaled()),
    {
        self.units < other.units || (self.units == other.units && self.nanos <= other.nanos)
    }
}

/// The remainder of a canonical number's scaled value by the scale is its
/// fractional part.
proof fn lemma_scaled_mod(n: JsonNumber)
    requires
        n.wf(),
    ensures
        n.scaled() % (NANOS_PER_UNIT as int) == n.nanos,
{
    let e = NANOS_PER_UNIT as int;
    assert((n.units * e + n.nanos) % e == n.nanos) by (nonlinear_arith)
        requires
            0 <= n.nanos < e,
    ;
}

/// A JSON document: one of the seven JSON kinds. Objects keep their keys in
/// insertion order; a well-formed object has unique keys.
#[derive(Debug, PartialEq)]
pub enum JsonValue {
    Null,
    Bool(bool),
    Number(JsonNumber),
    Str(String),
    Array(Vec<JsonValue>),
    Object(Vec<(String, JsonValue)>),
}

/// Well-formedness of a JSON value: numbers are canonical and object keys are
/// unique, throughout the document.
pub open spec fn json_wf(v: JsonValue) -> bool
    decreases v,
{
    match v {
        JsonValue::Null => true,
        JsonValue::Bool(_) => true,
        JsonValue::Number(n) => n.wf(),
        JsonValue::Str(_) => true,
        JsonValue::Array(items) => forall|i: int|
            0 <= i < items@.len() ==> json_wf(#[trigger] items@[i]),
        JsonValue::Object(fields) => {
            &&& forall|i: int, j: int|
                0 <= i < j < fields@.len() ==> fields@[i].0@ != fields@[j].0@
            &&& forall|i: int| 0 <= i < fields@.len() ==> json_wf(#[trigger] fields@[i].1)
        },
    }
}

/// First-match lookup of a key among an object's fields.
pub open spec fn spec_lookup(fields: Seq<(String, JsonValue)>, key: Seq<char>) -> Option<
    JsonValue,
>
    decreases fields.len(),
{
    if fields.len() == 0 {
        None
    } else if fields[0].0@ == key {
        Some(fields[0].1)
    } else {
        spec_lookup(fields.drop_first(), key)
    }
}

/// Structural identity of two JSON values: the same shape, the same texts,
/// the same numbers, field for field and element for element.
pub open spec fn same_json(a: JsonValue, b: JsonValue) -> bool
    decreases a,
{
    match (a, b) {
        (JsonValue::Null, JsonValue::Null) => true,
        (JsonValue::Bool(x), JsonValue::Bool(y)) => x == y,
        (JsonValue::Number(x), JsonValue::Number(y)) => x == y,
        (JsonValue::Str(x), JsonValue::Str(y)) => x@ == y@,
        (JsonValue::Array(x), JsonValue::Array(y)) => {
            &&& x@.len() == y@.len()
            &&& forall|i: int| 0 <= i < x@.len() ==> same_json(#[trigger] x@[i], y@[i])
        },
        (JsonValue::Object(x), JsonValue::Object(y)) => {
            &&& x@.len() == y@.len()
            &&& forall|i: int|
                0 <= i < x@.len() ==> (#[trigger] x@[i]).0@ == y@[i].0@ && same_json(
                    x@[i].1,
                    y@[i].1,
                )
        },
        _ => false,
    }
}

/// JSON equality: deep equality honoring JSON number rules. Numbers compare
/// by mathematical value, arrays element by element, objects by key lookup
/// regardless of field order.
pub open spec fn jeq(a: JsonValue, b: JsonValue) -> bool
    decreases a,
{
    match (a, b) {
        (JsonValue::Null, JsonValue::Null) => true,
        (JsonValue::Bool(x), JsonValue::Bool(y)) => x == y,
        (JsonValue::Number(x), JsonValue::Number(y)) => x.scaled() == y.scaled(),
        (JsonValue::Str(x), JsonValue::Str(y)) => x@ == y@,
        (JsonValue::Array(x), JsonValue::Array(y)) => {
            &&& x@.len() == y@.len()
            &&& forall|i: int| 0 <= i < x@.len() ==> jeq(#[trigger] x@[i], y@[i])
        },
        (JsonValue::Object(x), JsonValue::Object(y)) => {
            &&& x@.len() == y@.len()
            &&& forall|i: int|
                0 <= i < x@.len() ==> match spec_lookup(y@, (#[trigger] x@[i]).0@) {
                    Some(w) => jeq(x@[i].1, w),
                    None => false,
                }
        },
        _ => false,
    }
}

/// Dropping a rejected head field does not change a lookup's result.
proof fn lemma_lookup_skip(fields: Seq<(String, JsonValue)>, key: Seq<char>, i: int)
    requires
        0 <= i <= fields.len(),
        forall|k: int| 0 <= k < i ==> (#[trigger] fields[k]).0@ != key,
    ensures
        spec_lookup(fields, key) == spec_lookup(fields.skip(i), key),
    decreases i,
{
    if i > 0 {
        lemma_lookup_skip(fields, key, i - 1);
        assert(fields.skip(i - 1).drop_first() =~= fields.skip(i));
        assert(fields.skip(i - 1)[0] == fields[i - 1]);
    } else {
        assert(fields.skip(0) =~= fields);
    }
}

/// First-match lookup of a key among an object's fields.
pub fn obj_lookup<'a>(fields: &'a Vec<(String, JsonValue)>, key: &String) -> (r: Option<
    &'a JsonValue,
>)
    ensures
        match r {
            Some(w) => spec_lookup(fields@, key@) == Some(*w),
            None => spec_lookup(fields@, key@) is None,
        },
{
    let mut i: usize = 0;
    while i < fields.len()
        invariant
            i <= fields@.len(),
            forall|k: int| 0 <= k < i ==> (#[trigger] fields@[k]).0@ != key@,
        decreases fields@.len() - i,
    {
        if fields[i].0.eq(key) {
            proof {
                lemma_lookup_skip(fields@, key@, i as int);
                assert(fields@.skip(i as int)[0] == fields@[i as int]);
            }
            return Some(&fields[i].1);
        }
        i += 1;
    }
    proof {
        lemma_lookup_skip(fields@, key@, i as int);
        assert(fields@.skip(i as int).len() == 0);
    }
    None
}

/// Whether an object has a field with the given key.
pub fn obj_contains_key(fields: &Vec<(String, JsonValue)>, key: &String) -> (r: bool)
    ensures
        r == (spec_lookup(fields@, key@) is Some),
{
    obj_lookup(fields, key).is_some()
}

/// JSON equality: deep equality honoring JSON number rules.
pub fn json_eq(a: &JsonValue, b: &JsonValue) -> (r: bool)
    requires
        json_wf(*a),
        json_wf(*b),
    ensures
        r == jeq(*a, *b),
    decreases *a,
{
    match (a, b) {
        (JsonValue::Null, JsonValue::Null) => true,
        (JsonValue::Bool(x), JsonValue::Bool(y)) => *x == *y,
        (JsonValue::Number(x), JsonValue::Number(y)) => x.num_eq(y),
        (JsonValue::Str(x), JsonValue::Str(y)) => x.eq(y),
        (JsonValue::Array(x), JsonValue::Array(y)) => {
            if x.len() != y.len() {
                return false;
            }
            let mut i: usize = 0;
            while i < x.len()
                invariant
                    i <= x@.len(),
                    x@.len() == y@.len(),
                    *a == JsonValue::Array(*x),
                    *b == JsonValue::Array(*y),
                    forall|k: int| 0 <= k < x@.len() ==> json_wf(#[trigger] x@[k]),
                    forall|k: int| 0 <= k < y@.len() ==> json_wf(#[trigger] y@[k]),
                    forall|k: int| 0 <= k < i ==> jeq(#[trigger] x@[k], y@[k]),
                decreases x@.len() - i,
            {
                proof {
                    assert(decreases_to!(*a => (*a)->Array_0));
                    assert(decreases_to!(*x => x@));
                    assert(decreases_to!(x@ => x@[i as int]));
                }
                if !json_eq(&x[i], &y[i]) {
                    return false;
                }
                i += 1;
            }
            true
        },
        (JsonValue::Object(xf), JsonValue::Object(yf)) => {
            if xf.len() != yf.len() {
                return false;
            }
            let mut i: usize = 0;
            while i < xf.len()
                invariant
                    i <= xf@.len(),
                    xf@.len() == yf@.len(),
                    *a == JsonValue::Object(*xf),
                    *b == JsonValue::Object(*yf),
                    forall|k: int| 0 <= k < xf@.len() ==> json_wf(#[trigger] xf@[k].1),
                    forall|k: int| 0 <= k < yf@.len() ==> json_wf(#[trigger] yf@[k].1),
                    forall|k: int|
                        0 <= k < i ==> match spec_lookup(yf@, (#[trigger] xf@[k]).0@) {
                            Some(w) => jeq(xf@[k].1, w),
                            None => false,
                        },
                decreases xf@.len() - i,
            {
                match obj_lookup(yf, &xf[i].0) {
                    None => {
                        return false;
                    },
                    Some(w) => {
                        proof {
                            assert(decreases_to!(*a => (*a)->Object_0));
                            assert(decreases_to!(*xf => xf@));
                            assert(decreases_to!(xf@ => xf@[i as int]));
                            assert(decreases_to!(xf@[i as int] => xf@[i as int].1));
                            lemma_lookup_wf(yf@, xf@[i as int].0@);
                        }
                        if !json_eq(&xf[i].1, w) {
                            return false;
                        }
                    },
                }
                i += 1;
            }
            true
        },
        _ => false,
    }
}

/// A structurally identical copy of a well-formed document is well-formed.
pub proof fn lemma_same_json_wf(a: JsonValue, b: JsonValue)
    requires
        same_json(a, b),
        json_wf(b),
    ensures
        json_wf(a),
    decreases a,
{
    match (a, b) {
        (JsonValue::Array(x), JsonValue::Array(y)) => {
            assert forall|i: int| 0 <= i < x@.len() implies json_wf(#[trigger] x@[i]) by {
                lemma_same_json_wf(x@[i], y@[i]);
            }
        },
        (JsonValue::Object(x), JsonValue::Object(y)) => {
            assert forall|i: int| 0 <= i < x@.len() implies json_wf((#[trigger] x@[i]).1) by {
                lemma_same_json_wf(x@[i].1, y@[i].1);
            }
            assert forall|i: int, j: int|
                0 <= i < j < x@.len() implies x@[i].0@ != x@[j].0@ by {
                assert(x@[i].0@ == y@[i].0@);
                assert(x@[j].0@ == y@[j].0@);
            }
        },
        _ => {},
    }
}

impl JsonValue {
    /// A structurally identical copy of this document.
    pub fn deep_clone(&self) -> (r: JsonValue)
        ensures
            same_json(r, *self),
        decreases *self,
    {
        match self {
            JsonValue::Null => JsonValue::Null,
            JsonValue::Bool(b) => JsonValue::Bool(*b),
            JsonValue::Number(n) => JsonValue::Number(*n),
            JsonValue::Str(s) => JsonValue::Str(s.clone()),
            JsonValue::Array(items) => {
                let mut out: Vec<JsonValue> = Vec::new();
                let mut i: usize = 0;
                while i < items.len()
                    invariant
                        i <= items@.len(),
                        *self == JsonValue::Array(*items),
                        out@.len() == i,
                        forall|k: int| 0 <= k < i ==> same_json(#[trigger] out@[k], items@[k]),
                    decreases items@.len() - i,
                {
                    proof {
                        assert(decreases_to!(*self => (*self)->Array_0));
                        assert(decreases_to!(*items => items@));
                        assert(decreases_to!(items@ => items@[i as int]));
                    }
                    let c = items[i].deep_clone();
                    out.push(c);
                    i += 1;
                }
                JsonValue::Array(out)
            },
            JsonValue::Object(fields) => {
                let mut out: Vec<(String, JsonValue)> = Vec::new();
                let mut i: usize = 0;
                while i < fields.len()
                    invariant
                        i <= fields@.len(),
                        *self == JsonValue::Object(*fields),
                        out@.len() == i,
                        forall|k: int|
                            0 <= k < i ==> (#[trigger] out@[k]).0@ == fields@[k].0@ && same_json(
                                out@[k].1,
                                fields@[k].1,
                            ),
                    decreases fields@.len() - i,
                {
                    proof {
                        assert(decreases_to!(*self => (*self)->Object_0));
                        assert(decreases_to!(*fields => fields@));
                        assert(decreases_to!(fields@ => fields@[i as int]));
                        assert(decreases_to!(fields@[i as int] => fields@[i as int].1));
                    }
                    let key = fields[i].0.clone();
                    let val = fields[i].1.deep_clone();
                    out.push((key, val));
                    i += 1;
                }
                JsonValue::Object(out)
            },
        }
    }
}

impl JsonValue {
    /// Whether the document is well-formed: numbers canonical and object
    /// keys unique, throughout.
    #[verifier::loop_isolation(false)]
    pub fn check_wf(&self) -> (r: bool)
        ensures
            r == json_wf(*self),
        decreases *self,
    {
        match self {
            JsonValue::Null => true,
            JsonValue::Bool(_) => true,
            JsonValue::Number(n) => n.nanos < NANOS_PER_UNIT,
            JsonValue::Str(_) => true,
            JsonValue::Array(items) => {
                let mut i: usize = 0;
                while i < items.len()
                    invariant
                        i <= items@.len(),
                        forall|k: int| 0 <= k < i ==> json_wf(#[trigger] items@[k]),
                    decreases items@.len() - i,
                {
                    proof {
                        assert(decreases_to!(*self => (*self)->Array_0));
                        assert(decreases_to!(*items => items@));
                        assert(decreases_to!(items@ => items@[i as int]));
                    }
                    if !items[i].check_wf() {
                        return false;
                    }
                    i += 1;
                }
                true
            },
            JsonValue::Object(fields) => {
                let mut i: usize = 0;
                while i < fields.len()
                    invariant
                        i <= fields@.len(),
                        forall|k: int| 0 <= k < i ==> json_wf((#[trigger] fields@[k]).1),
                        forall|x: int, y: int|
                            0 <= x < y < fields@.len() && x < i ==> fields@[x].0@
                                != fields@[y].0@,
                    decreases fields@.len() - i,
                {
                    proof {
                        assert(decreases_to!(*self => (*self)->Object_0));
                        assert(decreases_to!(*fields => fields@));
                        assert(decreases_to!(fields@ => fields@[i as int]));
                        assert(decreases_to!(fields@[i as int] => fields@[i as int].1));
                    }
                    if !fields[i].1.check_wf() {
                        return false;
                    }
                    let mut j: usize = i + 1;
                    while j < fields.len()
                        invariant
                            i < j || j == i + 1,
                            j <= fields@.len() || j == i + 1,
                            i < fields@.len(),
                            forall|y: int| i < y < j ==> fields@[i as int].0@ != fields@[y].0@,
                        decreases fields@.len() - j,
                    {
                        if fields[i].0.eq(&fields[j].0) {
                            return false;
                        }
                        j += 1;
                    }
                    i += 1;
                }
                true
            },
        }
    }
}

/// A value found by lookup among well-formed values is well-formed.
pub proof fn lemma_lookup_wf(fields: Seq<(String, JsonValue)>, key: Seq<char>)
    requires
        forall|i: int| 0 <= i < fields.len() ==> json_wf(#[trigger] fields[i].1),
    ensures
        match spec_lookup(fields, key) {
            Some(w) => json_wf(w),
            None => true,
        },
{
    lemma_lookup_member(fields, key);
}

/// Lookup returns one of the listed values.
pub proof fn lemma_lookup_member(fields: Seq<(String, JsonValue)>, key: Seq<char>)
    ensures
        match spec_lookup(fields, key) {
            Some(w) => exists|i: int| 0 <= i < fields.len() && #[trigger] fields[i].1 == w,
            None => true,
        },
    decreases fields.len(),
{
    if fields.len() > 0 && fields[0].0@ != key {
        lemma_lookup_member(fields.drop_first(), key);
        match spec_lookup(fields.drop_first(), key) {
            Some(w) => {
                let i = choose|i: int|
                    0 <= i < fields.drop_first().len() && #[trigger] fields.drop_first()[i].1 == w;
                assert(fields[i + 1].1 == w);
            },
            None => {},
        }
    }
}

} // verus!
