//! Conversions of plain values into `Value`.

use vstd::prelude::*;
use vstd::std_specs::convert::FromSpec;
use vstd::std_specs::convert::FromSpecImpl;
use crate::assoc::{AssocMap, KeyEq};
use crate::error::{WalleError, WalleResult};
use crate::text::push_str;
use crate::value::{
    Float64, OneBotBytes, TryFromValue, Value, ValueMap, ValueView, kv_map, keys_distinct,
    lemma_dict_view, type_mismatch,
};

verus! {

/// Building a value from a plain value keeps it: the value has the kind
/// of the plain value and holds it, and downcasting it back into the same
/// type gives the plain value again.
pub proof fn law_from_keeps_value(
    s: String,
    i: i64,
    i4: i32,
    i2: i16,
    i1: i8,
    u2: u16,
    u4: u32,
    b: bool,
    f: Float64,
    bytes: OneBotBytes,
    raw: Vec<u8>,
)
    ensures
        <Value as FromSpec<String>>::from_spec(s)@ == ValueView::Str(s@),
        <Value as FromSpec<i64>>::from_spec(i)@ == ValueView::Int(i),
        <Value as FromSpec<i32>>::from_spec(i4)@ == ValueView::Int(i4 as i64),
        <Value as FromSpec<i16>>::from_spec(i2)@ == ValueView::Int(i2 as i64),
        <Value as FromSpec<i8>>::from_spec(i1)@ == ValueView::Int(i1 as i64),
        <Value as FromSpec<u16>>::from_spec(u2)@ == ValueView::Int(u2 as i64),
        <Value as FromSpec<u32>>::from_spec(u4)@ == ValueView::Int(u4 as i64),
        <Value as FromSpec<bool>>::from_spec(b)@ == ValueView::Bool(b),
        <Value as FromSpec<Float64>>::from_spec(f)@ == ValueView::F64(f.bits),
        <Value as FromSpec<OneBotBytes>>::from_spec(bytes)@ == ValueView::Bytes(bytes.0@),
        <Value as FromSpec<Vec<u8>>>::from_spec(raw)@ == ValueView::Bytes(raw@),
        <Value as FromSpec<()>>::from_spec(())@ == ValueView::Null,
        <String as TryFromValue>::accepts(<Value as FromSpec<String>>::from_spec(s)@)
            && <String as TryFromValue>::converted(<Value as FromSpec<String>>::from_spec(s)@, s),
        <i64 as TryFromValue>::converted(<Value as FromSpec<i64>>::from_spec(i)@, i),
        <i32 as TryFromValue>::converted(<Value as FromSpec<i32>>::from_spec(i4)@, i4),
        <i16 as TryFromValue>::converted(<Value as FromSpec<i16>>::from_spec(i2)@, i2),
        <i8 as TryFromValue>::converted(<Value as FromSpec<i8>>::from_spec(i1)@, i1),
        <u16 as TryFromValue>::converted(<Value as FromSpec<u16>>::from_spec(u2)@, u2),
        <u32 as TryFromValue>::converted(<Value as FromSpec<u32>>::from_spec(u4)@, u4),
        <bool as TryFromValue>::accepts(<Value as FromSpec<bool>>::from_spec(b)@)
            && <bool as TryFromValue>::converted(<Value as FromSpec<bool>>::from_spec(b)@, b),
        <Float64 as TryFromValue>::converted(<Value as FromSpec<Float64>>::from_spec(f)@, f),
        <bool as TryFromValue>::converted(ValueView::Bool(b), b)
            && forall|x: bool| <bool as TryFromValue>::converted(ValueView::Bool(b), x) ==> x == b,
{
}


impl From<String> for Value {
    fn from(v: String) -> (r: Value) {
        Value::Str(v)
    }
}

impl FromSpecImpl<String> for Value {
    open spec fn obeys_from_spec() -> bool {
        true
    }

    open spec fn from_spec(v: String) -> Value {
        Value::Str(v)
    }
}

impl From<i64> for Value {
    fn from(v: i64) -> (r: Value) {
        Value::Int(v)
    }
}

impl FromSpecImpl<i64> for Value {
    open spec fn obeys_from_spec() -> bool {
        true
    }

    open spec fn from_spec(v: i64) -> Value {
        Value::Int(v)
    }
}

impl From<i32> for Value {
    fn from(v: i32) -> (r: Value) {
        Value::Int(v as i64)
    }
}

impl FromSpecImpl<i32> for Value {
    open spec fn obeys_from_spec() -> bool {
        true
    }

    open spec fn from_spec(v: i32) -> Value {
        Value::Int(v as i64)
    }
}

impl From<i16> for Value {
    fn from(v: i16) -> (r: Value) {
        Value::Int(v as i64)
    }
}

impl FromSpecImpl<i16> for Value {
    open spec fn obeys_from_spec() -> bool {
        true
    }

    open spec fn from_spec(v: i16) -> Value {
        Value::Int(v as i64)
    }
}

impl From<i8> for Value {
    fn from(v: i8) -> (r: Value) {
        Value::Int(v as i64)
    }
}

impl FromSpecImpl<i8> for Value {
    open spec fn obeys_from_spec() -> bool {
        true
    }

    open spec fn from_spec(v: i8) -> Value {
        Value::Int(v as i64)
    }
}

impl From<u16> for Value {
    fn from(v: u16) -> (r: Value) {
        Value::Int(v as i64)
    }
}

impl FromSpecImpl<u16> for Value {
    open spec fn obeys_from_spec() -> bool {
        true
    }

    open spec fn from_spec(v: u16) -> Value {
        Value::Int(v as i64)
    }
}

impl From<u32> for Value {
    fn from(v: u32) -> (r: Value) {
        Value::Int(v as i64)
    }
}

impl FromSpecImpl<u32> for Value {
    open spec fn obeys_from_spec() -> bool {
        true
    }

    open spec fn from_spec(v: u32) -> Value {
        Value::Int(v as i64)
    }
}

impl From<bool> for Value {
    fn from(v: bool) -> (r: Value) {
        Value::Bool(v)
    }
}

impl FromSpecImpl<bool> for Value {
    open spec fn obeys_from_spec() -> bool {
        true
    }

    open spec fn from_spec(v: bool) -> Value {
        Value::Bool(v)
    }
}

impl From<Float64> for Value {
    fn from(v: Float64) -> (r: Value) {
        Value::F64(v)
    }
}

impl FromSpecImpl<Float64> for Value {
    open spec fn obeys_from_spec() -> bool {
        true
    }

    open spec fn from_spec(v: Float64) -> Value {
        Value::F64(v)
    }
}

impl From<OneBotBytes> for Value {
    fn from(v: OneBotBytes) -> (r: Value) {
        Value::Bytes(v)
    }
}

impl FromSpecImpl<OneBotBytes> for Value {
    open spec fn obeys_from_spec() -> bool {
        true
    }

    open spec fn from_spec(v: OneBotBytes) -> Value {
        Value::Bytes(v)
    }
}

impl From<Vec<u8>> for Value {
    fn from(v: Vec<u8>) -> (r: Value) {
        Value::Bytes(OneBotBytes(v))
    }
}

impl FromSpecImpl<Vec<u8>> for Value {
    open spec fn obeys_from_spec() -> bool {
        true
    }

    open spec fn from_spec(v: Vec<u8>) -> Value {
        Value::Bytes(OneBotBytes(v))
    }
}

impl From<ValueMap> for Value {
    fn from(v: ValueMap) -> (r: Value) {
        Value::Dict(v)
    }
}

impl FromSpecImpl<ValueMap> for Value {
    open spec fn obeys_from_spec() -> bool {
        true
    }

    open spec fn from_spec(v: ValueMap) -> Value {
        Value::Dict(v)
    }
}

impl From<Vec<Value>> for Value {
    fn from(v: Vec<Value>) -> (r: Value) {
        Value::List(v)
    }
}

impl FromSpecImpl<Vec<Value>> for Value {
    open spec fn obeys_from_spec() -> bool {
        true
    }

    open spec fn from_spec(v: Vec<Value>) -> Value {
        Value::List(v)
    }
}

impl From<()> for Value {
    fn from(_v: ()) -> (r: Value) {
        Value::Null
    }
}

impl FromSpecImpl<()> for Value {
    open spec fn obeys_from_spec() -> bool {
        true
    }

    open spec fn from_spec(_v: ()) -> Value {
        Value::Null
    }
}


/// Every value of a map value is accepted by `V`.
pub open spec fn map_accepts<V: TryFromValue>(v: ValueView) -> bool {
    v matches ValueView::Dict(m) && forall|k: Seq<char>| #[trigger] m.contains_key(k) ==> V::accepts(m[k])
}

/// `r` holds, under each key of a map value, the conversion of its value.
pub open spec fn map_converted<V: TryFromValue>(v: ValueView, r: Map<Seq<char>, V>) -> bool {
    v matches ValueView::Dict(m) && r.dom() == m.dom()
        && forall|k: Seq<char>| #[trigger] m.contains_key(k) ==> V::converted(m[k], r[k])
}

/// The error of converting a map value: that of one of its values that
/// `V` rejects, or a type mismatch where the value is no map.
pub open spec fn map_rejected<V: TryFromValue>(v: ValueView, e: WalleError) -> bool {
    match v {
        ValueView::Dict(m) => exists|k: Seq<char>| m.contains_key(k) && !V::accepts(m[k]) && #[trigger] V::rejected(m[k], e),
        _ => type_mismatch(e, "Map<"@ + V::spec_target_name() + ">"@, v),
    }
}

/// Converts every value of a map value into `V`; where one cannot be
/// converted, its error is the result.
pub fn map_from_value<V: TryFromValue>(v: Value) -> (r: WalleResult<AssocMap<String, V>>)
    ensures
        match r {
            Ok(x) => map_accepts::<V>(v@) && map_converted::<V>(v@, x@),
            Err(e) => !map_accepts::<V>(v@) && map_rejected::<V>(v@, e),
        },
{
    let ghost vv = v@;
    match v {
        Value::Dict(m) => {
            proof { lemma_dict_view(m); }
            let ghost mv = m@;
            let (ks, vs) = m.into_parts();
            let ghost k0 = ks@;
            let ghost v0 = vs@;
            let mut ks = ks;
            let mut vs = vs;
            let n = ks.len();
            let mut out: AssocMap<String, V> = AssocMap::new();
            let mut i: usize = 0;
            while i < n
                invariant
                    i <= n,
                    n == k0.len(),
                    n == v0.len(),
                    keys_distinct(k0),
                    kv_map(k0, v0) == mv,
                    vv == ValueView::Dict(mv),
                    vv == v@,
                    ks@ == k0.subrange(i as int, n as int),
                    vs@ == v0.subrange(i as int, n as int),
                    forall|j: int| 0 <= j < i ==> #[trigger] V::accepts(v0[j]@),
                    forall|k: Seq<char>| #[trigger] out@.contains_key(k) <==> exists|j: int| 0 <= j < i && #[trigger] k0[j]@ == k,
                    forall|j: int| 0 <= j < i ==> #[trigger] V::converted(v0[j]@, out@[k0[j]@]),
                decreases n - i,
            {
                let key = ks.remove(0);
                let value = vs.remove(0);
                assert(key == k0[i as int]);
                assert(value == v0[i as int]);
                assert(ks@ =~= k0.subrange(i + 1, n as int));
                assert(vs@ =~= v0.subrange(i + 1, n as int));
                match V::try_from_value(value) {
                    Ok(x) => {
                        let ghost before = out@;
                        let _ = out.insert(key, x);
                        proof {
                            assert forall|k: Seq<char>| #[trigger] out@.contains_key(k) <==> exists|j: int| 0 <= j < i + 1 && #[trigger] k0[j]@ == k by {
                                if out@.contains_key(k) && k != k0[i as int]@ {
                                    assert(before.contains_key(k));
                                }
                                if exists|j: int| 0 <= j < i + 1 && #[trigger] k0[j]@ == k {
                                    let j = choose|j: int| 0 <= j < i + 1 && #[trigger] k0[j]@ == k;
                                    if j < i { assert(before.contains_key(k)); }
                                }
                            }
                            assert forall|j: int| 0 <= j < i + 1 implies #[trigger] V::converted(v0[j]@, out@[k0[j]@]) by {
                                if j < i {
                                    assert(k0[j]@ != k0[i as int]@);
                                }
                            }
                        }
                    },
                    Err(e) => {
                        proof {
                            crate::value::lemma_entry_pub(k0, v0, i as int);
                            let k = k0[i as int]@;
                            assert(mv.contains_key(k));
                            assert(V::rejected(mv[k], e));
                            assert(!V::accepts(mv[k]));
                            assert(!map_accepts::<V>(vv)) by {
                                if map_accepts::<V>(vv) {
                                    assert(vv->Dict_0 == mv);
                                    assert(mv.contains_key(k));
                                    assert(V::accepts(mv[k]));
                                }
                            }
                            assert(map_rejected::<V>(vv, e));
                        }
                        return Err(e);
                    },
                }
                i = i + 1;
            }
            proof {
                assert forall|k: Seq<char>| #[trigger] mv.contains_key(k) implies V::accepts(mv[k]) && V::converted(mv[k], out@[k]) && out@.contains_key(k) by {
                    let j = choose|j: int| 0 <= j < n && #[trigger] k0[j]@ == k;
                    crate::value::lemma_entry_pub(k0, v0, j);
                }
                assert forall|k: Seq<char>| #[trigger] out@.contains_key(k) implies mv.contains_key(k) by {
                    let j = choose|j: int| 0 <= j < n && #[trigger] k0[j]@ == k;
                    crate::value::lemma_entry_pub(k0, v0, j);
                }
                assert(out@.dom() =~= mv.dom());
            }
            Ok(out)
        },
        other => {
            proof { reveal_strlit("Map<"); reveal_strlit(">"); }
            let mut name = "Map<".to_owned();
            let inner = V::target_name();
            push_str(&mut name, inner.as_str());
            push_str(&mut name, ">");
            Err(WalleError::ValueTypeNotMatch(name, other.debug_text()))
        },
    }
}
} // verus!
