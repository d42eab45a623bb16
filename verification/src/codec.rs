//! The wire codec core: the conventions layered on plain JSON.
//!
//! Four deviations from plain JSON are enforced here. A floating-point
//! value may be a number token or one of the strings `"NaN"`,
//! `"Infinity"`, `"-Infinity"`; a byte buffer is a base64 string; a
//! fixed-shape record rejects keys outside its field set, naming the
//! first offender; records encode only the fields their skip predicates
//! keep.

use vstd::prelude::*;

verus! {

use crate::b64::{b64_decode, b64_encode, spec_b64_decode, spec_b64_encode, lemma_b64_round_trip};
use crate::error::{DecodeError, ErrorModel};
use crate::json::{JsonModel, JsonValue};
use crate::text::string_is;

/// A floating-point wire value: a finite number carried as its decimal
/// token, or one of the three non-finite values.
#[derive(Debug, PartialEq, Eq)]
pub enum DoubleValue {
    /// A finite value, as the JSON number token that denotes it.
    Finite(String),
    Nan,
    Infinity,
    NegInfinity,
}

/// The mathematical shape of a floating-point wire value.
pub enum DoubleModel {
    Finite(Seq<char>),
    Nan,
    Infinity,
    NegInfinity,
}

impl DoubleValue {
    /// The mathematical shape of this value.
    pub open spec fn dv(self) -> DoubleModel {
        match self {
            DoubleValue::Finite(t) => DoubleModel::Finite(t@),
            DoubleValue::Nan => DoubleModel::Nan,
            DoubleValue::Infinity => DoubleModel::Infinity,
            DoubleValue::NegInfinity => DoubleModel::NegInfinity,
        }
    }
}

/// What decoding a floating-point value returns for each JSON shape:
/// number tokens stand for finite values, exactly the three special
/// strings for the non-finite ones, and anything else is an error.
pub open spec fn spec_decode_double(m: JsonModel) -> Result<DoubleModel, ErrorModel> {
    match m {
        JsonModel::Number(t) => Ok(DoubleModel::Finite(t)),
        JsonModel::String(s) => if s == "NaN"@ {
            Ok(DoubleModel::Nan)
        } else if s == "Infinity"@ {
            Ok(DoubleModel::Infinity)
        } else if s == "-Infinity"@ {
            Ok(DoubleModel::NegInfinity)
        } else {
            Err(ErrorModel::InvalidFloat)
        },
        _ => Err(ErrorModel::WrongType("double"@)),
    }
}

/// What encoding a floating-point value produces: finite values keep
/// their numeric token, non-finite ones become the special strings.
pub open spec fn spec_encode_double(d: DoubleModel) -> JsonModel {
    match d {
        DoubleModel::Finite(t) => JsonModel::Number(t),
        DoubleModel::Nan => JsonModel::String("NaN"@),
        DoubleModel::Infinity => JsonModel::String("Infinity"@),
        DoubleModel::NegInfinity => JsonModel::String("-Infinity"@),
    }
}

/// Decodes a floating-point wire value.
pub fn decode_double(v: JsonValue) -> (r: Result<DoubleValue, DecodeError>)
    ensures
        match r {
            Ok(d) => spec_decode_double(v.dv()) == Ok::<DoubleModel, ErrorModel>(d.dv()),
            Err(e) => spec_decode_double(v.dv()) == Err::<DoubleModel, ErrorModel>(e.dv()),
        },
{
    match v {
        JsonValue::Number(t) => Ok(DoubleValue::Finite(t)),
        JsonValue::String(s) => {
            if string_is(&s, "NaN") {
                Ok(DoubleValue::Nan)
            } else if string_is(&s, "Infinity") {
                Ok(DoubleValue::Infinity)
            } else if string_is(&s, "-Infinity") {
                Ok(DoubleValue::NegInfinity)
            } else {
                Err(DecodeError::InvalidFloat)
            }
        },
        _ => Err(DecodeError::WrongType(String::from_str("double"))),
    }
}

/// Encodes a floating-point wire value.
pub fn encode_double(d: DoubleValue) -> (r: JsonValue)
    ensures
        r.dv() == spec_encode_double(d.dv()),
{
    match d {
        DoubleValue::Finite(t) => JsonValue::Number(t),
        DoubleValue::Nan => JsonValue::String(String::from_str("NaN")),
        DoubleValue::Infinity => JsonValue::String(String::from_str("Infinity")),
        DoubleValue::NegInfinity => JsonValue::String(String::from_str("-Infinity")),
    }
}

/// Every floating-point wire value survives an encode-decode round
/// trip; in particular the three non-finite values come back as
/// themselves, never as approximations.
pub proof fn lemma_double_round_trip(d: DoubleModel)
    ensures
        spec_decode_double(spec_encode_double(d)) == Ok::<DoubleModel, ErrorModel>(d),
{
    reveal_strlit("NaN");
    reveal_strlit("Infinity");
    reveal_strlit("-Infinity");
    assert("NaN"@.len() == 3 && "Infinity"@.len() == 8 && "-Infinity"@.len() == 9);
}

/// What decoding a byte buffer returns: the bytes a base64 string
/// denotes, an error on any other string, an error on any other shape.
pub open spec fn spec_decode_bytes(m: JsonModel) -> Result<Seq<u8>, ErrorModel> {
    match m {
        JsonModel::String(s) => match spec_b64_decode(s) {
            Some(b) => Ok(b),
            None => Err(ErrorModel::InvalidBase64),
        },
        _ => Err(ErrorModel::WrongType("binary"@)),
    }
}

/// What encoding a byte buffer produces: its base64 string.
pub open spec fn spec_encode_bytes(b: Seq<u8>) -> JsonModel {
    JsonModel::String(spec_b64_encode(b))
}

/// Decodes a byte buffer from its base64 string form.
pub fn decode_bytes(v: JsonValue) -> (r: Result<Vec<u8>, DecodeError>)
    ensures
        match r {
            Ok(b) => spec_decode_bytes(v.dv()) == Ok::<Seq<u8>, ErrorModel>(b@),
            Err(e) => spec_decode_bytes(v.dv()) == Err::<Seq<u8>, ErrorModel>(e.dv()),
        },
{
    match v {
        JsonValue::String(s) => match b64_decode(s.as_str()) {
            Some(b) => Ok(b),
            None => Err(DecodeError::InvalidBase64),
        },
        _ => Err(DecodeError::WrongType(String::from_str("binary"))),
    }
}

/// Encodes a byte buffer as its base64 string form.
pub fn encode_bytes(b: &Vec<u8>) -> (r: JsonValue)
    ensures
        r.dv() == spec_encode_bytes(b@),
{
    JsonValue::String(b64_encode(b))
}

/// Every byte buffer survives an encode-decode round trip.
pub proof fn lemma_bytes_round_trip(b: Seq<u8>)
    ensures
        spec_decode_bytes(spec_encode_bytes(b)) == Ok::<Seq<u8>, ErrorModel>(b),
{
    lemma_b64_round_trip(b);
}

/// The views of a list of record fields.
pub open spec fn fields_dv(fs: Seq<String>) -> Seq<Seq<char>> {
    Seq::new(fs.len(), |i: int| fs[i]@)
}

/// The mathematical shape of a list of object entries.
pub open spec fn entries_dv(es: Seq<(String, JsonValue)>) -> Seq<(Seq<char>, JsonModel)> {
    Seq::new(es.len(), |i: int| (es[i].0@, es[i].1.dv()))
}

/// The mathematical shape of a list of optional values.
pub open spec fn opts_dv(vs: Seq<Option<JsonValue>>) -> Seq<Option<JsonModel>> {
    Seq::new(
        vs.len(),
        |i: int|
            match vs[i] {
                Some(v) => Some(v.dv()),
                None => None,
            },
    )
}

/// The position of `key` in `fields`, or `-1` when absent.
pub open spec fn spec_field_index(fields: Seq<Seq<char>>, key: Seq<char>) -> int
    decreases fields.len(),
{
    if fields.len() == 0 {
        -1
    } else if fields[0] == key {
        0
    } else {
        let r = spec_field_index(fields.drop_first(), key);
        if r == -1 {
            -1
        } else {
            r + 1
        }
    }
}

/// The value of the last entry named `key`, or nothing: a later
/// occurrence of a key overrides an earlier one.
pub open spec fn spec_field_value(
    entries: Seq<(Seq<char>, JsonModel)>,
    key: Seq<char>,
) -> Option<JsonModel>
    decreases entries.len(),
{
    if entries.len() == 0 {
        None
    } else if entries.last().0 == key {
        Some(entries.last().1)
    } else {
        spec_field_value(entries.drop_last(), key)
    }
}

/// The position of the first entry whose key is outside `fields`, or
/// `-1` when every key is known.
pub open spec fn spec_first_unknown(
    entries: Seq<(Seq<char>, JsonModel)>,
    fields: Seq<Seq<char>>,
) -> int
    decreases entries.len(),
{
    if entries.len() == 0 {
        -1
    } else if spec_field_index(fields, entries[0].0) == -1 {
        0
    } else {
        let r = spec_first_unknown(entries.drop_first(), fields);
        if r == -1 {
            -1
        } else {
            r + 1
        }
    }
}

/// What decoding a fixed-shape record returns: a value per field, the
/// last occurrence of each key winning, or an unknown-field error naming
/// the first key outside the field set.
pub open spec fn spec_decode_record(
    entries: Seq<(Seq<char>, JsonModel)>,
    fields: Seq<Seq<char>>,
) -> Result<Seq<Option<JsonModel>>, ErrorModel> {
    let u = spec_first_unknown(entries, fields);
    if u == -1 {
        Ok(Seq::new(fields.len(), |i: int| spec_field_value(entries, fields[i])))
    } else {
        Err(ErrorModel::UnknownField(entries[u].0))
    }
}

pub(crate) proof fn lemma_field_index_found(fields: Seq<Seq<char>>, key: Seq<char>, i: int)
    requires
        0 <= i < fields.len(),
        fields[i] == key,
        forall|j: int| 0 <= j < i ==> fields[j] != key,
    ensures
        spec_field_index(fields, key) == i,
    decreases fields.len(),
{
    if i > 0 {
        lemma_field_index_found(fields.drop_first(), key, i - 1);
    }
}

pub(crate) proof fn lemma_field_index_none(fields: Seq<Seq<char>>, key: Seq<char>)
    requires
        forall|j: int| 0 <= j < fields.len() ==> fields[j] != key,
    ensures
        spec_field_index(fields, key) == -1,
    decreases fields.len(),
{
    if fields.len() > 0 {
        lemma_field_index_none(fields.drop_first(), key);
    }
}

/// When the index is found, the field there carries the key.
pub proof fn lemma_field_index_spec(fields: Seq<Seq<char>>, key: Seq<char>)
    ensures
        spec_field_index(fields, key) == -1 ==> forall|j: int|
            0 <= j < fields.len() ==> fields[j] != key,
        spec_field_index(fields, key) != -1 ==> {
            let i = spec_field_index(fields, key);
            &&& 0 <= i < fields.len()
            &&& fields[i] == key
        },
    decreases fields.len(),
{
    if fields.len() > 0 {
        lemma_field_index_spec(fields.drop_first(), key);
        if fields[0] != key && spec_field_index(fields.drop_first(), key) == -1 {
            assert forall|j: int| 0 <= j < fields.len() implies fields[j] != key by {
                if j > 0 {
                    assert(fields.drop_first()[j - 1] == fields[j]);
                }
            }
        }
    }
}

/// Looks a key up in a field list, returning the first match.
pub fn field_index(fields: &Vec<String>, key: &String) -> (r: Option<usize>)
    ensures
        match r {
            Some(i) => spec_field_index(fields_dv(fields@), key@) == i as int,
            None => spec_field_index(fields_dv(fields@), key@) == -1,
        },
{
    let ghost gfs = fields_dv(fields@);
    let mut i: usize = 0;
    let n = fields.len();
    while i < n
        invariant
            n == fields@.len(),
            0 <= i <= n,
            gfs == fields_dv(fields@),
            forall|j: int| 0 <= j < i ==> gfs[j] != key@,
        decreases n - i,
    {
        if *key == fields[i] {
            proof {
                lemma_field_index_found(gfs, key@, i as int);
            }
            return Some(i);
        }
        i = i + 1;
    }
    proof {
        lemma_field_index_none(gfs, key@);
    }
    None
}

/// With pairwise-distinct keys, the entry holding a key decides its
/// field value.
pub(crate) proof fn lemma_field_value_unique(
    entries: Seq<(Seq<char>, JsonModel)>,
    key: Seq<char>,
    j: int,
)
    requires
        0 <= j < entries.len(),
        entries[j].0 == key,
        forall|l: int| 0 <= l < entries.len() && l != j ==> (#[trigger] entries[l]).0 != key,
    ensures
        spec_field_value(entries, key) == Some(entries[j].1),
    decreases entries.len(),
{
    if j == entries.len() - 1 {
    } else {
        assert(entries.last().0 != key);
        lemma_field_value_unique(entries.drop_last(), key, j);
    }
}

/// When every entry holding a key agrees on one value, and at least one
/// entry holds it, that value is the key's field value.
pub(crate) proof fn lemma_field_value_determined(
    entries: Seq<(Seq<char>, JsonModel)>,
    key: Seq<char>,
    val: JsonModel,
)
    requires
        exists|j: int| 0 <= j < entries.len() && #[trigger] entries[j] == (key, val),
        forall|l: int|
            0 <= l < entries.len() && (#[trigger] entries[l]).0 == key ==> entries[l].1 == val,
    ensures
        spec_field_value(entries, key) == Some(val),
    decreases entries.len(),
{
    let j = choose|j: int| 0 <= j < entries.len() && #[trigger] entries[j] == (key, val);
    if entries.last().0 == key {
        assert(entries.last().1 == val);
    } else {
        assert(j < entries.len() - 1);
        assert(entries.drop_last()[j] == (key, val));
        lemma_field_value_determined(entries.drop_last(), key, val);
    }
}

/// A key no entry holds has no field value.
pub(crate) proof fn lemma_field_value_absent(entries: Seq<(Seq<char>, JsonModel)>, key: Seq<char>)
    requires
        forall|l: int| 0 <= l < entries.len() ==> (#[trigger] entries[l]).0 != key,
    ensures
        spec_field_value(entries, key) is None,
    decreases entries.len(),
{
    if entries.len() > 0 {
        lemma_field_value_absent(entries.drop_last(), key);
    }
}

/// Strict fields: a record document holding any key outside the field
/// set fails to decode, with an unknown-field error naming the first
/// such key; one with known keys only decodes to a value per field.
pub proof fn lemma_record_strict(entries: Seq<(Seq<char>, JsonModel)>, fields: Seq<Seq<char>>)
    ensures
        spec_first_unknown(entries, fields) != -1 ==> spec_decode_record(entries, fields)
            == Err::<Seq<Option<JsonModel>>, ErrorModel>(
            ErrorModel::UnknownField(entries[spec_first_unknown(entries, fields)].0),
        ),
        spec_first_unknown(entries, fields) == -1 ==> spec_decode_record(entries, fields)
            == Ok::<Seq<Option<JsonModel>>, ErrorModel>(
            Seq::new(fields.len(), |i: int| spec_field_value(entries, fields[i])),
        ),
{
}

pub(crate) proof fn lemma_first_unknown_at(
    entries: Seq<(Seq<char>, JsonModel)>,
    fields: Seq<Seq<char>>,
    k: int,
)
    requires
        0 <= k < entries.len(),
        forall|j: int| 0 <= j < k ==> spec_field_index(fields, entries[j].0) != -1,
        spec_field_index(fields, entries[k].0) == -1,
    ensures
        spec_first_unknown(entries, fields) == k,
    decreases entries.len(),
{
    if k > 0 {
        lemma_first_unknown_at(entries.drop_first(), fields, k - 1);
    }
}

pub(crate) proof fn lemma_first_unknown_none(entries: Seq<(Seq<char>, JsonModel)>, fields: Seq<Seq<char>>)
    requires
        forall|j: int|
            0 <= j < entries.len() ==> spec_field_index(fields, #[trigger] entries[j].0) != -1,
    ensures
        spec_first_unknown(entries, fields) == -1,
    decreases entries.len(),
{
    if entries.len() > 0 {
        lemma_first_unknown_none(entries.drop_first(), fields);
    }
}

/// Decodes a fixed-shape record: hands back one optional value per
/// field, or the unknown-field error the first stray key earns. Keys
/// may repeat; the last occurrence wins.
#[verifier::loop_isolation(false)]
pub fn decode_record(entries: Vec<(String, JsonValue)>, fields: &Vec<String>) -> (r: Result<
    Vec<Option<JsonValue>>,
    DecodeError,
>)
    requires
        forall|i: int, j: int|
            0 <= i < j < fields@.len() ==> #[trigger] fields@[i]@ != #[trigger] fields@[j]@,
    ensures
        match r {
            Ok(vals) => spec_decode_record(entries_dv(entries@), fields_dv(fields@)) == Ok::<
                _,
                ErrorModel,
            >(opts_dv(vals@)),
            Err(e) => spec_decode_record(entries_dv(entries@), fields_dv(fields@)) == Err::<
                Seq<Option<JsonModel>>,
                _,
            >(e.dv()),
        },
{
    let ghost ges = entries_dv(entries@);
    let ghost gfs = fields_dv(fields@);
    let n = fields.len();
    let mut vals: Vec<Option<JsonValue>> = Vec::new();
    while vals.len() < n
        invariant
            vals@.len() <= n,
            forall|i: int| 0 <= i < vals@.len() ==> vals@[i] is None,
        decreases n - vals.len(),
    {
        vals.push(None);
    }
    // walk the entries front to back by reversing them onto a stack
    let mut rev: Vec<(String, JsonValue)> = Vec::new();
    let n_entries = entries.len();
    let mut rest = entries;
    let ghost n_e = ges.len();
    while rest.len() > 0
        invariant
            rest@.len() + rev@.len() == n_e,
            ges == entries_dv(rest@ + rev@.reverse()),
        decreases rest.len(),
    {
        let ghost old_rest = rest@;
        let ghost old_rev = rev@;
        let e = rest.pop().unwrap();
        rev.push(e);
        proof {
            assert(old_rest + old_rev.reverse() =~= rest@ + rev@.reverse());
        }
    }
    let mut k: usize = 0;
    proof {
        assert(rest@ + rev@.reverse() =~= rev@.reverse());
        assert(ges == entries_dv(rev@.reverse()));
    }
    let ghost gorder = rev@.reverse();
    while rev.len() > 0
        invariant
            n == fields@.len(),
            gfs == fields_dv(fields@),
            forall|i1: int, j1: int| 0 <= i1 < j1 < gfs.len() ==> gfs[i1] != gfs[j1],
            vals@.len() == n,
            k + rev@.len() == n_e,
            ges == entries_dv(gorder),
            gorder.len() == n_e,
            n_e == n_entries as int,
            forall|j: int| 0 <= j < rev@.len() ==> rev@[j] == gorder[n_e - 1 - j],
            forall|j: int| 0 <= j < k ==> spec_field_index(gfs, #[trigger] ges[j].0) != -1,
            forall|i: int|
                0 <= i < n ==> opts_dv(vals@)[i] == spec_field_value(
                    ges.take(k as int),
                    gfs[i],
                ),
        decreases rev.len(),
    {
        let ghost old_vals = vals@;
        let (key, value) = rev.pop().unwrap();
        proof {
            assert((key, value) == gorder[k as int]);
            assert(ges[k as int] == (key@, value.dv()));
        }
        match field_index(fields, &key) {
            Some(i) => {
                proof {
                    lemma_field_index_spec(gfs, key@);
                    assert(0 <= i < gfs.len() && gfs[i as int] == key@);
                }
                vals.set(i, Some(value));
                proof {
                    assert(ges.take(k + 1).last() == ges[k as int]);
                    assert(ges.take(k + 1).drop_last() =~= ges.take(k as int));
                    assert forall|i2: int| 0 <= i2 < n implies opts_dv(vals@)[i2]
                        == spec_field_value(ges.take(k + 1), gfs[i2]) by {
                        if i2 == i as int {
                            assert(gfs[i2] == key@);
                            assert(spec_field_value(ges.take(k + 1), gfs[i2]) == Some(
                                value.dv(),
                            ));
                        } else {
                            assert(gfs[i2] != key@);
                            assert(opts_dv(vals@)[i2] == opts_dv(old_vals)[i2]);
                        }
                    }
                }
            },
            None => {
                proof {
                    lemma_first_unknown_at(ges, gfs, k as int);
                    assert(spec_first_unknown(ges, gfs) == k as int);
                    assert(ges[k as int].0 == key@);
                    assert(spec_decode_record(ges, gfs) == Err::<
                        Seq<Option<JsonModel>>,
                        ErrorModel,
                    >(ErrorModel::UnknownField(key@)));
                }
                return Err(DecodeError::UnknownField(key));
            },
        }
        k = k + 1;
    }
    proof {
        assert(k == n_e);
        lemma_first_unknown_none(ges, gfs);
        assert(ges.take(k as int) =~= ges);
        assert(opts_dv(vals@) =~= Seq::new(gfs.len(), |i: int| spec_field_value(ges, gfs[i])));
    }
    Ok(vals)
}

} // verus!
