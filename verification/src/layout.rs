//! Records described by their fields.
//!
//! Many structures of the game's data files are a fixed sequence of
//! little-endian integers, fixed-width texts and skipped bytes. A `Field`
//! names one such item; `read_fields` reads a whole sequence of them, and
//! `fields_read` says what that gives: the value of every field in order, or
//! the error of the first field that cannot be read.

use vstd::prelude::*;
use crate::bytes::{available, i16_at, i32_at, i8_of, read_i16, read_i32, read_i8, read_sized_str, read_u16, read_u32, read_u8, sized_text, u16_at, u32_at, StreamError};

verus! {

/// One field of a record.
#[derive(Clone, Copy, Debug, PartialEq, Eq)]
pub enum Field {
    U8,
    I8,
    U16,
    I16,
    U32,
    I32,
    /// A 32-bit float, kept as its raw bits.
    F32,
    /// A text of this many bytes, ending at its first zero byte.
    Text(u32),
    /// This many bytes passed over without reading them.
    Skip(u32),
}

/// The value read from a field.
#[derive(Clone, Debug, PartialEq, Eq)]
pub enum Value {
    /// Any integer field, and the bits of a float.
    Num(i64),
    Text(String),
    Skipped,
}

/// The mathematical value of a field.
pub enum FieldValue {
    Num(int),
    Text(Seq<char>),
    Skipped,
}

pub open spec fn value_view(v: Value) -> FieldValue {
    match v {
        Value::Num(n) => FieldValue::Num(n as int),
        Value::Text(s) => FieldValue::Text(s@),
        Value::Skipped => FieldValue::Skipped,
    }
}

pub open spec fn values_view(vs: Seq<Value>) -> Seq<FieldValue> {
    vs.map_values(|v: Value| value_view(v))
}

/// The number of bytes a field covers.
pub open spec fn field_size(f: Field) -> int {
    match f {
        Field::U8 | Field::I8 => 1,
        Field::U16 | Field::I16 => 2,
        Field::U32 | Field::I32 | Field::F32 => 4,
        Field::Text(n) => n as int,
        Field::Skip(n) => n as int,
    }
}

/// The value of field `f` at `p`.
pub open spec fn field_value(d: Seq<u8>, p: int, f: Field) -> Result<FieldValue, StreamError> {
    match f {
        Field::Skip(n) => if p + n <= u64::MAX {
            Ok(FieldValue::Skipped)
        } else {
            Err(StreamError::SeekOverflow)
        },
        _ => if !available(d, p, field_size(f)) {
            Err(StreamError::UnexpectedEof)
        } else {
            match f {
                Field::U8 => Ok(FieldValue::Num(d[p] as int)),
                Field::I8 => Ok(FieldValue::Num(i8_of(d[p]) as int)),
                Field::U16 => Ok(FieldValue::Num(u16_at(d, p) as int)),
                Field::I16 => Ok(FieldValue::Num(i16_at(d, p) as int)),
                Field::U32 | Field::F32 => Ok(FieldValue::Num(u32_at(d, p) as int)),
                Field::I32 => Ok(FieldValue::Num(i32_at(d, p) as int)),
                Field::Text(n) => match sized_text(d.subrange(p, p + n)) {
                    Some(s) => Ok(FieldValue::Text(s)),
                    None => Err(StreamError::InvalidData),
                },
                Field::Skip(_) => Ok(FieldValue::Skipped),
            }
        },
    }
}

/// Reading the fields `fs` in turn from `p`: their values and the position
/// after them, or the error of the first field that cannot be read.
pub open spec fn fields_read(d: Seq<u8>, p: int, fs: Seq<Field>) -> Result<(Seq<FieldValue>, int), StreamError>
    decreases fs.len(),
{
    if fs.len() == 0 {
        Ok((Seq::empty(), p))
    } else {
        match fields_read(d, p, fs.drop_last()) {
            Err(e) => Err(e),
            Ok((vs, q)) => match field_value(d, q, fs.last()) {
                Err(e) => Err(e),
                Ok(v) => Ok((vs.push(v), q + field_size(fs.last()))),
            },
        }
    }
}

/// The integer value at `k`, where it is one.
pub open spec fn num(vs: Seq<FieldValue>, k: int) -> int {
    match vs[k] {
        FieldValue::Num(n) => n,
        _ => 0,
    }
}

/// The text value at `k`, where it is one.
pub open spec fn text(vs: Seq<FieldValue>, k: int) -> Seq<char> {
    match vs[k] {
        FieldValue::Text(s) => s,
        _ => Seq::empty(),
    }
}

/// Whether the value fits the kind of field that it was read from.
pub open spec fn fits(f: Field, v: FieldValue) -> bool {
    match f {
        Field::U8 => v matches FieldValue::Num(n) && 0 <= n <= u8::MAX,
        Field::I8 => v matches FieldValue::Num(n) && i8::MIN <= n <= i8::MAX,
        Field::U16 => v matches FieldValue::Num(n) && 0 <= n <= u16::MAX,
        Field::I16 => v matches FieldValue::Num(n) && i16::MIN <= n <= i16::MAX,
        Field::U32 | Field::F32 => v matches FieldValue::Num(n) && 0 <= n <= u32::MAX,
        Field::I32 => v matches FieldValue::Num(n) && i32::MIN <= n <= i32::MAX,
        Field::Text(_) => v is Text,
        Field::Skip(_) => v is Skipped,
    }
}

pub proof fn lemma_fields_read_fit(d: Seq<u8>, p: int, fs: Seq<Field>)
    ensures
        fields_read(d, p, fs) matches Ok((vs, _)) ==> vs.len() == fs.len()
            && forall|k: int| 0 <= k < fs.len() ==> fits(fs[k], #[trigger] vs[k]),
    decreases fs.len(),
{
    if fs.len() > 0 {
        lemma_fields_read_fit(d, p, fs.drop_last());
        if let Ok((vs, _)) = fields_read(d, p, fs) {
            let (vs0, q) = fields_read(d, p, fs.drop_last())->Ok_0;
            assert forall|k: int| 0 <= k < fs.len() implies fits(fs[k], #[trigger] vs[k]) by {
                if k < fs.len() - 1 {
                    assert(fs[k] == fs.drop_last()[k]);
                    assert(vs[k] == vs0[k]);
                }
            }
        }
    }
}

proof fn lemma_fields_read_error_stays(d: Seq<u8>, p: int, fs: Seq<Field>, i: int)
    requires
        0 <= i <= fs.len(),
        fields_read(d, p, fs.take(i)) is Err,
    ensures
        fields_read(d, p, fs) == fields_read(d, p, fs.take(i)),
    decreases fs.len() - i,
{
    if i < fs.len() {
        assert(fs.take(i + 1).drop_last() == fs.take(i));
        lemma_fields_read_error_stays(d, p, fs, i + 1);
    } else {
        assert(fs.take(i) == fs);
    }
}

/// Reads the value of one field.
fn read_field(data: &[u8], pos: &mut u64, f: Field) -> (r: Result<Value, StreamError>)
    ensures
        match field_value(data@, *old(pos) as int, f) {
            Ok(v) => r matches Ok(x) && value_view(x) == v && *final(pos) == *old(pos) + field_size(f),
            Err(e) => r == Err::<Value, StreamError>(e),
        },
{
    match f {
        Field::U8 => match read_u8(data, pos) {
            Ok(v) => Ok(Value::Num(v as i64)),
            Err(e) => Err(e),
        },
        Field::I8 => match read_i8(data, pos) {
            Ok(v) => Ok(Value::Num(v as i64)),
            Err(e) => Err(e),
        },
        Field::U16 => match read_u16(data, pos) {
            Ok(v) => Ok(Value::Num(v as i64)),
            Err(e) => Err(e),
        },
        Field::I16 => match read_i16(data, pos) {
            Ok(v) => Ok(Value::Num(v as i64)),
            Err(e) => Err(e),
        },
        Field::U32 | Field::F32 => match read_u32(data, pos) {
            Ok(v) => Ok(Value::Num(v as i64)),
            Err(e) => Err(e),
        },
        Field::I32 => match read_i32(data, pos) {
            Ok(v) => Ok(Value::Num(v as i64)),
            Err(e) => Err(e),
        },
        Field::Text(n) => match read_sized_str(data, pos, n as u64) {
            Ok(s) => Ok(Value::Text(s)),
            Err(e) => Err(e),
        },
        Field::Skip(n) => match pos.checked_add(n as u64) {
            Some(q) => {
                *pos = q;
                Ok(Value::Skipped)
            },
            None => Err(StreamError::SeekOverflow),
        },
    }
}

/// Reads the fields `fields` in turn, as `fields_read` describes.
pub fn read_fields(data: &[u8], pos: &mut u64, fields: &[Field]) -> (r: Result<Vec<Value>, StreamError>)
    ensures
        match fields_read(data@, *old(pos) as int, fields@) {
            Ok((vs, e)) => r matches Ok(v) && values_view(v@) == vs && *final(pos) == e
                && vs.len() == fields@.len()
                && forall|k: int| 0 <= k < fields@.len() ==> fits(fields@[k], #[trigger] vs[k]),
            Err(e) => r == Err::<Vec<Value>, StreamError>(e),
        },
{
    let ghost p0 = *pos as int;
    proof {
        lemma_fields_read_fit(data@, p0, fields@);
    }
    let mut values: Vec<Value> = Vec::new();
    let mut i: usize = 0;
    assert(fields@.take(0) == Seq::<Field>::empty());
    assert(values_view(values@) == Seq::<FieldValue>::empty());
    while i < fields.len()
        invariant
            i <= fields@.len(),
            fields_read(data@, p0, fields@.take(i as int)) == Ok::<(Seq<FieldValue>, int), StreamError>((values_view(values@), *pos as int)),
            fields_read(data@, p0, fields@) matches Ok((vs, _)) ==> vs.len() == fields@.len()
                && forall|k: int| 0 <= k < fields@.len() ==> fits(fields@[k], #[trigger] vs[k]),
            p0 == *old(pos),
        decreases fields@.len() - i,
    {
        assert(fields@.take(i + 1).drop_last() == fields@.take(i as int));
        assert(fields@.take(i + 1).last() == fields@[i as int]);
        match read_field(data, pos, fields[i]) {
            Ok(v) => {
                let ghost before = values@;
                values.push(v);
                assert(values_view(values@) == values_view(before).push(value_view(v)));
            },
            Err(e) => {
                proof {
                    lemma_fields_read_error_stays(data@, p0, fields@, i + 1);
                }
                return Err(e);
            },
        }
        i = i + 1;
    }
    assert(fields@.take(i as int) == fields@);
    Ok(values)
}

/// The fields `fs` repeated `n` times.
pub open spec fn repeat(fs: Seq<Field>, n: nat) -> Seq<Field>
    decreases n,
{
    if n == 0 {
        Seq::empty()
    } else {
        repeat(fs, (n - 1) as nat) + fs
    }
}

/// The fields repeated `n` times are `n` times as many.
pub proof fn lemma_repeat_len(fs: Seq<Field>, n: nat)
    ensures
        repeat(fs, n).len() == n * fs.len(),
    decreases n,
{
    if n > 0 {
        let m = (n - 1) as nat;
        lemma_repeat_len(fs, m);
        assert(n * fs.len() == m * fs.len() + fs.len()) by (nonlinear_arith)
            requires
                n == m + 1,
        ;
        assert(repeat(fs, n) == repeat(fs, m) + fs);
        assert(repeat(fs, n).len() == repeat(fs, m).len() + fs.len());
    } else {
        assert(n * fs.len() == 0) by (nonlinear_arith)
            requires
                n == 0,
        ;
    }
}

/// Reading two field sequences one after the other is reading their concatenation.
pub proof fn lemma_fields_read_concat(d: Seq<u8>, p: int, a: Seq<Field>, b: Seq<Field>)
    ensures
        fields_read(d, p, a + b) == match fields_read(d, p, a) {
            Ok((va, q)) => match fields_read(d, q, b) {
                Ok((vb, e)) => Ok((va + vb, e)),
                Err(x) => Err(x),
            },
            Err(x) => Err(x),
        },
    decreases b.len(),
{
    if b.len() == 0 {
        assert(a + b == a);
        if let Ok((va, q)) = fields_read(d, p, a) {
            assert(va + Seq::<FieldValue>::empty() == va);
        }
    } else {
        assert((a + b).drop_last() == a + b.drop_last());
        assert((a + b).last() == b.last());
        lemma_fields_read_concat(d, p, a, b.drop_last());
        if let Ok((va, q)) = fields_read(d, p, a) {
            if let Ok((vb, e)) = fields_read(d, q, b.drop_last()) {
                if let Ok(v) = field_value(d, e, b.last()) {
                    assert((va + vb).push(v) == va + vb.push(v));
                }
            }
        }
    }
}

/// The values of record `i` among the values of records of `k` fields each.
pub open spec fn record(vs: Seq<FieldValue>, k: int, i: int) -> Seq<FieldValue> {
    vs.subrange(i * k, i * k + k)
}

/// Reads `n` records of the fields `fields` each, as reading the fields
/// repeated `n` times describes; record `i` holds the values of repetition `i`.
pub fn read_records(data: &[u8], pos: &mut u64, fields: &[Field], n: usize) -> (r: Result<Vec<Vec<Value>>, StreamError>)
    ensures
        match fields_read(data@, *old(pos) as int, repeat(fields@, n as nat)) {
            Ok((vs, e)) => r matches Ok(recs) && *final(pos) == e && recs@.len() == n
                && vs.len() == n * fields@.len()
                && forall|i: int| 0 <= i < n ==> {
                    &&& values_view(#[trigger] recs@[i]@) == record(vs, fields@.len() as int, i)
                    &&& recs@[i]@.len() == fields@.len()
                    &&& forall|k: int| 0 <= k < fields@.len() ==> fits(fields@[k], #[trigger] values_view(recs@[i]@)[k])
                },
            Err(e) => r == Err::<Vec<Vec<Value>>, StreamError>(e),
        },
{
    let ghost p0 = *pos as int;
    let ghost k = fields@.len() as int;
    let mut recs: Vec<Vec<Value>> = Vec::new();
    let ghost mut all: Seq<FieldValue> = Seq::empty();
    let mut i: usize = 0;
    assert(repeat(fields@, 0) == Seq::<Field>::empty());
    while i < n
        invariant
            i <= n,
            k == fields@.len(),
            p0 == *old(pos),
            fields_read(data@, p0, repeat(fields@, i as nat)) == Ok::<(Seq<FieldValue>, int), StreamError>((all, *pos as int)),
            recs@.len() == i,
            all.len() == i * k,
            forall|j: int| 0 <= j < i ==> {
                &&& values_view(#[trigger] recs@[j]@) == record(all, k, j)
                &&& recs@[j]@.len() == k
                &&& forall|m: int| 0 <= m < k ==> fits(fields@[m], #[trigger] values_view(recs@[j]@)[m])
            },
        decreases n - i,
    {
        proof {
            lemma_fields_read_concat(data@, p0, repeat(fields@, i as nat), fields@);
        }
        assert(repeat(fields@, (i + 1) as nat) == repeat(fields@, i as nat) + fields@);
        let ghost q = *pos as int;
        match read_fields(data, pos, fields) {
            Ok(v) => {
                let ghost before = all;
                proof {
                    all = all + values_view(v@);
                    assert((i + 1) * k == i * k + k) by (nonlinear_arith);
                    assert forall|j: int| 0 <= j < i implies record(all, k, j) == record(before, k, j) by {
                        assert(j * k + k <= i * k) by (nonlinear_arith)
                            requires
                                j < i,
                                k >= 0,
                        ;
                    }
                    assert(record(all, k, i as int) == values_view(v@));
                    assert(values_view(v@).len() == v@.len());
                }
                recs.push(v);
            },
            Err(e) => {
                proof {
                    lemma_repeat_error_stays(data@, p0, fields@, (i + 1) as nat, n as nat);
                }
                return Err(e);
            },
        }
        i = i + 1;
    }
    Ok(recs)
}

pub proof fn lemma_repeat_error_stays(d: Seq<u8>, p: int, fs: Seq<Field>, i: nat, n: nat)
    requires
        i <= n,
        fields_read(d, p, repeat(fs, i)) is Err,
    ensures
        fields_read(d, p, repeat(fs, n)) == fields_read(d, p, repeat(fs, i)),
    decreases n - i,
{
    if i < n {
        lemma_fields_read_concat(d, p, repeat(fs, i), fs);
        assert(repeat(fs, i + 1) == repeat(fs, i) + fs);
        lemma_repeat_error_stays(d, p, fs, i + 1, n);
    }
}

/// Appends the fields `fs` repeated `n` times.
pub fn push_repeat(v: &mut Vec<Field>, fs: &[Field], n: usize)
    ensures
        final(v)@ == old(v)@ + repeat(fs@, n as nat),
{
    let ghost start = v@;
    let mut i: usize = 0;
    assert(start + repeat(fs@, 0) == start);
    while i < n
        invariant
            i <= n,
            v@ == start + repeat(fs@, i as nat),
            start == old(v)@,
        decreases n - i,
    {
        let ghost before = v@;
        let mut k: usize = 0;
        while k < fs.len()
            invariant
                k <= fs@.len(),
                v@ == before + fs@.take(k as int),
            decreases fs@.len() - k,
        {
            v.push(fs[k]);
            k = k + 1;
            assert(v@ =~= before + fs@.take(k as int));
        }
        assert(fs@.take(fs@.len() as int) == fs@);
        i = i + 1;
        assert(v@ =~= start + repeat(fs@, i as nat));
    }
}

/// The integer at `k` of the values read.
pub fn num_at(vals: &Vec<Value>, k: usize) -> (r: i64)
    requires
        k < vals@.len(),
    ensures
        r == num(values_view(vals@), k as int),
{
    assert(values_view(vals@)[k as int] == value_view(vals@[k as int]));
    match &vals[k] {
        Value::Num(n) => *n,
        _ => 0,
    }
}

/// The text at `k` of the values read.
pub fn text_at(vals: &Vec<Value>, k: usize) -> (r: String)
    requires
        k < vals@.len(),
    ensures
        r@ == text(values_view(vals@), k as int),
{
    assert(values_view(vals@)[k as int] == value_view(vals@[k as int]));
    match &vals[k] {
        Value::Text(s) => s.clone(),
        _ => String::new(),
    }
}

} // verus!
