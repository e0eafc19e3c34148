//! Model of the protocol's value union and its lossy-but-deterministic
//! encoding into storage-document field values.

use crate::datetime::{datetime_text, spec_datetime_text};
use vstd::prelude::*;

verus! {

/// A localized text value: a locale marker and the text itself.
#[derive(Clone, Debug, PartialEq)]
pub struct LocalizedText {
    pub locale: String,
    pub text: String,
}

/// An array value: element values and, for multi-dimensional arrays, the
/// dimension sizes.
#[derive(Debug)]
pub struct ArrayValue {
    pub values: Vec<Variant>,
    pub dimensions: Option<Vec<u32>>,
}

/// The protocol value union. Floating-point values are carried as the bit
/// pattern of the 64-bit value they widen to, textual and binary values as
/// plain strings and byte vectors, timestamps as protocol tick counts, and
/// opaque identifiers as their sixteen raw bytes. Value kinds whose encoding
/// is unimplemented are collapsed into [`Variant::Unsupported`].
#[derive(Debug)]
pub enum Variant {
    Empty,
    Boolean(bool),
    SByte(i8),
    Byte(u8),
    Int16(i16),
    UInt16(u16),
    Int32(i32),
    UInt32(u32),
    Int64(i64),
    UInt64(u64),
    /// 32-bit float, already widened: the bits of the 64-bit value.
    Float(u64),
    /// 64-bit float: its bit pattern.
    Double(u64),
    /// Protocol string; the protocol distinguishes a null string from an
    /// empty one.
    Text(Option<String>),
    LocalizedText(LocalizedText),
    /// Ticks of 100 nanoseconds since 1601-01-01 00:00:00 UTC.
    DateTime(i64),
    Guid([u8; 16]),
    StatusCode(u32),
    /// Protocol byte string, nullable like [`Variant::Text`].
    ByteString(Option<Vec<u8>>),
    Array(Box<ArrayValue>),
    Unsupported,
}

/// Mathematical value of a [`Variant`].
pub enum VariantView {
    Empty,
    Boolean(bool),
    SByte(i8),
    Byte(u8),
    Int16(i16),
    UInt16(u16),
    Int32(i32),
    UInt32(u32),
    Int64(i64),
    UInt64(u64),
    Float(u64),
    Double(u64),
    Text(Option<Seq<char>>),
    LocalizedText { locale: Seq<char>, text: Seq<char> },
    DateTime(i64),
    Guid(Seq<u8>),
    StatusCode(u32),
    ByteString(Option<Seq<u8>>),
    Array { values: Seq<VariantView>, dimensions: Option<Seq<u32>> },
    Unsupported,
}

/// Mathematical value of a [`Variant`], structurally.
pub open spec fn variant_view(v: Variant) -> VariantView
    decreases v,
{
    match v {
        Variant::Empty => VariantView::Empty,
        Variant::Boolean(b) => VariantView::Boolean(b),
        Variant::SByte(n) => VariantView::SByte(n),
        Variant::Byte(n) => VariantView::Byte(n),
        Variant::Int16(n) => VariantView::Int16(n),
        Variant::UInt16(n) => VariantView::UInt16(n),
        Variant::Int32(n) => VariantView::Int32(n),
        Variant::UInt32(n) => VariantView::UInt32(n),
        Variant::Int64(n) => VariantView::Int64(n),
        Variant::UInt64(n) => VariantView::UInt64(n),
        Variant::Float(bits) => VariantView::Float(bits),
        Variant::Double(bits) => VariantView::Double(bits),
        Variant::Text(s) => VariantView::Text(
            match s {
                Some(s) => Some(s@),
                None => None,
            },
        ),
        Variant::LocalizedText(t) => VariantView::LocalizedText {
            locale: t.locale@,
            text: t.text@,
        },
        Variant::DateTime(ticks) => VariantView::DateTime(ticks),
        Variant::Guid(bytes) => VariantView::Guid(bytes@),
        Variant::StatusCode(bits) => VariantView::StatusCode(bits),
        Variant::ByteString(b) => VariantView::ByteString(
            match b {
                Some(b) => Some(b@),
                None => None,
            },
        ),
        Variant::Array(a) => VariantView::Array {
            values: variants_view(a.values@),
            dimensions: match a.dimensions {
                Some(d) => Some(d@),
                None => None,
            },
        },
        Variant::Unsupported => VariantView::Unsupported,
    }
}

/// Mathematical values of a sequence of [`Variant`]s, in order.
pub open spec fn variants_view(s: Seq<Variant>) -> Seq<VariantView>
    decreases s,
{
    if s.len() == 0 {
        Seq::empty()
    } else {
        variants_view(s.drop_last()).push(variant_view(s.last()))
    }
}

/// The view of a sequence of values has the same length, and its members are
/// the members' views.
pub proof fn lemma_variants_view_index(s: Seq<Variant>)
    ensures
        variants_view(s).len() == s.len(),
        forall|i: int|
            0 <= i < s.len() ==> #[trigger] variants_view(s)[i] == variant_view(s[i]),
    decreases s,
{
    if s.len() > 0 {
        lemma_variants_view_index(s.drop_last());
    }
}

impl View for Variant {
    type V = VariantView;

    open spec fn view(&self) -> VariantView {
        variant_view(*self)
    }
}

/// A storage-document field value.
#[derive(Debug)]
pub enum StorageValue {
    Null,
    Boolean(bool),
    Int32(i32),
    Int64(i64),
    /// 64-bit float: its bit pattern.
    Double(u64),
    Text(String),
    Binary(Vec<u8>),
    List(Vec<StorageValue>),
}

/// Mathematical value of a [`StorageValue`].
pub enum StorageValueView {
    Null,
    Boolean(bool),
    Int32(i32),
    Int64(i64),
    Double(u64),
    Text(Seq<char>),
    Binary(Seq<u8>),
    List(Seq<StorageValueView>),
}

/// Mathematical value of a [`StorageValue`], structurally.
pub open spec fn storage_value_view(v: StorageValue) -> StorageValueView
    decreases v,
{
    match v {
        StorageValue::Null => StorageValueView::Null,
        StorageValue::Boolean(b) => StorageValueView::Boolean(b),
        StorageValue::Int32(n) => StorageValueView::Int32(n),
        StorageValue::Int64(n) => StorageValueView::Int64(n),
        StorageValue::Double(bits) => StorageValueView::Double(bits),
        StorageValue::Text(s) => StorageValueView::Text(s@),
        StorageValue::Binary(b) => StorageValueView::Binary(b@),
        StorageValue::List(l) => StorageValueView::List(storage_values_view(l@)),
    }
}

/// Mathematical values of a sequence of [`StorageValue`]s, in order.
pub open spec fn storage_values_view(s: Seq<StorageValue>) -> Seq<StorageValueView>
    decreases s,
{
    if s.len() == 0 {
        Seq::empty()
    } else {
        storage_values_view(s.drop_last()).push(storage_value_view(s.last()))
    }
}

impl View for StorageValue {
    type V = StorageValueView;

    open spec fn view(&self) -> StorageValueView {
        storage_value_view(*self)
    }
}

/// Hexadecimal digit for a value below sixteen.
pub open spec fn spec_hex_char(n: int) -> char {
    if n == 0 {
        '0'
    } else if n == 1 {
        '1'
    } else if n == 2 {
        '2'
    } else if n == 3 {
        '3'
    } else if n == 4 {
        '4'
    } else if n == 5 {
        '5'
    } else if n == 6 {
        '6'
    } else if n == 7 {
        '7'
    } else if n == 8 {
        '8'
    } else if n == 9 {
        '9'
    } else if n == 10 {
        'a'
    } else if n == 11 {
        'b'
    } else if n == 12 {
        'c'
    } else if n == 13 {
        'd'
    } else if n == 14 {
        'e'
    } else {
        'f'
    }
}

/// Two lowercase hexadecimal digits of a byte.
pub open spec fn spec_byte_hex(b: int) -> Seq<char> {
    seq![spec_hex_char(b / 16), spec_hex_char(b % 16)]
}

/// The hyphen put before the byte at this position of a canonically rendered
/// opaque identifier, if any: groups of 4, 2, 2, 2 and 6 bytes.
pub open spec fn spec_guid_sep(i: int) -> Seq<char> {
    if i == 4 || i == 6 || i == 8 || i == 10 {
        seq!['-']
    } else {
        Seq::empty()
    }
}

/// Canonical text of the first `n` bytes of an opaque identifier.
pub open spec fn spec_guid_prefix(bytes: Seq<u8>, n: int) -> Seq<char>
    decreases n,
{
    if n <= 0 {
        Seq::empty()
    } else {
        spec_guid_prefix(bytes, n - 1) + spec_guid_sep(n - 1) + spec_byte_hex(bytes[n - 1] as int)
    }
}

/// Canonical, hyphenated, lowercase hexadecimal text of an opaque identifier.
pub open spec fn spec_guid_text(bytes: Seq<u8>) -> Seq<char> {
    spec_guid_prefix(bytes, 16)
}

/// One lowercase hexadecimal digit as text.
fn hex_str(n: u8) -> (r: &'static str)
    requires
        n < 16,
    ensures
        r@ == seq![spec_hex_char(n as int)],
{
    proof {
        reveal_strlit("0");
        reveal_strlit("1");
        reveal_strlit("2");
        reveal_strlit("3");
        reveal_strlit("4");
        reveal_strlit("5");
        reveal_strlit("6");
        reveal_strlit("7");
        reveal_strlit("8");
        reveal_strlit("9");
        reveal_strlit("a");
        reveal_strlit("b");
        reveal_strlit("c");
        reveal_strlit("d");
        reveal_strlit("e");
        reveal_strlit("f");
    }
    match n {
        0 => "0",
        1 => "1",
        2 => "2",
        3 => "3",
        4 => "4",
        5 => "5",
        6 => "6",
        7 => "7",
        8 => "8",
        9 => "9",
        10 => "a",
        11 => "b",
        12 => "c",
        13 => "d",
        14 => "e",
        _ => "f",
    }
}

/// Renders an opaque identifier in its canonical text form.
pub fn guid_text(bytes: &[u8; 16]) -> (r: String)
    ensures
        r@ == spec_guid_text(bytes@),
{
    let mut out = String::new();
    let mut i: usize = 0;
    while i < 16
        invariant
            i <= 16,
            out@ == spec_guid_prefix(bytes@, i as int),
        decreases 16 - i,
    {
        if i == 4 || i == 6 || i == 8 || i == 10 {
            proof {
                reveal_strlit("-");
            }
            out.append("-");
        }
        let b = bytes[i];
        out.append(hex_str(b / 16));
        out.append(hex_str(b % 16));
        i += 1;
    }
    out
}

/// The storage field value that a protocol value encodes to. Total over the
/// whole union and a function of the value alone; unsigned 64-bit values
/// beyond the signed range and multi-dimensional arrays deliberately lose
/// their content and become null.
pub open spec fn encode_spec(v: VariantView) -> StorageValueView
    decreases v,
{
    match v {
        VariantView::Empty => StorageValueView::Null,
        VariantView::Boolean(b) => StorageValueView::Boolean(b),
        VariantView::SByte(n) => StorageValueView::Int32(n as i32),
        VariantView::Byte(n) => StorageValueView::Int32(n as i32),
        VariantView::Int16(n) => StorageValueView::Int32(n as i32),
        VariantView::UInt16(n) => StorageValueView::Int32(n as i32),
        VariantView::Int32(n) => StorageValueView::Int32(n),
        VariantView::UInt32(n) => StorageValueView::Int64(n as i64),
        VariantView::Int64(n) => StorageValueView::Int64(n),
        VariantView::UInt64(n) => if n <= i64::MAX as u64 {
            StorageValueView::Int64(n as i64)
        } else {
            StorageValueView::Null
        },
        VariantView::Float(bits) => StorageValueView::Double(bits),
        VariantView::Double(bits) => StorageValueView::Double(bits),
        VariantView::Text(s) => StorageValueView::Text(
            match s {
                Some(s) => s,
                None => Seq::empty(),
            },
        ),
        VariantView::LocalizedText { locale: _, text } => StorageValueView::Text(text),
        VariantView::DateTime(ticks) => StorageValueView::Text(spec_datetime_text(ticks as int)),
        VariantView::Guid(bytes) => StorageValueView::Text(spec_guid_text(bytes)),
        VariantView::StatusCode(bits) => StorageValueView::Int64(bits as i64),
        VariantView::ByteString(b) => StorageValueView::Binary(
            match b {
                Some(b) => b,
                None => Seq::empty(),
            },
        ),
        VariantView::Array { values, dimensions } => if dimensions matches Some(d) && d.len()
            > 0 {
            StorageValueView::Null
        } else {
            StorageValueView::List(encode_all_spec(values))
        },
        VariantView::Unsupported => StorageValueView::Null,
    }
}

/// Element-wise encoding of an array's values, in order.
pub open spec fn encode_all_spec(s: Seq<VariantView>) -> Seq<StorageValueView>
    decreases s,
{
    if s.len() == 0 {
        Seq::empty()
    } else {
        encode_all_spec(s.drop_last()).push(encode_spec(s.last()))
    }
}

/// The view of a sequence of values has the same length, and its members are
/// the members' views.
pub proof fn lemma_storage_values_view_index(s: Seq<StorageValue>)
    ensures
        storage_values_view(s).len() == s.len(),
        forall|i: int|
            0 <= i < s.len() ==> #[trigger] storage_values_view(s)[i] == storage_value_view(s[i]),
    decreases s,
{
    if s.len() > 0 {
        lemma_storage_values_view_index(s.drop_last());
    }
}

/// Copies a byte vector.
fn clone_bytes(v: &Vec<u8>) -> (r: Vec<u8>)
    ensures
        r@ == v@,
{
    let mut r: Vec<u8> = Vec::new();
    let mut i: usize = 0;
    while i < v.len()
        invariant
            i <= v.len(),
            r@ == v@.take(i as int),
        decreases v.len() - i,
    {
        r.push(v[i]);
        proof {
            assert(v@.take(i as int + 1) =~= v@.take(i as int).push(v@[i as int]));
        }
        i += 1;
    }
    proof {
        assert(v@.take(v@.len() as int) =~= v@);
    }
    r
}

/// Decides equality of two byte vectors.
fn bytes_eq(a: &Vec<u8>, b: &Vec<u8>) -> (r: bool)
    ensures
        r == (a@ == b@),
{
    if a.len() != b.len() {
        return false;
    }
    let mut i: usize = 0;
    while i < a.len()
        invariant
            i <= a.len(),
            a.len() == b.len(),
            forall|j: int| 0 <= j < i ==> a@[j] == b@[j],
        decreases a.len() - i,
    {
        if a[i] != b[i] {
            return false;
        }
        i += 1;
    }
    proof {
        assert(a@ =~= b@);
    }
    true
}

/// Decides whether two storage values have the same mathematical value.
pub fn storage_value_eq(a: &StorageValue, b: &StorageValue) -> (r: bool)
    ensures
        r == (a@ == b@),
    decreases *a,
{
    match (a, b) {
        (StorageValue::Null, StorageValue::Null) => true,
        (StorageValue::Boolean(x), StorageValue::Boolean(y)) => *x == *y,
        (StorageValue::Int32(x), StorageValue::Int32(y)) => *x == *y,
        (StorageValue::Int64(x), StorageValue::Int64(y)) => *x == *y,
        (StorageValue::Double(x), StorageValue::Double(y)) => *x == *y,
        (StorageValue::Text(x), StorageValue::Text(y)) => *x == *y,
        (StorageValue::Binary(x), StorageValue::Binary(y)) => bytes_eq(x, y),
        (StorageValue::List(x), StorageValue::List(y)) => storage_values_eq(x, y),
        _ => {
            proof {
                assert(a@ != b@);
            }
            false
        },
    }
}

/// Decides whether two lists of storage values have the same mathematical
/// value, member for member.
pub fn storage_values_eq(a: &Vec<StorageValue>, b: &Vec<StorageValue>) -> (r: bool)
    ensures
        r == (storage_values_view(a@) == storage_values_view(b@)),
    decreases a@,
{
    proof {
        lemma_storage_values_view_index(a@);
        lemma_storage_values_view_index(b@);
    }
    if a.len() != b.len() {
        return false;
    }
    let mut i: usize = 0;
    while i < a.len()
        invariant
            i <= a.len(),
            a.len() == b.len(),
            forall|j: int|
                0 <= j < i ==> #[trigger] storage_value_view(a@[j]) == storage_value_view(b@[j]),
        decreases a.len() - i,
    {
        if !storage_value_eq(&a[i], &b[i]) {
            proof {
                lemma_storage_values_view_index(a@);
                lemma_storage_values_view_index(b@);
                assert(storage_values_view(a@)[i as int] != storage_values_view(b@)[i as int]);
            }
            return false;
        }
        i += 1;
    }
    proof {
        lemma_storage_values_view_index(a@);
        lemma_storage_values_view_index(b@);
        assert(storage_values_view(a@) =~= storage_values_view(b@));
    }
    true
}

/// The two documented lossy cases of the encoding: an unsigned 64-bit value
/// beyond the signed range becomes null rather than an error, and a
/// multi-dimensional array becomes null rather than a flattened list.
pub proof fn lemma_encode_lossy_cases(v: VariantView)
    ensures
        v matches VariantView::UInt64(n) && n > i64::MAX ==> encode_spec(v)
            is Null,
        (v matches VariantView::Array { values: _, dimensions } && dimensions matches Some(d)
            && d.len() > 0) ==> encode_spec(v) is Null,
{
}

/// Appending a value appends its mathematical value to the sequence view.
proof fn lemma_storage_values_view_push(s: Seq<StorageValue>, x: StorageValue)
    ensures
        storage_values_view(s.push(x)) == storage_values_view(s).push(storage_value_view(x)),
{
    assert(s.push(x).drop_last() =~= s);
    assert(s.push(x).last() == x);
}

/// Appending a value appends its mathematical value to the sequence view.
proof fn lemma_variants_view_push(s: Seq<Variant>, x: Variant)
    ensures
        variants_view(s.push(x)) == variants_view(s).push(variant_view(x)),
{
    assert(s.push(x).drop_last() =~= s);
    assert(s.push(x).last() == x);
}

/// Encoding distributes over appending an element.
proof fn lemma_encode_all_push(s: Seq<VariantView>, x: VariantView)
    ensures
        encode_all_spec(s.push(x)) == encode_all_spec(s).push(encode_spec(x)),
{
    assert(s.push(x).drop_last() =~= s);
    assert(s.push(x).last() == x);
}

/// Encodes a protocol value into the storage field value it is recorded as.
pub fn encode(value: &Variant) -> (r: StorageValue)
    ensures
        r@ == encode_spec(value@),
    decreases *value,
{
    match value {
        Variant::Empty => StorageValue::Null,
        Variant::Boolean(b) => StorageValue::Boolean(*b),
        Variant::SByte(n) => StorageValue::Int32(*n as i32),
        Variant::Byte(n) => StorageValue::Int32(*n as i32),
        Variant::Int16(n) => StorageValue::Int32(*n as i32),
        Variant::UInt16(n) => StorageValue::Int32(*n as i32),
        Variant::Int32(n) => StorageValue::Int32(*n),
        Variant::UInt32(n) => StorageValue::Int64(*n as i64),
        Variant::Int64(n) => StorageValue::Int64(*n),
        Variant::UInt64(n) => {
            if *n <= i64::MAX as u64 {
                StorageValue::Int64(*n as i64)
            } else {
                StorageValue::Null
            }
        },
        Variant::Float(bits) => StorageValue::Double(*bits),
        Variant::Double(bits) => StorageValue::Double(*bits),
        Variant::Text(s) => {
            match s {
                Some(s) => StorageValue::Text(s.clone()),
                None => StorageValue::Text(String::new()),
            }
        },
        Variant::LocalizedText(t) => StorageValue::Text(t.text.clone()),
        Variant::DateTime(ticks) => StorageValue::Text(datetime_text(*ticks)),
        Variant::Guid(bytes) => StorageValue::Text(guid_text(bytes)),
        Variant::StatusCode(bits) => StorageValue::Int64(*bits as i64),
        Variant::ByteString(b) => {
            match b {
                Some(b) => StorageValue::Binary(clone_bytes(b)),
                None => StorageValue::Binary(Vec::new()),
            }
        },
        Variant::Array(a) => {
            let multi_dimensional = match &a.dimensions {
                Some(d) => d.len() > 0,
                None => false,
            };
            if multi_dimensional {
                StorageValue::Null
            } else {
                let mut out: Vec<StorageValue> = Vec::new();
                let mut i: usize = 0;
                while i < a.values.len()
                    invariant
                        i <= a.values.len(),
                        (*value) is Array,
                        *a == (*value)->Array_0,
                        storage_values_view(out@) == encode_all_spec(
                            variants_view(a.values@.take(i as int)),
                        ),
                    decreases a.values.len() - i,
                {
                    proof {
                        assert(decreases_to!(*value => (*value)->Array_0));
                        assert(decreases_to!((*value)->Array_0 => (*value)->Array_0.values@[i as int]));
                    }
                    let encoded = encode(&a.values[i]);
                    proof {
                        lemma_storage_values_view_push(out@, encoded);
                        assert(a.values@.take(i as int + 1) =~= a.values@.take(i as int).push(
                        a.values@[i as int]));
                        lemma_variants_view_push(a.values@.take(i as int), a.values@[i as int]);
                        lemma_encode_all_push(
                            variants_view(a.values@.take(i as int)),
                            variant_view(a.values@[i as int]),
                        );
                    }
                    out.push(encoded);
                    i += 1;
                }
                proof {
                    assert(a.values@.take(a.values@.len() as int) =~= a.values@);
                }
                StorageValue::List(out)
            }
        },
        Variant::Unsupported => StorageValue::Null,
    }
}

} // verus!
