use vstd::prelude::*;

use crate::types::{Extraction, ParamKind, StorageType};

verus! {

/// One declared event parameter, as the ABI states it.
#[derive(Debug, Clone)]
pub struct ParamDecl {
    pub name: String,
    /// The Solidity type name, e.g. `uint256`.
    pub kind: String,
    pub indexed: bool,
}

/// One declared event.
#[derive(Debug, Clone)]
pub struct EventDecl {
    pub name: String,
    pub inputs: Vec<ParamDecl>,
    pub anonymous: bool,
}

/// A fatal error of generation.
#[derive(Debug, Clone, PartialEq, Eq)]
pub enum GenerationError {
    /// The ABI file could not be opened or read; holds its path.
    File(String),
    /// The ABI text is not a valid ABI document; holds the parser's message.
    Parse(String),
    /// A parameter's Solidity type is outside the type table; holds the type.
    UnsupportedType(String),
}

/// One field of a generated record.
#[derive(Debug, Clone)]
pub struct FieldSpec {
    /// The declared parameter name that the field is filled from.
    pub param_name: String,
    /// The snake-case field name.
    pub field_name: String,
    pub storage: StorageType,
    pub extraction: Extraction,
}

/// One parameter of the event descriptor that logs are decoded against.
#[derive(Debug, Clone)]
pub struct ParamSpec {
    pub name: String,
    pub kind: ParamKind,
    pub indexed: bool,
}

/// A value as the ABI decoder hands it out.
#[derive(Debug)]
pub enum AbiValue {
    Address([u8; 20]),
    FixedBytes(Vec<u8>),
    Int([u8; 32]),
    Uint([u8; 32]),
    Bool(bool),
    Str(String),
    Array(Vec<AbiValue>),
    /// Any other kind of value (dynamic bytes, fixed arrays, tuples).
    Other,
}

/// One named value of a decoded log.
#[derive(Debug)]
pub struct DecodedParam {
    pub name: String,
    pub value: AbiValue,
}

/// A raw log: its topics and its data blob.
#[derive(Debug, Clone)]
pub struct RawLog {
    pub topics: Vec<[u8; 32]>,
    pub data: Vec<u8>,
}

/// The value of one record field; integers are 32-byte big-endian words.
#[derive(Debug, Clone, PartialEq, Eq)]
pub enum FieldValue {
    Text(String),
    Boolean(bool),
    Address([u8; 20]),
    Word([u8; 32]),
    Bytes(Vec<u8>),
    Words(Vec<[u8; 32]>),
}

/// The mathematical value of a record field.
pub enum FieldModel {
    Text(Seq<char>),
    Boolean(bool),
    Address(Seq<u8>),
    Word(Seq<u8>),
    Bytes(Seq<u8>),
    Words(Seq<Seq<u8>>),
}

impl View for FieldValue {
    type V = FieldModel;

    open spec fn view(&self) -> FieldModel {
        match self {
            FieldValue::Text(s) => FieldModel::Text(s@),
            FieldValue::Boolean(b) => FieldModel::Boolean(*b),
            FieldValue::Address(a) => FieldModel::Address(a@),
            FieldValue::Word(w) => FieldModel::Word(w@),
            FieldValue::Bytes(b) => FieldModel::Bytes(b@),
            FieldValue::Words(ws) => FieldModel::Words(ws@.map_values(|w: [u8; 32]| w@)),
        }
    }
}

pub open spec fn zero_bytes(n: nat) -> Seq<u8> {
    Seq::new(n, |i: int| 0u8)
}

/// An element of an unsigned list: its word, or zero where it is no unsigned integer.
pub open spec fn uint_or_zero(v: AbiValue) -> Seq<u8> {
    match v {
        AbiValue::Uint(w) => w@,
        _ => zero_bytes(32),
    }
}

/// The leading bytes of a 32-byte big-endian word that lie above a width of
/// `bits` bits (the widths of the type table are whole bytes).
pub open spec fn lead_bytes(bits: u16) -> int {
    if bits >= 256 {
        0
    } else {
        32 - bits as int / 8
    }
}

/// The word, read as an unsigned integer, fits in `bits` bits.
pub open spec fn fits_unsigned(w: Seq<u8>, bits: u16) -> bool {
    forall|i: int| 0 <= i < lead_bytes(bits) ==> w[i] == 0
}

/// The word, read as a two's complement integer, fits in `bits` bits: the
/// bytes above the width repeat the sign of the highest byte within it.
pub open spec fn fits_signed(w: Seq<u8>, bits: u16) -> bool {
    let k = lead_bytes(bits);
    if k == 0 {
        true
    } else if k >= 32 {
        forall|i: int| 0 <= i < 32 ==> w[i] == 0
    } else {
        let fill: u8 = if w[k] >= 128 { 255 } else { 0 };
        forall|i: int| 0 <= i < k ==> w[i] == fill
    }
}

/// What an extraction rule makes of a decoded value: the value where its kind
/// fits the rule, else the zero value of the rule's type.
pub open spec fn extract_spec(rule: Extraction, v: AbiValue) -> FieldModel {
    match rule {
        Extraction::Text => match v {
            AbiValue::Str(s) => FieldModel::Text(s@),
            _ => FieldModel::Text(Seq::empty()),
        },
        Extraction::Boolean => match v {
            AbiValue::Bool(b) => FieldModel::Boolean(b),
            _ => FieldModel::Boolean(false),
        },
        Extraction::Address => match v {
            AbiValue::Address(a) => FieldModel::Address(a@),
            _ => FieldModel::Address(zero_bytes(20)),
        },
        Extraction::Unsigned(bits) => match v {
            AbiValue::Uint(w) if fits_unsigned(w@, bits) => FieldModel::Word(w@),
            _ => FieldModel::Word(zero_bytes(32)),
        },
        Extraction::Signed(bits) => match v {
            AbiValue::Int(w) if fits_signed(w@, bits) => FieldModel::Word(w@),
            _ => FieldModel::Word(zero_bytes(32)),
        },
        Extraction::FixedBytes(n) => match v {
            AbiValue::FixedBytes(b) if b@.len() == n => FieldModel::Bytes(b@),
            _ => FieldModel::Bytes(Seq::empty()),
        },
        Extraction::UnsignedList => match v {
            AbiValue::Array(vs) => FieldModel::Words(vs@.map_values(|x: AbiValue| uint_or_zero(x))),
            _ => FieldModel::Words(Seq::empty()),
        },
    }
}

/// The zero value of a rule's type: what a field holds when no parameter fills it.
pub open spec fn default_of(rule: Extraction) -> FieldModel {
    extract_spec(rule, AbiValue::Other)
}

/// A field's value after a log's parameters are applied in order: the last
/// parameter of the field's name decides; with none, the zero value.
pub open spec fn field_value(f: FieldSpec, d: Seq<DecodedParam>) -> FieldModel
    decreases d.len(),
{
    if d.len() == 0 {
        default_of(f.extraction)
    } else if d.last().name@ == f.param_name@ {
        extract_spec(f.extraction, d.last().value)
    } else {
        field_value(f, d.drop_last())
    }
}

/// `r` is the record that `fields` make of the decoded parameters `d`.
pub open spec fn is_record_of(r: Seq<FieldValue>, fields: Seq<FieldSpec>, d: Seq<DecodedParam>) -> bool {
    &&& r.len() == fields.len()
    &&& forall|i: int| 0 <= i < r.len() ==> #[trigger] r[i]@ == field_value(fields[i], d)
}

/// The zero word.
fn zero_word() -> (r: [u8; 32])
    ensures
        r@ == zero_bytes(32),
{
    let r = [0u8; 32];
    assert(r@ =~= zero_bytes(32));
    r
}

fn lead_bytes_of(bits: u16) -> (r: usize)
    ensures
        r == lead_bytes(bits),
        r <= 32,
{
    if bits >= 256 {
        0
    } else {
        32 - (bits / 8) as usize
    }
}

/// Whether the word fits in `bits` bits as an unsigned integer.
fn word_fits_unsigned(w: &[u8; 32], bits: u16) -> (r: bool)
    ensures
        r == fits_unsigned(w@, bits),
{
    let k = lead_bytes_of(bits);
    let mut i: usize = 0;
    while i < k
        invariant
            k == lead_bytes(bits),
            k <= 32,
            i <= k,
            w@.len() == 32,
            forall|j: int| 0 <= j < i ==> w@[j] == 0,
        decreases k - i,
    {
        if w[i] != 0 {
            return false;
        }
        i = i + 1;
    }
    true
}

/// Whether the word fits in `bits` bits as a two's complement integer.
fn word_fits_signed(w: &[u8; 32], bits: u16) -> (r: bool)
    ensures
        r == fits_signed(w@, bits),
{
    let k = lead_bytes_of(bits);
    if k == 0 {
        return true;
    }
    let fill: u8 = if k >= 32 {
        0
    } else if w[k] >= 128 {
        255
    } else {
        0
    };
    let mut i: usize = 0;
    while i < k
        invariant
            k == lead_bytes(bits),
            0 < k <= 32,
            i <= k,
            w@.len() == 32,
            fill == (if k >= 32 { 0u8 } else if w@[k as int] >= 128 { 255u8 } else { 0u8 }),
            forall|j: int| 0 <= j < i ==> w@[j] == fill,
        decreases k - i,
    {
        if w[i] != fill {
            return false;
        }
        i = i + 1;
    }
    true
}

/// Applies an extraction rule to a decoded value.
pub fn extract(rule: Extraction, v: &AbiValue) -> (r: FieldValue)
    ensures
        r@ == extract_spec(rule, *v),
{
    match rule {
        Extraction::Text => match v {
            AbiValue::Str(s) => FieldValue::Text(s.clone()),
            _ => FieldValue::Text(String::new()),
        },
        Extraction::Boolean => match v {
            AbiValue::Bool(b) => FieldValue::Boolean(*b),
            _ => FieldValue::Boolean(false),
        },
        Extraction::Address => match v {
            AbiValue::Address(a) => FieldValue::Address(*a),
            _ => {
                let a = [0u8; 20];
                assert(a@ =~= zero_bytes(20));
                FieldValue::Address(a)
            },
        },
        Extraction::Unsigned(bits) => match v {
            AbiValue::Uint(w) if word_fits_unsigned(w, bits) => FieldValue::Word(*w),
            _ => FieldValue::Word(zero_word()),
        },
        Extraction::Signed(bits) => match v {
            AbiValue::Int(w) if word_fits_signed(w, bits) => FieldValue::Word(*w),
            _ => FieldValue::Word(zero_word()),
        },
        Extraction::FixedBytes(n) => match v {
            AbiValue::FixedBytes(b) if b.len() == n as usize => FieldValue::Bytes(b.clone()),
            _ => FieldValue::Bytes(Vec::new()),
        },
        Extraction::UnsignedList => match v {
            AbiValue::Array(vs) => {
                let mut ws: Vec<[u8; 32]> = Vec::new();
                let mut i: usize = 0;
                while i < vs.len()
                    invariant
                        i <= vs.len(),
                        ws@.len() == i,
                        forall|k: int| 0 <= k < i ==> #[trigger] ws@[k]@ == uint_or_zero(vs@[k]),
                    decreases vs.len() - i,
                {
                    let w = match &vs[i] {
                        AbiValue::Uint(w) => *w,
                        _ => zero_word(),
                    };
                    ws.push(w);
                    i = i + 1;
                }
                assert(ws@.map_values(|w: [u8; 32]| w@) =~= vs@.map_values(
                    |x: AbiValue| uint_or_zero(x),
                ));
                FieldValue::Words(ws)
            },
            _ => {
                let ws: Vec<[u8; 32]> = Vec::new();
                assert(ws@.map_values(|w: [u8; 32]| w@) =~= Seq::<Seq<u8>>::empty());
                FieldValue::Words(ws)
            },
        },
    }
}

/// The value of one field: the last decoded parameter of its name, extracted
/// by its rule, or the zero value where none has that name.
pub fn fill_field(f: &FieldSpec, decoded: &Vec<DecodedParam>) -> (r: FieldValue)
    ensures
        r@ == field_value(*f, decoded@),
{
    let mut j: usize = decoded.len();
    assert(decoded@.take(j as int) =~= decoded@);
    while j > 0
        invariant
            j <= decoded.len(),
            field_value(*f, decoded@) == field_value(*f, decoded@.take(j as int)),
        decreases j,
    {
        assert(decoded@.take(j as int).drop_last() =~= decoded@.take(j - 1));
        if decoded[j - 1].name == f.param_name {
            return extract(f.extraction, &decoded[j - 1].value);
        }
        j = j - 1;
    }
    extract(f.extraction, &AbiValue::Other)
}

/// Builds a record from a decoded log: each field takes the decoded parameter
/// of its name; parameters that no field names are ignored.
pub fn fill_record(fields: &Vec<FieldSpec>, decoded: &Vec<DecodedParam>) -> (r: Vec<FieldValue>)
    ensures
        is_record_of(r@, fields@, decoded@),
{
    let mut r: Vec<FieldValue> = Vec::new();
    let mut i: usize = 0;
    while i < fields.len()
        invariant
            i <= fields.len(),
            r@.len() == i,
            forall|k: int| 0 <= k < i ==> #[trigger] r@[k]@ == field_value(fields@[k], decoded@),
        decreases fields.len() - i,
    {
        let v = fill_field(&fields[i], decoded);
        r.push(v);
        i = i + 1;
    }
    r
}

} // verus!
