use vstd::prelude::*;

verus! {

/// The host type that stores a decoded parameter.
#[derive(Debug, Clone, Copy, PartialEq, Eq)]
pub enum StorageType {
    Text,
    Boolean,
    Address,
    U256,
    U128,
    U64,
    U32,
    U8,
    I256,
    I128,
    I64,
    I32,
    I8,
    Bytes,
    U256List,
}

/// The ABI descriptor that a parameter is decoded against.
#[derive(Debug, Clone, Copy, PartialEq, Eq)]
pub enum ParamKind {
    Str,
    Bool,
    Address,
    Uint(u16),
    Int(u16),
    FixedBytes(u16),
    /// An array whose elements are unsigned integers of the given width.
    UintArray(u16),
}

/// How a field's value is taken out of a decoded ABI value.
#[derive(Debug, Clone, Copy, PartialEq, Eq)]
pub enum Extraction {
    Text,
    Boolean,
    Address,
    /// An unsigned integer of the given width in bits.
    Unsigned(u16),
    /// A signed integer of the given width in bits.
    Signed(u16),
    /// A byte sequence of the given length.
    FixedBytes(u16),
    UnsignedList,
}

/// One row of the type table.
#[derive(Debug, Clone, Copy, PartialEq, Eq)]
pub struct TypeMapping {
    pub storage: StorageType,
    pub descriptor: ParamKind,
    pub extraction: Extraction,
}

/// The Solidity types that the table knows.
pub open spec fn is_supported(t: Seq<char>) -> bool {
    t == "string"@ || t == "bool"@ || t == "address"@ || t == "uint256"@ || t == "uint128"@
        || t == "uint64"@ || t == "uint32"@ || t == "uint8"@ || t == "int256"@ || t == "int128"@
        || t == "int64"@ || t == "int32"@ || t == "int8"@ || t == "bytes32"@ || t == "uint256[]"@
}

pub open spec fn storage_of(t: Seq<char>) -> Option<StorageType> {
    if t == "string"@ {
        Some(StorageType::Text)
    } else if t == "bool"@ {
        Some(StorageType::Boolean)
    } else if t == "address"@ {
        Some(StorageType::Address)
    } else if t == "uint256"@ {
        Some(StorageType::U256)
    } else if t == "uint128"@ {
        Some(StorageType::U128)
    } else if t == "uint64"@ {
        Some(StorageType::U64)
    } else if t == "uint32"@ {
        Some(StorageType::U32)
    } else if t == "uint8"@ {
        Some(StorageType::U8)
    } else if t == "int256"@ {
        Some(StorageType::I256)
    } else if t == "int128"@ {
        Some(StorageType::I128)
    } else if t == "int64"@ {
        Some(StorageType::I64)
    } else if t == "int32"@ {
        Some(StorageType::I32)
    } else if t == "int8"@ {
        Some(StorageType::I8)
    } else if t == "bytes32"@ {
        Some(StorageType::Bytes)
    } else if t == "uint256[]"@ {
        Some(StorageType::U256List)
    } else {
        None
    }
}

pub open spec fn descriptor_of(t: Seq<char>) -> Option<ParamKind> {
    if t == "string"@ {
        Some(ParamKind::Str)
    } else if t == "bool"@ {
        Some(ParamKind::Bool)
    } else if t == "address"@ {
        Some(ParamKind::Address)
    } else if t == "uint256"@ {
        Some(ParamKind::Uint(256))
    } else if t == "uint128"@ {
        Some(ParamKind::Uint(128))
    } else if t == "uint64"@ {
        Some(ParamKind::Uint(64))
    } else if t == "uint32"@ {
        Some(ParamKind::Uint(32))
    } else if t == "uint8"@ {
        Some(ParamKind::Uint(8))
    } else if t == "int256"@ {
        Some(ParamKind::Int(256))
    } else if t == "int128"@ {
        Some(ParamKind::Int(128))
    } else if t == "int64"@ {
        Some(ParamKind::Int(64))
    } else if t == "int32"@ {
        Some(ParamKind::Int(32))
    } else if t == "int8"@ {
        Some(ParamKind::Int(8))
    } else if t == "bytes32"@ {
        Some(ParamKind::FixedBytes(32))
    } else if t == "uint256[]"@ {
        Some(ParamKind::UintArray(256))
    } else {
        None
    }
}

pub open spec fn extraction_of(t: Seq<char>) -> Option<Extraction> {
    if t == "string"@ {
        Some(Extraction::Text)
    } else if t == "bool"@ {
        Some(Extraction::Boolean)
    } else if t == "address"@ {
        Some(Extraction::Address)
    } else if t == "uint256"@ {
        Some(Extraction::Unsigned(256))
    } else if t == "uint128"@ {
        Some(Extraction::Unsigned(128))
    } else if t == "uint64"@ {
        Some(Extraction::Unsigned(64))
    } else if t == "uint32"@ {
        Some(Extraction::Unsigned(32))
    } else if t == "uint8"@ {
        Some(Extraction::Unsigned(8))
    } else if t == "int256"@ {
        Some(Extraction::Signed(256))
    } else if t == "int128"@ {
        Some(Extraction::Signed(128))
    } else if t == "int64"@ {
        Some(Extraction::Signed(64))
    } else if t == "int32"@ {
        Some(Extraction::Signed(32))
    } else if t == "int8"@ {
        Some(Extraction::Signed(8))
    } else if t == "bytes32"@ {
        Some(Extraction::FixedBytes(32))
    } else if t == "uint256[]"@ {
        Some(Extraction::UnsignedList)
    } else {
        None
    }
}

/// The whole row for `t`, or `None` where `t` is outside the table.
pub open spec fn mapping_spec(t: Seq<char>) -> Option<TypeMapping> {
    if is_supported(t) {
        Some(
            TypeMapping {
                storage: storage_of(t).unwrap(),
                descriptor: descriptor_of(t).unwrap(),
                extraction: extraction_of(t).unwrap(),
            },
        )
    } else {
        None
    }
}

/// The host storage type of a Solidity type.
pub fn solidity_to_rust_type(t: &String) -> (r: Option<StorageType>)
    ensures
        r == storage_of(t@),
{
    if *t == String::from_str("string") {
        Some(StorageType::Text)
    } else if *t == String::from_str("bool") {
        Some(StorageType::Boolean)
    } else if *t == String::from_str("address") {
        Some(StorageType::Address)
    } else if *t == String::from_str("uint256") {
        Some(StorageType::U256)
    } else if *t == String::from_str("uint128") {
        Some(StorageType::U128)
    } else if *t == String::from_str("uint64") {
        Some(StorageType::U64)
    } else if *t == String::from_str("uint32") {
        Some(StorageType::U32)
    } else if *t == String::from_str("uint8") {
        Some(StorageType::U8)
    } else if *t == String::from_str("int256") {
        Some(StorageType::I256)
    } else if *t == String::from_str("int128") {
        Some(StorageType::I128)
    } else if *t == String::from_str("int64") {
        Some(StorageType::I64)
    } else if *t == String::from_str("int32") {
        Some(StorageType::I32)
    } else if *t == String::from_str("int8") {
        Some(StorageType::I8)
    } else if *t == String::from_str("bytes32") {
        Some(StorageType::Bytes)
    } else if *t == String::from_str("uint256[]") {
        Some(StorageType::U256List)
    } else {
        None
    }
}

/// The ABI descriptor of a Solidity type.
pub fn solidity_to_event_param_type(t: &String) -> (r: Option<ParamKind>)
    ensures
        r == descriptor_of(t@),
{
    if *t == String::from_str("string") {
        Some(ParamKind::Str)
    } else if *t == String::from_str("bool") {
        Some(ParamKind::Bool)
    } else if *t == String::from_str("address") {
        Some(ParamKind::Address)
    } else if *t == String::from_str("uint256") {
        Some(ParamKind::Uint(256))
    } else if *t == String::from_str("uint128") {
        Some(ParamKind::Uint(128))
    } else if *t == String::from_str("uint64") {
        Some(ParamKind::Uint(64))
    } else if *t == String::from_str("uint32") {
        Some(ParamKind::Uint(32))
    } else if *t == String::from_str("uint8") {
        Some(ParamKind::Uint(8))
    } else if *t == String::from_str("int256") {
        Some(ParamKind::Int(256))
    } else if *t == String::from_str("int128") {
        Some(ParamKind::Int(128))
    } else if *t == String::from_str("int64") {
        Some(ParamKind::Int(64))
    } else if *t == String::from_str("int32") {
        Some(ParamKind::Int(32))
    } else if *t == String::from_str("int8") {
        Some(ParamKind::Int(8))
    } else if *t == String::from_str("bytes32") {
        Some(ParamKind::FixedBytes(32))
    } else if *t == String::from_str("uint256[]") {
        Some(ParamKind::UintArray(256))
    } else {
        None
    }
}

/// The extraction rule of a Solidity type.
pub fn solidity_to_parse_param_type(t: &String) -> (r: Option<Extraction>)
    ensures
        r == extraction_of(t@),
{
    if *t == String::from_str("string") {
        Some(Extraction::Text)
    } else if *t == String::from_str("bool") {
        Some(Extraction::Boolean)
    } else if *t == String::from_str("address") {
        Some(Extraction::Address)
    } else if *t == String::from_str("uint256") {
        Some(Extraction::Unsigned(256))
    } else if *t == String::from_str("uint128") {
        Some(Extraction::Unsigned(128))
    } else if *t == String::from_str("uint64") {
        Some(Extraction::Unsigned(64))
    } else if *t == String::from_str("uint32") {
        Some(Extraction::Unsigned(32))
    } else if *t == String::from_str("uint8") {
        Some(Extraction::Unsigned(8))
    } else if *t == String::from_str("int256") {
        Some(Extraction::Signed(256))
    } else if *t == String::from_str("int128") {
        Some(Extraction::Signed(128))
    } else if *t == String::from_str("int64") {
        Some(Extraction::Signed(64))
    } else if *t == String::from_str("int32") {
        Some(Extraction::Signed(32))
    } else if *t == String::from_str("int8") {
        Some(Extraction::Signed(8))
    } else if *t == String::from_str("bytes32") {
        Some(Extraction::FixedBytes(32))
    } else if *t == String::from_str("uint256[]") {
        Some(Extraction::UnsignedList)
    } else {
        None
    }
}

/// The table's row for `t`: all three parts, or `None` for an unsupported type.
pub fn mapping_of(t: &String) -> (r: Option<TypeMapping>)
    ensures
        r == mapping_spec(t@),
        r is Some <==> is_supported(t@),
{
    let storage = solidity_to_rust_type(t);
    let descriptor = solidity_to_event_param_type(t);
    let extraction = solidity_to_parse_param_type(t);
    match (storage, descriptor, extraction) {
        (Some(s), Some(d), Some(e)) => Some(TypeMapping { storage: s, descriptor: d, extraction: e }),
        _ => None,
    }
}

} // verus!
