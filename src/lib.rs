//! Generation of typed decoders for the events of an Ethereum contract ABI.
//!
//! The pipeline: load the ABI's events, select those requested, map each
//! parameter's Solidity type through a closed table, and build for each
//! selected event a codec that names it, hashes its signature and decodes
//! raw logs into records.

mod abi;
mod codec;
mod generator;
mod signature;
mod types;

pub use abi::{default_event_names, generate_event_parsers, generate_selected, is_included};
pub use codec::{
    extract, fill_field, fill_record, AbiValue, DecodedParam, EventDecl, FieldSpec, FieldValue,
    GenerationError, ParamDecl, ParamSpec, RawLog,
};
pub use generator::{generate_event, ChainEventParser, EventCodec};
pub use signature::{event_signature, signature_hash};
pub use types::{
    mapping_of, solidity_to_event_param_type, solidity_to_parse_param_type,
    solidity_to_rust_type, Extraction, ParamKind, StorageType, TypeMapping,
};
