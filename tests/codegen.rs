use eth_event_codegen::{
    default_event_names, event_signature, extract, fill_record, generate_event,
    generate_event_parsers, is_included, mapping_of, signature_hash, solidity_to_event_param_type,
    solidity_to_parse_param_type, solidity_to_rust_type, AbiValue, ChainEventParser,
    DecodedParam, EventDecl, Extraction, FieldSpec, FieldValue, GenerationError, ParamDecl,
    ParamKind, RawLog, StorageType,
};

const TRANSFER_HASH: &str = "ddf252ad1be2c89b69c2b068fc378daa952ba7f163c4a11628f55a4df523b3ef";

fn param(name: &str, kind: &str, indexed: bool) -> ParamDecl {
    ParamDecl { name: name.to_string(), kind: kind.to_string(), indexed }
}

fn transfer_decl() -> EventDecl {
    EventDecl {
        name: "Transfer".to_string(),
        inputs: vec![
            param("from", "address", true),
            param("to", "address", true),
            param("value", "uint256", false),
        ],
        anonymous: false,
    }
}

fn abi_json(names: &[&str]) -> String {
    let entries: Vec<String> = names
        .iter()
        .map(|n| {
            format!(
                "{{\"type\":\"event\",\"name\":\"{}\",\"anonymous\":false,\"inputs\":[{{\"name\":\"amountIn\",\"type\":\"uint256\",\"indexed\":false}}]}}",
                n
            )
        })
        .collect();
    format!("[{}]", entries.join(","))
}

fn word(n: u64) -> [u8; 32] {
    let mut w = [0u8; 32];
    w[24..].copy_from_slice(&n.to_be_bytes());
    w
}

fn topic_of_address(a: [u8; 20]) -> [u8; 32] {
    let mut t = [0u8; 32];
    t[12..].copy_from_slice(&a);
    t
}

fn hex_to_word(h: &str) -> [u8; 32] {
    let mut w = [0u8; 32];
    for i in 0..32 {
        w[i] = u8::from_str_radix(&h[2 * i..2 * i + 2], 16).unwrap();
    }
    w
}

fn transfer_log(from: [u8; 20], to: [u8; 20], value: u64) -> RawLog {
    RawLog {
        topics: vec![hex_to_word(TRANSFER_HASH), topic_of_address(from), topic_of_address(to)],
        data: word(value).to_vec(),
    }
}

#[test]
fn transfer_signature_and_hash() {
    let codec = generate_event(&transfer_decl()).unwrap();
    assert_eq!(codec.signature, "Transfer(address,address,uint256)");
    assert_eq!(codec.hash, TRANSFER_HASH);
    assert_eq!(codec.event_hash(), TRANSFER_HASH);
    assert_eq!(codec.event_name(), "Transfer");
}

#[test]
fn distinct_signatures_have_distinct_hashes() {
    let a = generate_event(&transfer_decl()).unwrap();
    let mut d = transfer_decl();
    d.name = "Approval".to_string();
    let b = generate_event(&d).unwrap();
    assert_eq!(b.signature, "Approval(address,address,uint256)");
    assert_ne!(a.hash, b.hash);
    assert_eq!(
        b.hash,
        "8c5be1e5ebec7d5bd14f71427d1e84f3dd0314c0f7b2291e5b200ac8c7c3b925"
    );
}

#[test]
fn signature_without_parameters() {
    let kinds: Vec<String> = Vec::new();
    assert_eq!(event_signature(&"Ping".to_string(), &kinds), "Ping()");
    let kinds = vec!["uint8".to_string()];
    assert_eq!(event_signature(&"One".to_string(), &kinds), "One(uint8)");
}

#[test]
fn hash_is_lowercase_hex_of_digest() {
    let h = signature_hash(&"Transfer(address,address,uint256)".to_string());
    assert_eq!(h.len(), 64);
    assert_eq!(h, TRANSFER_HASH);
}

#[test]
fn selection_filter() {
    let json = abi_json(&["A", "B", "C"]);
    let only_b = generate_event_parsers(&json, &vec!["B".to_string()]).unwrap();
    assert_eq!(only_b.len(), 1);
    assert_eq!(only_b[0].name, "B");
    let all = generate_event_parsers(&json, &default_event_names()).unwrap();
    assert_eq!(all.len(), 3);
    let names: Vec<String> = all.iter().map(|c| c.name.clone()).collect();
    assert_eq!(names, vec!["A".to_string(), "B".to_string(), "C".to_string()]);
}

#[test]
fn unknown_selection_is_silent() {
    let json = abi_json(&["A", "B", "C"]);
    let none = generate_event_parsers(&json, &vec!["Z".to_string()]).unwrap();
    assert_eq!(none.len(), 0);
}

#[test]
fn selection_is_case_sensitive() {
    let json = abi_json(&["A", "B"]);
    let none = generate_event_parsers(&json, &vec!["b".to_string()]).unwrap();
    assert_eq!(none.len(), 0);
}

#[test]
fn first_overload_wins() {
    let json = "[{\"type\":\"event\",\"name\":\"E\",\"anonymous\":false,\"inputs\":[{\"name\":\"a\",\"type\":\"uint8\",\"indexed\":false}]},{\"type\":\"event\",\"name\":\"E\",\"anonymous\":false,\"inputs\":[{\"name\":\"a\",\"type\":\"bool\",\"indexed\":false}]}]";
    let cs = generate_event_parsers(json, &default_event_names()).unwrap();
    assert_eq!(cs.len(), 1);
    assert_eq!(cs[0].signature, "E(uint8)");
}

#[test]
fn invalid_abi_is_a_parse_error() {
    let r = generate_event_parsers("not json", &default_event_names());
    assert!(matches!(r, Err(GenerationError::Parse(_))));
}

#[test]
fn unsupported_type_in_selected_event_fails() {
    let json = "[{\"type\":\"event\",\"name\":\"Raw\",\"anonymous\":false,\"inputs\":[{\"name\":\"payload\",\"type\":\"bytes\",\"indexed\":false}]}]";
    let r = generate_event_parsers(json, &default_event_names());
    assert_eq!(r.err(), Some(GenerationError::UnsupportedType("bytes".to_string())));
    let skipped = generate_event_parsers(json, &vec!["Other".to_string()]).unwrap();
    assert_eq!(skipped.len(), 0);
}

#[test]
fn type_mapping_completeness() {
    let table = [
        ("string", StorageType::Text, ParamKind::Str, Extraction::Text),
        ("bool", StorageType::Boolean, ParamKind::Bool, Extraction::Boolean),
        ("address", StorageType::Address, ParamKind::Address, Extraction::Address),
        ("uint256", StorageType::U256, ParamKind::Uint(256), Extraction::Unsigned(256)),
        ("uint128", StorageType::U128, ParamKind::Uint(128), Extraction::Unsigned(128)),
        ("uint64", StorageType::U64, ParamKind::Uint(64), Extraction::Unsigned(64)),
        ("uint32", StorageType::U32, ParamKind::Uint(32), Extraction::Unsigned(32)),
        ("uint8", StorageType::U8, ParamKind::Uint(8), Extraction::Unsigned(8)),
        ("int256", StorageType::I256, ParamKind::Int(256), Extraction::Signed(256)),
        ("int128", StorageType::I128, ParamKind::Int(128), Extraction::Signed(128)),
        ("int64", StorageType::I64, ParamKind::Int(64), Extraction::Signed(64)),
        ("int32", StorageType::I32, ParamKind::Int(32), Extraction::Signed(32)),
        ("int8", StorageType::I8, ParamKind::Int(8), Extraction::Signed(8)),
        ("bytes32", StorageType::Bytes, ParamKind::FixedBytes(32), Extraction::FixedBytes(32)),
        ("uint256[]", StorageType::U256List, ParamKind::UintArray(256), Extraction::UnsignedList),
    ];
    for (t, s, d, e) in table.iter() {
        let t = t.to_string();
        assert_eq!(solidity_to_rust_type(&t), Some(*s));
        assert_eq!(solidity_to_event_param_type(&t), Some(*d));
        assert_eq!(solidity_to_parse_param_type(&t), Some(*e));
        let m = mapping_of(&t).unwrap();
        assert_eq!((m.storage, m.descriptor, m.extraction), (*s, *d, *e));
    }
    for t in ["bytes", "uint16", "UINT256", "address[]", ""].iter() {
        assert_eq!(mapping_of(&t.to_string()), None);
    }
}

#[test]
fn unsupported_type_fails_generation() {
    let mut d = transfer_decl();
    d.inputs.push(param("extra", "bytes", false));
    d.inputs.push(param("more", "uint16", false));
    let r = generate_event(&d);
    assert_eq!(r.err(), Some(GenerationError::UnsupportedType("bytes".to_string())));
}

#[test]
fn field_names_are_snake_case() {
    let d = EventDecl {
        name: "Swap".to_string(),
        inputs: vec![param("amountIn", "uint256", false), param("tokenId", "uint8", true)],
        anonymous: false,
    };
    let c = generate_event(&d).unwrap();
    assert_eq!(c.fields[0].field_name, "amount_in");
    assert_eq!(c.fields[0].param_name, "amountIn");
    assert_eq!(c.fields[1].field_name, "token_id");
    assert_eq!(c.params[1].kind, ParamKind::Uint(8));
    assert!(c.params[1].indexed);
}

#[test]
fn decode_transfer() {
    let codec = generate_event(&transfer_decl()).unwrap();
    let from = [0x11u8; 20];
    let to = [0x22u8; 20];
    let rec = codec.parse_event(&transfer_log(from, to, 1000)).unwrap();
    assert_eq!(
        rec,
        vec![FieldValue::Address(from), FieldValue::Address(to), FieldValue::Word(word(1000))]
    );
}

#[test]
fn decode_through_the_trait() {
    let codec = generate_event(&transfer_decl()).unwrap();
    let rec = ChainEventParser::parse_event(&codec, &transfer_log([1u8; 20], [2u8; 20], 7)).unwrap();
    assert_eq!(rec[2], FieldValue::Word(word(7)));
    assert_eq!(ChainEventParser::event_name(&codec), "Transfer");
    assert_eq!(ChainEventParser::event_hash(&codec), TRANSFER_HASH);
}

#[test]
fn decode_structural_failure() {
    let codec = generate_event(&transfer_decl()).unwrap();
    let mut log = transfer_log([1u8; 20], [2u8; 20], 7);
    log.topics.pop();
    assert!(codec.parse_event(&log).is_err());
    let mut log = transfer_log([1u8; 20], [2u8; 20], 7);
    log.topics.push([0u8; 32]);
    assert!(codec.parse_event(&log).is_err());
    let empty = RawLog { topics: Vec::new(), data: Vec::new() };
    assert!(codec.parse_event(&empty).is_err());
}

#[test]
fn decode_short_data_fails() {
    let codec = generate_event(&transfer_decl()).unwrap();
    let mut log = transfer_log([1u8; 20], [2u8; 20], 7);
    log.data.truncate(10);
    assert!(codec.parse_event(&log).is_err());
}

fn field(name: &str, rule: Extraction, storage: StorageType) -> FieldSpec {
    FieldSpec {
        param_name: name.to_string(),
        field_name: name.to_string(),
        storage,
        extraction: rule,
    }
}

#[test]
fn decode_degradation_gives_zero() {
    let fields = vec![field("value", Extraction::Unsigned(256), StorageType::U256)];
    let decoded = vec![DecodedParam { name: "value".to_string(), value: AbiValue::Bool(true) }];
    assert_eq!(fill_record(&fields, &decoded), vec![FieldValue::Word([0u8; 32])]);
}

#[test]
fn missing_and_unknown_parameters() {
    let fields = vec![
        field("name", Extraction::Text, StorageType::Text),
        field("ok", Extraction::Boolean, StorageType::Boolean),
    ];
    let decoded = vec![
        DecodedParam { name: "extra".to_string(), value: AbiValue::Bool(true) },
        DecodedParam { name: "ok".to_string(), value: AbiValue::Bool(false) },
        DecodedParam { name: "ok".to_string(), value: AbiValue::Bool(true) },
    ];
    assert_eq!(
        fill_record(&fields, &decoded),
        vec![FieldValue::Text(String::new()), FieldValue::Boolean(true)]
    );
}

#[test]
fn extraction_rules() {
    let w = word(5);
    assert_eq!(extract(Extraction::Unsigned(256), &AbiValue::Uint(w)), FieldValue::Word(w));
    assert_eq!(extract(Extraction::Signed(256), &AbiValue::Int(w)), FieldValue::Word(w));
    assert_eq!(extract(Extraction::Signed(256), &AbiValue::Uint(w)), FieldValue::Word([0u8; 32]));
    assert_eq!(
        extract(Extraction::Text, &AbiValue::Str("hi".to_string())),
        FieldValue::Text("hi".to_string())
    );
    assert_eq!(extract(Extraction::Address, &AbiValue::Other), FieldValue::Address([0u8; 20]));
    assert_eq!(
        extract(Extraction::FixedBytes(2), &AbiValue::FixedBytes(vec![1, 2])),
        FieldValue::Bytes(vec![1, 2])
    );
    assert_eq!(
        extract(Extraction::FixedBytes(32), &AbiValue::FixedBytes(vec![1, 2])),
        FieldValue::Bytes(vec![])
    );
    assert_eq!(extract(Extraction::FixedBytes(32), &AbiValue::Bool(true)), FieldValue::Bytes(vec![]));
    let arr = AbiValue::Array(vec![AbiValue::Uint(w), AbiValue::Bool(true), AbiValue::Uint(word(9))]);
    assert_eq!(
        extract(Extraction::UnsignedList, &arr),
        FieldValue::Words(vec![w, [0u8; 32], word(9)])
    );
    assert_eq!(extract(Extraction::UnsignedList, &AbiValue::Other), FieldValue::Words(vec![]));
}

#[test]
fn decode_array_and_string_data() {
    let d = EventDecl {
        name: "Batch".to_string(),
        inputs: vec![param("ids", "uint256[]", false), param("note", "string", false)],
        anonymous: false,
    };
    let codec = generate_event(&d).unwrap();
    let data = ethabi::encode(&[
        ethabi::Token::Array(vec![
            ethabi::Token::Uint(ethabi::Uint::from(3u64)),
            ethabi::Token::Uint(ethabi::Uint::from(4u64)),
        ]),
        ethabi::Token::String("ok".to_string()),
    ]);
    let log = RawLog { topics: vec![hex_to_word(&codec.hash)], data };
    let rec = codec.parse_event(&log).unwrap();
    assert_eq!(
        rec,
        vec![FieldValue::Words(vec![word(3), word(4)]), FieldValue::Text("ok".to_string())]
    );
}

#[test]
fn generation_is_idempotent() {
    let json = abi_json(&["A", "B"]);
    let first = generate_event_parsers(&json, &default_event_names()).unwrap();
    let second = generate_event_parsers(&json, &default_event_names()).unwrap();
    assert_eq!(first.len(), second.len());
    for (a, b) in first.iter().zip(second.iter()) {
        assert_eq!(a.signature, b.signature);
        assert_eq!(a.hash, b.hash);
        assert_eq!(a.fields.len(), b.fields.len());
        for (f, g) in a.fields.iter().zip(b.fields.iter()) {
            assert_eq!(f.field_name, g.field_name);
            assert_eq!(f.storage, g.storage);
        }
    }
}

#[test]
fn inclusion_rule() {
    let name = "Transfer".to_string();
    assert!(is_included(&name, &default_event_names()));
    assert!(is_included(&name, &vec!["A".to_string(), "Transfer".to_string()]));
    assert!(!is_included(&name, &vec!["transfer".to_string()]));
    assert!(default_event_names().is_empty());
}

#[test]
fn narrowing_to_declared_width() {
    assert_eq!(extract(Extraction::Unsigned(8), &AbiValue::Uint(word(200))), FieldValue::Word(word(200)));
    assert_eq!(extract(Extraction::Unsigned(8), &AbiValue::Uint(word(300))), FieldValue::Word([0u8; 32]));
    assert_eq!(
        extract(Extraction::Unsigned(32), &AbiValue::Uint(word(u32::MAX as u64))),
        FieldValue::Word(word(u32::MAX as u64))
    );
    assert_eq!(
        extract(Extraction::Unsigned(32), &AbiValue::Uint(word(1u64 << 32))),
        FieldValue::Word([0u8; 32])
    );
    let minus_one = [0xffu8; 32];
    assert_eq!(extract(Extraction::Signed(8), &AbiValue::Int(minus_one)), FieldValue::Word(minus_one));
    assert_eq!(extract(Extraction::Signed(8), &AbiValue::Int(word(127))), FieldValue::Word(word(127)));
    assert_eq!(extract(Extraction::Signed(8), &AbiValue::Int(word(200))), FieldValue::Word([0u8; 32]));
    let mut minus_129 = [0xffu8; 32];
    minus_129[31] = 0x7f;
    assert_eq!(extract(Extraction::Signed(8), &AbiValue::Int(minus_129)), FieldValue::Word([0u8; 32]));
    assert_eq!(extract(Extraction::Signed(16), &AbiValue::Int(minus_129)), FieldValue::Word(minus_129));
}

#[test]
fn decode_out_of_range_uint8_gives_zero() {
    let d = EventDecl {
        name: "Level".to_string(),
        inputs: vec![param("level", "uint8", false), param("total", "uint256", false)],
        anonymous: false,
    };
    let codec = generate_event(&d).unwrap();
    let mut data = word(300).to_vec();
    data.extend_from_slice(&word(300));
    let log = RawLog { topics: vec![hex_to_word(&codec.hash)], data };
    let rec = codec.parse_event(&log).unwrap();
    assert_eq!(rec, vec![FieldValue::Word([0u8; 32]), FieldValue::Word(word(300))]);
}

#[test]
fn decode_error_carries_decoder_message() {
    let codec = generate_event(&transfer_decl()).unwrap();
    let mut log = transfer_log([1u8; 20], [2u8; 20], 7);
    log.topics[0] = [0u8; 32];
    assert_eq!(codec.parse_event(&log), Err("Invalid data".to_string()));
}

#[test]
fn int256_maps_to_signed_storage() {
    assert_eq!(solidity_to_rust_type(&"int256".to_string()), Some(StorageType::I256));
    assert_eq!(solidity_to_rust_type(&"uint256".to_string()), Some(StorageType::U256));
}
