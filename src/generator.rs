use inflector::cases::snakecase::to_snake_case;
use vstd::prelude::*;

use crate::codec::{
    extract_spec, field_value, fill_record, is_record_of, AbiValue, DecodedParam, EventDecl, FieldSpec, FieldValue,
    GenerationError, ParamDecl, ParamSpec, RawLog,
};
use crate::signature::{event_signature, hash_of, signature_hash, signature_of};
use crate::types::{descriptor_of, extraction_of, is_supported, mapping_of, storage_of, ParamKind};

verus! {

/// ethabi's event descriptor, held opaque.
#[verifier::external_type_specification]
#[verifier::external_body]
pub struct ExEvent(ethabi::Event);

/// ethabi's decoded value, held opaque until converted.
#[verifier::external_type_specification]
#[verifier::external_body]
pub struct ExToken(ethabi::Token);

/// The 256-bit integer type of ethabi's values, held opaque.
#[verifier::external_type_specification]
#[verifier::external_body]
pub struct ExU256(ethabi::ethereum_types::U256);

/// ethabi's parameter type, held opaque.
#[verifier::external_type_specification]
#[verifier::external_body]
pub struct ExParamType(ethabi::ParamType);

/// The snake-case form of an identifier.
pub uninterp spec fn snake_of(s: Seq<char>) -> Seq<char>;

/// Relies on inflector's `to_snake_case`: the snake-case form of the name,
/// a function of its characters alone.
#[verifier::external_body]
fn snake_case(s: &String) -> (r: String)
    ensures
        r@ == snake_of(s@),
{
    to_snake_case(s)
}

/// Relies on the variants of ethabi::ParamType, one for each descriptor.
#[verifier::external_body]
fn param_type(k: ParamKind) -> (r: ethabi::ParamType) {
    match k {
        ParamKind::Str => ethabi::ParamType::String,
        ParamKind::Bool => ethabi::ParamType::Bool,
        ParamKind::Address => ethabi::ParamType::Address,
        ParamKind::Uint(n) => ethabi::ParamType::Uint(n as usize),
        ParamKind::Int(n) => ethabi::ParamType::Int(n as usize),
        ParamKind::FixedBytes(n) => ethabi::ParamType::FixedBytes(n as usize),
        ParamKind::UintArray(n) => ethabi::ParamType::Array(Box::new(ethabi::ParamType::Uint(n as usize))),
    }
}

/// Relies on ethabi::Event and ethabi::EventParam: the non-anonymous event
/// descriptor with these parameters, in this order.
#[verifier::external_body]
fn build_descriptor(name: &String, params: &Vec<ParamSpec>) -> (r: ethabi::Event) {
    ethabi::Event {
        name: name.clone(),
        inputs: params.iter().map(|p| ethabi::EventParam {
            name: p.name.clone(),
            kind: param_type(p.kind),
            indexed: p.indexed,
        }).collect(),
        anonymous: false,
    }
}

/// Relies on U256::to_big_endian: the 32-byte big-endian form of the integer.
#[verifier::external_body]
fn word_of(u: &ethabi::ethereum_types::U256) -> (r: [u8; 32]) {
    let mut w = [0u8; 32];
    u.to_big_endian(&mut w);
    w
}

/// Relies on the variants of ethabi::Token: each value moved into the
/// matching variant, the kinds that no extraction reads as `Other`.
#[verifier::external_body]
fn token_value(t: &ethabi::Token) -> (r: AbiValue) {
    match t {
        ethabi::Token::Address(a) => AbiValue::Address(a.0),
        ethabi::Token::FixedBytes(b) => AbiValue::FixedBytes(b.clone()),
        ethabi::Token::Int(i) => AbiValue::Int(word_of(i)),
        ethabi::Token::Uint(u) => AbiValue::Uint(word_of(u)),
        ethabi::Token::Bool(b) => AbiValue::Bool(*b),
        ethabi::Token::String(s) => AbiValue::Str(s.clone()),
        ethabi::Token::Array(v) => AbiValue::Array(v.iter().map(token_value).collect()),
        _ => AbiValue::Other,
    }
}

/// What ethabi's decoder makes of a raw log (its topics and data) against
/// the non-anonymous event of this name and these parameters: the named
/// parameters, or the text of its error.
pub uninterp spec fn decoded_of(
    name: Seq<char>,
    params: Seq<ParamSpec>,
    topics: Seq<[u8; 32]>,
    data: Seq<u8>,
) -> Result<Seq<DecodedParam>, Seq<char>>;

/// Relies on ethabi::Event::parse_log, against the descriptor of `name` and
/// `params`: it succeeds only where the first topic is followed by one topic
/// per indexed parameter, and then names the parameters in declaration order;
/// its error is rendered as text.
#[verifier::external_body]
fn decode_log(name: &String, params: &Vec<ParamSpec>, log: &RawLog) -> (r: Result<Vec<DecodedParam>, String>)
    ensures
        match decoded_of(name@, params@, log.topics@, log.data@) {
            Ok(d) => r matches Ok(v) && v@ == d,
            Err(m) => r matches Err(e) && e@ == m,
        },
        r is Ok ==> log.topics@.len() == indexed_count(params@) + 1,
        r matches Ok(v) ==> names_match(v@, params@),
{
    let desc = build_descriptor(name, params);
    let topics = log.topics.iter().map(|t| ethabi::Hash::from(*t)).collect();
    match desc.parse_log(ethabi::RawLog { topics, data: log.data.clone() }) {
        Ok(l) => Ok(l.params.iter().map(|p| DecodedParam { name: p.name.clone(), value: token_value(&p.value) }).collect()),
        Err(e) => Err(e.to_string()),
    }
}

/// The decoder of one event: its name, signature, signature hash, record
/// layout and the descriptor that raw logs are decoded against.
pub struct EventCodec {
    pub name: String,
    pub signature: String,
    pub hash: String,
    pub fields: Vec<FieldSpec>,
    /// The descriptor parameters that raw logs are decoded against.
    pub params: Vec<ParamSpec>,
}

/// The Solidity type names of the parameters, in order.
pub open spec fn kinds_of(ps: Seq<ParamDecl>) -> Seq<Seq<char>> {
    ps.map_values(|p: ParamDecl| p.kind@)
}

/// Every parameter's type is in the type table.
pub open spec fn all_supported(ps: Seq<ParamDecl>) -> bool {
    forall|i: int| 0 <= i < ps.len() ==> is_supported(#[trigger] ps[i].kind@)
}

/// `f` is the record field generated for parameter `p`.
pub open spec fn field_of(f: FieldSpec, p: ParamDecl) -> bool {
    &&& f.param_name@ == p.name@
    &&& f.field_name@ == snake_of(p.name@)
    &&& storage_of(p.kind@) == Some(f.storage)
    &&& extraction_of(p.kind@) == Some(f.extraction)
}

/// `s` is the descriptor parameter generated for parameter `p`.
pub open spec fn param_of(s: ParamSpec, p: ParamDecl) -> bool {
    &&& s.name@ == p.name@
    &&& descriptor_of(p.kind@) == Some(s.kind)
    &&& s.indexed == p.indexed
}

/// `c` is the codec generated for event `e`.
pub open spec fn generated_from(c: EventCodec, e: EventDecl) -> bool {
    &&& c.name@ == e.name@
    &&& c.signature@ == signature_of(e.name@, kinds_of(e.inputs@))
    &&& c.hash@ == hash_of(c.signature@)
    &&& c.fields@.len() == e.inputs@.len()
    &&& c.params@.len() == e.inputs@.len()
    &&& forall|i: int| 0 <= i < e.inputs@.len() ==> field_of(#[trigger] c.fields@[i], e.inputs@[i])
    &&& forall|i: int| 0 <= i < e.inputs@.len() ==> param_of(#[trigger] c.params@[i], e.inputs@[i])
}

/// The decoded parameters carry the descriptor's names, in order.
pub open spec fn names_match(d: Seq<DecodedParam>, params: Seq<ParamSpec>) -> bool {
    &&& d.len() == params.len()
    &&& forall|i: int| 0 <= i < d.len() ==> (#[trigger] d[i]).name@ == params[i].name@
}

/// `t` is the type of the first parameter of `ps` outside the type table.
pub open spec fn first_unsupported(ps: Seq<ParamDecl>, t: Seq<char>) -> bool {
    exists|i: int|
        0 <= i < ps.len() && ps[i].kind@ == t && !is_supported(t) && forall|j: int|
            0 <= j < i ==> is_supported(#[trigger] ps[j].kind@)
}

/// The number of indexed parameters.
pub open spec fn indexed_count(ps: Seq<ParamSpec>) -> nat
    decreases ps.len(),
{
    if ps.len() == 0 {
        0
    } else {
        indexed_count(ps.drop_last()) + if ps.last().indexed { 1nat } else { 0nat }
    }
}

/// Generates the codec of one event. Fails with the type name where a
/// parameter's type is outside the type table.
pub fn generate_event(e: &EventDecl) -> (r: Result<EventCodec, GenerationError>)
    ensures
        r is Ok <==> all_supported(e.inputs@),
        r matches Ok(c) ==> generated_from(c, *e),
        r matches Err(err) ==> err matches GenerationError::UnsupportedType(t) && first_unsupported(e.inputs@, t@),
{
    let n = e.inputs.len();
    let mut fields: Vec<FieldSpec> = Vec::new();
    let mut params: Vec<ParamSpec> = Vec::new();
    let mut kinds: Vec<String> = Vec::new();
    let mut i: usize = 0;
    while i < n
        invariant
            n == e.inputs@.len(),
            i <= n,
            fields@.len() == i,
            params@.len() == i,
            kinds@.len() == i,
            forall|k: int| 0 <= k < i ==> is_supported(#[trigger] e.inputs@[k].kind@),
            forall|k: int| 0 <= k < i ==> field_of(#[trigger] fields@[k], e.inputs@[k]),
            forall|k: int| 0 <= k < i ==> param_of(#[trigger] params@[k], e.inputs@[k]),
            forall|k: int| 0 <= k < i ==> #[trigger] kinds@[k]@ == e.inputs@[k].kind@,
        decreases n - i,
    {
        let p = &e.inputs[i];
        match mapping_of(&p.kind) {
            None => {
                return Err(GenerationError::UnsupportedType(p.kind.clone()));
            },
            Some(m) => {
                fields.push(
                    FieldSpec {
                        param_name: p.name.clone(),
                        field_name: snake_case(&p.name),
                        storage: m.storage,
                        extraction: m.extraction,
                    },
                );
                params.push(ParamSpec { name: p.name.clone(), kind: m.descriptor, indexed: p.indexed });
                kinds.push(p.kind.clone());
            },
        }
        i = i + 1;
    }
    assert(kinds@.map_values(|k: String| k@) =~= kinds_of(e.inputs@));
    let signature = event_signature(&e.name, &kinds);
    let hash = signature_hash(&signature);
    Ok(EventCodec { name: e.name.clone(), signature, hash, fields, params })
}

/// Counts the indexed parameters.
fn count_indexed(ps: &Vec<ParamSpec>) -> (r: usize)
    ensures
        r == indexed_count(ps@),
{
    let mut c: usize = 0;
    let mut i: usize = 0;
    while i < ps.len()
        invariant
            i <= ps.len(),
            c == indexed_count(ps@.take(i as int)),
            c <= i,
        decreases ps.len() - i,
    {
        assert(ps@.take(i + 1).drop_last() =~= ps@.take(i as int));
        if ps[i].indexed {
            c = c + 1;
        }
        i = i + 1;
    }
    assert(ps@.take(ps.len() as int) =~= ps@);
    c
}

impl EventCodec {
    /// The event's declared name.
    pub fn event_name(&self) -> (r: String)
        ensures
            r@ == self.name@,
    {
        self.name.clone()
    }

    /// The lowercase hex signature hash.
    pub fn event_hash(&self) -> (r: String)
        ensures
            r@ == self.hash@,
    {
        self.hash.clone()
    }

    /// Decodes a raw log into a record. Where the decoder accepts the log, the
    /// record holds each field's value from the decoded parameters; where it
    /// refuses it (among others, a topic count that is not one more than the
    /// number of indexed parameters), its message is returned.
    pub fn parse_event(&self, log: &RawLog) -> (r: Result<Vec<FieldValue>, String>)
        ensures
            match decoded_of(self.name@, self.params@, log.topics@, log.data@) {
                Ok(d) => r matches Ok(v) && is_record_of(v@, self.fields@, d),
                Err(m) => r matches Err(e) && e@ == m,
            },
            log.topics@.len() != indexed_count(self.params@) + 1 ==> r is Err,
            decoded_of(self.name@, self.params@, log.topics@, log.data@) matches Ok(d) ==> names_match(
                d,
                self.params@,
            ),
    {
        match decode_log(&self.name, &self.params, log) {
            Err(e) => Err(e),
            Ok(decoded) => Ok(fill_record(&self.fields, &decoded)),
        }
    }
}

/// What a decoder of one event offers its callers.
pub trait ChainEventParser {
    /// The lowercase hex signature hash.
    fn event_hash(&self) -> String;

    /// The event's declared name.
    fn event_name(&self) -> String;

    /// Decodes a raw log into a record, or says why it cannot.
    fn parse_event(&self, log: &RawLog) -> Result<Vec<FieldValue>, String>;
}

impl ChainEventParser for EventCodec {
    fn event_hash(&self) -> String {
        EventCodec::event_hash(self)
    }

    fn event_name(&self) -> String {
        EventCodec::event_name(self)
    }

    fn parse_event(&self, log: &RawLog) -> Result<Vec<FieldValue>, String> {
        EventCodec::parse_event(self, log)
    }
}

/// A field takes the value of the one decoded parameter of its name.
proof fn lemma_field_value_unique(f: FieldSpec, d: Seq<DecodedParam>, k: int)
    requires
        0 <= k < d.len(),
        d[k].name@ == f.param_name@,
        forall|j: int| 0 <= j < d.len() && j != k ==> (#[trigger] d[j]).name@ != f.param_name@,
    ensures
        field_value(f, d) == extract_spec(f.extraction, d[k].value),
    decreases d.len(),
{
    if k < d.len() - 1 {
        let init = d.drop_last();
        assert(d[d.len() - 1] == d.last());
        assert forall|j: int| 0 <= j < init.len() && j != k implies (#[trigger] init[j]).name@ != f.param_name@ by {
            assert(init[j] == d[j]);
        }
        assert(init[k] == d[k]);
        lemma_field_value_unique(f, init, k);
    }
}

/// Decoding is positional for a generated codec: where the event's parameter
/// names are distinct and a log decodes to parameters named as the descriptor
/// names them, each record field holds its own parameter's value under its
/// extraction rule.
pub proof fn lemma_record_by_position(c: EventCodec, e: EventDecl, d: Seq<DecodedParam>)
    requires
        generated_from(c, e),
        names_match(d, c.params@),
        forall|i: int, j: int|
            0 <= i < e.inputs@.len() && 0 <= j < e.inputs@.len() && i != j ==> (#[trigger] e.inputs@[i]).name@
                != (#[trigger] e.inputs@[j]).name@,
    ensures
        forall|i: int|
            0 <= i < c.fields@.len() ==> field_value(#[trigger] c.fields@[i], d) == extract_spec(
                c.fields@[i].extraction,
                d[i].value,
            ),
{
    assert forall|i: int| 0 <= i < c.fields@.len() implies field_value(#[trigger] c.fields@[i], d)
        == extract_spec(c.fields@[i].extraction, d[i].value) by {
        let f = c.fields@[i];
        assert(field_of(f, e.inputs@[i]));
        assert(param_of(c.params@[i], e.inputs@[i]));
        assert forall|j: int| 0 <= j < d.len() && j != i implies (#[trigger] d[j]).name@ != f.param_name@ by {
            assert(param_of(c.params@[j], e.inputs@[j]));
            assert(e.inputs@[j].name@ != e.inputs@[i].name@);
        }
        lemma_field_value_unique(f, d, i);
    }
}

/// Generation is deterministic: two codecs generated from the same event have
/// the same signature, the same hash and the same record layout.
pub proof fn lemma_generation_deterministic(c1: EventCodec, c2: EventCodec, e: EventDecl)
    requires
        generated_from(c1, e),
        generated_from(c2, e),
    ensures
        c1.signature@ == c2.signature@,
        c1.hash@ == c2.hash@,
        c1.fields@.len() == c2.fields@.len(),
        forall|i: int|
            0 <= i < c1.fields@.len() ==> {
                &&& (#[trigger] c1.fields@[i]).param_name@ == c2.fields@[i].param_name@
                &&& c1.fields@[i].field_name@ == c2.fields@[i].field_name@
                &&& c1.fields@[i].storage == c2.fields@[i].storage
                &&& c1.fields@[i].extraction == c2.fields@[i].extraction
            },
        forall|i: int|
            0 <= i < c1.params@.len() ==> {
                &&& (#[trigger] c1.params@[i]).name@ == c2.params@[i].name@
                &&& c1.params@[i].kind == c2.params@[i].kind
                &&& c1.params@[i].indexed == c2.params@[i].indexed
            },
{
    assert forall|i: int| 0 <= i < c1.fields@.len() implies {
        &&& (#[trigger] c1.fields@[i]).param_name@ == c2.fields@[i].param_name@
        &&& c1.fields@[i].field_name@ == c2.fields@[i].field_name@
        &&& c1.fields@[i].storage == c2.fields@[i].storage
        &&& c1.fields@[i].extraction == c2.fields@[i].extraction
    } by {
        assert(field_of(c1.fields@[i], e.inputs@[i]));
        assert(field_of(c2.fields@[i], e.inputs@[i]));
    }
    assert forall|i: int| 0 <= i < c1.params@.len() implies {
        &&& (#[trigger] c1.params@[i]).name@ == c2.params@[i].name@
        &&& c1.params@[i].kind == c2.params@[i].kind
        &&& c1.params@[i].indexed == c2.params@[i].indexed
    } by {
        assert(param_of(c1.params@[i], e.inputs@[i]));
        assert(param_of(c2.params@[i], e.inputs@[i]));
    }
}

} // verus!
