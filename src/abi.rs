use vstd::prelude::*;

use crate::codec::{EventDecl, GenerationError, ParamDecl};
use crate::generator::{all_supported, first_unsupported, generate_event, generated_from, EventCodec};

verus! {

/// The events of an ABI document given as JSON text, as ethabi reads it: the
/// declarations of each event name, or the text of the parser's error.
pub uninterp spec fn abi_events_of(json: Seq<char>) -> Result<Seq<Vec<EventDecl>>, Seq<char>>;

/// Relies on ethabi::Contract::load and its `events` map: the declarations
/// of each name, overloads in document order, names in map order; the
/// parser's error rendered as text.
#[verifier::external_body]
fn load_abi(json: &str) -> (r: Result<Vec<Vec<EventDecl>>, String>)
    ensures
        match abi_events_of(json@) {
            Ok(gs) => r matches Ok(v) && v@ == gs,
            Err(m) => r matches Err(e) && e@ == m,
        },
{
    match ethabi::Contract::load(json.as_bytes()) {
        Ok(c) => Ok(c.events.values().map(|o| o.iter().map(event_decl).collect()).collect()),
        Err(e) => Err(e.to_string()),
    }
}

/// Relies on ethabi::Event's fields and on the Display of ethabi::ParamType,
/// which writes the canonical Solidity type name.
#[verifier::external_body]
fn event_decl(e: &ethabi::Event) -> (r: EventDecl) {
    EventDecl {
        name: e.name.clone(),
        inputs: e.inputs.iter().map(|p| ParamDecl {
            name: p.name.clone(),
            kind: p.kind.to_string(),
            indexed: p.indexed,
        }).collect(),
        anonymous: e.anonymous,
    }
}

/// The selection that an empty request means: every event.
pub fn default_event_names() -> (r: Vec<String>)
    ensures
        r@.len() == 0,
{
    Vec::new()
}

/// An event is selected where the request is empty or names it exactly.
pub open spec fn included(name: Seq<char>, requested: Seq<String>) -> bool {
    requested.len() == 0 || exists|i: int| 0 <= i < requested.len() && #[trigger] requested[i]@ == name
}

/// Whether an event of this name is selected by the requested names.
pub fn is_included(event_name: &String, event_name_list: &Vec<String>) -> (r: bool)
    ensures
        r == included(event_name@, event_name_list@),
{
    if event_name_list.len() == 0 {
        return true;
    }
    let mut i: usize = 0;
    while i < event_name_list.len()
        invariant
            i <= event_name_list.len(),
            forall|k: int| 0 <= k < i ==> #[trigger] event_name_list@[k]@ != event_name@,
        decreases event_name_list.len() - i,
    {
        if event_name_list[i] == *event_name {
            return true;
        }
        i = i + 1;
    }
    false
}

/// The events to generate: of each name the first declaration, where the
/// name is selected, in the order of the groups.
pub open spec fn selection(groups: Seq<Vec<EventDecl>>, requested: Seq<String>) -> Seq<EventDecl>
    decreases groups.len(),
{
    if groups.len() == 0 {
        Seq::empty()
    } else {
        let g = groups.last()@;
        selection(groups.drop_last(), requested) + if g.len() > 0 && included(g[0].name@, requested) {
            seq![g[0]]
        } else {
            Seq::empty()
        }
    }
}

/// The codecs of `events`, in order.
pub open spec fn codecs_of(cs: Seq<EventCodec>, events: Seq<EventDecl>) -> bool {
    &&& cs.len() == events.len()
    &&& forall|i: int| 0 <= i < cs.len() ==> #[trigger] generated_from(cs[i], events[i])
}

/// `t` is the first unsupported type met when the events are generated in order.
pub open spec fn first_unsupported_in(events: Seq<EventDecl>, t: Seq<char>) -> bool {
    exists|i: int|
        0 <= i < events.len() && first_unsupported(events[i].inputs@, t) && forall|j: int|
            0 <= j < i ==> all_supported(#[trigger] events[j].inputs@)
}

/// Generates the codecs of the selected events: of each name the first
/// declaration, where the request is empty or names it. A requested name that
/// no event has yields nothing. Fails on the first unsupported parameter type.
pub fn generate_selected(groups: &Vec<Vec<EventDecl>>, event_names: &Vec<String>) -> (r: Result<
    Vec<EventCodec>,
    GenerationError,
>)
    ensures
        r is Ok <==> forall|i: int|
            0 <= i < selection(groups@, event_names@).len() ==> all_supported(
                #[trigger] selection(groups@, event_names@)[i].inputs@,
            ),
        r matches Ok(cs) ==> codecs_of(cs@, selection(groups@, event_names@)),
        r matches Err(err) ==> err matches GenerationError::UnsupportedType(t) && first_unsupported_in(
            selection(groups@, event_names@),
            t@,
        ),
{
    let mut out: Vec<EventCodec> = Vec::new();
    let mut i: usize = 0;
    while i < groups.len()
        invariant
            i <= groups.len(),
            codecs_of(out@, selection(groups@.take(i as int), event_names@)),
            forall|k: int|
                0 <= k < selection(groups@.take(i as int), event_names@).len() ==> all_supported(
                    #[trigger] selection(groups@.take(i as int), event_names@)[k].inputs@,
                ),
        decreases groups.len() - i,
    {
        let ghost before = selection(groups@.take(i as int), event_names@);
        assert(groups@.take(i + 1).drop_last() =~= groups@.take(i as int));
        let group = &groups[i];
        if group.len() > 0 && is_included(&group[0].name, event_names) {
            let ghost now = selection(groups@.take(i + 1), event_names@);
            assert(now =~= before.push(group@[0]));
            match generate_event(&group[0]) {
                Ok(c) => {
                    out.push(c);
                },
                Err(err) => {
                    proof {
                        let t = err->UnsupportedType_0@;
                        assert(first_unsupported(now[before.len() as int].inputs@, t));
                        lemma_selection_prefix(groups@, event_names@, i as int + 1);
                        assert forall|k: int| 0 <= k < now.len() implies #[trigger] selection(groups@, event_names@)[k] == now[k] by {}
                        let all = selection(groups@, event_names@);
                        let w = before.len() as int;
                        assert(all[w] == now[w]);
                        assert forall|j: int| 0 <= j < w implies all_supported(#[trigger] all[j].inputs@) by {
                            assert(all[j] == now[j]);
                            assert(now[j] == before[j]);
                        }
                        assert(first_unsupported_in(all, t));
                    }
                    return Err(err);
                },
            }
        }
        i = i + 1;
    }
    assert(groups@.take(groups.len() as int) =~= groups@);
    Ok(out)
}

/// The selection over a prefix of the groups is a prefix of the whole selection.
proof fn lemma_selection_prefix(groups: Seq<Vec<EventDecl>>, requested: Seq<String>, n: int)
    requires
        0 <= n <= groups.len(),
    ensures
        selection(groups.take(n), requested).len() <= selection(groups, requested).len(),
        forall|k: int|
            0 <= k < selection(groups.take(n), requested).len() ==> #[trigger] selection(groups, requested)[k]
                == selection(groups.take(n), requested)[k],
    decreases groups.len() - n,
{
    if n < groups.len() {
        lemma_selection_prefix(groups, requested, n + 1);
        assert(groups.take(n + 1).drop_last() =~= groups.take(n));
    } else {
        assert(groups.take(n) =~= groups);
    }
}

/// Generates the codecs of the selected events of an ABI document given as
/// JSON text. Fails with the parser's message where the text is no valid ABI,
/// and with the type name where a selected event has an unsupported type.
pub fn generate_event_parsers(abi_json: &str, event_names: &Vec<String>) -> (r: Result<
    Vec<EventCodec>,
    GenerationError,
>)
    ensures
        match abi_events_of(abi_json@) {
            Err(m) => r matches Err(GenerationError::Parse(s)) && s@ == m,
            Ok(gs) => {
                &&& r is Ok <==> forall|i: int|
                    0 <= i < selection(gs, event_names@).len() ==> all_supported(
                        #[trigger] selection(gs, event_names@)[i].inputs@,
                    )
                &&& r matches Ok(cs) ==> codecs_of(cs@, selection(gs, event_names@))
                &&& r matches Err(err) ==> err matches GenerationError::UnsupportedType(t)
                    && first_unsupported_in(selection(gs, event_names@), t@)
            },
        },
{
    match load_abi(abi_json) {
        Err(m) => Err(GenerationError::Parse(m)),
        Ok(groups) => generate_selected(&groups, event_names),
    }
}

/// An empty request selects the first declaration of every event name.
pub proof fn lemma_empty_request_selects_all(groups: Seq<Vec<EventDecl>>, requested: Seq<String>)
    requires
        requested.len() == 0,
        forall|i: int| 0 <= i < groups.len() ==> (#[trigger] groups[i])@.len() > 0,
    ensures
        selection(groups, requested).len() == groups.len(),
        forall|i: int| 0 <= i < groups.len() ==> #[trigger] selection(groups, requested)[i] == groups[i]@[0],
    decreases groups.len(),
{
    if groups.len() > 0 {
        let init = groups.drop_last();
        assert forall|i: int| 0 <= i < init.len() implies (#[trigger] init[i])@.len() > 0 by {
            assert(init[i] == groups[i]);
        }
        lemma_empty_request_selects_all(init, requested);
    }
}

/// A request none of whose names an event has selects nothing, and is no error.
pub proof fn lemma_unknown_request_selects_nothing(groups: Seq<Vec<EventDecl>>, requested: Seq<String>)
    requires
        requested.len() > 0,
        forall|i: int, k: int|
            0 <= i < groups.len() && 0 <= k < requested.len() && groups[i]@.len() > 0 ==> (#[trigger] requested[k])@
                != (#[trigger] groups[i])@[0].name@,
    ensures
        selection(groups, requested).len() == 0,
    decreases groups.len(),
{
    if groups.len() > 0 {
        let init = groups.drop_last();
        assert forall|i: int, k: int|
            0 <= i < init.len() && 0 <= k < requested.len() && init[i]@.len() > 0 implies (#[trigger] requested[k])@
                != (#[trigger] init[i])@[0].name@ by {
            assert(init[i] == groups[i]);
        }
        lemma_unknown_request_selects_nothing(init, requested);
        let g = groups.last()@;
        if g.len() > 0 {
            assert(!included(g[0].name@, requested)) by {
                assert forall|k: int| 0 <= k < requested.len() implies #[trigger] requested[k]@ != g[0].name@ by {
                    assert(groups[groups.len() - 1] == groups.last());
                }
            }
        }
    }
}

} // verus!
