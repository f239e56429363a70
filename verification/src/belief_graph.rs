//! The belief graph: what the protagonist and the narrator may state as
//! known, compiled from visible facts and selected memory, and extended by
//! belief events recorded each turn.
//!
//! Facts and memory items arrive as JSON; the library reads them through
//! `StatementSource`, which keeps exactly the parts of a JSON value that a
//! statement can come from.
use crate::agent_bridge::AgentTurnResponse;
use crate::clock::now_rfc3339;
use crate::text::{clone_strings, concat2, dec, dec2_string, dec_padded, dec_string, str_eq, trim, trim_str, views};
use vstd::prelude::*;

verus! {

pub const BELIEF_GRAPH_PACKET_SCHEMA_VERSION: &'static str = "singulari.belief_graph_packet.v1";
pub const BELIEF_NODE_SCHEMA_VERSION: &'static str = "singulari.belief_node.v1";
pub const BELIEF_EVENT_SCHEMA_VERSION: &'static str = "singulari.belief_event.v1";
pub const BELIEF_GRAPH_FILENAME: &'static str = "belief_graph.json";
pub const BELIEF_EVENTS_FILENAME: &'static str = "belief_events.jsonl";

/// How many beliefs a materialised graph keeps.
pub const PERSISTED_BELIEF_BUDGET: usize = 16;

#[derive(Debug, Clone, Copy, PartialEq, Eq, Structural)]
pub enum BeliefHolder {
    Protagonist,
    PlayerVisibleNarrator,
}

#[derive(Debug, Clone, Copy, PartialEq, Eq, Structural)]
pub enum BeliefConfidence {
    Observed,
    Inferred,
    Reported,
}

#[derive(Debug, Clone)]
pub struct BeliefNode {
    pub schema_version: String,
    pub belief_id: String,
    pub holder: BeliefHolder,
    pub confidence: BeliefConfidence,
    pub statement: String,
    pub source_refs: Vec<String>,
}

#[derive(Debug, Clone)]
pub struct BeliefGraphPolicy {
    pub source: String,
    pub use_rules: Vec<String>,
}

pub const BELIEF_POLICY_SOURCE: &'static str = "compiled_from_visible_facts_and_selected_memory_v1";
pub const BELIEF_MATERIALIZED_SOURCE: &'static str = "materialized_from_belief_events_v1";

impl Default for BeliefGraphPolicy {
    fn default() -> (r: Self)
        ensures
            r.source@ == BELIEF_POLICY_SOURCE@,
            r.use_rules@.len() == 3,
    {
        BeliefGraphPolicy {
            source: String::from_str(BELIEF_POLICY_SOURCE),
            use_rules: vec![
                String::from_str("Narration may state observed beliefs directly, but inferred or reported beliefs must keep uncertainty in prose."),
                String::from_str("Do not reveal hidden causes, future outcomes, private motives, or exact identities unless represented by a belief node."),
                String::from_str("A missing belief node means unknown, not permission to invent an explanation."),
            ],
        }
    }
}

#[derive(Debug, Clone)]
pub struct BeliefGraphPacket {
    pub schema_version: String,
    pub world_id: String,
    pub turn_id: String,
    pub protagonist_visible_beliefs: Vec<BeliefNode>,
    pub narrator_knowledge_limits: Vec<String>,
    pub compiler_policy: BeliefGraphPolicy,
}

impl Default for BeliefGraphPacket {
    fn default() -> (r: Self)
        ensures
            r.schema_version@ == BELIEF_GRAPH_PACKET_SCHEMA_VERSION@,
            r.world_id@.len() == 0,
            r.turn_id@.len() == 0,
            r.protagonist_visible_beliefs@.len() == 0,
            r.narrator_knowledge_limits@.len() == 0,
    {
        BeliefGraphPacket {
            schema_version: String::from_str(BELIEF_GRAPH_PACKET_SCHEMA_VERSION),
            world_id: String::new(),
            turn_id: String::new(),
            protagonist_visible_beliefs: Vec::new(),
            narrator_knowledge_limits: Vec::new(),
            compiler_policy: BeliefGraphPolicy::default(),
        }
    }
}

#[derive(Debug, Clone)]
pub struct BeliefEventRecord {
    pub schema_version: String,
    pub world_id: String,
    pub turn_id: String,
    pub event_id: String,
    pub holder: BeliefHolder,
    pub confidence: BeliefConfidence,
    pub statement: String,
    pub source_refs: Vec<String>,
    pub recorded_at: String,
}

#[derive(Debug, Clone)]
pub struct BeliefEventPlan {
    pub world_id: String,
    pub turn_id: String,
    pub records: Vec<BeliefEventRecord>,
}

// ---------------------------------------------------------------------------
// Where a statement comes from.
// ---------------------------------------------------------------------------

/// One key of a JSON object: missing, a string, or some other value.
#[derive(Debug, Clone)]
pub enum JsonField {
    Absent,
    Text(String),
    NonText,
}

/// The parts of a JSON value that a statement can come from: a string, an
/// object's `summary`, `visible_summary` and `statement` keys, or anything else.
#[derive(Debug, Clone)]
pub enum StatementSource {
    Text(String),
    Fields { summary: JsonField, visible_summary: JsonField, statement: JsonField },
    Other,
}

/// A selected memory item: its `source_id`, the values at
/// `/payload/visible_summary` and `/payload/summary` where present, and the
/// item itself.
#[derive(Debug, Clone)]
pub struct SelectedMemoryItem {
    pub source_id: JsonField,
    pub payload_visible_summary: Option<StatementSource>,
    pub payload_summary: Option<StatementSource>,
    pub whole: StatementSource,
}

/// The trimmed text, unless it is blank.
pub open spec fn non_empty_text(t: Seq<char>) -> Option<Seq<char>> {
    if trim(t).len() == 0 {
        None
    } else {
        Some(trim(t))
    }
}

pub fn non_empty(text: &str) -> (r: Option<String>)
    ensures
        match non_empty_text(text@) {
            Some(t) => r matches Some(s) && s@ == t,
            None => r is None,
        },
{
    let t = trim_str(text);
    if t.unicode_len() == 0 {
        None
    } else {
        Some(String::from_str(t))
    }
}

/// The statement of a value: a non-blank string, or the first of an
/// object's `summary`, `visible_summary`, `statement` keys that is present,
/// when it is a non-blank string.
pub open spec fn statement_of(v: StatementSource) -> Option<Seq<char>> {
    match v {
        StatementSource::Text(t) => non_empty_text(t@),
        StatementSource::Fields { summary, visible_summary, statement } => {
            let first = if !(summary is Absent) {
                summary
            } else if !(visible_summary is Absent) {
                visible_summary
            } else {
                statement
            };
            match first {
                JsonField::Text(t) => non_empty_text(t@),
                _ => None,
            }
        },
        StatementSource::Other => None,
    }
}

pub fn visible_statement(v: &StatementSource) -> (r: Option<String>)
    ensures
        match statement_of(*v) {
            Some(t) => r matches Some(s) && s@ == t,
            None => r is None,
        },
{
    match v {
        StatementSource::Text(t) => non_empty(t.as_str()),
        StatementSource::Fields { summary, visible_summary, statement } => {
            let first = match summary {
                JsonField::Absent => match visible_summary {
                    JsonField::Absent => statement,
                    _ => visible_summary,
                },
                _ => summary,
            };
            match first {
                JsonField::Text(t) => non_empty(t.as_str()),
                _ => None,
            }
        },
        StatementSource::Other => None,
    }
}

/// The value a selected memory item's statement is read from.
pub open spec fn memory_statement_source(item: SelectedMemoryItem) -> StatementSource {
    match item.payload_visible_summary {
        Some(v) => v,
        None => match item.payload_summary {
            Some(v) => v,
            None => item.whole,
        },
    }
}

/// A belief node as text: id, holder, confidence, statement, sources.
pub open spec fn node_is(
    n: BeliefNode,
    belief_id: Seq<char>,
    holder: BeliefHolder,
    confidence: BeliefConfidence,
    statement: Seq<char>,
    source_refs: Seq<Seq<char>>,
) -> bool {
    &&& n.schema_version@ == BELIEF_NODE_SCHEMA_VERSION@
    &&& n.belief_id@ == belief_id
    &&& n.holder == holder
    &&& n.confidence == confidence
    &&& n.statement@ == statement
    &&& views(n.source_refs@) == source_refs
}

/// The beliefs a list of values yields: one per value with a statement,
/// numbered by the value's position.
pub open spec fn array_beliefs_ok(
    out: Seq<BeliefNode>,
    items: Seq<StatementSource>,
    confidence: BeliefConfidence,
    label: Seq<char>,
) -> bool {
    let src = stated_items(items);
    &&& out.len() == src.len()
    &&& forall|k: int|
        0 <= k < src.len() ==> node_is(
            #[trigger] out[k],
            "belief:"@ + label + ":"@ + dec_padded(src[k] as nat, 2),
            BeliefHolder::Protagonist,
            confidence,
            statement_of(items[src[k]]).unwrap(),
            seq![label + "["@ + dec(src[k] as nat) + "]"@],
        )
}

/// The positions of the values that have a statement.
pub open spec fn stated_items(items: Seq<StatementSource>) -> Seq<int>
    decreases items.len(),
{
    if items.len() == 0 {
        Seq::empty()
    } else if statement_of(items.last()) is Some {
        stated_items(items.drop_last()).push(items.len() - 1)
    } else {
        stated_items(items.drop_last())
    }
}

pub open spec fn stated_memory(items: Seq<SelectedMemoryItem>) -> Seq<int>
    decreases items.len(),
{
    if items.len() == 0 {
        Seq::empty()
    } else if statement_of(memory_statement_source(items.last())) is Some {
        stated_memory(items.drop_last()).push(items.len() - 1)
    } else {
        stated_memory(items.drop_last())
    }
}

/// A memory item's source: its `source_id` string, else its position.
pub open spec fn memory_source_ref(item: SelectedMemoryItem, index: int) -> Seq<char> {
    match item.source_id {
        JsonField::Text(t) => t@,
        _ => "selected_memory_items["@ + dec(index as nat) + "]"@,
    }
}

pub open spec fn memory_beliefs_ok(out: Seq<BeliefNode>, items: Seq<SelectedMemoryItem>) -> bool {
    let src = stated_memory(items);
    &&& out.len() == src.len()
    &&& forall|k: int|
        0 <= k < src.len() ==> node_is(
            #[trigger] out[k],
            "belief:selected_memory:"@ + dec_padded(src[k] as nat, 2),
            BeliefHolder::PlayerVisibleNarrator,
            BeliefConfidence::Reported,
            statement_of(memory_statement_source(items[src[k]])).unwrap(),
            seq![memory_source_ref(items[src[k]], src[k])],
        )
}

fn number2(n: usize) -> (r: String)
    ensures
        r@ == dec_padded(n as nat, 2),
{
    dec2_string(n as u64)
}

/// Appends one belief per value with a statement (see `array_beliefs_ok`).
pub fn collect_array_beliefs(
    beliefs: &mut Vec<BeliefNode>,
    items: Option<&Vec<StatementSource>>,
    confidence: BeliefConfidence,
    label: &str,
)
    ensures
        final(beliefs)@.len() >= old(beliefs)@.len(),
        final(beliefs)@.subrange(0, old(beliefs)@.len() as int) == old(beliefs)@,
        match items {
            Some(v) => array_beliefs_ok(
                final(beliefs)@.subrange(old(beliefs)@.len() as int, final(beliefs)@.len() as int),
                v@,
                confidence,
                label@,
            ),
            None => final(beliefs)@ == old(beliefs)@,
        },
{
    let ghost start = beliefs@;
    let items = match items {
        Some(v) => v,
        None => {
            return;
        },
    };
    let mut i: usize = 0;
    while i < items.len()
        invariant
            i <= items@.len(),
            beliefs@.len() >= start.len(),
            beliefs@.subrange(0, start.len() as int) == start,
            array_beliefs_ok(
                beliefs@.subrange(start.len() as int, beliefs@.len() as int),
                items@.subrange(0, i as int),
                confidence,
                label@,
            ),
        decreases items.len() - i,
    {
        let ghost sub = items@.subrange(0, i as int);
        let ghost sub1 = items@.subrange(0, i + 1);
        let ghost before = beliefs@;
        proof {
            assert(sub1.drop_last() =~= sub);
            assert(sub1.last() == items@[i as int]);
            assert forall|k: int| 0 <= k < stated_items(sub).len() implies 0 <= #[trigger] stated_items(sub)[k] < i by {
                lemma_stated_items_bounds(sub);
            }
        }
        match visible_statement(&items[i]) {
            Some(statement) => {
                let mut id = String::from_str("belief:");
                id.append(label);
                id.append(":");
                let n = number2(i);
                id.append(n.as_str());
                let mut source = String::from_str(label);
                source.append("[");
                let d = dec_string(i as u64);
                source.append(d.as_str());
                source.append("]");
                let node = BeliefNode {
                    schema_version: String::from_str(BELIEF_NODE_SCHEMA_VERSION),
                    belief_id: id,
                    holder: BeliefHolder::Protagonist,
                    confidence,
                    statement,
                    source_refs: vec![source],
                };
                beliefs.push(node);
                proof {
                    let out = beliefs@.subrange(start.len() as int, beliefs@.len() as int);
                    let prev = before.subrange(start.len() as int, before.len() as int);
                    assert(out =~= prev.push(node));
                    assert(stated_items(sub1) == stated_items(sub).push(i as int));
                    assert(views(node.source_refs@) =~= seq![label@ + "["@ + dec(i as nat) + "]"@]);
                    assert(beliefs@.subrange(0, start.len() as int) =~= before.subrange(0, start.len() as int));
                    assert forall|k: int| 0 <= k < stated_items(sub1).len() implies node_is(
                        #[trigger] out[k],
                        "belief:"@ + label@ + ":"@ + dec_padded(stated_items(sub1)[k] as nat, 2),
                        BeliefHolder::Protagonist,
                        confidence,
                        statement_of(sub1[stated_items(sub1)[k]]).unwrap(),
                        seq![label@ + "["@ + dec(stated_items(sub1)[k] as nat) + "]"@],
                    ) by {
                        if k < stated_items(sub).len() {
                            assert(out[k] == prev[k]);
                            assert(sub1[stated_items(sub)[k]] == sub[stated_items(sub)[k]]);
                        }
                    }
                }
            },
            None => {
                proof {
                    assert(stated_items(sub1) == stated_items(sub));
                    assert forall|k: int| 0 <= k < stated_items(sub).len() implies sub1[#[trigger] stated_items(sub)[k]] == sub[stated_items(sub)[k]] by {}
                }
            },
        }
        i = i + 1;
    }
    assert(items@.subrange(0, items@.len() as int) =~= items@);
}

proof fn lemma_stated_items_bounds(items: Seq<StatementSource>)
    ensures
        forall|k: int| 0 <= k < stated_items(items).len() ==> 0 <= #[trigger] stated_items(items)[k] < items.len(),
    decreases items.len(),
{
    if items.len() > 0 {
        let d = items.drop_last();
        lemma_stated_items_bounds(d);
        let p = stated_items(d);
        assert forall|k: int| 0 <= k < stated_items(items).len() implies 0 <= #[trigger] stated_items(items)[k] < items.len() by {
            if statement_of(items.last()) is Some {
                if k < p.len() {
                    assert(stated_items(items)[k] == p[k]);
                }
            } else {
                assert(stated_items(items)[k] == p[k]);
            }
        }
    }
}

proof fn lemma_stated_memory_bounds(items: Seq<SelectedMemoryItem>)
    ensures
        forall|k: int| 0 <= k < stated_memory(items).len() ==> 0 <= #[trigger] stated_memory(items)[k] < items.len(),
    decreases items.len(),
{
    if items.len() > 0 {
        let d = items.drop_last();
        lemma_stated_memory_bounds(d);
        let p = stated_memory(d);
        assert forall|k: int| 0 <= k < stated_memory(items).len() implies 0 <= #[trigger] stated_memory(items)[k] < items.len() by {
            if statement_of(memory_statement_source(items.last())) is Some {
                if k < p.len() {
                    assert(stated_memory(items)[k] == p[k]);
                }
            } else {
                assert(stated_memory(items)[k] == p[k]);
            }
        }
    }
}

/// Appends one belief per selected memory item with a statement (see
/// `memory_beliefs_ok`).
pub fn collect_selected_memory_beliefs(beliefs: &mut Vec<BeliefNode>, items: Option<&Vec<SelectedMemoryItem>>)
    ensures
        final(beliefs)@.len() >= old(beliefs)@.len(),
        final(beliefs)@.subrange(0, old(beliefs)@.len() as int) == old(beliefs)@,
        match items {
            Some(v) => memory_beliefs_ok(
                final(beliefs)@.subrange(old(beliefs)@.len() as int, final(beliefs)@.len() as int),
                v@,
            ),
            None => final(beliefs)@ == old(beliefs)@,
        },
{
    let ghost start = beliefs@;
    let items = match items {
        Some(v) => v,
        None => {
            return;
        },
    };
    let mut i: usize = 0;
    while i < items.len()
        invariant
            i <= items@.len(),
            beliefs@.len() >= start.len(),
            beliefs@.subrange(0, start.len() as int) == start,
            memory_beliefs_ok(beliefs@.subrange(start.len() as int, beliefs@.len() as int), items@.subrange(0, i as int)),
        decreases items.len() - i,
    {
        let ghost sub = items@.subrange(0, i as int);
        let ghost sub1 = items@.subrange(0, i + 1);
        let ghost before = beliefs@;
        proof {
            assert(sub1.drop_last() =~= sub);
            assert(sub1.last() == items@[i as int]);
            lemma_stated_memory_bounds(sub);
        }
        let item = &items[i];
        let source = match &item.payload_visible_summary {
            Some(v) => v,
            None => match &item.payload_summary {
                Some(v) => v,
                None => &item.whole,
            },
        };
        match visible_statement(source) {
            Some(statement) => {
                let mut id = String::from_str("belief:selected_memory:");
                let n = number2(i);
                id.append(n.as_str());
                let source_ref = match &item.source_id {
                    JsonField::Text(t) => t.clone(),
                    _ => {
                        let d = dec_string(i as u64);
                        let mut m = String::from_str("selected_memory_items[");
                        m.append(d.as_str());
                        m.append("]");
                        m
                    },
                };
                let node = BeliefNode {
                    schema_version: String::from_str(BELIEF_NODE_SCHEMA_VERSION),
                    belief_id: id,
                    holder: BeliefHolder::PlayerVisibleNarrator,
                    confidence: BeliefConfidence::Reported,
                    statement,
                    source_refs: vec![source_ref],
                };
                beliefs.push(node);
                proof {
                    let out = beliefs@.subrange(start.len() as int, beliefs@.len() as int);
                    let prev = before.subrange(start.len() as int, before.len() as int);
                    assert(out =~= prev.push(node));
                    assert(stated_memory(sub1) == stated_memory(sub).push(i as int));
                    assert(views(node.source_refs@) =~= seq![memory_source_ref(items@[i as int], i as int)]);
                    assert(beliefs@.subrange(0, start.len() as int) =~= before.subrange(0, start.len() as int));
                    assert forall|k: int| 0 <= k < stated_memory(sub1).len() implies node_is(
                        #[trigger] out[k],
                        "belief:selected_memory:"@ + dec_padded(stated_memory(sub1)[k] as nat, 2),
                        BeliefHolder::PlayerVisibleNarrator,
                        BeliefConfidence::Reported,
                        statement_of(memory_statement_source(sub1[stated_memory(sub1)[k]])).unwrap(),
                        seq![memory_source_ref(sub1[stated_memory(sub1)[k]], stated_memory(sub1)[k])],
                    ) by {
                        if k < stated_memory(sub).len() {
                            assert(out[k] == prev[k]);
                            assert(sub1[stated_memory(sub)[k]] == sub[stated_memory(sub)[k]]);
                        }
                    }
                }
            },
            None => {
                proof {
                    assert(stated_memory(sub1) == stated_memory(sub));
                    assert forall|k: int| 0 <= k < stated_memory(sub).len() implies sub1[#[trigger] stated_memory(sub)[k]] == sub[stated_memory(sub)[k]] by {}
                }
            },
        }
        i = i + 1;
    }
    assert(items@.subrange(0, items@.len() as int) =~= items@);
}

/// The limits on what the narrator may state as known.
pub const KNOWLEDGE_LIMIT_DIRECT: &'static str = "주인공이 직접 보거나 들은 것, 또는 selected_memory_items로 제공된 사실만 확정 서술한다.";
pub const KNOWLEDGE_LIMIT_RESERVE: &'static str = "원인, 정체, 배후, 과거사, 장면 밖 세계 규칙은 belief node가 없으면 유보한다.";
pub const KNOWLEDGE_LIMIT_SIGNS: &'static str = "불확실한 사실은 몸의 반응, 관찰 가능한 단서, 타인의 말투로만 드러낸다.";

/// Compiles the belief graph of a turn: observed beliefs from the known
/// facts, then reported ones from the selected memory items (each when the
/// JSON value is an array), with the narrator's knowledge limits.
pub fn compile_belief_graph_packet(
    world_id: &str,
    turn_id: &str,
    known_facts: Option<&Vec<StatementSource>>,
    selected_memory_items: Option<&Vec<SelectedMemoryItem>>,
) -> (r: BeliefGraphPacket)
    ensures
        r.schema_version@ == BELIEF_GRAPH_PACKET_SCHEMA_VERSION@,
        r.world_id@ == world_id@,
        r.turn_id@ == turn_id@,
        ({
            let n1 = match known_facts {
                Some(v) => stated_items(v@).len(),
                None => 0,
            };
            let beliefs = r.protagonist_visible_beliefs@;
            &&& n1 <= beliefs.len()
            &&& (known_facts matches Some(v) ==> array_beliefs_ok(
                beliefs.subrange(0, n1 as int),
                v@,
                BeliefConfidence::Observed,
                "known_facts"@,
            ))
            &&& (selected_memory_items matches Some(v) ==> memory_beliefs_ok(
                beliefs.subrange(n1 as int, beliefs.len() as int),
                v@,
            ))
            &&& (selected_memory_items is None ==> beliefs.len() == n1)
        }),
        views(r.narrator_knowledge_limits@) == seq![
            KNOWLEDGE_LIMIT_DIRECT@,
            KNOWLEDGE_LIMIT_RESERVE@,
            KNOWLEDGE_LIMIT_SIGNS@,
        ],
        r.compiler_policy.source@ == BELIEF_POLICY_SOURCE@,
{
    let mut beliefs: Vec<BeliefNode> = Vec::new();
    collect_array_beliefs(&mut beliefs, known_facts, BeliefConfidence::Observed, "known_facts");
    let ghost first = beliefs@;
    proof {
        assert(beliefs@.subrange(0, 0) =~= Seq::<BeliefNode>::empty());
        assert(first.subrange(0, first.len() as int) =~= first);
    }
    collect_selected_memory_beliefs(&mut beliefs, selected_memory_items);
    proof {
        assert(beliefs@.subrange(0, first.len() as int) == first);
    }
    let limits = vec![
        String::from_str(KNOWLEDGE_LIMIT_DIRECT),
        String::from_str(KNOWLEDGE_LIMIT_RESERVE),
        String::from_str(KNOWLEDGE_LIMIT_SIGNS),
    ];
    assert(views(limits@) =~= seq![KNOWLEDGE_LIMIT_DIRECT@, KNOWLEDGE_LIMIT_RESERVE@, KNOWLEDGE_LIMIT_SIGNS@]);
    BeliefGraphPacket {
        schema_version: String::from_str(BELIEF_GRAPH_PACKET_SCHEMA_VERSION),
        world_id: String::from_str(world_id),
        turn_id: String::from_str(turn_id),
        protagonist_visible_beliefs: beliefs,
        narrator_knowledge_limits: limits,
        compiler_policy: BeliefGraphPolicy::default(),
    }
}

// ---------------------------------------------------------------------------
// Belief events.
// ---------------------------------------------------------------------------

/// A belief event record as text.
pub open spec fn belief_record_is(
    r: BeliefEventRecord,
    world_id: Seq<char>,
    turn_id: Seq<char>,
    index: int,
    holder: BeliefHolder,
    confidence: BeliefConfidence,
    statement: Seq<char>,
    source_ref: Seq<char>,
    recorded_at: Seq<char>,
) -> bool {
    &&& r.schema_version@ == BELIEF_EVENT_SCHEMA_VERSION@
    &&& r.world_id@ == world_id
    &&& r.turn_id@ == turn_id
    &&& r.event_id@ == "belief_event:"@ + turn_id + ":"@ + dec_padded(index as nat, 2)
    &&& r.holder == holder
    &&& r.confidence == confidence
    &&& r.statement@ == statement
    &&& views(r.source_refs@) == seq![source_ref]
    &&& r.recorded_at@ == recorded_at
}

/// The canon event is recorded when it is player-visible.
pub open spec fn canon_recorded(response: AgentTurnResponse) -> bool {
    response.canon_event matches Some(e) && e.visibility@ == "player_visible"@
}

pub open spec fn visible_constraints_of(response: AgentTurnResponse) -> Seq<String> {
    match response.adjudication {
        Some(a) => a.visible_constraints@,
        None => Seq::empty(),
    }
}

fn belief_event(
    world_id: &str,
    turn_id: &str,
    index: usize,
    holder: BeliefHolder,
    confidence: BeliefConfidence,
    statement: &str,
    source_ref: String,
    recorded_at: &str,
) -> (r: BeliefEventRecord)
    ensures
        belief_record_is(r, world_id@, turn_id@, index as int, holder, confidence, statement@, source_ref@, recorded_at@),
{
    let mut event_id = String::from_str("belief_event:");
    event_id.append(turn_id);
    event_id.append(":");
    let n = number2(index);
    event_id.append(n.as_str());
    let refs = vec![source_ref];
    assert(views(refs@) =~= seq![source_ref@]);
    BeliefEventRecord {
        schema_version: String::from_str(BELIEF_EVENT_SCHEMA_VERSION),
        world_id: String::from_str(world_id),
        turn_id: String::from_str(turn_id),
        event_id,
        holder,
        confidence,
        statement: String::from_str(statement),
        source_refs: refs,
        recorded_at: String::from_str(recorded_at),
    }
}

/// The belief records of a turn: the player-visible canon event as the
/// narrator's observation, then each visible adjudication constraint as the
/// protagonist's inference; all stamped with `recorded_at`.
pub open spec fn belief_plan_is(
    plan: BeliefEventPlan,
    world_id: Seq<char>,
    turn_id: Seq<char>,
    response: AgentTurnResponse,
    recorded_at: Seq<char>,
) -> bool {
    let c: int = if canon_recorded(response) { 1 } else { 0 };
    let cs = visible_constraints_of(response);
    &&& plan.world_id@ == world_id
    &&& plan.turn_id@ == turn_id
    &&& plan.records@.len() == c + cs.len()
    &&& (canon_recorded(response) ==> belief_record_is(
        plan.records@[0],
        world_id,
        turn_id,
        0,
        BeliefHolder::PlayerVisibleNarrator,
        BeliefConfidence::Observed,
        trim(response.canon_event.unwrap().summary@),
        "canon_event:"@ + turn_id,
        recorded_at,
    ))
    &&& forall|k: int|
        0 <= k < cs.len() ==> belief_record_is(
            #[trigger] plan.records@[c + k],
            world_id,
            turn_id,
            c + k,
            BeliefHolder::Protagonist,
            BeliefConfidence::Inferred,
            trim(cs[k]@),
            "adjudication:"@ + turn_id,
            recorded_at,
        )
}

pub fn plan_belief_events(world_id: &str, turn_id: &str, response: &AgentTurnResponse, recorded_at: &str) -> (r:
    BeliefEventPlan)
    ensures
        belief_plan_is(r, world_id@, turn_id@, *response, recorded_at@),
{
    let mut records: Vec<BeliefEventRecord> = Vec::new();
    match &response.canon_event {
        Some(e) => {
            if str_eq(e.visibility.as_str(), "player_visible") {
                let rec = belief_event(
                    world_id,
                    turn_id,
                    0,
                    BeliefHolder::PlayerVisibleNarrator,
                    BeliefConfidence::Observed,
                    trim_str(e.summary.as_str()),
                    concat2("canon_event:", turn_id),
                    recorded_at,
                );
                records.push(rec);
            }
        },
        None => {},
    }
    let ghost c: int = if canon_recorded(*response) { 1 } else { 0 };
    assert(records@.len() == c);
    match &response.adjudication {
        Some(a) => {
            let cs = &a.visible_constraints;
            let mut i: usize = 0;
            while i < cs.len()
                invariant
                    i <= cs@.len(),
                    cs@ == visible_constraints_of(*response),
                    records@.len() == c + i,
                    c == 0 || c == 1,
                    canon_recorded(*response) <==> c == 1,
                    canon_recorded(*response) ==> belief_record_is(
                        records@[0],
                        world_id@,
                        turn_id@,
                        0,
                        BeliefHolder::PlayerVisibleNarrator,
                        BeliefConfidence::Observed,
                        trim(response.canon_event.unwrap().summary@),
                        "canon_event:"@ + turn_id@,
                        recorded_at@,
                    ),
                    forall|k: int|
                        0 <= k < i ==> belief_record_is(
                            #[trigger] records@[c + k],
                            world_id@,
                            turn_id@,
                            c + k,
                            BeliefHolder::Protagonist,
                            BeliefConfidence::Inferred,
                            trim(cs@[k]@),
                            "adjudication:"@ + turn_id@,
                            recorded_at@,
                        ),
                decreases cs.len() - i,
            {
                let index = records.len();
                let rec = belief_event(
                    world_id,
                    turn_id,
                    index,
                    BeliefHolder::Protagonist,
                    BeliefConfidence::Inferred,
                    trim_str(cs[i].as_str()),
                    concat2("adjudication:", turn_id),
                    recorded_at,
                );
                records.push(rec);
                proof {
                    assert(records@[c + i] == rec);
                }
                i = i + 1;
            }
        },
        None => {},
    }
    BeliefEventPlan { world_id: String::from_str(world_id), turn_id: String::from_str(turn_id), records }
}

/// The belief records of a turn, stamped with the current time. Whatever
/// time came back, the records are the plan's records stamped with it.
pub fn prepare_belief_event_plan(world_id: &str, turn_id: &str, response: &AgentTurnResponse) -> (out: Option<BeliefEventPlan>)
    ensures
        out is Some ==> exists|t: Seq<char>| #[trigger] belief_plan_is(out->0, world_id@, turn_id@, *response, t),
{
    let now = match now_rfc3339() {
        Some(t) => t,
        None => return None,
    };
    let plan = plan_belief_events(world_id, turn_id, response, now.as_str());
    assert(belief_plan_is(plan, world_id@, turn_id@, *response, now@));
    let out = Some(plan);
    assert(out->0 == plan);
    out
}

// ---------------------------------------------------------------------------
// Materialising the graph.
// ---------------------------------------------------------------------------

pub open spec fn same_node(a: BeliefNode, b: BeliefNode) -> bool {
    &&& a.schema_version == b.schema_version
    &&& a.belief_id == b.belief_id
    &&& a.holder == b.holder
    &&& a.confidence == b.confidence
    &&& a.statement == b.statement
    &&& a.source_refs@ == b.source_refs@
}

/// The node a belief event becomes.
pub open spec fn node_of_event(n: BeliefNode, r: BeliefEventRecord) -> bool {
    &&& n.schema_version@ == BELIEF_NODE_SCHEMA_VERSION@
    &&& n.belief_id@ == "belief:event:"@ + r.event_id@
    &&& n.holder == r.holder
    &&& n.confidence == r.confidence
    &&& n.statement == r.statement
    &&& n.source_refs == r.source_refs
}

pub fn belief_node_from_event(record: BeliefEventRecord) -> (r: BeliefNode)
    ensures
        node_of_event(r, record),
{
    BeliefNode {
        schema_version: String::from_str(BELIEF_NODE_SCHEMA_VERSION),
        belief_id: concat2("belief:event:", record.event_id.as_str()),
        holder: record.holder,
        confidence: record.confidence,
        statement: record.statement,
        source_refs: record.source_refs,
    }
}

fn copy_node(n: &BeliefNode) -> (r: BeliefNode)
    ensures
        same_node(r, *n),
{
    BeliefNode {
        schema_version: n.schema_version.clone(),
        belief_id: n.belief_id.clone(),
        holder: n.holder,
        confidence: n.confidence,
        statement: n.statement.clone(),
        source_refs: clone_strings(&n.source_refs),
    }
}

/// The beliefs of a materialised graph: the base's, then the newest events
/// newest first, sixteen at most in all.
pub open spec fn rebuilt_belief_at(
    n: BeliefNode,
    base: Seq<BeliefNode>,
    records: Seq<BeliefEventRecord>,
    k: int,
) -> bool {
    if k < base.len() {
        same_node(n, base[k])
    } else {
        node_of_event(n, records[records.len() - 1 - (k - base.len())])
    }
}

pub open spec fn rebuilt_belief_count(base: Seq<BeliefNode>, records: Seq<BeliefEventRecord>) -> nat {
    let newest = if records.len() < PERSISTED_BELIEF_BUDGET { records.len() } else { PERSISTED_BELIEF_BUDGET as nat };
    if base.len() + newest < PERSISTED_BELIEF_BUDGET {
        base.len() + newest
    } else {
        PERSISTED_BELIEF_BUDGET as nat
    }
}

/// Materialises the belief graph from a base packet and the belief events.
pub fn rebuild_belief_graph(base_packet: &BeliefGraphPacket, records: Vec<BeliefEventRecord>) -> (r: BeliefGraphPacket)
    ensures
        r.schema_version@ == BELIEF_GRAPH_PACKET_SCHEMA_VERSION@,
        r.world_id == base_packet.world_id,
        r.turn_id == base_packet.turn_id,
        r.protagonist_visible_beliefs@.len() == rebuilt_belief_count(base_packet.protagonist_visible_beliefs@, records@),
        forall|k: int|
            0 <= k < r.protagonist_visible_beliefs@.len() ==> rebuilt_belief_at(
                #[trigger] r.protagonist_visible_beliefs@[k],
                base_packet.protagonist_visible_beliefs@,
                records@,
                k,
            ),
        r.narrator_knowledge_limits@ == base_packet.narrator_knowledge_limits@,
        r.compiler_policy.source@ == BELIEF_MATERIALIZED_SOURCE@,
{
    let ghost base = base_packet.protagonist_visible_beliefs@;
    let ghost all = records@;
    let mut beliefs: Vec<BeliefNode> = Vec::new();
    let bs = &base_packet.protagonist_visible_beliefs;
    let mut i: usize = 0;
    while i < bs.len() && i < PERSISTED_BELIEF_BUDGET
        invariant
            i <= bs@.len(),
            i <= PERSISTED_BELIEF_BUDGET,
            bs@ == base,
            beliefs@.len() == i,
            forall|k: int| 0 <= k < i ==> rebuilt_belief_at(#[trigger] beliefs@[k], base, all, k),
        decreases bs.len() - i,
    {
        beliefs.push(copy_node(&bs[i]));
        i = i + 1;
    }
    let mut rest = records;
    let mut taken: usize = 0;
    while beliefs.len() < PERSISTED_BELIEF_BUDGET && taken < PERSISTED_BELIEF_BUDGET && rest.len() > 0
        invariant
            taken <= PERSISTED_BELIEF_BUDGET,
            beliefs@.len() <= PERSISTED_BELIEF_BUDGET,
            rest@.len() + taken == all.len(),
            rest@ == all.subrange(0, rest@.len() as int),
            beliefs@.len() == (if base.len() < PERSISTED_BELIEF_BUDGET { base.len() } else { PERSISTED_BELIEF_BUDGET as nat }) + taken,
            forall|k: int| 0 <= k < beliefs@.len() ==> rebuilt_belief_at(#[trigger] beliefs@[k], base, all, k),
        decreases rest.len(),
    {
        if let Some(rec) = rest.pop() {
            let ghost k = beliefs@.len() as int;
            proof {
                assert(rec == all[all.len() - 1 - taken]);
            }
            let node = belief_node_from_event(rec);
            beliefs.push(node);
            proof {
                assert(beliefs@[k] == node);
            }
            taken = taken + 1;
        }
    }
    BeliefGraphPacket {
        schema_version: String::from_str(BELIEF_GRAPH_PACKET_SCHEMA_VERSION),
        world_id: base_packet.world_id.clone(),
        turn_id: base_packet.turn_id.clone(),
        protagonist_visible_beliefs: beliefs,
        narrator_knowledge_limits: clone_strings(&base_packet.narrator_knowledge_limits),
        compiler_policy: BeliefGraphPolicy {
            source: String::from_str(BELIEF_MATERIALIZED_SOURCE),
            use_rules: BeliefGraphPolicy::default().use_rules,
        },
    }
}

} // verus!
