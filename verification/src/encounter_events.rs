//! The encounter events of a turn: the agent's encounter proposal checked
//! against what the player can see, then turned into event records together
//! with the closures of a scene transition, the surfaces of new choices and
//! the surfaces of resolution gates.
use crate::agent_bridge::AgentTurnResponse;
use crate::chat::{all_ascii_digits, digits_value, is_ascii_digit};
use crate::encounter_surface::{
    derive_resolution_gate_mutations, gate_mutations_are, choice_mutation_is, mutation_from_choice,
    EncounterPersistence, EncounterSurface, EncounterSurfaceEventPlan, EncounterSurfaceEventRecord,
    ENCOUNTER_SURFACE_EVENT_SCHEMA_VERSION,
    EncounterAffordance, EncounterConstraint, slot_ref, slot_ref_of, EncounterClosureKind, EncounterProposal, EncounterSurfaceClosure,
    EncounterSurfaceMutation, EncounterSurfacePacket, ENCOUNTER_PROPOSAL_SCHEMA_VERSION,
};
use crate::models::TurnChoice;
use crate::resolution::{ResolutionProposal, ResolutionVisibility};
use crate::clock::now_rfc3339;
use crate::text::{
    clone_strings, concat2, dec_padded, dec2_string, concat3, dec, dec4_string, dec_string, has_text, has_text_exec, is_blank, is_blank_str, join,
    join_strings, starts_with, str_eq, strip_prefix_str, views, lemma_views_push, lemma_has_text_views,
};
use vstd::prelude::*;

verus! {

// ---------------------------------------------------------------------------
// Turn ids.
// ---------------------------------------------------------------------------

/// `str::parse::<u64>`: an optional `+`, then at least one ASCII digit, with
/// a value that fits in `u64`.
pub open spec fn parse_u64_text(s: Seq<char>) -> Option<nat> {
    let d = if s.len() > 0 && s[0] == '+' {
        s.drop_first()
    } else {
        s
    };
    if d.len() > 0 && all_ascii_digits(d) && digits_value(d) <= u64::MAX {
        Some(digits_value(d))
    } else {
        None
    }
}

proof fn lemma_digits_value_grows(s: Seq<char>, n: int)
    requires
        0 <= n <= s.len(),
        all_ascii_digits(s),
    ensures
        digits_value(s.subrange(0, n)) <= digits_value(s),
    decreases s.len(),
{
    if n < s.len() {
        let d = s.drop_last();
        assert(d.subrange(0, n) =~= s.subrange(0, n));
        assert(all_ascii_digits(d)) by {
            assert forall|i: int| 0 <= i < d.len() implies is_ascii_digit(#[trigger] d[i]) by {
                assert(d[i] == s[i]);
            }
        }
        lemma_digits_value_grows(d, n);
        assert(is_ascii_digit(s[s.len() - 1]));
    } else {
        assert(s.subrange(0, n) =~= s);
    }
}

/// Parses a `u64` as `str::parse` does.
pub fn parse_u64_str(s: &str) -> (r: Option<u64>)
    ensures
        match r {
            Some(v) => parse_u64_text(s@) == Some(v as nat),
            None => parse_u64_text(s@) is None,
        },
{
    let n = s.unicode_len();
    let mut start: usize = 0;
    if n > 0 && s.get_char(0) == '+' {
        start = 1;
    }
    let ghost d = if s@.len() > 0 && s@[0] == '+' {
        s@.drop_first()
    } else {
        s@
    };
    assert(d =~= s@.subrange(start as int, n as int));
    if start >= n {
        return None;
    }
    let mut value: u64 = 0;
    let mut i: usize = start;
    while i < n
        invariant
            n == s@.len(),
            start <= i <= n,
            start < n,
            d == s@.subrange(start as int, n as int),
            d == (if s@.len() > 0 && s@[0] == '+' {
                s@.drop_first()
            } else {
                s@
            }),
            all_ascii_digits(s@.subrange(start as int, i as int)),
            value as nat == digits_value(s@.subrange(start as int, i as int)),
        decreases n - i,
    {
        let c = s.get_char(i);
        let sub = Ghost(s@.subrange(start as int, i + 1));
        assert(sub@.drop_last() =~= s@.subrange(start as int, i as int));
        assert(sub@.last() == c);
        if !('0' <= c && c <= '9') {
            assert(!is_ascii_digit(d[i - start]));
            return None;
        }
        let digit = (c as u64) - ('0' as u64);
        assert(all_ascii_digits(sub@)) by {
            assert forall|j: int| 0 <= j < sub@.len() implies is_ascii_digit(#[trigger] sub@[j]) by {
                if j < sub@.len() - 1 {
                    assert(sub@[j] == s@.subrange(start as int, i as int)[j]);
                }
            }
        }
        if value > (u64::MAX - digit) / 10 {
            proof {
                assert(digits_value(sub@) == value * 10 + digit);
                assert(value * 10 + digit > u64::MAX) by (nonlinear_arith)
                    requires
                        value > (u64::MAX - digit) / 10,
                        digit <= 9,
                ;
                let rest_ok = all_ascii_digits(d);
                if rest_ok {
                    assert(sub@ =~= d.subrange(0, i + 1 - start));
                    lemma_digits_value_grows(d, i + 1 - start);
                }
            }
            return None;
        }
        proof {
            assert(value * 10 + digit <= u64::MAX) by (nonlinear_arith)
                requires
                    value <= (u64::MAX - digit) / 10,
                    digit <= 9,
            ;
        }
        value = value * 10 + digit;
        i = i + 1;
    }
    assert(s@.subrange(start as int, n as int) =~= d);
    Some(value)
}

/// The number of a `turn_<n>` id.
pub open spec fn turn_index(turn_id: Seq<char>) -> Option<nat> {
    if starts_with(turn_id, "turn_"@) {
        parse_u64_text(turn_id.subrange(5, turn_id.len() as int))
    } else {
        None
    }
}

/// The id of the turn after `turn_id`, zero-padded to four digits.
pub open spec fn next_turn_of(turn_id: Seq<char>) -> Option<Seq<char>> {
    match turn_index(turn_id) {
        Some(v) => Some("turn_"@ + crate::text::dec_padded((v + 1) as nat, 4)),
        None => None,
    }
}

/// The id of the next turn, or `None` when `turn_id` is not `turn_<u64>`.
pub fn encounter_next_turn_id(turn_id: &str) -> (r: Option<String>)
    requires
        turn_index(turn_id@) != Some(u64::MAX as nat),
    ensures
        r is Some <==> next_turn_of(turn_id@) is Some,
        r matches Some(t) ==> next_turn_of(turn_id@) == Some(t@),
{
    proof {
        reveal_strlit("turn_");
    }
    let rest = match strip_prefix_str(turn_id, "turn_") {
        Some(rest) => rest,
        None => {
            return None;
        },
    };
    let index = match parse_u64_str(rest) {
        Some(v) => v,
        None => {
            return None;
        },
    };
    let mut out = String::from_str("turn_");
    let digits = crate::text::dec4_string(index + 1);
    out.append(digits.as_str());
    Some(out)
}

// ---------------------------------------------------------------------------
// What the player can see of a response.
// ---------------------------------------------------------------------------

/// `visible_scene.text_blocks[i]` for each block, and each non-blank block's text.
pub open spec fn block_refs(blocks: Seq<String>) -> Seq<Seq<char>>
    decreases blocks.len(),
{
    if blocks.len() == 0 {
        Seq::empty()
    } else {
        let p = block_refs(blocks.drop_last()).push(
            "visible_scene.text_blocks["@ + dec((blocks.len() - 1) as nat) + "]"@,
        );
        if is_blank(blocks.last()@) {
            p
        } else {
            p.push(blocks.last()@)
        }
    }
}

/// Each choice's slot ref, tag and intent.
pub open spec fn choice_refs(cs: Seq<TurnChoice>) -> Seq<Seq<char>>
    decreases cs.len(),
{
    if cs.len() == 0 {
        Seq::empty()
    } else {
        choice_refs(cs.drop_last()).push(slot_ref(cs.last().slot)).push(cs.last().tag@).push(
            cs.last().intent@,
        )
    }
}

/// The evidence of player-visible gates.
pub open spec fn visible_gate_refs(gates: Seq<crate::resolution::GateResult>) -> Seq<Seq<char>>
    decreases gates.len(),
{
    if gates.len() == 0 {
        Seq::empty()
    } else if gates.last().visibility == ResolutionVisibility::PlayerVisible {
        visible_gate_refs(gates.drop_last()) + views(gates.last().evidence_refs@)
    } else {
        visible_gate_refs(gates.drop_last())
    }
}

/// Every reference the player can see in a response: scene blocks, choices,
/// the canon event's summary, the resolution's outcome evidence and the
/// evidence of its player-visible gates.
pub open spec fn visible_ref_list(r: AgentTurnResponse) -> Seq<Seq<char>> {
    let canon = match r.canon_event {
        Some(e) => seq![e.summary@],
        None => Seq::empty(),
    };
    let res = match r.resolution_proposal {
        Some(p) => views(p.outcome.evidence_refs@) + visible_gate_refs(p.gate_results@),
        None => Seq::empty(),
    };
    block_refs(r.visible_scene.text_blocks@) + choice_refs(r.next_choices@) + canon + res
}

fn push_text(out: &mut Vec<String>, s: String)
    ensures
        views(final(out)@) == views(old(out)@).push(s@),
{
    let ghost prev = out@;
    out.push(s);
    proof {
        lemma_views_push(prev, s);
    }
}

fn push_all(out: &mut Vec<String>, items: &Vec<String>)
    ensures
        views(final(out)@) == views(old(out)@) + views(items@),
{
    let ghost start = views(out@);
    let mut i: usize = 0;
    while i < items.len()
        invariant
            i <= items@.len(),
            views(out@) == start + views(items@.subrange(0, i as int)),
        decreases items.len() - i,
    {
        push_text(out, items[i].clone());
        assert(views(items@.subrange(0, i + 1)) =~= views(items@.subrange(0, i as int)).push(items@[i as int]@));
        assert(start + views(items@.subrange(0, i as int)).push(items@[i as int]@) =~= (start + views(
            items@.subrange(0, i as int),
        )).push(items@[i as int]@));
        i = i + 1;
    }
    assert(items@.subrange(0, items@.len() as int) =~= items@);
}

/// The references the player can see in a response (see `visible_ref_list`).
pub fn response_visible_refs(response: &AgentTurnResponse) -> (r: Vec<String>)
    ensures
        views(r@) == visible_ref_list(*response),
{
    let mut refs: Vec<String> = Vec::new();
    let blocks = &response.visible_scene.text_blocks;
    let mut i: usize = 0;
    while i < blocks.len()
        invariant
            i <= blocks@.len(),
            blocks == &response.visible_scene.text_blocks,
            views(refs@) == block_refs(blocks@.subrange(0, i as int)),
        decreases blocks.len() - i,
    {
        proof {
            assert(blocks@.subrange(0, i + 1).drop_last() =~= blocks@.subrange(0, i as int));
            assert(blocks@.subrange(0, i + 1).last() == blocks@[i as int]);
        }
        let n = dec_string(i as u64);
        push_text(&mut refs, concat3("visible_scene.text_blocks[", n.as_str(), "]"));
        if !is_blank_str(blocks[i].as_str()) {
            push_text(&mut refs, blocks[i].clone());
        }
        i = i + 1;
    }
    assert(blocks@.subrange(0, blocks@.len() as int) =~= blocks@);
    let ghost after_blocks = views(refs@);
    let cs = &response.next_choices;
    let mut j: usize = 0;
    while j < cs.len()
        invariant
            j <= cs@.len(),
            cs == &response.next_choices,
            views(refs@) == after_blocks + choice_refs(cs@.subrange(0, j as int)),
        decreases cs.len() - j,
    {
        proof {
            assert(cs@.subrange(0, j + 1).drop_last() =~= cs@.subrange(0, j as int));
            assert(cs@.subrange(0, j + 1).last() == cs@[j as int]);
        }
        let ghost before = views(refs@);
        push_text(&mut refs, slot_ref_of(cs[j].slot));
        push_text(&mut refs, cs[j].tag.clone());
        push_text(&mut refs, cs[j].intent.clone());
        proof {
            let c = cs@[j as int];
            assert(views(refs@) =~= before.push(slot_ref(c.slot)).push(c.tag@).push(c.intent@));
            assert(after_blocks + choice_refs(cs@.subrange(0, j + 1)) =~= (after_blocks + choice_refs(
                cs@.subrange(0, j as int),
            )).push(slot_ref(c.slot)).push(c.tag@).push(c.intent@));
        }
        j = j + 1;
    }
    assert(cs@.subrange(0, cs@.len() as int) =~= cs@);
    let ghost after_choices = views(refs@);
    match &response.canon_event {
        Some(e) => {
            push_text(&mut refs, e.summary.clone());
        },
        None => {},
    }
    let ghost after_canon = views(refs@);
    match &response.resolution_proposal {
        Some(p) => {
            push_all(&mut refs, &p.outcome.evidence_refs);
            let ghost after_outcome = views(refs@);
            let gates = &p.gate_results;
            let mut g: usize = 0;
            while g < gates.len()
                invariant
                    g <= gates@.len(),
                    views(refs@) == after_outcome + visible_gate_refs(gates@.subrange(0, g as int)),
                decreases gates.len() - g,
            {
                proof {
                    assert(gates@.subrange(0, g + 1).drop_last() =~= gates@.subrange(0, g as int));
                    assert(gates@.subrange(0, g + 1).last() == gates@[g as int]);
                }
                if gates[g].visibility == ResolutionVisibility::PlayerVisible {
                    let ghost before = views(refs@);
                    push_all(&mut refs, &gates[g].evidence_refs);
                    assert(after_outcome + visible_gate_refs(gates@.subrange(0, g + 1)) =~= before
                        + views(gates@[g as int].evidence_refs@));
                }
                g = g + 1;
            }
            assert(gates@.subrange(0, gates@.len() as int) =~= gates@);
        },
        None => {},
    }
    proof {
        let v = *response;
        let canon = match v.canon_event {
            Some(e) => seq![e.summary@],
            None => Seq::<Seq<char>>::empty(),
        };
        assert(after_canon =~= after_choices + canon);
        let res = match v.resolution_proposal {
            Some(p) => views(p.outcome.evidence_refs@) + visible_gate_refs(p.gate_results@),
            None => Seq::<Seq<char>>::empty(),
        };
        assert(views(refs@) =~= after_canon + res);
        assert(visible_ref_list(v) =~= block_refs(v.visible_scene.text_blocks@) + choice_refs(v.next_choices@) + canon + res);
    }
    refs
}

// ---------------------------------------------------------------------------
// Checking a proposal.
// ---------------------------------------------------------------------------

#[derive(Debug, Clone)]
pub enum EncounterProposalError {
    SchemaMismatch,
    TargetMismatch,
    MutationIncomplete,
    MissingRefs { label: String },
    HiddenRefs { label: String, missing: Vec<String> },
    AffordanceIncomplete,
    ConstraintIncomplete,
    ClosureIncomplete,
    SupersededWithoutReplacement,
    UnknownClosureSurface { surface_id: String },
}

/// What went wrong with a proposal, as text.
pub enum EncounterFault {
    SchemaMismatch,
    TargetMismatch,
    MutationIncomplete,
    MissingRefs(Seq<char>),
    HiddenRefs(Seq<char>, Seq<Seq<char>>),
    AffordanceIncomplete,
    ConstraintIncomplete,
    ClosureIncomplete,
    SupersededWithoutReplacement,
    UnknownClosureSurface(Seq<char>),
}

pub open spec fn fault_of(e: EncounterProposalError) -> EncounterFault {
    match e {
        EncounterProposalError::SchemaMismatch => EncounterFault::SchemaMismatch,
        EncounterProposalError::TargetMismatch => EncounterFault::TargetMismatch,
        EncounterProposalError::MutationIncomplete => EncounterFault::MutationIncomplete,
        EncounterProposalError::MissingRefs { label } => EncounterFault::MissingRefs(label@),
        EncounterProposalError::HiddenRefs { label, missing } => EncounterFault::HiddenRefs(
            label@,
            views(missing@),
        ),
        EncounterProposalError::AffordanceIncomplete => EncounterFault::AffordanceIncomplete,
        EncounterProposalError::ConstraintIncomplete => EncounterFault::ConstraintIncomplete,
        EncounterProposalError::ClosureIncomplete => EncounterFault::ClosureIncomplete,
        EncounterProposalError::SupersededWithoutReplacement => EncounterFault::SupersededWithoutReplacement,
        EncounterProposalError::UnknownClosureSurface { surface_id } => EncounterFault::UnknownClosureSurface(
            surface_id@,
        ),
    }
}

impl EncounterProposalError {
    pub fn message(&self) -> (r: String)
        ensures
            match self {
                EncounterProposalError::SchemaMismatch => r@
                    == "encounter proposal schema_version mismatch"@,
                EncounterProposalError::TargetMismatch => r@
                    == "encounter proposal world_id/turn_id mismatch"@,
                EncounterProposalError::MutationIncomplete => r@
                    == "encounter mutation requires id, label, summary, and visible signal"@,
                EncounterProposalError::MissingRefs { label } => r@ == label@
                    + " requires evidence/source refs"@,
                EncounterProposalError::HiddenRefs { label, missing } => r@ == label@
                    + " references non-visible refs: "@ + join(views(missing@), ", "@),
                EncounterProposalError::AffordanceIncomplete => r@
                    == "encounter affordance requires label_seed and intent_seed"@,
                EncounterProposalError::ConstraintIncomplete => r@
                    == "encounter constraint requires visible_reason"@,
                EncounterProposalError::ClosureIncomplete => r@
                    == "encounter closure requires summary"@,
                EncounterProposalError::SupersededWithoutReplacement => r@
                    == "superseded encounter closure requires replacement_surface_id"@,
                EncounterProposalError::UnknownClosureSurface { surface_id } => r@
                    == "encounter closure references unknown surface_id: "@ + surface_id@,
            },
    {
        match self {
            EncounterProposalError::SchemaMismatch => String::from_str(
                "encounter proposal schema_version mismatch",
            ),
            EncounterProposalError::TargetMismatch => String::from_str(
                "encounter proposal world_id/turn_id mismatch",
            ),
            EncounterProposalError::MutationIncomplete => String::from_str(
                "encounter mutation requires id, label, summary, and visible signal",
            ),
            EncounterProposalError::MissingRefs { label } => {
                let mut m = label.clone();
                m.append(" requires evidence/source refs");
                m
            },
            EncounterProposalError::HiddenRefs { label, missing } => {
                let mut m = label.clone();
                m.append(" references non-visible refs: ");
                let joined = join_strings(missing, ", ");
                m.append(joined.as_str());
                m
            },
            EncounterProposalError::AffordanceIncomplete => String::from_str(
                "encounter affordance requires label_seed and intent_seed",
            ),
            EncounterProposalError::ConstraintIncomplete => String::from_str(
                "encounter constraint requires visible_reason",
            ),
            EncounterProposalError::ClosureIncomplete => String::from_str(
                "encounter closure requires summary",
            ),
            EncounterProposalError::SupersededWithoutReplacement => String::from_str(
                "superseded encounter closure requires replacement_surface_id",
            ),
            EncounterProposalError::UnknownClosureSurface { surface_id } => {
                let mut m = String::from_str("encounter closure references unknown surface_id: ");
                m.append(surface_id.as_str());
                m
            },
        }
    }
}

/// The refs the player cannot see, in order.
pub open spec fn missing_refs(visible: Seq<Seq<char>>, refs: Seq<String>) -> Seq<Seq<char>>
    decreases refs.len(),
{
    if refs.len() == 0 {
        Seq::empty()
    } else if visible.contains(refs.last()@) {
        missing_refs(visible, refs.drop_last())
    } else {
        missing_refs(visible, refs.drop_last()).push(refs.last()@)
    }
}

/// Refs must be given, and all visible to the player.
pub open spec fn refs_fault(visible: Seq<Seq<char>>, label: Seq<char>, refs: Seq<String>) -> Option<
    EncounterFault,
> {
    if refs.len() == 0 {
        Some(EncounterFault::MissingRefs(label))
    } else if missing_refs(visible, refs).len() > 0 {
        Some(EncounterFault::HiddenRefs(label, missing_refs(visible, refs)))
    } else {
        None
    }
}

/// Checks that `refs` are given and all visible (see `refs_fault`).
pub fn require_visible_refs(visible: &Vec<String>, label: &str, refs: &Vec<String>) -> (r: Result<
    (),
    EncounterProposalError,
>)
    ensures
        r is Ok <==> refs_fault(views(visible@), label@, refs@) is None,
        r matches Err(e) ==> refs_fault(views(visible@), label@, refs@) == Some(fault_of(e)),
{
    if refs.len() == 0 {
        return Err(EncounterProposalError::MissingRefs { label: String::from_str(label) });
    }
    let mut missing: Vec<String> = Vec::new();
    let mut i: usize = 0;
    while i < refs.len()
        invariant
            i <= refs@.len(),
            views(missing@) == missing_refs(views(visible@), refs@.subrange(0, i as int)),
        decreases refs.len() - i,
    {
        proof {
            assert(refs@.subrange(0, i + 1).drop_last() =~= refs@.subrange(0, i as int));
            assert(refs@.subrange(0, i + 1).last() == refs@[i as int]);
            lemma_has_text_views(visible@, refs@[i as int]@);
        }
        if !has_text_exec(visible, refs[i].as_str()) {
            push_text(&mut missing, refs[i].clone());
        }
        i = i + 1;
    }
    assert(refs@.subrange(0, refs@.len() as int) =~= refs@);
    if missing.len() > 0 {
        return Err(EncounterProposalError::HiddenRefs { label: String::from_str(label), missing });
    }
    Ok(())
}

pub open spec fn affordances_fault(visible: Seq<Seq<char>>, affs: Seq<EncounterAffordance>) -> Option<
    EncounterFault,
>
    decreases affs.len(),
{
    if affs.len() == 0 {
        None
    } else {
        match affordances_fault(visible, affs.drop_last()) {
            Some(f) => Some(f),
            None => {
                let a = affs.last();
                match refs_fault(visible, "encounter affordance"@, a.evidence_refs@) {
                    Some(f) => Some(f),
                    None => if is_blank(a.label_seed@) || is_blank(a.intent_seed@) {
                        Some(EncounterFault::AffordanceIncomplete)
                    } else {
                        None
                    },
                }
            },
        }
    }
}

pub open spec fn constraints_fault(visible: Seq<Seq<char>>, cons: Seq<EncounterConstraint>) -> Option<
    EncounterFault,
>
    decreases cons.len(),
{
    if cons.len() == 0 {
        None
    } else {
        match constraints_fault(visible, cons.drop_last()) {
            Some(f) => Some(f),
            None => {
                let c = cons.last();
                match refs_fault(visible, "encounter constraint"@, c.evidence_refs@) {
                    Some(f) => Some(f),
                    None => if is_blank(c.visible_reason@) {
                        Some(EncounterFault::ConstraintIncomplete)
                    } else {
                        None
                    },
                }
            },
        }
    }
}

/// A mutation needs an id, label, summary and visible signal, visible
/// source refs, and complete, visibly grounded affordances and constraints.
pub open spec fn mutation_fault(visible: Seq<Seq<char>>, m: EncounterSurfaceMutation) -> Option<EncounterFault> {
    if is_blank(m.surface_id@) || is_blank(m.label@) || is_blank(m.summary@) || is_blank(
        m.player_visible_signal@,
    ) {
        Some(EncounterFault::MutationIncomplete)
    } else {
        match refs_fault(visible, "encounter mutation"@, m.source_refs@) {
            Some(f) => Some(f),
            None => match affordances_fault(visible, m.affordances@) {
                Some(f) => Some(f),
                None => constraints_fault(visible, m.constraints@),
            },
        }
    }
}

pub open spec fn mutations_fault(visible: Seq<Seq<char>>, ms: Seq<EncounterSurfaceMutation>) -> Option<
    EncounterFault,
>
    decreases ms.len(),
{
    if ms.len() == 0 {
        None
    } else {
        match mutations_fault(visible, ms.drop_last()) {
            Some(f) => Some(f),
            None => mutation_fault(visible, ms.last()),
        }
    }
}

/// A closure needs visible evidence and a summary; a superseding one names
/// its replacement.
pub open spec fn closure_fault(visible: Seq<Seq<char>>, c: EncounterSurfaceClosure) -> Option<EncounterFault> {
    match refs_fault(visible, "encounter closure"@, c.evidence_refs@) {
        Some(f) => Some(f),
        None => if is_blank(c.summary@) {
            Some(EncounterFault::ClosureIncomplete)
        } else if c.kind == EncounterClosureKind::Superseded && c.replacement_surface_id is None {
            Some(EncounterFault::SupersededWithoutReplacement)
        } else {
            None
        },
    }
}

pub open spec fn closures_fault(visible: Seq<Seq<char>>, cs: Seq<EncounterSurfaceClosure>) -> Option<
    EncounterFault,
>
    decreases cs.len(),
{
    if cs.len() == 0 {
        None
    } else {
        match closures_fault(visible, cs.drop_last()) {
            Some(f) => Some(f),
            None => closure_fault(visible, cs.last()),
        }
    }
}

/// The proposal is for this world and for the current turn, the next one,
/// or the response's turn.
pub open spec fn proposal_targets(
    current: EncounterSurfacePacket,
    response: AgentTurnResponse,
    proposal: EncounterProposal,
) -> bool {
    let turn_matches = proposal.turn_id@ == current.turn_id@ || next_turn_of(current.turn_id@) == Some(
        proposal.turn_id@,
    ) || proposal.turn_id@ == response.turn_id@;
    proposal.world_id@ == current.world_id@ && turn_matches
}

/// The first fault of a proposal, in checking order.
pub open spec fn proposal_fault(
    current: EncounterSurfacePacket,
    response: AgentTurnResponse,
    proposal: EncounterProposal,
) -> Option<EncounterFault> {
    let visible = visible_ref_list(response);
    if proposal.schema_version@ != ENCOUNTER_PROPOSAL_SCHEMA_VERSION@ {
        Some(EncounterFault::SchemaMismatch)
    } else if !proposal_targets(current, response, proposal) {
        Some(EncounterFault::TargetMismatch)
    } else {
        match mutations_fault(visible, proposal.mutations@) {
            Some(f) => Some(f),
            None => closures_fault(visible, proposal.closures@),
        }
    }
}

fn check_affordances(visible: &Vec<String>, affs: &Vec<EncounterAffordance>) -> (r: Result<(), EncounterProposalError>)
    ensures
        r is Ok <==> affordances_fault(views(visible@), affs@) is None,
        r matches Err(e) ==> affordances_fault(views(visible@), affs@) == Some(fault_of(e)),
{
    let mut i: usize = 0;
    while i < affs.len()
        invariant
            i <= affs@.len(),
            affordances_fault(views(visible@), affs@.subrange(0, i as int)) is None,
        decreases affs.len() - i,
    {
        proof {
            assert(affs@.subrange(0, i + 1).drop_last() =~= affs@.subrange(0, i as int));
            assert(affs@.subrange(0, i + 1).last() == affs@[i as int]);
        }
        let a = &affs[i];
        match require_visible_refs(visible, "encounter affordance", &a.evidence_refs) {
            Ok(()) => {},
            Err(e) => {
                proof {
                    lemma_fault_prefix_affordances(views(visible@), affs@, i + 1);
                }
                return Err(e);
            },
        }
        if is_blank_str(a.label_seed.as_str()) || is_blank_str(a.intent_seed.as_str()) {
            proof {
                lemma_fault_prefix_affordances(views(visible@), affs@, i + 1);
            }
            return Err(EncounterProposalError::AffordanceIncomplete);
        }
        i = i + 1;
    }
    assert(affs@.subrange(0, affs@.len() as int) =~= affs@);
    Ok(())
}

proof fn lemma_fault_prefix_affordances(visible: Seq<Seq<char>>, affs: Seq<EncounterAffordance>, n: int)
    requires
        0 <= n <= affs.len(),
        affordances_fault(visible, affs.subrange(0, n)) is Some,
    ensures
        affordances_fault(visible, affs) == affordances_fault(visible, affs.subrange(0, n)),
    decreases affs.len(),
{
    if n < affs.len() {
        assert(affs.drop_last().subrange(0, n) =~= affs.subrange(0, n));
        lemma_fault_prefix_affordances(visible, affs.drop_last(), n);
    } else {
        assert(affs.subrange(0, n) =~= affs);
    }
}

proof fn lemma_fault_prefix_constraints(visible: Seq<Seq<char>>, cons: Seq<EncounterConstraint>, n: int)
    requires
        0 <= n <= cons.len(),
        constraints_fault(visible, cons.subrange(0, n)) is Some,
    ensures
        constraints_fault(visible, cons) == constraints_fault(visible, cons.subrange(0, n)),
    decreases cons.len(),
{
    if n < cons.len() {
        assert(cons.drop_last().subrange(0, n) =~= cons.subrange(0, n));
        lemma_fault_prefix_constraints(visible, cons.drop_last(), n);
    } else {
        assert(cons.subrange(0, n) =~= cons);
    }
}

proof fn lemma_fault_prefix_mutations(visible: Seq<Seq<char>>, ms: Seq<EncounterSurfaceMutation>, n: int)
    requires
        0 <= n <= ms.len(),
        mutations_fault(visible, ms.subrange(0, n)) is Some,
    ensures
        mutations_fault(visible, ms) == mutations_fault(visible, ms.subrange(0, n)),
    decreases ms.len(),
{
    if n < ms.len() {
        assert(ms.drop_last().subrange(0, n) =~= ms.subrange(0, n));
        lemma_fault_prefix_mutations(visible, ms.drop_last(), n);
    } else {
        assert(ms.subrange(0, n) =~= ms);
    }
}

proof fn lemma_fault_prefix_closures(visible: Seq<Seq<char>>, cs: Seq<EncounterSurfaceClosure>, n: int)
    requires
        0 <= n <= cs.len(),
        closures_fault(visible, cs.subrange(0, n)) is Some,
    ensures
        closures_fault(visible, cs) == closures_fault(visible, cs.subrange(0, n)),
    decreases cs.len(),
{
    if n < cs.len() {
        assert(cs.drop_last().subrange(0, n) =~= cs.subrange(0, n));
        lemma_fault_prefix_closures(visible, cs.drop_last(), n);
    } else {
        assert(cs.subrange(0, n) =~= cs);
    }
}

fn check_constraints(visible: &Vec<String>, cons: &Vec<EncounterConstraint>) -> (r: Result<(), EncounterProposalError>)
    ensures
        r is Ok <==> constraints_fault(views(visible@), cons@) is None,
        r matches Err(e) ==> constraints_fault(views(visible@), cons@) == Some(fault_of(e)),
{
    let mut i: usize = 0;
    while i < cons.len()
        invariant
            i <= cons@.len(),
            constraints_fault(views(visible@), cons@.subrange(0, i as int)) is None,
        decreases cons.len() - i,
    {
        proof {
            assert(cons@.subrange(0, i + 1).drop_last() =~= cons@.subrange(0, i as int));
            assert(cons@.subrange(0, i + 1).last() == cons@[i as int]);
        }
        let c = &cons[i];
        match require_visible_refs(visible, "encounter constraint", &c.evidence_refs) {
            Ok(()) => {},
            Err(e) => {
                proof {
                    lemma_fault_prefix_constraints(views(visible@), cons@, i + 1);
                }
                return Err(e);
            },
        }
        if is_blank_str(c.visible_reason.as_str()) {
            proof {
                lemma_fault_prefix_constraints(views(visible@), cons@, i + 1);
            }
            return Err(EncounterProposalError::ConstraintIncomplete);
        }
        i = i + 1;
    }
    assert(cons@.subrange(0, cons@.len() as int) =~= cons@);
    Ok(())
}

fn check_mutation(visible: &Vec<String>, m: &EncounterSurfaceMutation) -> (r: Result<(), EncounterProposalError>)
    ensures
        r is Ok <==> mutation_fault(views(visible@), *m) is None,
        r matches Err(e) ==> mutation_fault(views(visible@), *m) == Some(fault_of(e)),
{
    if is_blank_str(m.surface_id.as_str()) || is_blank_str(m.label.as_str()) || is_blank_str(
        m.summary.as_str(),
    ) || is_blank_str(m.player_visible_signal.as_str()) {
        return Err(EncounterProposalError::MutationIncomplete);
    }
    match require_visible_refs(visible, "encounter mutation", &m.source_refs) {
        Ok(()) => {},
        Err(e) => {
            return Err(e);
        },
    }
    match check_affordances(visible, &m.affordances) {
        Ok(()) => {},
        Err(e) => {
            return Err(e);
        },
    }
    check_constraints(visible, &m.constraints)
}

fn check_closure(visible: &Vec<String>, c: &EncounterSurfaceClosure) -> (r: Result<(), EncounterProposalError>)
    ensures
        r is Ok <==> closure_fault(views(visible@), *c) is None,
        r matches Err(e) ==> closure_fault(views(visible@), *c) == Some(fault_of(e)),
{
    match require_visible_refs(visible, "encounter closure", &c.evidence_refs) {
        Ok(()) => {},
        Err(e) => {
            return Err(e);
        },
    }
    if is_blank_str(c.summary.as_str()) {
        return Err(EncounterProposalError::ClosureIncomplete);
    }
    if c.kind == EncounterClosureKind::Superseded && c.replacement_surface_id.is_none() {
        return Err(EncounterProposalError::SupersededWithoutReplacement);
    }
    Ok(())
}

/// Checks an encounter proposal against the current packet and what the
/// response shows the player; the first fault wins.
pub fn validate_encounter_proposal(
    current: &EncounterSurfacePacket,
    response: &AgentTurnResponse,
    proposal: &EncounterProposal,
) -> (r: Result<(), EncounterProposalError>)
    requires
        turn_index(current.turn_id@) != Some(u64::MAX as nat),
    ensures
        r is Ok <==> proposal_fault(*current, *response, *proposal) is None,
        r matches Err(e) ==> proposal_fault(*current, *response, *proposal) == Some(fault_of(e)),
{
    if !str_eq(proposal.schema_version.as_str(), ENCOUNTER_PROPOSAL_SCHEMA_VERSION) {
        return Err(EncounterProposalError::SchemaMismatch);
    }
    let next = encounter_next_turn_id(current.turn_id.as_str());
    let next_matches = match &next {
        Some(t) => str_eq(proposal.turn_id.as_str(), t.as_str()),
        None => false,
    };
    let turn_matches = str_eq(proposal.turn_id.as_str(), current.turn_id.as_str()) || next_matches
        || str_eq(proposal.turn_id.as_str(), response.turn_id.as_str());
    if !str_eq(proposal.world_id.as_str(), current.world_id.as_str()) || !turn_matches {
        return Err(EncounterProposalError::TargetMismatch);
    }
    let visible = response_visible_refs(response);
    let ms = &proposal.mutations;
    let mut i: usize = 0;
    while i < ms.len()
        invariant
            i <= ms@.len(),
            ms == &proposal.mutations,
            proposal.schema_version@ == ENCOUNTER_PROPOSAL_SCHEMA_VERSION@,
            proposal_targets(*current, *response, *proposal),
            views(visible@) == visible_ref_list(*response),
            mutations_fault(views(visible@), ms@.subrange(0, i as int)) is None,
        decreases ms.len() - i,
    {
        proof {
            assert(ms@.subrange(0, i + 1).drop_last() =~= ms@.subrange(0, i as int));
            assert(ms@.subrange(0, i + 1).last() == ms@[i as int]);
        }
        match check_mutation(&visible, &ms[i]) {
            Ok(()) => {},
            Err(e) => {
                proof {
                    lemma_fault_prefix_mutations(views(visible@), ms@, i + 1);
                }
                return Err(e);
            },
        }
        i = i + 1;
    }
    assert(ms@.subrange(0, ms@.len() as int) =~= ms@);
    let cs = &proposal.closures;
    let mut j: usize = 0;
    while j < cs.len()
        invariant
            j <= cs@.len(),
            cs == &proposal.closures,
            proposal.schema_version@ == ENCOUNTER_PROPOSAL_SCHEMA_VERSION@,
            proposal_targets(*current, *response, *proposal),
            views(visible@) == visible_ref_list(*response),
            mutations_fault(views(visible@), proposal.mutations@) is None,
            closures_fault(views(visible@), cs@.subrange(0, j as int)) is None,
        decreases cs.len() - j,
    {
        proof {
            assert(cs@.subrange(0, j + 1).drop_last() =~= cs@.subrange(0, j as int));
            assert(cs@.subrange(0, j + 1).last() == cs@[j as int]);
        }
        match check_closure(&visible, &cs[j]) {
            Ok(()) => {},
            Err(e) => {
                proof {
                    lemma_fault_prefix_closures(views(visible@), cs@, j + 1);
                }
                return Err(e);
            },
        }
        j = j + 1;
    }
    assert(cs@.subrange(0, cs@.len() as int) =~= cs@);
    Ok(())
}

// ---------------------------------------------------------------------------
// The event records of a turn.
// ---------------------------------------------------------------------------

/// The common fields of a record: schema, world, turn, numbered event id,
/// recording time.
pub open spec fn record_frame(
    rec: EncounterSurfaceEventRecord,
    world_id: Seq<char>,
    turn_id: Seq<char>,
    index: int,
    recorded_at: Seq<char>,
) -> bool {
    &&& rec.schema_version@ == ENCOUNTER_SURFACE_EVENT_SCHEMA_VERSION@
    &&& rec.world_id@ == world_id
    &&& rec.turn_id@ == turn_id
    &&& rec.event_id@ == "encounter_event:"@ + turn_id + ":"@ + dec_padded(index as nat, 2)
    &&& rec.recorded_at@ == recorded_at
}

fn record_frame_of(
    world_id: &str,
    turn_id: &str,
    index: usize,
    recorded_at: &str,
    mutation: Option<EncounterSurfaceMutation>,
    closure: Option<EncounterSurfaceClosure>,
) -> (r: EncounterSurfaceEventRecord)
    ensures
        record_frame(r, world_id@, turn_id@, index as int, recorded_at@),
        r.mutation == mutation,
        r.closure == closure,
{
    let mut event_id = String::from_str("encounter_event:");
    event_id.append(turn_id);
    event_id.append(":");
    let n = dec2_string(index as u64);
    event_id.append(n.as_str());
    EncounterSurfaceEventRecord {
        schema_version: String::from_str(ENCOUNTER_SURFACE_EVENT_SCHEMA_VERSION),
        world_id: String::from_str(world_id),
        turn_id: String::from_str(turn_id),
        event_id,
        mutation,
        closure,
        recorded_at: String::from_str(recorded_at),
    }
}

/// The record of a surface mutation.
pub fn record_from_mutation(
    world_id: &str,
    turn_id: &str,
    mutation: EncounterSurfaceMutation,
    index: usize,
    recorded_at: &str,
) -> (r: EncounterSurfaceEventRecord)
    ensures
        record_frame(r, world_id@, turn_id@, index as int, recorded_at@),
        r.mutation == Some(mutation),
        r.closure is None,
{
    record_frame_of(world_id, turn_id, index, recorded_at, Some(mutation), None)
}

/// The record of a surface closure.
pub fn record_from_closure(
    world_id: &str,
    turn_id: &str,
    closure: EncounterSurfaceClosure,
    index: usize,
    recorded_at: &str,
) -> (r: EncounterSurfaceEventRecord)
    ensures
        record_frame(r, world_id@, turn_id@, index as int, recorded_at@),
        r.mutation is None,
        r.closure == Some(closure),
{
    record_frame_of(world_id, turn_id, index, recorded_at, None, Some(closure))
}

/// The surfaces a scene transition closes: those meant for the current
/// beat or scene.
pub open spec fn transition_sources(surfaces: Seq<EncounterSurface>) -> Seq<int>
    decreases surfaces.len(),
{
    if surfaces.len() == 0 {
        Seq::empty()
    } else {
        let p = transition_sources(surfaces.drop_last());
        let q = surfaces.last().lifecycle.persistence;
        if q == EncounterPersistence::CurrentBeat || q == EncounterPersistence::CurrentScene {
            p.push(surfaces.len() - 1)
        } else {
            p
        }
    }
}

/// Whether the response's scene director proposes a transition.
pub open spec fn transition_of(response: AgentTurnResponse) -> Option<(Seq<char>, Seq<String>)> {
    match response.scene_director_proposal {
        Some(p) => match p.transition {
            Some(t) => Some((t.transition_reason@, p.evidence_refs@)),
            None => None,
        },
        None => None,
    }
}

/// The closure a scene transition makes of a surface.
pub open spec fn transition_closure_is(
    c: EncounterSurfaceClosure,
    surface: EncounterSurface,
    reason: Seq<char>,
    evidence: Seq<String>,
) -> bool {
    &&& c.surface_id == surface.surface_id
    &&& c.kind == EncounterClosureKind::SceneTransition
    &&& c.summary@ == "Scene transition closed the current interaction surface: "@ + reason
    &&& c.evidence_refs@ == evidence
    &&& c.replacement_surface_id is None
}

/// The closures of a scene transition, in surface order.
pub fn derive_scene_transition_closures(current: &EncounterSurfacePacket, response: &AgentTurnResponse) -> (r:
    Vec<EncounterSurfaceClosure>)
    ensures
        match transition_of(*response) {
            None => r@.len() == 0,
            Some(t) => {
                let src = transition_sources(current.active_surfaces@);
                &&& r@.len() == src.len()
                &&& forall|k: int|
                    0 <= k < src.len() ==> transition_closure_is(
                        #[trigger] r@[k],
                        current.active_surfaces@[src[k]],
                        t.0,
                        t.1,
                    )
            },
        },
{
    let mut out: Vec<EncounterSurfaceClosure> = Vec::new();
    let proposal = match &response.scene_director_proposal {
        Some(p) => p,
        None => {
            return out;
        },
    };
    let transition = match &proposal.transition {
        Some(t) => t,
        None => {
            return out;
        },
    };
    let summary = concat2(
        "Scene transition closed the current interaction surface: ",
        transition.transition_reason.as_str(),
    );
    let ss = &current.active_surfaces;
    let mut i: usize = 0;
    while i < ss.len()
        invariant
            i <= ss@.len(),
            ss == &current.active_surfaces,
            summary@ == "Scene transition closed the current interaction surface: "@
                + transition.transition_reason@,
            out@.len() == transition_sources(ss@.subrange(0, i as int)).len(),
            forall|k: int|
                0 <= k < out@.len() ==> transition_closure_is(
                    #[trigger] out@[k],
                    ss@[transition_sources(ss@.subrange(0, i as int))[k]],
                    transition.transition_reason@,
                    proposal.evidence_refs@,
                ),
        decreases ss.len() - i,
    {
        let ghost prev = transition_sources(ss@.subrange(0, i as int));
        proof {
            assert(ss@.subrange(0, i + 1).drop_last() =~= ss@.subrange(0, i as int));
            assert(ss@.subrange(0, i + 1).last() == ss@[i as int]);
        }
        let q = ss[i].lifecycle.persistence;
        if q == EncounterPersistence::CurrentBeat || q == EncounterPersistence::CurrentScene {
            out.push(
                EncounterSurfaceClosure {
                    surface_id: ss[i].surface_id.clone(),
                    kind: EncounterClosureKind::SceneTransition,
                    summary: summary.clone(),
                    evidence_refs: clone_strings(&proposal.evidence_refs),
                    replacement_surface_id: None,
                },
            );
            proof {
                let now = transition_sources(ss@.subrange(0, i + 1));
                assert(now == prev.push(i as int));
                assert forall|k: int| 0 <= k < out@.len() implies transition_closure_is(
                    #[trigger] out@[k],
                    ss@[now[k]],
                    transition.transition_reason@,
                    proposal.evidence_refs@,
                ) by {
                    if k < prev.len() {
                        assert(now[k] == prev[k]);
                    }
                }
            }
        }
        i = i + 1;
    }
    assert(ss@.subrange(0, ss@.len() as int) =~= ss@);
    out
}

/// Every source ref of the given mutations, in order.
pub open spec fn mutation_refs(ms: Seq<EncounterSurfaceMutation>) -> Seq<Seq<char>>
    decreases ms.len(),
{
    if ms.len() == 0 {
        Seq::empty()
    } else {
        mutation_refs(ms.drop_last()) + views(ms.last().source_refs@)
    }
}

/// The ordinary choices (slots 1 to 5) whose slot ref no record cites yet.
pub open spec fn uncited_choices(cs: Seq<TurnChoice>, existing: Seq<Seq<char>>) -> Seq<int>
    decreases cs.len(),
{
    if cs.len() == 0 {
        Seq::empty()
    } else {
        let p = uncited_choices(cs.drop_last(), existing);
        let c = cs.last();
        if 1 <= c.slot <= 5 && !existing.contains(slot_ref(c.slot)) {
            p.push(cs.len() - 1)
        } else {
            p
        }
    }
}

/// One surface mutation per uncited ordinary choice of the response.
pub fn derive_response_choice_mutations(
    current: &EncounterSurfacePacket,
    response: &AgentTurnResponse,
    existing_refs: &Vec<String>,
) -> (r: Vec<EncounterSurfaceMutation>)
    ensures
        r@.len() == uncited_choices(response.next_choices@, views(existing_refs@)).len(),
        forall|k: int|
            0 <= k < r@.len() ==> {
                let c = response.next_choices@[uncited_choices(response.next_choices@, views(existing_refs@))[k]];
                choice_mutation_is(
                    #[trigger] r@[k],
                    current.turn_id@,
                    current.scene_id@,
                    c,
                    Seq::empty(),
                    seq![slot_ref(c.slot)],
                )
            },
{
    let ghost ex = views(existing_refs@);
    let cs = &response.next_choices;
    let mut out: Vec<EncounterSurfaceMutation> = Vec::new();
    let mut i: usize = 0;
    while i < cs.len()
        invariant
            i <= cs@.len(),
            cs == &response.next_choices,
            ex == views(existing_refs@),
            out@.len() == uncited_choices(cs@.subrange(0, i as int), ex).len(),
            forall|k: int|
                0 <= k < out@.len() ==> {
                    let c = cs@[uncited_choices(cs@.subrange(0, i as int), ex)[k]];
                    choice_mutation_is(
                        #[trigger] out@[k],
                        current.turn_id@,
                        current.scene_id@,
                        c,
                        Seq::empty(),
                        seq![slot_ref(c.slot)],
                    )
                },
        decreases cs.len() - i,
    {
        let ghost prev = uncited_choices(cs@.subrange(0, i as int), ex);
        proof {
            assert(cs@.subrange(0, i + 1).drop_last() =~= cs@.subrange(0, i as int));
            assert(cs@.subrange(0, i + 1).last() == cs@[i as int]);
        }
        let c = &cs[i];
        if 1 <= c.slot && c.slot <= 5 {
            let source_ref = slot_ref_of(c.slot);
            proof {
                lemma_has_text_views(existing_refs@, source_ref@);
            }
            if !has_text_exec(existing_refs, source_ref.as_str()) {
                let empty: Vec<String> = Vec::new();
                let refs = vec![source_ref];
                assert(views(refs@) =~= seq![slot_ref(c.slot)]);
                assert(views(empty@) =~= Seq::<Seq<char>>::empty());
                let m = mutation_from_choice(current.turn_id.as_str(), current.scene_id.as_str(), c, &empty, refs);
                out.push(m);
                proof {
                    let now = uncited_choices(cs@.subrange(0, i + 1), ex);
                    assert(now == prev.push(i as int));
                    assert forall|k: int| 0 <= k < out@.len() implies {
                        let c2 = cs@[now[k]];
                        choice_mutation_is(
                            #[trigger] out@[k],
                            current.turn_id@,
                            current.scene_id@,
                            c2,
                            Seq::empty(),
                            seq![slot_ref(c2.slot)],
                        )
                    } by {
                        if k < prev.len() {
                            assert(now[k] == prev[k]);
                        }
                    }
                }
            }
        }
        i = i + 1;
    }
    assert(cs@.subrange(0, cs@.len() as int) =~= cs@);
    out
}

/// Appends one record per mutation, numbered on from the records so far.
fn push_mutation_records(
    records: &mut Vec<EncounterSurfaceEventRecord>,
    ms: Vec<EncounterSurfaceMutation>,
    world_id: &str,
    turn_id: &str,
    recorded_at: &str,
)
    ensures
        final(records)@.len() == old(records)@.len() + ms@.len(),
        forall|k: int| 0 <= k < old(records)@.len() ==> #[trigger] final(records)@[k] == old(records)@[k],
        forall|k: int|
            0 <= k < ms@.len() ==> {
                let rec = #[trigger] final(records)@[old(records)@.len() + k];
                &&& record_frame(rec, world_id@, turn_id@, old(records)@.len() + k, recorded_at@)
                &&& rec.mutation == Some(ms@[k])
                &&& rec.closure is None
            },
{
    let ghost start = records@;
    let ghost all = ms@;
    let mut rest = ms;
    let total = rest.len();
    let mut i: usize = 0;
    while rest.len() > 0
        invariant
            i + rest@.len() == all.len(),
            all.len() == total,
            rest@ == all.subrange(i as int, all.len() as int),
            records@.len() == start.len() + i,
            forall|k: int| 0 <= k < start.len() ==> #[trigger] records@[k] == start[k],
            forall|k: int|
                0 <= k < i ==> {
                    let rec = #[trigger] records@[start.len() + k];
                    &&& record_frame(rec, world_id@, turn_id@, start.len() + k, recorded_at@)
                    &&& rec.mutation == Some(all[k])
                    &&& rec.closure is None
                },
        decreases rest.len(),
    {
        let m = rest.remove(0);
        proof {
            assert(m == all[i as int]);
            assert(rest@ =~= all.subrange(i + 1, all.len() as int));
        }
        let index = records.len();
        let rec = record_from_mutation(world_id, turn_id, m, index, recorded_at);
        records.push(rec);
        proof {
            assert(records@[start.len() + i] == rec);
        }
        i = i + 1;
    }
}

/// Appends one record per closure, numbered on from the records so far.
fn push_closure_records(
    records: &mut Vec<EncounterSurfaceEventRecord>,
    cs: Vec<EncounterSurfaceClosure>,
    world_id: &str,
    turn_id: &str,
    recorded_at: &str,
)
    ensures
        final(records)@.len() == old(records)@.len() + cs@.len(),
        forall|k: int| 0 <= k < old(records)@.len() ==> #[trigger] final(records)@[k] == old(records)@[k],
        forall|k: int|
            0 <= k < cs@.len() ==> {
                let rec = #[trigger] final(records)@[old(records)@.len() + k];
                &&& record_frame(rec, world_id@, turn_id@, old(records)@.len() + k, recorded_at@)
                &&& rec.closure == Some(cs@[k])
                &&& rec.mutation is None
            },
{
    let ghost start = records@;
    let ghost all = cs@;
    let mut rest = cs;
    let total = rest.len();
    let mut i: usize = 0;
    while rest.len() > 0
        invariant
            i + rest@.len() == all.len(),
            all.len() == total,
            rest@ == all.subrange(i as int, all.len() as int),
            records@.len() == start.len() + i,
            forall|k: int| 0 <= k < start.len() ==> #[trigger] records@[k] == start[k],
            forall|k: int|
                0 <= k < i ==> {
                    let rec = #[trigger] records@[start.len() + k];
                    &&& record_frame(rec, world_id@, turn_id@, start.len() + k, recorded_at@)
                    &&& rec.closure == Some(all[k])
                    &&& rec.mutation is None
                },
        decreases rest.len(),
    {
        let c = rest.remove(0);
        proof {
            assert(c == all[i as int]);
            assert(rest@ =~= all.subrange(i + 1, all.len() as int));
        }
        let index = records.len();
        let rec = record_from_closure(world_id, turn_id, c, index, recorded_at);
        records.push(rec);
        proof {
            assert(records@[start.len() + i] == rec);
        }
        i = i + 1;
    }
}

/// A closure's surface is active now or opened by one of the proposal's mutations.
pub open spec fn surface_known(
    current: EncounterSurfacePacket,
    ms: Seq<EncounterSurfaceMutation>,
    id: Seq<char>,
) -> bool {
    (exists|i: int| 0 <= i < current.active_surfaces@.len() && #[trigger] current.active_surfaces@[i].surface_id@ == id)
        || (exists|j: int| 0 <= j < ms.len() && #[trigger] ms[j].surface_id@ == id)
}

/// The first closure of an unknown surface.
pub open spec fn first_unknown_closure(
    current: EncounterSurfacePacket,
    ms: Seq<EncounterSurfaceMutation>,
    cs: Seq<EncounterSurfaceClosure>,
) -> Option<Seq<char>>
    decreases cs.len(),
{
    if cs.len() == 0 {
        None
    } else {
        match first_unknown_closure(current, ms, cs.drop_last()) {
            Some(id) => Some(id),
            None => if surface_known(current, ms, cs.last().surface_id@) {
                None
            } else {
                Some(cs.last().surface_id@)
            },
        }
    }
}

proof fn lemma_unknown_prefix(
    current: EncounterSurfacePacket,
    ms: Seq<EncounterSurfaceMutation>,
    cs: Seq<EncounterSurfaceClosure>,
    n: int,
)
    requires
        0 <= n <= cs.len(),
        first_unknown_closure(current, ms, cs.subrange(0, n)) is Some,
    ensures
        first_unknown_closure(current, ms, cs) == first_unknown_closure(current, ms, cs.subrange(0, n)),
    decreases cs.len(),
{
    if n < cs.len() {
        assert(cs.drop_last().subrange(0, n) =~= cs.subrange(0, n));
        lemma_unknown_prefix(current, ms, cs.drop_last(), n);
    } else {
        assert(cs.subrange(0, n) =~= cs);
    }
}

fn surface_known_exec(current: &EncounterSurfacePacket, ms: &Vec<EncounterSurfaceMutation>, id: &str) -> (r: bool)
    ensures
        r == surface_known(*current, ms@, id@),
{
    let ss = &current.active_surfaces;
    let mut i: usize = 0;
    while i < ss.len()
        invariant
            i <= ss@.len(),
            ss == &current.active_surfaces,
            forall|k: int| 0 <= k < i ==> #[trigger] ss@[k].surface_id@ != id@,
        decreases ss.len() - i,
    {
        if str_eq(ss[i].surface_id.as_str(), id) {
            return true;
        }
        i = i + 1;
    }
    let mut j: usize = 0;
    while j < ms.len()
        invariant
            j <= ms@.len(),
            forall|k: int| 0 <= k < current.active_surfaces@.len() ==> #[trigger] current.active_surfaces@[k].surface_id@ != id@,
            forall|k: int| 0 <= k < j ==> #[trigger] ms@[k].surface_id@ != id@,
        decreases ms.len() - j,
    {
        if str_eq(ms[j].surface_id.as_str(), id) {
            return true;
        }
        j = j + 1;
    }
    false
}

fn collect_mutation_refs(ms: &Vec<EncounterSurfaceMutation>) -> (r: Vec<String>)
    ensures
        views(r@) == mutation_refs(ms@),
{
    let mut out: Vec<String> = Vec::new();
    let mut i: usize = 0;
    while i < ms.len()
        invariant
            i <= ms@.len(),
            views(out@) == mutation_refs(ms@.subrange(0, i as int)),
        decreases ms.len() - i,
    {
        proof {
            assert(ms@.subrange(0, i + 1).drop_last() =~= ms@.subrange(0, i as int));
            assert(ms@.subrange(0, i + 1).last() == ms@[i as int]);
        }
        push_all(&mut out, &ms[i].source_refs);
        i = i + 1;
    }
    assert(ms@.subrange(0, ms@.len() as int) =~= ms@);
    out
}

pub open spec fn proposal_mutations(response: AgentTurnResponse) -> Seq<EncounterSurfaceMutation> {
    match response.encounter_proposal {
        Some(p) => p.mutations@,
        None => Seq::empty(),
    }
}

pub open spec fn proposal_closures(response: AgentTurnResponse) -> Seq<EncounterSurfaceClosure> {
    match response.encounter_proposal {
        Some(p) => p.closures@,
        None => Seq::empty(),
    }
}

/// The turn the records are filed under: the proposal's, else the packet's.
pub open spec fn plan_turn(current: EncounterSurfacePacket, response: AgentTurnResponse) -> Seq<char> {
    match response.encounter_proposal {
        Some(p) => p.turn_id@,
        None => current.turn_id@,
    }
}

pub open spec fn planned_transitions(current: EncounterSurfacePacket, response: AgentTurnResponse) -> Seq<int> {
    if transition_of(response) is Some {
        transition_sources(current.active_surfaces@)
    } else {
        Seq::empty()
    }
}

pub open spec fn planned_choices(response: AgentTurnResponse) -> Seq<int> {
    uncited_choices(response.next_choices@, mutation_refs(proposal_mutations(response)))
}

/// Where the records of gate mutations start.
pub open spec fn gate_offset(current: EncounterSurfacePacket, response: AgentTurnResponse) -> int {
    (proposal_mutations(response).len() + proposal_closures(response).len() + planned_transitions(
        current,
        response,
    ).len() + planned_choices(response).len()) as int
}

/// Why a turn's encounter events cannot be planned, if they cannot.
pub open spec fn plan_fault(current: EncounterSurfacePacket, response: AgentTurnResponse) -> Option<EncounterFault> {
    match response.encounter_proposal {
        None => None,
        Some(p) => match proposal_fault(current, response, p) {
            Some(f) => Some(f),
            None => match first_unknown_closure(current, p.mutations@, p.closures@) {
                Some(id) => Some(EncounterFault::UnknownClosureSurface(id)),
                None => None,
            },
        },
    }
}

/// The records of a turn: the proposal's mutations, its closures, the
/// closures of a scene transition, the mutations of uncited choices, then
/// those of the resolution's gates; all framed with the proposal's turn.
pub open spec fn plan_records_are(
    recs: Seq<EncounterSurfaceEventRecord>,
    current: EncounterSurfacePacket,
    response: AgentTurnResponse,
    recorded_at: Seq<char>,
) -> bool {
    let ms = proposal_mutations(response);
    let cs = proposal_closures(response);
    let n1 = ms.len() as int;
    let n2 = cs.len() as int;
    let ts = planned_transitions(current, response);
    let hs = planned_choices(response);
    let o3 = n1 + n2;
    let o4 = o3 + ts.len();
    let o5 = gate_offset(current, response);
    &&& forall|k: int|
        0 <= k < recs.len() ==> record_frame(
            #[trigger] recs[k],
            current.world_id@,
            plan_turn(current, response),
            k,
            recorded_at,
        )
    &&& forall|k: int| 0 <= k < n1 ==> (#[trigger] recs[k]).mutation == Some(ms[k]) && recs[k].closure is None
    &&& forall|k: int| 0 <= k < n2 ==> (#[trigger] recs[n1 + k]).closure == Some(cs[k]) && recs[n1 + k].mutation is None
    &&& forall|k: int|
        0 <= k < ts.len() ==> (#[trigger] recs[o3 + k]).mutation is None && (recs[o3 + k].closure matches Some(
            c,
        ) && transition_closure_is(
            c,
            current.active_surfaces@[ts[k]],
            transition_of(response).unwrap().0,
            transition_of(response).unwrap().1,
        ))
    &&& forall|k: int|
        0 <= k < hs.len() ==> (#[trigger] recs[o4 + k]).closure is None && (recs[o4 + k].mutation matches Some(
            m,
        ) && choice_mutation_is(
            m,
            current.turn_id@,
            current.scene_id@,
            response.next_choices@[hs[k]],
            Seq::empty(),
            seq![slot_ref(response.next_choices@[hs[k]].slot)],
        ))
    &&& exists|gm: Seq<EncounterSurfaceMutation>|
        gate_mutations_are(gm, current, response.resolution_proposal, o5) && recs.len() == o5 + gm.len()
            && forall|k: int|
            0 <= k < gm.len() ==> (#[trigger] recs[o5 + k]).mutation == Some(gm[k]) && recs[o5
                + k].closure is None
}

/// The planning can run without overflow: turn numbers and record numbers fit.
pub open spec fn plan_fits(current: EncounterSurfacePacket, response: AgentTurnResponse) -> bool {
    &&& turn_index(current.turn_id@) != Some(u64::MAX as nat)
    &&& response.resolution_proposal matches Some(res) ==> gate_offset(current, response)
        + res.gate_results@.len() <= usize::MAX
}

/// Checks that every closure of the proposal names a known surface.
fn check_closure_surfaces(current: &EncounterSurfacePacket, proposal: &EncounterProposal) -> (r: Result<
    (),
    EncounterProposalError,
>)
    ensures
        r is Ok <==> first_unknown_closure(*current, proposal.mutations@, proposal.closures@) is None,
        r matches Err(e) ==> (first_unknown_closure(*current, proposal.mutations@, proposal.closures@) matches Some(
            id,
        ) && fault_of(e) == EncounterFault::UnknownClosureSurface(id)),
{
    let cs = &proposal.closures;
    let mut i: usize = 0;
    while i < cs.len()
        invariant
            i <= cs@.len(),
            cs == &proposal.closures,
            first_unknown_closure(*current, proposal.mutations@, cs@.subrange(0, i as int)) is None,
        decreases cs.len() - i,
    {
        proof {
            assert(cs@.subrange(0, i + 1).drop_last() =~= cs@.subrange(0, i as int));
            assert(cs@.subrange(0, i + 1).last() == cs@[i as int]);
        }
        if !surface_known_exec(current, &proposal.mutations, cs[i].surface_id.as_str()) {
            proof {
                lemma_unknown_prefix(*current, proposal.mutations@, cs@, i + 1);
            }
            return Err(EncounterProposalError::UnknownClosureSurface { surface_id: cs[i].surface_id.clone() });
        }
        i = i + 1;
    }
    assert(cs@.subrange(0, cs@.len() as int) =~= cs@);
    Ok(())
}

/// Plans the encounter event records of a turn, stamped with `recorded_at`
/// (see `plan_records_are`); a proposal that fails its checks, or closes an
/// unknown surface, is refused.
#[verifier::rlimit(60)]
pub fn plan_encounter_surface_events(
    current: &EncounterSurfacePacket,
    response: AgentTurnResponse,
    recorded_at: &str,
) -> (r: Result<EncounterSurfaceEventPlan, EncounterProposalError>)
    requires
        plan_fits(*current, response),
    ensures
        r is Err <==> plan_fault(*current, response) is Some,
        r matches Err(e) ==> plan_fault(*current, response) == Some(fault_of(e)),
        r matches Ok(plan) ==> plan_records_are(plan.records@, *current, response, recorded_at@),
{
    let ghost resp = response;
    match &response.encounter_proposal {
        Some(p) => {
            match validate_encounter_proposal(current, &response, p) {
                Ok(()) => {},
                Err(e) => {
                    return Err(e);
                },
            }
            match check_closure_surfaces(current, p) {
                Ok(()) => {},
                Err(e) => {
                    return Err(e);
                },
            }
        },
        None => {},
    }
    let turn: String = match &response.encounter_proposal {
        Some(p) => p.turn_id.clone(),
        None => current.turn_id.clone(),
    };
    let existing: Vec<String> = match &response.encounter_proposal {
        Some(p) => collect_mutation_refs(&p.mutations),
        None => Vec::new(),
    };
    assert(views(existing@) == mutation_refs(proposal_mutations(resp)));
    let (n1, n2): (usize, usize) = match &response.encounter_proposal {
        Some(p) => (p.mutations.len(), p.closures.len()),
        None => (0, 0),
    };
    let transitions = derive_scene_transition_closures(current, &response);
    let choice_mutations = derive_response_choice_mutations(current, &response, &existing);
    proof {
        assert(transitions@.len() == planned_transitions(*current, resp).len());
        assert(choice_mutations@.len() == planned_choices(resp).len());
    }
    let gate_mutations = match &response.resolution_proposal {
        Some(res) => {
            let gate_start = n1 + n2 + transitions.len() + choice_mutations.len();
            derive_resolution_gate_mutations(current, Some(res), gate_start)
        },
        None => derive_resolution_gate_mutations(current, None, 0),
    };
    let ghost gm = gate_mutations@;
    let ghost tr = transitions@;
    let ghost ch = choice_mutations@;
    let world_id = current.world_id.as_str();
    let mut records: Vec<EncounterSurfaceEventRecord> = Vec::new();
    match response.encounter_proposal {
        Some(p) => {
            let ghost pm = p.mutations@;
            let ghost pc = p.closures@;
            assert(pm == proposal_mutations(resp));
            assert(pc == proposal_closures(resp));
            push_mutation_records(&mut records, p.mutations, world_id, turn.as_str(), recorded_at);
            let ghost mid = records@;
            push_closure_records(&mut records, p.closures, world_id, turn.as_str(), recorded_at);
            proof {
                assert forall|k: int| 0 <= k < pm.len() implies {
                    &&& record_frame(#[trigger] records@[k], world_id@, turn@, k, recorded_at@)
                    &&& records@[k].mutation == Some(pm[k])
                    &&& records@[k].closure is None
                } by {
                    assert(records@[k] == mid[k]);
                    assert(mid[0 + k] == mid[k]);
                }
                assert forall|k: int| 0 <= k < pc.len() implies {
                    &&& record_frame(#[trigger] records@[pm.len() + k], world_id@, turn@, pm.len() + k, recorded_at@)
                    &&& records@[pm.len() + k].closure == Some(pc[k])
                    &&& records@[pm.len() + k].mutation is None
                } by {
                }
            }
        },
        None => {},
    }
    let ghost after_proposal = records@;
    proof {
        let ms = proposal_mutations(resp);
        let cs = proposal_closures(resp);
        assert(after_proposal.len() == n1 + n2);
        assert forall|k: int| 0 <= k < n1 + n2 implies record_frame(#[trigger] after_proposal[k], world_id@, turn@, k, recorded_at@) by {
            if k >= n1 {
                let j = k - n1;
                assert(after_proposal[ms.len() + j] == after_proposal[k]);
            }
        }
    }
    push_closure_records(&mut records, transitions, world_id, turn.as_str(), recorded_at);
    let ghost after_transitions = records@;
    push_mutation_records(&mut records, choice_mutations, world_id, turn.as_str(), recorded_at);
    let ghost after_choices = records@;
    push_mutation_records(&mut records, gate_mutations, world_id, turn.as_str(), recorded_at);
    proof {
        let recs = records@;
        let ms = proposal_mutations(resp);
        let cs = proposal_closures(resp);
        let o3 = n1 + n2;
        let o4 = o3 + tr.len();
        let o5 = gate_offset(*current, resp);
        assert(after_proposal.len() == o3);
        assert(o5 == o4 + ch.len());
        assert(plan_turn(*current, resp) == turn@);
        assert forall|k: int| 0 <= k < n1 implies (#[trigger] recs[k]).mutation == Some(ms[k]) && recs[k].closure is None by {
            assert(after_proposal[k].mutation == Some(ms[k]));
            assert(recs[k] == after_choices[k]);
            assert(after_choices[k] == after_transitions[k]);
            assert(after_transitions[k] == after_proposal[k]);
        }
        assert forall|k: int| 0 <= k < n2 implies (#[trigger] recs[n1 + k]).closure == Some(cs[k]) && recs[n1 + k].mutation is None by {
            assert(recs[n1 + k] == after_choices[n1 + k]);
            assert(after_choices[n1 + k] == after_transitions[n1 + k]);
            assert(after_transitions[n1 + k] == after_proposal[n1 + k]);
        }
        assert forall|k: int| 0 <= k < tr.len() implies (#[trigger] recs[o3 + k]).mutation is None && recs[o3 + k].closure == Some(tr[k]) by {
            assert(recs[o3 + k] == after_choices[o3 + k]);
            assert(after_choices[o3 + k] == after_transitions[o3 + k]);
        }
        assert forall|k: int| 0 <= k < ch.len() implies (#[trigger] recs[o4 + k]).closure is None && recs[o4 + k].mutation == Some(ch[k]) by {
            assert(recs[o4 + k] == after_choices[o4 + k]);
        }
        assert(gate_mutations_are(gm, *current, resp.resolution_proposal, o5));
        assert(recs.len() == o5 + gm.len());
        assert forall|k: int| 0 <= k < gm.len() implies (#[trigger] recs[o5 + k]).mutation == Some(gm[k]) && recs[o5 + k].closure is None by {
        }
        assert forall|k: int| 0 <= k < recs.len() implies record_frame(
            #[trigger] recs[k],
            current.world_id@,
            plan_turn(*current, resp),
            k,
            recorded_at@,
        ) by {
            if k < o3 {
                assert(recs[k] == after_choices[k]);
                assert(after_choices[k] == after_transitions[k]);
                assert(after_transitions[k] == after_proposal[k]);
            } else if k < o4 {
                let j = k - o3;
                assert(after_transitions[o3 + j] == after_transitions[k]);
                assert(recs[k] == after_choices[k]);
                assert(after_choices[k] == after_transitions[k]);
            } else if k < o5 {
                let j = k - o4;
                assert(after_choices[o4 + j] == after_choices[k]);
                assert(recs[k] == after_choices[k]);
            } else {
                let j = k - o5;
                assert(recs[o5 + j] == recs[k]);
            }
        }
    }
    Ok(EncounterSurfaceEventPlan { records })
}

/// The encounter event plan of a turn, stamped with the current time.
/// Whatever time came back, the records are the plan's records stamped with it.
pub fn prepare_encounter_surface_event_plan(current: &EncounterSurfacePacket, response: AgentTurnResponse) -> (out: Option<Result<EncounterSurfaceEventPlan, EncounterProposalError>>)
    requires
        plan_fits(*current, response),
    ensures
        out matches Some(r) ==> ({
            &&& (r is Err <==> plan_fault(*current, response) is Some)
            &&& (r matches Err(e) ==> plan_fault(*current, response) == Some(fault_of(e)))
            &&& (r matches Ok(plan) ==> exists|t: Seq<char>| plan_records_are(plan.records@, *current, response, t))
        }),
{
    let now = match now_rfc3339() {
        Some(t) => t,
        None => return None,
    };
    Some(plan_encounter_surface_events(current, response, now.as_str()))
}

} // verus!
