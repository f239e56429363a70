//! Validation of the single-world, append-only canon event ledger.
use crate::models::{CANON_EVENT_SCHEMA_VERSION, CanonEvent, WorldEventKind};
use crate::text::{concat2, concat3, concat4, concat5, is_blank, is_blank_str, str_eq};
use vstd::prelude::*;

verus! {

pub const WORLD_EVENT_LEDGER_SCHEMA_VERSION: &'static str = "singulari.world_event_ledger.v1";

#[derive(Debug, Clone)]
pub struct WorldEventLedgerAppendReport {
    pub schema_version: String,
    pub world_id: String,
    pub event_id: String,
    pub path: String,
}

#[derive(Debug, Clone)]
pub struct WorldEventLedgerVerificationReport {
    pub schema_version: String,
    pub world_id: String,
    pub path: String,
    pub event_count: usize,
    pub first_event_id: Option<String>,
    pub last_event_id: Option<String>,
}

/// Why a ledger or an event in it was refused.
#[derive(Debug)]
pub enum EventLedgerError {
    SchemaVersionMismatch { event_id: String, actual: String },
    EmptyEventId,
    EmptyWorldId { event_id: String },
    WorldIdMismatch { event_id: String, expected: String, actual: String },
    EmptyTurnId { event_id: String },
    EmptyKind { event_id: String },
    KindMismatch { event_id: String, kind: String, event_kind: WorldEventKind },
    DuplicateEventId { world_id: String, event_id: String },
    AppendWorldIdMismatch { path: String, expected: String, actual: String },
    AppendDuplicateEventId { path: String, event_id: String },
    ExistingEntriesInvalid { path: String, cause: Box<EventLedgerError> },
}

/// The first shape check that an event fails, numbered in checking order:
/// schema version, event id, world id, expected world, turn id, kind, typed
/// kind sidecar.
pub open spec fn shape_fault(e: CanonEvent, expected: Option<Seq<char>>) -> Option<u8> {
    if e.schema_version@ != CANON_EVENT_SCHEMA_VERSION@ {
        Some(0)
    } else if is_blank(e.event_id@) {
        Some(1)
    } else if is_blank(e.world_id@) {
        Some(2)
    } else if expected matches Some(w) && e.world_id@ != w {
        Some(3)
    } else if is_blank(e.turn_id@) {
        Some(4)
    } else if is_blank(e.kind@) {
        Some(5)
    } else if e.event_kind matches Some(k) && e.kind@ != k.spec_legacy_kind() {
        Some(6)
    } else {
        None
    }
}

/// `err` reports the first failing shape check of `e`.
pub open spec fn is_shape_error(err: EventLedgerError, e: CanonEvent, expected: Option<Seq<char>>) -> bool {
    match shape_fault(e, expected) {
        Some(0) => err matches EventLedgerError::SchemaVersionMismatch { event_id, actual }
            && event_id@ == e.event_id@ && actual@ == e.schema_version@,
        Some(1) => err is EmptyEventId,
        Some(2) => err matches EventLedgerError::EmptyWorldId { event_id } && event_id@
            == e.event_id@,
        Some(3) => err matches EventLedgerError::WorldIdMismatch { event_id, expected: x, actual }
            && event_id@ == e.event_id@ && x@ == expected->0 && actual@ == e.world_id@,
        Some(4) => err matches EventLedgerError::EmptyTurnId { event_id } && event_id@
            == e.event_id@,
        Some(5) => err matches EventLedgerError::EmptyKind { event_id } && event_id@ == e.event_id@,
        Some(6) => err matches EventLedgerError::KindMismatch { event_id, kind, event_kind }
            && event_id@ == e.event_id@ && kind@ == e.kind@ && Some(event_kind) == e.event_kind,
        _ => false,
    }
}

/// The event id at `i` repeats an earlier one.
pub open spec fn repeats_earlier_id(events: Seq<CanonEvent>, i: int) -> bool {
    exists|j: int| 0 <= j < i && events[j].event_id@ == events[i].event_id@
}

/// Event `i` passes: well shaped for the world and with a fresh id.
pub open spec fn entry_ok(events: Seq<CanonEvent>, i: int, world: Seq<char>) -> bool {
    shape_fault(events[i], Some(world)) is None && !repeats_earlier_id(events, i)
}

/// Every event passes.
pub open spec fn ledger_ok(events: Seq<CanonEvent>, world: Seq<char>) -> bool {
    forall|i: int| 0 <= i < events.len() ==> entry_ok(events, i, world)
}

/// `err` reports the first failing event of the ledger.
pub open spec fn is_ledger_error(err: EventLedgerError, events: Seq<CanonEvent>, world: Seq<char>) -> bool {
    exists|i: int|
        0 <= i < events.len() && (forall|k: int| 0 <= k < i ==> entry_ok(events, k, world)) && !entry_ok(
            events,
            i,
            world,
        ) && if shape_fault(events[i], Some(world)) is Some {
            is_shape_error(err, events[i], Some(world))
        } else {
            err matches EventLedgerError::DuplicateEventId { world_id, event_id } && world_id@
                == world && event_id@ == events[i].event_id@
        }
}

pub fn validate_event_shape(event: &CanonEvent, expected_world_id: Option<&str>) -> (r: Result<
    (),
    EventLedgerError,
>)
    ensures
        match r {
            Ok(()) => shape_fault(*event, option_str_view(expected_world_id)) is None,
            Err(err) => is_shape_error(err, *event, option_str_view(expected_world_id)),
        },
{
    if !str_eq(event.schema_version.as_str(), CANON_EVENT_SCHEMA_VERSION) {
        return Err(
            EventLedgerError::SchemaVersionMismatch {
                event_id: event.event_id.clone(),
                actual: event.schema_version.clone(),
            },
        );
    }
    if is_blank_str(event.event_id.as_str()) {
        return Err(EventLedgerError::EmptyEventId);
    }
    if is_blank_str(event.world_id.as_str()) {
        return Err(EventLedgerError::EmptyWorldId { event_id: event.event_id.clone() });
    }
    match expected_world_id {
        Some(expected) => {
            if !str_eq(event.world_id.as_str(), expected) {
                return Err(
                    EventLedgerError::WorldIdMismatch {
                        event_id: event.event_id.clone(),
                        expected: String::from_str(expected),
                        actual: event.world_id.clone(),
                    },
                );
            }
        },
        None => {},
    }
    if is_blank_str(event.turn_id.as_str()) {
        return Err(EventLedgerError::EmptyTurnId { event_id: event.event_id.clone() });
    }
    if is_blank_str(event.kind.as_str()) {
        return Err(EventLedgerError::EmptyKind { event_id: event.event_id.clone() });
    }
    match event.event_kind {
        Some(event_kind) => {
            if !event_kind.matches_legacy_kind(event.kind.as_str()) {
                return Err(
                    EventLedgerError::KindMismatch {
                        event_id: event.event_id.clone(),
                        kind: event.kind.clone(),
                        event_kind,
                    },
                );
            }
        },
        None => {},
    }
    Ok(())
}

pub open spec fn option_str_view(o: Option<&str>) -> Option<Seq<char>> {
    match o {
        Some(s) => Some(s@),
        None => None,
    }
}

fn has_earlier_id(events: &[CanonEvent], i: usize) -> (r: bool)
    requires
        i < events@.len(),
    ensures
        r == repeats_earlier_id(events@, i as int),
{
    let mut j: usize = 0;
    while j < i
        invariant
            i < events@.len(),
            j <= i,
            forall|k: int| 0 <= k < j ==> events@[k].event_id@ != events@[i as int].event_id@,
        decreases i - j,
    {
        if str_eq(events[j].event_id.as_str(), events[i].event_id.as_str()) {
            return true;
        }
        j = j + 1;
    }
    false
}

/// A ledger verifies when every event has the canon shape for the expected
/// world and no event id repeats.
pub fn verify_world_events(expected_world_id: &str, events: &[CanonEvent]) -> (r: Result<
    (),
    EventLedgerError,
>)
    ensures
        match r {
            Ok(()) => ledger_ok(events@, expected_world_id@),
            Err(err) => is_ledger_error(err, events@, expected_world_id@),
        },
{
    let mut i: usize = 0;
    while i < events.len()
        invariant
            i <= events@.len(),
            forall|k: int| 0 <= k < i ==> entry_ok(events@, k, expected_world_id@),
        decreases events.len() - i,
    {
        match validate_event_shape(&events[i], Some(expected_world_id)) {
            Ok(()) => {},
            Err(err) => {
                assert(!entry_ok(events@, i as int, expected_world_id@));
                return Err(err);
            },
        }
        if has_earlier_id(events, i) {
            assert(!entry_ok(events@, i as int, expected_world_id@));
            return Err(
                EventLedgerError::DuplicateEventId {
                    world_id: String::from_str(expected_world_id),
                    event_id: events[i].event_id.clone(),
                },
            );
        }
        i = i + 1;
    }
    Ok(())
}

/// Verify a loaded ledger and summarise it; `path` names where it was read.
pub fn verify_world_event_ledger(path: &str, expected_world_id: &str, events: &[CanonEvent]) -> (r:
    Result<WorldEventLedgerVerificationReport, EventLedgerError>)
    ensures
        match r {
            Ok(report) => {
                &&& ledger_ok(events@, expected_world_id@)
                &&& report.schema_version@ == WORLD_EVENT_LEDGER_SCHEMA_VERSION@
                &&& report.world_id@ == expected_world_id@
                &&& report.path@ == path@
                &&& report.event_count == events@.len()
                &&& match report.first_event_id {
                    Some(id) => events@.len() > 0 && id == events@[0].event_id,
                    None => events@.len() == 0,
                }
                &&& match report.last_event_id {
                    Some(id) => events@.len() > 0 && id == events@[events@.len() - 1].event_id,
                    None => events@.len() == 0,
                }
            },
            Err(err) => is_ledger_error(err, events@, expected_world_id@),
        },
{
    match verify_world_events(expected_world_id, events) {
        Ok(()) => {},
        Err(err) => return Err(err),
    }
    let n = events.len();
    Ok(
        WorldEventLedgerVerificationReport {
            schema_version: String::from_str(WORLD_EVENT_LEDGER_SCHEMA_VERSION),
            world_id: String::from_str(expected_world_id),
            path: String::from_str(path),
            event_count: n,
            first_event_id: if n > 0 {
                Some(events[0].event_id.clone())
            } else {
                None
            },
            last_event_id: if n > 0 {
                Some(events[n - 1].event_id.clone())
            } else {
                None
            },
        },
    )
}

/// `event` may follow `existing`: same world as the ledger's first event, a
/// fresh event id, and a ledger that verifies for the event's world.
pub open spec fn append_ok(existing: Seq<CanonEvent>, event: CanonEvent) -> bool {
    &&& (existing.len() > 0 ==> existing[0].world_id@ == event.world_id@)
    &&& forall|i: int| 0 <= i < existing.len() ==> existing[i].event_id@ != event.event_id@
    &&& ledger_ok(existing, event.world_id@)
}

/// `err` reports the first reason, in checking order, why `event` may not
/// follow `existing` in the ledger at `path`.
pub open spec fn append_refusal(
    err: EventLedgerError,
    path: Seq<char>,
    existing: Seq<CanonEvent>,
    event: CanonEvent,
) -> bool {
    match err {
        EventLedgerError::AppendWorldIdMismatch { path: p, expected, actual } => {
            &&& existing.len() > 0
            &&& p@ == path
            &&& expected == existing[0].world_id
            &&& actual == event.world_id
            &&& existing[0].world_id@ != event.world_id@
        },
        EventLedgerError::AppendDuplicateEventId { path: p, event_id } => {
            &&& p@ == path
            &&& event_id == event.event_id
            &&& (existing.len() > 0 ==> existing[0].world_id@ == event.world_id@)
            &&& exists|i: int| 0 <= i < existing.len() && #[trigger] existing[i].event_id@ == event.event_id@
        },
        EventLedgerError::ExistingEntriesInvalid { path: p, cause } => {
            &&& p@ == path
            &&& is_ledger_error(*cause, existing, event.world_id@)
        },
        _ => false,
    }
}

/// Decide whether `event` may be appended to a ledger that holds
/// `existing_events`; `path` names the ledger file.
pub fn ensure_event_can_append(path: &str, existing_events: &[CanonEvent], event: &CanonEvent) -> (r:
    Result<(), EventLedgerError>)
    ensures
        match r {
            Ok(()) => append_ok(existing_events@, *event),
            Err(err) => append_refusal(err, path@, existing_events@, *event),
        },
{
    if existing_events.len() > 0 && !str_eq(
        existing_events[0].world_id.as_str(),
        event.world_id.as_str(),
    ) {
        return Err(
            EventLedgerError::AppendWorldIdMismatch {
                path: String::from_str(path),
                expected: existing_events[0].world_id.clone(),
                actual: event.world_id.clone(),
            },
        );
    }
    let mut i: usize = 0;
    while i < existing_events.len()
        invariant
            i <= existing_events@.len(),
            existing_events@.len() > 0 ==> existing_events@[0].world_id@ == event.world_id@,
            forall|k: int| 0 <= k < i ==> existing_events@[k].event_id@ != event.event_id@,
        decreases existing_events.len() - i,
    {
        if str_eq(existing_events[i].event_id.as_str(), event.event_id.as_str()) {
            assert(existing_events@[i as int].event_id@ == event.event_id@);
            return Err(
                EventLedgerError::AppendDuplicateEventId {
                    path: String::from_str(path),
                    event_id: event.event_id.clone(),
                },
            );
        }
        i = i + 1;
    }
    match verify_world_events(event.world_id.as_str(), existing_events) {
        Ok(()) => Ok(()),
        Err(cause) => Err(
            EventLedgerError::ExistingEntriesInvalid {
                path: String::from_str(path),
                cause: Box::new(cause),
            },
        ),
    }
}

/// Validate an event for appending to the ledger at `path` and describe the
/// append; `existing_events` is `None` when the ledger file does not exist yet.
pub fn plan_world_event_append(
    path: &str,
    existing_events: Option<&[CanonEvent]>,
    event: &CanonEvent,
) -> (r: Result<WorldEventLedgerAppendReport, EventLedgerError>)
    ensures
        match r {
            Ok(report) => {
                &&& shape_fault(*event, Some(event.world_id@)) is None
                &&& report.schema_version@ == WORLD_EVENT_LEDGER_SCHEMA_VERSION@
                &&& report.world_id == event.world_id
                &&& report.event_id == event.event_id
                &&& report.path@ == path@
                &&& match existing_events {
                    Some(existing) => append_ok(existing@, *event),
                    None => true,
                }
            },
            Err(err) => if shape_fault(*event, Some(event.world_id@)) is Some {
                is_shape_error(err, *event, Some(event.world_id@))
            } else {
                &&& existing_events is Some
                &&& append_refusal(err, path@, existing_events->0@, *event)
            },
        },
{
    match validate_event_shape(event, Some(event.world_id.as_str())) {
        Ok(()) => {},
        Err(err) => return Err(err),
    }
    match existing_events {
        Some(existing) => {
            match ensure_event_can_append(path, existing, event) {
                Ok(()) => {},
                Err(err) => return Err(err),
            }
        },
        None => {},
    }
    Ok(
        WorldEventLedgerAppendReport {
            schema_version: String::from_str(WORLD_EVENT_LEDGER_SCHEMA_VERSION),
            world_id: event.world_id.clone(),
            event_id: event.event_id.clone(),
            path: String::from_str(path),
        },
    )
}

pub open spec fn kind_debug_name(k: WorldEventKind) -> Seq<char> {
    match k {
        WorldEventKind::NumericChoice => "NumericChoice"@,
        WorldEventKind::GuideChoice => "GuideChoice"@,
        WorldEventKind::FreeformAction => "FreeformAction"@,
        WorldEventKind::CodexQuery => "CodexQuery"@,
        WorldEventKind::MacroTimeFlow => "MacroTimeFlow"@,
        WorldEventKind::CcCanvas => "CcCanvas"@,
    }
}

fn kind_debug(k: WorldEventKind) -> (r: &'static str)
    ensures
        r@ == kind_debug_name(k),
{
    match k {
        WorldEventKind::NumericChoice => "NumericChoice",
        WorldEventKind::GuideChoice => "GuideChoice",
        WorldEventKind::FreeformAction => "FreeformAction",
        WorldEventKind::CodexQuery => "CodexQuery",
        WorldEventKind::MacroTimeFlow => "MacroTimeFlow",
        WorldEventKind::CcCanvas => "CcCanvas",
    }
}

pub open spec fn error_message(err: EventLedgerError) -> Seq<char>
    decreases err,
{
    match err {
        EventLedgerError::SchemaVersionMismatch { event_id, actual } => "world event schema_version mismatch: event_id="@
            + event_id@ + ", expected="@ + CANON_EVENT_SCHEMA_VERSION@ + ", actual="@ + actual@,
        EventLedgerError::EmptyEventId => "world event ledger event_id must not be empty"@,
        EventLedgerError::EmptyWorldId { event_id } => "world event ledger world_id must not be empty: event_id="@
            + event_id@,
        EventLedgerError::WorldIdMismatch { event_id, expected, actual } => "world event ledger world_id mismatch: event_id="@
            + event_id@ + ", expected="@ + expected@ + ", actual="@ + actual@,
        EventLedgerError::EmptyTurnId { event_id } => "world event ledger turn_id must not be empty: event_id="@
            + event_id@,
        EventLedgerError::EmptyKind { event_id } => "world event ledger kind must not be empty: event_id="@
            + event_id@,
        EventLedgerError::KindMismatch { event_id, kind, event_kind } => "world event ledger kind mismatch: event_id="@
            + event_id@ + ", kind="@ + kind@ + ", event_kind="@ + kind_debug_name(event_kind)
            + ", expected_kind="@ + event_kind.spec_legacy_kind(),
        EventLedgerError::DuplicateEventId { world_id, event_id } => "world event ledger duplicate event_id: world_id="@
            + world_id@ + ", event_id="@ + event_id@,
        EventLedgerError::AppendWorldIdMismatch { path, expected, actual } => "world event ledger append world_id mismatch: path="@
            + path@ + ", expected="@ + expected@ + ", actual="@ + actual@,
        EventLedgerError::AppendDuplicateEventId { path, event_id } => "world event ledger append duplicate event_id: path="@
            + path@ + ", event_id="@ + event_id@,
        EventLedgerError::ExistingEntriesInvalid { path, cause } => "world event ledger existing entries invalid: "@
            + path@ + ": "@ + error_message(*cause),
    }
}

impl EventLedgerError {
    /// The error rendered as one line, with its cause after a colon.
    pub fn message(&self) -> (r: String)
        ensures
            r@ == error_message(*self),
        decreases *self,
    {
        match self {
            EventLedgerError::SchemaVersionMismatch { event_id, actual } => {
                let a = concat4(
                    "world event schema_version mismatch: event_id=",
                    event_id.as_str(),
                    ", expected=",
                    CANON_EVENT_SCHEMA_VERSION,
                );
                concat3(a.as_str(), ", actual=", actual.as_str())
            },
            EventLedgerError::EmptyEventId => String::from_str(
                "world event ledger event_id must not be empty",
            ),
            EventLedgerError::EmptyWorldId { event_id } => concat2(
                "world event ledger world_id must not be empty: event_id=",
                event_id.as_str(),
            ),
            EventLedgerError::WorldIdMismatch { event_id, expected, actual } => {
                let a = concat4(
                    "world event ledger world_id mismatch: event_id=",
                    event_id.as_str(),
                    ", expected=",
                    expected.as_str(),
                );
                concat3(a.as_str(), ", actual=", actual.as_str())
            },
            EventLedgerError::EmptyTurnId { event_id } => concat2(
                "world event ledger turn_id must not be empty: event_id=",
                event_id.as_str(),
            ),
            EventLedgerError::EmptyKind { event_id } => concat2(
                "world event ledger kind must not be empty: event_id=",
                event_id.as_str(),
            ),
            EventLedgerError::KindMismatch { event_id, kind, event_kind } => {
                let a = concat4(
                    "world event ledger kind mismatch: event_id=",
                    event_id.as_str(),
                    ", kind=",
                    kind.as_str(),
                );
                let b = concat4(
                    a.as_str(),
                    ", event_kind=",
                    kind_debug(*event_kind),
                    ", expected_kind=",
                );
                concat2(b.as_str(), event_kind.as_legacy_kind())
            },
            EventLedgerError::DuplicateEventId { world_id, event_id } => concat4(
                "world event ledger duplicate event_id: world_id=",
                world_id.as_str(),
                ", event_id=",
                event_id.as_str(),
            ),
            EventLedgerError::AppendWorldIdMismatch { path, expected, actual } => {
                let a = concat4(
                    "world event ledger append world_id mismatch: path=",
                    path.as_str(),
                    ", expected=",
                    expected.as_str(),
                );
                concat3(a.as_str(), ", actual=", actual.as_str())
            },
            EventLedgerError::AppendDuplicateEventId { path, event_id } => concat4(
                "world event ledger append duplicate event_id: path=",
                path.as_str(),
                ", event_id=",
                event_id.as_str(),
            ),
            EventLedgerError::ExistingEntriesInvalid { path, cause } => {
                let inner = cause.message();
                concat4(
                    "world event ledger existing entries invalid: ",
                    path.as_str(),
                    ": ",
                    inner.as_str(),
                )
            },
        }
    }
}

/// A verified ledger stays verified when an event that `plan_world_event_append`
/// accepted is appended to it: the append keeps the ledger single-world and
/// free of repeated ids.
pub proof fn law_accepted_append_keeps_ledger_valid(existing: Seq<CanonEvent>, event: CanonEvent)
    requires
        ledger_ok(existing, event.world_id@),
        shape_fault(event, Some(event.world_id@)) is None,
        forall|i: int| 0 <= i < existing.len() ==> existing[i].event_id@ != event.event_id@,
    ensures
        ledger_ok(existing.push(event), event.world_id@),
{
    let s = existing.push(event);
    assert forall|i: int| 0 <= i < s.len() implies entry_ok(s, i, event.world_id@) by {
        if i < existing.len() {
            assert(entry_ok(existing, i, event.world_id@));
            assert(s[i] == existing[i]);
            if repeats_earlier_id(s, i) {
                let j = choose|j: int| 0 <= j < i && s[j].event_id@ == s[i].event_id@;
                assert(existing[j].event_id@ == existing[i].event_id@);
            }
        } else {
            if repeats_earlier_id(s, i) {
                let j = choose|j: int| 0 <= j < i && s[j].event_id@ == s[i].event_id@;
                assert(existing[j].event_id@ == event.event_id@);
            }
        }
    }
}

} // verus!
