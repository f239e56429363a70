use singulari_world::agent_bridge::{known_facts, private_context};
use singulari_world::models::{
    CurrentEvent, HiddenSecret, HiddenState, HiddenTimer, ProtagonistState, TurnSnapshot,
};

#[test]
fn known_facts_list_questions_mind_body_and_event() {
    let snapshot = TurnSnapshot {
        schema_version: "s".to_owned(),
        world_id: "w".to_owned(),
        session_id: "session".to_owned(),
        turn_id: "turn_0002".to_owned(),
        phase: "pending".to_owned(),
        current_event: Some(CurrentEvent {
            event_id: "event:gate".to_owned(),
            progress: "half".to_owned(),
        }),
        protagonist_state: ProtagonistState {
            location: "place:gate".to_owned(),
            inventory: Vec::new(),
            body: vec!["tired".to_owned()],
            mind: vec!["wary".to_owned()],
        },
        open_questions: vec!["who locked it?".to_owned()],
        last_choices: Vec::new(),
    };
    assert_eq!(
        known_facts(&snapshot),
        vec![
            "open_question: who locked it?",
            "mind: wary",
            "body: tired",
            "current_event: event:gate / half"
        ]
    );
}

#[test]
fn private_context_carries_timers_and_secrets() {
    let hidden = HiddenState {
        schema_version: "h".to_owned(),
        world_id: "w".to_owned(),
        secrets: vec![HiddenSecret {
            secret_id: "secret:1".to_owned(),
            status: "sealed".to_owned(),
            truth: "the north door was never locked".to_owned(),
            reveal_conditions: vec!["touch the latch".to_owned()],
            forbidden_leaks: vec!["never locked".to_owned()],
        }],
        timers: vec![HiddenTimer {
            timer_id: "timer:1".to_owned(),
            kind: "patrol".to_owned(),
            remaining_turns: 3,
            effect: "guard returns".to_owned(),
        }],
    };
    let ctx = private_context(&hidden);
    assert_eq!(ctx.hidden_timers.len(), 1);
    assert_eq!(ctx.hidden_timers[0].remaining_turns, 3);
    assert_eq!(ctx.unrevealed_constraints[0].forbidden_leaks, vec!["never locked".to_owned()]);
    assert_eq!(ctx.plausibility_gates, vec!["body", "resource", "time", "social_permission", "knowledge"]);
}
