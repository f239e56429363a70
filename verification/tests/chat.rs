use singulari_world::chat::{render_chat_route, route_chat_input, shell_quote, ChatRouteOptions};

#[test]
fn numeric_message_routes_to_turn_render() {
    let route = route_chat_input(&ChatRouteOptions {
        message: "4".to_owned(),
        world_id: Some("stw".to_owned()),
    });
    assert_eq!(route.route, "turn");
    assert!(route.command.contains("--input '4' --render"));
    assert!(route.command.contains("--world-id stw"));
}

#[test]
fn inline_freeform_slot_routes_to_turn_render() {
    let route = route_chat_input(&ChatRouteOptions {
        message: "7 세아에게 낮게 묻는다".to_owned(),
        world_id: Some("stw".to_owned()),
    });
    assert_eq!(route.route, "turn");
    assert!(route
        .command
        .contains("--input '7 세아에게 낮게 묻는다' --render"));
    assert!(route.explanation.contains("freeform action"));
}

#[test]
fn codex_section_message_routes_to_section_view() {
    let route = route_chat_input(&ChatRouteOptions {
        message: "연대기 열어봐".to_owned(),
        world_id: None,
    });
    assert_eq!(route.route, "codex_view");
    assert!(route.command.contains("--section timeline"));
}

#[test]
fn freeform_slot_six_is_inline() {
    let route = route_chat_input(&ChatRouteOptions {
        message: "  6번 문을 두드린다 ".to_owned(),
        world_id: None,
    });
    assert_eq!(route.route, "turn");
    assert_eq!(
        route.command,
        "singulari-world turn --input '6번 문을 두드린다' --render"
    );
    assert!(route.explanation.starts_with("slot 7 carries"));
}

#[test]
fn numeric_choice_accepts_plus_sign_but_not_seven() {
    let plus = route_chat_input(&ChatRouteOptions {
        message: "+3".to_owned(),
        world_id: None,
    });
    assert_eq!(
        plus.explanation,
        "bare numeric choice advances the active world turn"
    );
    let seven = route_chat_input(&ChatRouteOptions {
        message: "7".to_owned(),
        world_id: None,
    });
    assert_eq!(
        seven.explanation,
        "unrecognized gameplay text is treated as a freeform action attempt"
    );
    let big = route_chat_input(&ChatRouteOptions {
        message: "300".to_owned(),
        world_id: None,
    });
    assert_eq!(big.route, "turn");
    assert!(big.explanation.starts_with("unrecognized"));
}

#[test]
fn start_search_and_archive_routes() {
    let start = route_chat_input(&ChatRouteOptions {
        message: "싱귤 시작: 중세 판타지 ".to_owned(),
        world_id: None,
    });
    assert_eq!(start.route, "start");
    assert_eq!(start.command, "singulari-world start --seed-text '중세 판타지'");
    let search = route_chat_input(&ChatRouteOptions {
        message: "search old gate".to_owned(),
        world_id: Some("w".to_owned()),
    });
    assert_eq!(search.route, "search");
    assert_eq!(
        search.command,
        "singulari-world search --world-id w --query 'old gate'"
    );
    let codex = route_chat_input(&ChatRouteOptions {
        message: "CODEX".to_owned(),
        world_id: None,
    });
    assert_eq!(codex.command, "singulari-world codex-view --section all");
    let resume = route_chat_input(&ChatRouteOptions {
        message: "이어서 하자".to_owned(),
        world_id: None,
    });
    assert_eq!(resume.route, "resume_pack");
    let export = route_chat_input(&ChatRouteOptions {
        message: "export please".to_owned(),
        world_id: None,
    });
    assert_eq!(
        export.command,
        "singulari-world export-world --output <bundle_dir>"
    );
    let import = route_chat_input(&ChatRouteOptions {
        message: "세계 불러와".to_owned(),
        world_id: None,
    });
    assert_eq!(import.route, "import_world");
}

#[test]
fn shell_quote_escapes_single_quotes_and_render_lists_three_lines() {
    assert_eq!(shell_quote("it's"), "'it'\\''s'");
    let route = route_chat_input(&ChatRouteOptions {
        message: "4".to_owned(),
        world_id: None,
    });
    let rendered = render_chat_route(&route);
    assert_eq!(
        rendered,
        "route: turn\ncommand: singulari-world turn --input '4' --render\nwhy: bare numeric choice advances the active world turn"
    );
}
