//! Routing of a simulator chat message to the next local CLI command.
use crate::models::FREEFORM_CHOICE_SLOT;
use crate::text::{
    ascii_lower, concat2, concat3, concat4, contains, contains_str, eq_ignore_ascii_case_str,
    is_blank_str, is_ws, is_ws_char, join, replace_char, starts_with, starts_with_str,
    strip_prefix_str, trim, trim_str, views,
};
use vstd::prelude::*;

verus! {

pub const CHAT_ROUTE_SCHEMA_VERSION: &'static str = "singulari.chat_route.v1";

#[derive(Debug, Clone)]
pub struct ChatRouteOptions {
    pub message: String,
    pub world_id: Option<String>,
}

#[derive(Debug, Clone)]
pub struct ChatRoute {
    pub schema_version: String,
    pub route: String,
    pub command: String,
    pub explanation: String,
}

// ---------------------------------------------------------------------------
// Specification of the classification.
// ---------------------------------------------------------------------------

pub open spec fn is_ascii_digit(c: char) -> bool {
    '0' <= c && c <= '9'
}

pub open spec fn all_ascii_digits(s: Seq<char>) -> bool {
    forall|i: int| 0 <= i < s.len() ==> is_ascii_digit(#[trigger] s[i])
}

/// The value of a string of ASCII digits.
pub open spec fn digits_value(s: Seq<char>) -> nat
    decreases s.len(),
{
    if s.len() == 0 {
        0
    } else {
        digits_value(s.drop_last()) * 10 + ((s.last() as u32) - ('0' as u32)) as nat
    }
}

/// `str::parse::<u8>`: an optional `+`, then at least one ASCII digit, with a
/// value below 256.
pub open spec fn parse_u8(s: Seq<char>) -> Option<nat> {
    let d = if s.len() > 0 && s[0] == '+' {
        s.drop_first()
    } else {
        s
    };
    if d.len() > 0 && all_ascii_digits(d) && digits_value(d) < 256 {
        Some(digits_value(d))
    } else {
        None
    }
}

pub open spec fn is_bare_numeric_choice(message: Seq<char>) -> bool {
    parse_u8(message) matches Some(v) && 1 <= v <= 6
}

pub open spec fn freeform_digit() -> char {
    '6'
}

pub open spec fn is_slot_separator(c: char) -> bool {
    c == '.' || c == ')' || c == ':' || c == '-' || c == '—'
}

/// The message is the freeform slot digit followed by nothing, `번`,
/// whitespace or a separator.
pub open spec fn is_inline_freeform(message: Seq<char>) -> bool {
    let t = trim(message);
    &&& t.len() > 0
    &&& t[0] == freeform_digit()
    &&& {
        let rest = t.subrange(1, t.len() as int);
        rest.len() == 0 || starts_with(rest, "번"@) || is_ws(rest[0]) || is_slot_separator(rest[0])
    }
}

pub open spec fn is_start(message: Seq<char>) -> bool {
    (contains(message, "시작"@) || contains(message, "start"@)) && (contains(message, "싱귤"@)
        || contains(message, "월드 시뮬"@) || contains(message, "world simulator"@))
}

pub open spec fn is_codex(message: Seq<char>) -> bool {
    contains(message, "기록"@) || ascii_lower(message) == ascii_lower("codex"@) || contains(
        message,
        "연대기"@,
    ) || contains(message, "연감"@) || contains(message, "청사진"@) || contains(
        message,
        "실시간 분석"@,
    ) || contains(message, "관련 항목"@)
}

pub open spec fn section_of(message: Seq<char>) -> Seq<char> {
    if contains(message, "연대기"@) {
        "timeline"@
    } else if contains(message, "연감"@) {
        "almanac"@
    } else if contains(message, "청사진"@) || contains(message, "엔티티"@) {
        "blueprint"@
    } else if contains(message, "분석"@) {
        "analysis"@
    } else if contains(message, "추천"@) || contains(message, "관련"@) {
        "related"@
    } else {
        "all"@
    }
}

pub open spec fn search_prefixes() -> Seq<Seq<char>> {
    seq!["검색 "@, "찾아줘 "@, "찾아봐 "@, "search "@]
}

/// The query that the first matching search prefix leaves, trimmed and
/// non-empty, trying the prefixes from index `k` on.
pub open spec fn search_query_from(t: Seq<char>, k: int) -> Option<Seq<char>>
    decreases 4 - k,
{
    if k < 0 || k >= 4 {
        None
    } else {
        let p = search_prefixes()[k];
        if starts_with(t, p) && trim(t.subrange(p.len() as int, t.len() as int)).len() > 0 {
            Some(trim(t.subrange(p.len() as int, t.len() as int)))
        } else {
            search_query_from(t, k + 1)
        }
    }
}

pub open spec fn search_query_of(message: Seq<char>) -> Option<Seq<char>> {
    search_query_from(trim(message), 0)
}

pub open spec fn is_resume(message: Seq<char>) -> bool {
    contains(message, "재개"@) || contains(message, "resume"@) || contains(message, "이어"@)
}

pub open spec fn is_export(message: Seq<char>) -> bool {
    contains(message, "export"@) || contains(message, "내보내"@)
}

pub open spec fn is_import(message: Seq<char>) -> bool {
    contains(message, "import"@) || contains(message, "가져와"@) || contains(message, "불러와"@)
}

/// The text after the first `:`, trimmed; the whole message when there is none.
pub open spec fn seed_text_of(message: Seq<char>) -> Seq<char> {
    if exists|i: int| 0 <= i < message.len() && message[i] == ':' {
        let i = choose|i: int|
            0 <= i < message.len() && message[i] == ':' && forall|j: int|
                0 <= j < i ==> message[j] != ':';
        trim(message.subrange(i + 1, message.len() as int))
    } else {
        message
    }
}

/// Single-quoted for a POSIX shell.
pub open spec fn shell_quoted(v: Seq<char>) -> Seq<char> {
    "'"@ + replace_char(v, '\'', "'\\''"@) + "'"@
}

pub open spec fn world_arg_of(world_id: Option<Seq<char>>) -> Seq<char> {
    match world_id {
        Some(w) => " --world-id "@ + w,
        None => Seq::empty(),
    }
}

pub open spec fn turn_command(world_arg: Seq<char>, message: Seq<char>) -> Seq<char> {
    "singulari-world turn"@ + world_arg + " --input "@ + shell_quoted(message) + " --render"@
}

/// The `(route, command, explanation)` that a trimmed message is routed to.
pub open spec fn route_of(m: Seq<char>, world_id: Option<Seq<char>>) -> (
    Seq<char>,
    Seq<char>,
    Seq<char>,
) {
    let w = world_arg_of(world_id);
    if is_inline_freeform(m) {
        (
            "turn"@,
            turn_command(w, m),
            "slot 7 carries an inline freeform action for plausibility adjudication"@,
        )
    } else if is_bare_numeric_choice(m) {
        ("turn"@, turn_command(w, m), "bare numeric choice advances the active world turn"@)
    } else if is_start(m) {
        (
            "start"@,
            "singulari-world start --seed-text "@ + shell_quoted(seed_text_of(m)),
            "explicit simulator start request creates a new active world from the seed text"@,
        )
    } else if is_codex(m) {
        (
            "codex_view"@,
            "singulari-world codex-view"@ + w + " --section "@ + section_of(m),
            "Codex request opens the player-visible DB-backed Archive View"@,
        )
    } else if search_query_of(m) is Some {
        (
            "search"@,
            "singulari-world search"@ + w + " --query "@ + shell_quoted(
                search_query_of(m)->0,
            ),
            "search request queries player-visible world memory"@,
        )
    } else if is_resume(m) {
        (
            "resume_pack"@,
            "singulari-world resume-pack"@ + w,
            "resume request prints the compact continuation packet"@,
        )
    } else if is_export(m) {
        (
            "export_world"@,
            "singulari-world export-world"@ + w + " --output <bundle_dir>"@,
            "export request needs an explicit local bundle destination"@,
        )
    } else if is_import(m) {
        (
            "import_world"@,
            "singulari-world import-world --bundle <bundle_dir> --activate"@,
            "import request needs an explicit local bundle path"@,
        )
    } else {
        (
            "turn"@,
            turn_command(w, m),
            "unrecognized gameplay text is treated as a freeform action attempt"@,
        )
    }
}

/// A codex request names its section by the words it holds: 연대기 opens the
/// timeline, and 연감 without 연대기 opens the almanac, two different sections.
/// Any message that is neither a slot choice nor a start request and names
/// one of the two is routed to the codex view with that section.
pub proof fn law_codex_section_follows_its_word(m: Seq<char>, world_id: Option<Seq<char>>)
    requires
        !is_inline_freeform(m),
        !is_bare_numeric_choice(m),
        !is_start(m),
        contains(m, "연대기"@) || contains(m, "연감"@),
    ensures
        route_of(m, world_id).0 == "codex_view"@,
        contains(m, "연대기"@) ==> route_of(m, world_id).1 == "singulari-world codex-view"@
            + world_arg_of(world_id) + " --section "@ + "timeline"@,
        !contains(m, "연대기"@) ==> route_of(m, world_id).1 == "singulari-world codex-view"@
            + world_arg_of(world_id) + " --section "@ + "almanac"@,
        "timeline"@ != "almanac"@,
{
    assert(is_codex(m));
    reveal_strlit("timeline");
    reveal_strlit("almanac");
    assert("timeline"@[0] != "almanac"@[0]);
}

pub open spec fn option_view(o: Option<String>) -> Option<Seq<char>> {
    match o {
        Some(s) => Some(s@),
        None => None,
    }
}

// ---------------------------------------------------------------------------
// Implementation.
// ---------------------------------------------------------------------------

/// Classify a worldsim chat simulator message into the next local CLI command.
pub fn route_chat_input(options: &ChatRouteOptions) -> (r: ChatRoute)
    ensures
        r.schema_version@ == CHAT_ROUTE_SCHEMA_VERSION@,
        (r.route@, r.command@, r.explanation@) == route_of(
            trim(options.message@),
            option_view(options.world_id),
        ),
{
    let message = trim_str(options.message.as_str());
    let world_arg = match &options.world_id {
        Some(world_id) => concat2(" --world-id ", world_id.as_str()),
        None => String::new(),
    };
    let ghost m = message@;
    let ghost w = world_arg_of(option_view(options.world_id));
    assert(world_arg@ == w);
    let (route, command, explanation): (&str, String, &str) = if is_inline_freeform_choice(
        message,
    ) {
        (
            "turn",
            turn_command_string(world_arg.as_str(), message),
            "slot 7 carries an inline freeform action for plausibility adjudication",
        )
    } else if is_bare_numeric_choice_str(message) {
        (
            "turn",
            turn_command_string(world_arg.as_str(), message),
            "bare numeric choice advances the active world turn",
        )
    } else if is_start_request(message) {
        let q = shell_quote(seed_text(message));
        (
            "start",
            concat2("singulari-world start --seed-text ", q.as_str()),
            "explicit simulator start request creates a new active world from the seed text",
        )
    } else if is_codex_request(message) {
        (
            "codex_view",
            concat4(
                "singulari-world codex-view",
                world_arg.as_str(),
                " --section ",
                codex_section(message),
            ),
            "Codex request opens the player-visible DB-backed Archive View",
        )
    } else if let Some(query) = search_query(message) {
        let q = shell_quote(query);
        (
            "search",
            concat4("singulari-world search", world_arg.as_str(), " --query ", q.as_str()),
            "search request queries player-visible world memory",
        )
    } else if is_resume_request(message) {
        (
            "resume_pack",
            concat2("singulari-world resume-pack", world_arg.as_str()),
            "resume request prints the compact continuation packet",
        )
    } else if is_export_request(message) {
        (
            "export_world",
            concat3(
                "singulari-world export-world",
                world_arg.as_str(),
                " --output <bundle_dir>",
            ),
            "export request needs an explicit local bundle destination",
        )
    } else if is_import_request(message) {
        (
            "import_world",
            String::from_str("singulari-world import-world --bundle <bundle_dir> --activate"),
            "import request needs an explicit local bundle path",
        )
    } else {
        (
            "turn",
            turn_command_string(world_arg.as_str(), message),
            "unrecognized gameplay text is treated as a freeform action attempt",
        )
    };
    ChatRoute {
        schema_version: String::from_str(CHAT_ROUTE_SCHEMA_VERSION),
        route: String::from_str(route),
        command,
        explanation: String::from_str(explanation),
    }
}

fn turn_command_string(world_arg: &str, message: &str) -> (r: String)
    ensures
        r@ == turn_command(world_arg@, message@),
{
    let q = shell_quote(message);
    concat5_owned("singulari-world turn", world_arg, " --input ", q.as_str(), " --render")
}

fn concat5_owned(a: &str, b: &str, c: &str, d: &str, e: &str) -> (r: String)
    ensures
        r@ == a@ + b@ + c@ + d@ + e@,
{
    crate::text::concat5(a, b, c, d, e)
}

pub open spec fn render_lines(route: ChatRoute) -> Seq<Seq<char>> {
    seq![
        "route: "@ + route.route@,
        "command: "@ + route.command@,
        "why: "@ + route.explanation@,
    ]
}

/// The route as three `key: value` lines.
pub fn render_chat_route(route: &ChatRoute) -> (r: String)
    ensures
        r@ == join(render_lines(*route), "\n"@),
{
    let mut lines: Vec<String> = Vec::new();
    lines.push(concat2("route: ", route.route.as_str()));
    lines.push(concat2("command: ", route.command.as_str()));
    lines.push(concat2("why: ", route.explanation.as_str()));
    assert(views(lines@) =~= render_lines(*route));
    crate::text::join_strings(&lines, "\n")
}

fn is_start_request(message: &str) -> (r: bool)
    ensures
        r == is_start(message@),
{
    (contains_str(message, "시작") || contains_str(message, "start")) && (contains_str(
        message,
        "싱귤",
    ) || contains_str(message, "월드 시뮬") || contains_str(message, "world simulator"))
}

fn first_colon(message: &str) -> (r: Option<usize>)
    ensures
        r matches Some(i) ==> i < message@.len() && message@[i as int] == ':' && forall|j: int|
            0 <= j < i ==> message@[j] != ':',
        r is None ==> forall|j: int| 0 <= j < message@.len() ==> message@[j] != ':',
{
    let n = message.unicode_len();
    let mut i: usize = 0;
    while i < n
        invariant
            n == message@.len(),
            i <= n,
            forall|j: int| 0 <= j < i ==> message@[j] != ':',
        decreases n - i,
    {
        if message.get_char(i) == ':' {
            return Some(i);
        }
        i = i + 1;
    }
    None
}

fn seed_text<'a>(message: &'a str) -> (r: &'a str)
    ensures
        r@ == seed_text_of(message@),
{
    match first_colon(message) {
        Some(i) => {
            let n = message.unicode_len();
            let rest = message.substring_char(i + 1, n);
            proof {
                let m = message@;
                assert(exists|k: int| 0 <= k < m.len() && m[k] == ':') by {
                    assert(m[i as int] == ':');
                }
                let c = choose|k: int|
                    0 <= k < m.len() && m[k] == ':' && forall|j: int| 0 <= j < k ==> m[j] != ':';
                assert(0 <= c < m.len() && m[c] == ':' && forall|j: int| 0 <= j < c ==> m[j] != ':')
                    by {
                    assert(0 <= i < m.len() && m[i as int] == ':' && forall|j: int|
                        0 <= j < i ==> m[j] != ':');
                }
                if c < i {
                    assert(m[c] != ':');
                }
                if i < c {
                    assert(m[i as int] != ':');
                }
                assert(c == i);
            }
            trim_str(rest)
        },
        None => message,
    }
}

fn is_codex_request(message: &str) -> (r: bool)
    ensures
        r == is_codex(message@),
{
    contains_str(message, "기록") || eq_ignore_ascii_case_str(message, "codex") || contains_str(
        message,
        "연대기",
    ) || contains_str(message, "연감") || contains_str(message, "청사진") || contains_str(
        message,
        "실시간 분석",
    ) || contains_str(message, "관련 항목")
}

fn codex_section(message: &str) -> (r: &'static str)
    ensures
        r@ == section_of(message@),
{
    if contains_str(message, "연대기") {
        return "timeline";
    }
    if contains_str(message, "연감") {
        return "almanac";
    }
    if contains_str(message, "청사진") || contains_str(message, "엔티티") {
        return "blueprint";
    }
    if contains_str(message, "분석") {
        return "analysis";
    }
    if contains_str(message, "추천") || contains_str(message, "관련") {
        return "related";
    }
    "all"
}

fn search_query<'a>(message: &'a str) -> (r: Option<&'a str>)
    ensures
        match r {
            Some(q) => search_query_of(message@) == Some(q@),
            None => search_query_of(message@) is None,
        },
{
    let trimmed = trim_str(message);
    let prefixes: [&str; 4] = ["검색 ", "찾아줘 ", "찾아봐 ", "search "];
    assert(crate::text::str_views(prefixes@) =~= search_prefixes());
    let mut k: usize = 0;
    while k < 4
        invariant
            trimmed@ == trim(message@),
            k <= 4,
            crate::text::str_views(prefixes@) == search_prefixes(),
            search_query_from(trimmed@, 0) == search_query_from(trimmed@, k as int),
        decreases 4 - k,
    {
        assert(prefixes@[k as int]@ == search_prefixes()[k as int]);
        if let Some(rest) = strip_prefix_str(trimmed, prefixes[k]) {
            let query = trim_str(rest);
            if query.unicode_len() > 0 {
                return Some(query);
            }
        }
        k = k + 1;
    }
    None
}

fn is_inline_freeform_choice(message: &str) -> (r: bool)
    ensures
        r == is_inline_freeform(message@),
{
    let t = trim_str(message);
    let n = t.unicode_len();
    if n == 0 {
        return false;
    }
    if t.get_char(0) != slot_digit_char(FREEFORM_CHOICE_SLOT) {
        return false;
    }
    let rest = t.substring_char(1, n);
    if rest.unicode_len() == 0 {
        return true;
    }
    let first = rest.get_char(0);
    starts_with_str(rest, "번") || is_ws_char(first) || first == '.' || first == ')' || first
        == ':' || first == '-' || first == '—'
}

fn slot_digit_char(slot: u8) -> (r: char)
    requires
        slot == 6,
    ensures
        r == freeform_digit(),
{
    '6'
}

pub(crate) fn parse_u8_str(s: &str) -> (r: Option<u8>)
    ensures
        match r {
            Some(v) => parse_u8(s@) == Some(v as nat),
            None => parse_u8(s@) is None,
        },
{
    let n = s.unicode_len();
    let mut start: usize = 0;
    if n > 0 && s.get_char(0) == '+' {
        start = 1;
    }
    let ghost d = if s@.len() > 0 && s@[0] == '+' {
        s@.drop_first()
    } else {
        s@
    };
    assert(d =~= s@.subrange(start as int, n as int));
    if start >= n {
        return None;
    }
    let mut value: u32 = 0;
    let mut i: usize = start;
    while i < n
        invariant
            n == s@.len(),
            start <= i <= n,
            start < n,
            d == s@.subrange(start as int, n as int),
            d == (if s@.len() > 0 && s@[0] == '+' {
                s@.drop_first()
            } else {
                s@
            }),
            all_ascii_digits(s@.subrange(start as int, i as int)),
            value as nat == digits_value(s@.subrange(start as int, i as int)),
            value < 256,
        decreases n - i,
    {
        let c = s.get_char(i);
        assert(s@.subrange(start as int, i + 1).drop_last() =~= s@.subrange(start as int, i as int));
        if !('0' <= c && c <= '9') {
            assert(!is_ascii_digit(d[i - start]));
            return None;
        }
        let digit = (c as u32) - ('0' as u32);
        let next = value * 10 + digit;
        proof {
            let sub = s@.subrange(start as int, i + 1);
            assert(sub.last() == c);
            assert(sub.drop_last() =~= s@.subrange(start as int, i as int));
            assert(digits_value(sub) == value * 10 + digit);
            assert(d.subrange(0, (i - start + 1) as int) =~= sub);
            assert(all_ascii_digits(sub)) by {
                assert forall|j: int| 0 <= j < sub.len() implies is_ascii_digit(#[trigger] sub[j]) by {
                    if j < sub.len() - 1 {
                        assert(sub[j] == s@.subrange(start as int, i as int)[j]);
                    }
                }
            }
        }
        if next >= 256 {
            proof {
                lemma_digits_value_monotone(d, (i - start + 1) as int);
            }
            return None;
        }
        value = next;
        i = i + 1;
    }
    assert(s@.subrange(start as int, n as int) =~= d);
    Some(value as u8)
}

proof fn lemma_digits_value_monotone(d: Seq<char>, k: int)
    requires
        0 <= k <= d.len(),
        all_ascii_digits(d.subrange(0, k)),
    ensures
        all_ascii_digits(d) ==> digits_value(d) >= digits_value(d.subrange(0, k)),
    decreases d.len() - k,
{
    if k < d.len() && all_ascii_digits(d) {
        assert(all_ascii_digits(d.subrange(0, k + 1)));
        lemma_digits_value_monotone(d, k + 1);
        assert(d.subrange(0, k + 1).drop_last() =~= d.subrange(0, k));
    } else if k == d.len() {
        assert(d.subrange(0, k) =~= d);
    }
}

fn is_bare_numeric_choice_str(message: &str) -> (r: bool)
    ensures
        r == is_bare_numeric_choice(message@),
{
    match parse_u8_str(message) {
        Some(slot) => 1 <= slot && slot <= 6,
        None => false,
    }
}

fn is_resume_request(message: &str) -> (r: bool)
    ensures
        r == is_resume(message@),
{
    contains_str(message, "재개") || contains_str(message, "resume") || contains_str(message, "이어")
}

fn is_export_request(message: &str) -> (r: bool)
    ensures
        r == is_export(message@),
{
    contains_str(message, "export") || contains_str(message, "내보내")
}

fn is_import_request(message: &str) -> (r: bool)
    ensures
        r == is_import(message@),
{
    contains_str(message, "import") || contains_str(message, "가져와") || contains_str(
        message,
        "불러와",
    )
}

proof fn lemma_replace_char_push(s: Seq<char>, c: char, with: Seq<char>, x: char)
    ensures
        replace_char(s.push(x), c, with) == replace_char(s, c, with) + (if x == c {
            with
        } else {
            seq![x]
        }),
    decreases s.len(),
{
    if s.len() == 0 {
        assert(s.push(x).subrange(1, 1) =~= Seq::<char>::empty());
        assert(replace_char(Seq::<char>::empty(), c, with) =~= Seq::<char>::empty());
        if x == c {
            assert(with + Seq::<char>::empty() =~= with);
            assert(Seq::<char>::empty() + with =~= with);
        } else {
            assert(seq![x] + Seq::<char>::empty() =~= seq![x]);
            assert(Seq::<char>::empty() + seq![x] =~= seq![x]);
        }
    } else {
        let t = s.subrange(1, s.len() as int);
        lemma_replace_char_push(t, c, with, x);
        assert(s.push(x).subrange(1, s.len() + 1 as int) =~= t.push(x));
        assert(s.push(x)[0] == s[0]);
        let tail = if x == c {
            with
        } else {
            seq![x]
        };
        if s[0] == c {
            assert(with + (replace_char(t, c, with) + tail) =~= (with + replace_char(t, c, with))
                + tail);
        } else {
            assert(seq![s[0]] + (replace_char(t, c, with) + tail) =~= (seq![s[0]] + replace_char(
                t,
                c,
                with,
            )) + tail);
        }
    }
}

/// Single-quote a value for a POSIX shell: `'` becomes `'\''`.
pub fn shell_quote(value: &str) -> (r: String)
    ensures
        r@ == shell_quoted(value@),
{
    let n = value.unicode_len();
    let mut out = String::from_str("'");
    let mut i: usize = 0;
    while i < n
        invariant
            n == value@.len(),
            i <= n,
            out@ == "'"@ + replace_char(value@.subrange(0, i as int), '\'', "'\\''"@),
        decreases n - i,
    {
        let c = value.get_char(i);
        proof {
            lemma_replace_char_push(value@.subrange(0, i as int), '\'', "'\\''"@, c);
            assert(value@.subrange(0, i as int).push(c) =~= value@.subrange(0, i + 1));
        }
        if c == '\'' {
            out.append("'\\''");
        } else {
            out.append(value.substring_char(i, i + 1));
            assert(value@.subrange(i as int, i + 1) =~= seq![c]);
        }
        i = i + 1;
    }
    assert(value@.subrange(0, n as int) =~= value@);
    out.append("'");
    out
}

} // verus!
