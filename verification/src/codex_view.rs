//! The player-visible Archive View and its Markdown rendering.
use crate::models::{
    CharacterRecord, CharacterVoiceAnchor, EntityRecords, HiddenState, PROTAGONIST_CHARACTER_ID, TurnSnapshot,
};
use crate::text::{clone_strings, concat2, concat3, dec, dec_string, join, join_strings, str_eq, views};
use vstd::prelude::*;

verus! {

pub const CODEX_VIEW_SCHEMA_VERSION: &'static str = "singulari.codex_view.v1";
pub const DEFAULT_CODEX_LIMIT: usize = 12;
pub const DEFAULT_RECOMMENDATION_LIMIT: usize = 5;

#[derive(Debug, Clone, Copy, PartialEq, Eq, Structural)]
pub enum CodexViewSection {
    All,
    Timeline,
    Almanac,
    Blueprint,
    Analysis,
    Related,
}

/// The name of a section, as it is displayed.
pub open spec fn section_name(s: CodexViewSection) -> Seq<char> {
    match s {
        CodexViewSection::All => "all"@,
        CodexViewSection::Timeline => "timeline"@,
        CodexViewSection::Almanac => "almanac"@,
        CodexViewSection::Blueprint => "blueprint"@,
        CodexViewSection::Analysis => "analysis"@,
        CodexViewSection::Related => "related"@,
    }
}

/// The section a name (or one of its aliases) stands for.
pub open spec fn section_of_name(v: Seq<char>) -> Option<CodexViewSection> {
    if v == "all"@ {
        Some(CodexViewSection::All)
    } else if v == "timeline"@ || v == "protagonist"@ || v == "history"@ {
        Some(CodexViewSection::Timeline)
    } else if v == "almanac"@ || v == "facts"@ {
        Some(CodexViewSection::Almanac)
    } else if v == "blueprint"@ || v == "entities"@ {
        Some(CodexViewSection::Blueprint)
    } else if v == "analysis"@ || v == "live"@ {
        Some(CodexViewSection::Analysis)
    } else if v == "related"@ || v == "recommendations"@ {
        Some(CodexViewSection::Related)
    } else {
        None
    }
}

impl CodexViewSection {
    /// The displayed name.
    pub fn as_str(&self) -> (r: &'static str)
        ensures
            r@ == section_name(*self),
    {
        match self {
            CodexViewSection::All => "all",
            CodexViewSection::Timeline => "timeline",
            CodexViewSection::Almanac => "almanac",
            CodexViewSection::Blueprint => "blueprint",
            CodexViewSection::Analysis => "analysis",
            CodexViewSection::Related => "related",
        }
    }

    /// Reads a section name; an unknown name is refused with the message
    /// that lists the names.
    pub fn parse(value: &str) -> (r: Result<CodexViewSection, String>)
        ensures
            match r {
                Ok(s) => section_of_name(value@) == Some(s),
                Err(m) => section_of_name(value@) is None && m@ == "unknown Archive View section: "@ + value@
                    + "; expected all|timeline|almanac|blueprint|analysis|related"@,
            },
    {
        if str_eq(value, "all") {
            Ok(CodexViewSection::All)
        } else if str_eq(value, "timeline") || str_eq(value, "protagonist") || str_eq(value, "history") {
            Ok(CodexViewSection::Timeline)
        } else if str_eq(value, "almanac") || str_eq(value, "facts") {
            Ok(CodexViewSection::Almanac)
        } else if str_eq(value, "blueprint") || str_eq(value, "entities") {
            Ok(CodexViewSection::Blueprint)
        } else if str_eq(value, "analysis") || str_eq(value, "live") {
            Ok(CodexViewSection::Analysis)
        } else if str_eq(value, "related") || str_eq(value, "recommendations") {
            Ok(CodexViewSection::Related)
        } else {
            Err(
                concat3(
                    "unknown Archive View section: ",
                    value,
                    "; expected all|timeline|almanac|blueprint|analysis|related",
                ),
            )
        }
    }
}

/// What an Archive View is built for: the world, an optional search query,
/// how many records each list shows, and the store it is read from.
#[derive(Debug, Clone)]
pub struct BuildCodexViewOptions {
    pub store_root: Option<String>,
    pub world_id: String,
    pub query: Option<String>,
    pub limit: usize,
}

impl BuildCodexViewOptions {
    pub fn new(world_id: String) -> (r: Self)
        ensures
            r.store_root is None,
            r.world_id == world_id,
            r.query is None,
            r.limit == DEFAULT_CODEX_LIMIT,
    {
        BuildCodexViewOptions { store_root: None, world_id, query: None, limit: DEFAULT_CODEX_LIMIT }
    }
}

#[derive(Debug, Clone)]
pub struct CodexTimelineEntry {
    pub turn_id: String,
    pub event_id: String,
    pub kind: String,
    pub summary: String,
}

#[derive(Debug, Clone)]
pub struct CodexFactEntry {
    pub fact_id: String,
    pub category: String,
    pub subject: String,
    pub predicate: String,
    pub object: String,
}

#[derive(Debug, Clone)]
pub struct CodexEntityEntry {
    pub entity_id: String,
    pub entity_type: String,
    pub name: String,
    pub status: String,
}

#[derive(Debug, Clone)]
pub struct CodexVoiceAnchorEntry {
    pub character_id: String,
    pub name: String,
    pub speech: Vec<String>,
    pub gestures: Vec<String>,
    pub habits: Vec<String>,
    pub drift: Vec<String>,
}

#[derive(Debug, Clone)]
pub struct CodexAnalysisEntry {
    pub label: String,
    pub value: String,
}

#[derive(Debug, Clone)]
pub struct CodexRecommendation {
    pub source: String,
    pub target: String,
    pub reason: String,
}

#[derive(Debug, Clone)]
pub struct CodexHiddenFilter {
    pub hidden_secrets: usize,
    pub hidden_timers: usize,
    pub policy: String,
}

/// The player-visible Archive View of a world.
#[derive(Debug, Clone)]
pub struct CodexView {
    pub schema_version: String,
    pub world_id: String,
    pub turn_id: String,
    pub title: String,
    pub protagonist_timeline: Vec<CodexTimelineEntry>,
    pub world_almanac: Vec<CodexFactEntry>,
    pub world_blueprint: Vec<CodexEntityEntry>,
    pub voice_anchors: Vec<CodexVoiceAnchorEntry>,
    pub realtime_analysis: Vec<CodexAnalysisEntry>,
    pub related_recommendations: Vec<CodexRecommendation>,
    pub hidden_filter: CodexHiddenFilter,
}

/// A character's voice anchor is shown once the protagonist knows them.
pub open spec fn anchor_visible(knowledge_state: Seq<char>) -> bool {
    knowledge_state == "self"@ || knowledge_state == "known"@ || knowledge_state == "player_visible"@
        || knowledge_state == "protagonist_known"@
}

pub fn character_voice_anchor_is_visible(character: &CharacterRecord) -> (r: bool)
    ensures
        r == anchor_visible(character.knowledge_state@),
{
    let k = character.knowledge_state.as_str();
    str_eq(k, "self") || str_eq(k, "known") || str_eq(k, "player_visible") || str_eq(k, "protagonist_known")
}

/// The character whose voice falls back to the protagonist's default.
pub open spec fn is_protagonist(character: CharacterRecord) -> bool {
    character.id@ == PROTAGONIST_CHARACTER_ID@
}

/// The voice a character shows: its own anchor when it has one, else the
/// protagonist's default for the protagonist.
pub open spec fn effective_anchor(c: CharacterRecord, default: CharacterVoiceAnchor) -> Option<CharacterVoiceAnchor> {
    if !c.voice_anchor.spec_is_empty() {
        Some(c.voice_anchor)
    } else if is_protagonist(c) {
        Some(default)
    } else {
        None
    }
}

/// The characters whose anchors the archive shows, with those anchors.
pub open spec fn shown_anchors(cs: Seq<CharacterRecord>, default: CharacterVoiceAnchor) -> Seq<
    (CharacterRecord, CharacterVoiceAnchor),
>
    decreases cs.len(),
{
    if cs.len() == 0 {
        Seq::empty()
    } else {
        let p = shown_anchors(cs.drop_last(), default);
        let c = cs.last();
        if anchor_visible(c.knowledge_state@) && effective_anchor(c, default) is Some {
            p.push((c, effective_anchor(c, default).unwrap()))
        } else {
            p
        }
    }
}

pub open spec fn anchor_entry_is(e: CodexVoiceAnchorEntry, c: CharacterRecord, a: CharacterVoiceAnchor) -> bool {
    &&& e.character_id@ == c.id@
    &&& e.name@ == c.name.visible@
    &&& e.speech@ == a.speech@
    &&& e.gestures@ == a.gestures@
    &&& e.habits@ == a.habits@
    &&& e.drift@ == a.drift@
}

fn anchor_entry(c: &CharacterRecord, a: &CharacterVoiceAnchor) -> (r: CodexVoiceAnchorEntry)
    ensures
        anchor_entry_is(r, *c, *a),
{
    CodexVoiceAnchorEntry {
        character_id: c.id.clone(),
        name: c.name.visible.clone(),
        speech: clone_strings(&a.speech),
        gestures: clone_strings(&a.gestures),
        habits: clone_strings(&a.habits),
        drift: clone_strings(&a.drift),
    }
}

/// The voice anchors of the characters the protagonist knows, at most
/// `limit`; `protagonist_default` is the protagonist's voice when the record
/// has none.
pub fn visible_voice_anchors(
    entities: &EntityRecords,
    limit: usize,
    protagonist_default: &CharacterVoiceAnchor,
) -> (r: Vec<CodexVoiceAnchorEntry>)
    ensures
        ({
            let shown = shown_anchors(entities.characters@, *protagonist_default);
            let n = if shown.len() > limit { limit as int } else { shown.len() as int };
            &&& r@.len() == n
            &&& forall|k: int| 0 <= k < n ==> anchor_entry_is(#[trigger] r@[k], shown[k].0, shown[k].1)
        }),
{
    let cs = &entities.characters;
    let ghost all = cs@;
    let mut out: Vec<CodexVoiceAnchorEntry> = Vec::new();
    let mut i: usize = 0;
    while i < cs.len() && out.len() < limit
        invariant
            i <= all.len(),
            cs@ == all,
            out@.len() <= limit,
            out@.len() == shown_anchors(all.subrange(0, i as int), *protagonist_default).len(),
            forall|k: int|
                0 <= k < out@.len() ==> anchor_entry_is(
                    #[trigger] out@[k],
                    shown_anchors(all.subrange(0, i as int), *protagonist_default)[k].0,
                    shown_anchors(all.subrange(0, i as int), *protagonist_default)[k].1,
                ),
        decreases cs.len() - i,
    {
        let ghost prev = shown_anchors(all.subrange(0, i as int), *protagonist_default);
        proof {
            assert(all.subrange(0, i + 1).drop_last() =~= all.subrange(0, i as int));
            assert(all.subrange(0, i + 1).last() == all[i as int]);
        }
        let c = &cs[i];
        if character_voice_anchor_is_visible(c) {
            if !c.voice_anchor.is_empty() {
                let e = anchor_entry(c, &c.voice_anchor);
                out.push(e);
                proof {
                    assert forall|k: int| 0 <= k < out@.len() implies anchor_entry_is(
                        #[trigger] out@[k],
                        shown_anchors(all.subrange(0, i + 1), *protagonist_default)[k].0,
                        shown_anchors(all.subrange(0, i + 1), *protagonist_default)[k].1,
                    ) by {
                        if k < prev.len() {
                            assert(shown_anchors(all.subrange(0, i + 1), *protagonist_default)[k] == prev[k]);
                        }
                    }
                }
            } else if str_eq(c.id.as_str(), PROTAGONIST_CHARACTER_ID) {
                let e = anchor_entry(c, protagonist_default);
                out.push(e);
                proof {
                    assert forall|k: int| 0 <= k < out@.len() implies anchor_entry_is(
                        #[trigger] out@[k],
                        shown_anchors(all.subrange(0, i + 1), *protagonist_default)[k].0,
                        shown_anchors(all.subrange(0, i + 1), *protagonist_default)[k].1,
                    ) by {
                        if k < prev.len() {
                            assert(shown_anchors(all.subrange(0, i + 1), *protagonist_default)[k] == prev[k]);
                        }
                    }
                }
            }
        }
        i = i + 1;
    }
    proof {
        let shown = shown_anchors(all, *protagonist_default);
        lemma_shown_prefix(all, i as int, *protagonist_default);
        if i == all.len() {
            assert(all.subrange(0, i as int) =~= all);
        }
    }
    out
}

proof fn lemma_shown_prefix(cs: Seq<CharacterRecord>, i: int, d: CharacterVoiceAnchor)
    requires
        0 <= i <= cs.len(),
    ensures
        shown_anchors(cs.subrange(0, i), d).len() <= shown_anchors(cs, d).len(),
        forall|k: int|
            0 <= k < shown_anchors(cs.subrange(0, i), d).len() ==> #[trigger] shown_anchors(cs, d)[k]
                == shown_anchors(cs.subrange(0, i), d)[k],
    decreases cs.len() - i,
{
    if i < cs.len() {
        lemma_shown_prefix(cs, i + 1, d);
        assert(cs.subrange(0, i + 1).drop_last() =~= cs.subrange(0, i));
    } else {
        assert(cs.subrange(0, i) =~= cs);
    }
}

// ---------------------------------------------------------------------------
// Markdown.
// ---------------------------------------------------------------------------

pub open spec fn line(s: Seq<char>) -> Seq<char> {
    s + "\n"@
}

/// Each text as a line of its own.
pub open spec fn lines(ls: Seq<Seq<char>>) -> Seq<char>
    decreases ls.len(),
{
    if ls.len() == 0 {
        Seq::empty()
    } else {
        lines(ls.drop_last()) + line(ls.last())
    }
}

pub open spec fn header_md(title: Seq<char>, v: CodexView) -> Seq<char> {
    line(title) + "\n"@ + line("- world: `"@ + v.world_id@ + "`"@) + line("- turn: `"@ + v.turn_id@ + "`"@) + line(
        "- hidden filter: "@ + dec(v.hidden_filter.hidden_secrets as nat) + " secrets / "@ + dec(
            v.hidden_filter.hidden_timers as nat,
        ) + " timers"@,
    )
}

/// A heading, then the placeholder line when there is nothing, then the
/// lines.
pub open spec fn list_md(heading: Seq<char>, placeholder: Option<Seq<char>>, ls: Seq<Seq<char>>) -> Seq<char> {
    "\n"@ + line(heading) + (if ls.len() == 0 && placeholder is Some {
        line(placeholder.unwrap())
    } else {
        Seq::empty()
    }) + lines(ls)
}

pub open spec fn timeline_line(e: CodexTimelineEntry) -> Seq<char> {
    "- `"@ + e.turn_id@ + "` `"@ + e.event_id@ + "` ["@ + e.kind@ + "] "@ + e.summary@
}

pub open spec fn fact_line(f: CodexFactEntry) -> Seq<char> {
    "- `"@ + f.fact_id@ + "` "@ + f.subject@ + "."@ + f.predicate@ + " = "@ + f.object@
}

pub open spec fn entity_line(e: CodexEntityEntry) -> Seq<char> {
    "- `"@ + e.entity_id@ + "` ["@ + e.entity_type@ + "] "@ + e.name@ + " — "@ + e.status@
}

pub open spec fn analysis_line(a: CodexAnalysisEntry) -> Seq<char> {
    "- "@ + a.label@ + ": "@ + a.value@
}

pub open spec fn recommendation_line(r: CodexRecommendation) -> Seq<char> {
    "- ["@ + r.source@ + "] `"@ + r.target@ + "` — "@ + r.reason@
}

pub open spec fn timeline_md(v: CodexView) -> Seq<char> {
    let es = v.protagonist_timeline@;
    list_md(
        "## 주인공의 연대기"@,
        Some("- 아직 플레이어에게 공개된 사건 기록이 없다"@),
        Seq::new(es.len(), |i: int| timeline_line(es[i])),
    )
}

pub open spec fn almanac_md(v: CodexView) -> Seq<char> {
    let fs = v.world_almanac@;
    list_md("## 세계 연감"@, Some("- 아직 공개된 세계 사실이 적다"@), Seq::new(fs.len(), |i: int| fact_line(fs[i])))
}

/// One labelled line of anchor values, when there are any.
pub open spec fn anchor_values_md(label: Seq<char>, vs: Seq<String>) -> Seq<char> {
    if vs.len() > 0 {
        line("  - "@ + label + ": "@ + join(views(vs), " / "@))
    } else {
        Seq::empty()
    }
}

pub open spec fn anchor_md(a: CodexVoiceAnchorEntry) -> Seq<char> {
    line("- `"@ + a.character_id@ + "` "@ + a.name@) + anchor_values_md("말투"@, a.speech@) + anchor_values_md(
        "제스처"@,
        a.gestures@,
    ) + anchor_values_md("버릇"@, a.habits@) + anchor_values_md("변화"@, a.drift@)
}

pub open spec fn anchors_md(anchors: Seq<CodexVoiceAnchorEntry>) -> Seq<char>
    decreases anchors.len(),
{
    if anchors.len() == 0 {
        Seq::empty()
    } else {
        anchors_md(anchors.drop_last()) + anchor_md(anchors.last())
    }
}

pub open spec fn blueprint_md(v: CodexView) -> Seq<char> {
    let es = v.world_blueprint@;
    list_md(
        "## 세계 청사진"@,
        Some("- 아직 주인공이 확실히 아는 항목이 적다"@),
        Seq::new(es.len(), |i: int| entity_line(es[i])),
    ) + "\n"@ + line("### 캐릭터 음성 앵커"@) + (if v.voice_anchors@.len() == 0 {
        line("- 아직 플레이어에게 공개된 화법 앵커가 없다"@)
    } else {
        Seq::empty()
    }) + anchors_md(v.voice_anchors@)
}

pub open spec fn analysis_md(v: CodexView) -> Seq<char> {
    let xs = v.realtime_analysis@;
    list_md("## 실시간 분석"@, None, Seq::new(xs.len(), |i: int| analysis_line(xs[i])))
}

pub open spec fn related_md(v: CodexView) -> Seq<char> {
    let rs = v.related_recommendations@;
    list_md(
        "## 관련 항목 추천"@,
        Some("- 현재 추천할 검색 항목이 없다"@),
        Seq::new(rs.len(), |i: int| recommendation_line(rs[i])),
    )
}

/// The Markdown of one section; `All` is every section in order.
pub open spec fn section_md(v: CodexView, s: CodexViewSection) -> Seq<char> {
    match s {
        CodexViewSection::All => timeline_md(v) + almanac_md(v) + blueprint_md(v) + analysis_md(v) + related_md(v),
        CodexViewSection::Timeline => timeline_md(v),
        CodexViewSection::Almanac => almanac_md(v),
        CodexViewSection::Blueprint => blueprint_md(v),
        CodexViewSection::Analysis => analysis_md(v),
        CodexViewSection::Related => related_md(v),
    }
}

pub open spec fn archive_md(v: CodexView) -> Seq<char> {
    header_md("# World Archive"@, v) + section_md(v, CodexViewSection::All)
}

fn push_line(md: &mut String, s: &str)
    ensures
        final(md)@ == old(md)@ + line(s@),
{
    md.append(s);
    md.append("\n");
}

fn push_lines_header(md: &mut String, heading: &str)
    ensures
        final(md)@ == old(md)@ + "\n"@ + line(heading@),
{
    md.append("\n");
    push_line(md, heading);
}

fn write_header(md: &mut String, title: &str, v: &CodexView)
    ensures
        final(md)@ == old(md)@ + header_md(title@, *v),
{
    push_line(md, title);
    md.append("\n");
    let w = concat3("- world: `", v.world_id.as_str(), "`");
    push_line(md, w.as_str());
    let t = concat3("- turn: `", v.turn_id.as_str(), "`");
    push_line(md, t.as_str());
    let secrets = dec_string(v.hidden_filter.hidden_secrets as u64);
    let timers = dec_string(v.hidden_filter.hidden_timers as u64);
    let mut f = concat3("- hidden filter: ", secrets.as_str(), " secrets / ");
    f.append(timers.as_str());
    f.append(" timers");
    push_line(md, f.as_str());
}

fn write_timeline(md: &mut String, v: &CodexView)
    ensures
        final(md)@ == old(md)@ + timeline_md(*v),
{
    let ghost start = md@;
    let es = &v.protagonist_timeline;
    push_lines_header(md, "## 주인공의 연대기");
    if es.len() == 0 {
        push_line(md, "- 아직 플레이어에게 공개된 사건 기록이 없다");
    }
    let ghost head = md@;
    let ghost ls = Seq::new(es@.len(), |i: int| timeline_line(es@[i]));
    let mut i: usize = 0;
    while i < es.len()
        invariant
            i <= es@.len(),
            es@ == v.protagonist_timeline@,
            ls == Seq::new(es@.len(), |i: int| timeline_line(es@[i])),
            md@ == head + lines(ls.subrange(0, i as int)),
        decreases es.len() - i,
    {
        let e = &es[i];
        let mut l = concat3("- `", e.turn_id.as_str(), "` `");
        l.append(e.event_id.as_str());
        l.append("` [");
        l.append(e.kind.as_str());
        l.append("] ");
        l.append(e.summary.as_str());
        push_line(md, l.as_str());
        proof {
            assert(ls.subrange(0, i + 1).drop_last() =~= ls.subrange(0, i as int));
            assert(ls.subrange(0, i + 1).last() == l@);
        }
        i = i + 1;
    }
    assert(ls.subrange(0, ls.len() as int) =~= ls);
}

fn write_almanac(md: &mut String, v: &CodexView)
    ensures
        final(md)@ == old(md)@ + almanac_md(*v),
{
    let fs = &v.world_almanac;
    push_lines_header(md, "## 세계 연감");
    if fs.len() == 0 {
        push_line(md, "- 아직 공개된 세계 사실이 적다");
    }
    let ghost head = md@;
    let ghost ls = Seq::new(fs@.len(), |i: int| fact_line(fs@[i]));
    let mut i: usize = 0;
    while i < fs.len()
        invariant
            i <= fs@.len(),
            fs@ == v.world_almanac@,
            ls == Seq::new(fs@.len(), |i: int| fact_line(fs@[i])),
            md@ == head + lines(ls.subrange(0, i as int)),
        decreases fs.len() - i,
    {
        let f = &fs[i];
        let mut l = concat3("- `", f.fact_id.as_str(), "` ");
        l.append(f.subject.as_str());
        l.append(".");
        l.append(f.predicate.as_str());
        l.append(" = ");
        l.append(f.object.as_str());
        push_line(md, l.as_str());
        proof {
            assert(ls.subrange(0, i + 1).drop_last() =~= ls.subrange(0, i as int));
            assert(ls.subrange(0, i + 1).last() == l@);
        }
        i = i + 1;
    }
    assert(ls.subrange(0, ls.len() as int) =~= ls);
}

fn write_anchor_values(md: &mut String, label: &str, values: &Vec<String>)
    ensures
        final(md)@ == old(md)@ + anchor_values_md(label@, values@),
{
    if values.len() > 0 {
        let joined = join_strings(values, " / ");
        let l = concat3("  - ", label, ": ");
        let l = concat2(l.as_str(), joined.as_str());
        push_line(md, l.as_str());
    }
}

fn write_blueprint(md: &mut String, v: &CodexView)
    ensures
        final(md)@ == old(md)@ + blueprint_md(*v),
{
    let ghost start = md@;
    let es = &v.world_blueprint;
    push_lines_header(md, "## 세계 청사진");
    if es.len() == 0 {
        push_line(md, "- 아직 주인공이 확실히 아는 항목이 적다");
    }
    let ghost head = md@;
    let ghost ls = Seq::new(es@.len(), |i: int| entity_line(es@[i]));
    let mut i: usize = 0;
    while i < es.len()
        invariant
            i <= es@.len(),
            es@ == v.world_blueprint@,
            ls == Seq::new(es@.len(), |i: int| entity_line(es@[i])),
            md@ == head + lines(ls.subrange(0, i as int)),
        decreases es.len() - i,
    {
        let e = &es[i];
        let mut l = concat3("- `", e.entity_id.as_str(), "` [");
        l.append(e.entity_type.as_str());
        l.append("] ");
        l.append(e.name.as_str());
        l.append(" — ");
        l.append(e.status.as_str());
        push_line(md, l.as_str());
        proof {
            assert(ls.subrange(0, i + 1).drop_last() =~= ls.subrange(0, i as int));
            assert(ls.subrange(0, i + 1).last() == l@);
        }
        i = i + 1;
    }
    assert(ls.subrange(0, ls.len() as int) =~= ls);
    let ghost mid = md@;
    assert(mid == start + list_md(
        "## 세계 청사진"@,
        Some("- 아직 주인공이 확실히 아는 항목이 적다"@),
        Seq::new(es@.len(), |i: int| entity_line(es@[i])),
    ));
    let anchors = &v.voice_anchors;
    push_lines_header(md, "### 캐릭터 음성 앵커");
    if anchors.len() == 0 {
        push_line(md, "- 아직 플레이어에게 공개된 화법 앵커가 없다");
    }
    let ghost head2 = md@;
    let mut k: usize = 0;
    while k < anchors.len()
        invariant
            k <= anchors@.len(),
            anchors@ == v.voice_anchors@,
            md@ == head2 + anchors_md(anchors@.subrange(0, k as int)),
        decreases anchors.len() - k,
    {
        let a = &anchors[k];
        let l = concat3("- `", a.character_id.as_str(), "` ");
        let l = concat2(l.as_str(), a.name.as_str());
        push_line(md, l.as_str());
        write_anchor_values(md, "말투", &a.speech);
        write_anchor_values(md, "제스처", &a.gestures);
        write_anchor_values(md, "버릇", &a.habits);
        write_anchor_values(md, "변화", &a.drift);
        proof {
            assert(anchors@.subrange(0, k + 1).drop_last() =~= anchors@.subrange(0, k as int));
            assert(anchors@.subrange(0, k + 1).last() == *a);
        }
        k = k + 1;
    }
    proof {
        assert(anchors@.subrange(0, anchors@.len() as int) =~= anchors@);
    }
}

fn write_analysis(md: &mut String, v: &CodexView)
    ensures
        final(md)@ == old(md)@ + analysis_md(*v),
{
    let xs = &v.realtime_analysis;
    push_lines_header(md, "## 실시간 분석");
    let ghost head = md@;
    let ghost ls = Seq::new(xs@.len(), |i: int| analysis_line(xs@[i]));
    let mut i: usize = 0;
    while i < xs.len()
        invariant
            i <= xs@.len(),
            xs@ == v.realtime_analysis@,
            ls == Seq::new(xs@.len(), |i: int| analysis_line(xs@[i])),
            md@ == head + lines(ls.subrange(0, i as int)),
        decreases xs.len() - i,
    {
        let a = &xs[i];
        let l = concat3("- ", a.label.as_str(), ": ");
        let l = concat2(l.as_str(), a.value.as_str());
        push_line(md, l.as_str());
        proof {
            assert(ls.subrange(0, i + 1).drop_last() =~= ls.subrange(0, i as int));
            assert(ls.subrange(0, i + 1).last() == l@);
        }
        i = i + 1;
    }
    assert(ls.subrange(0, ls.len() as int) =~= ls);
}

fn write_related(md: &mut String, v: &CodexView)
    ensures
        final(md)@ == old(md)@ + related_md(*v),
{
    let rs = &v.related_recommendations;
    push_lines_header(md, "## 관련 항목 추천");
    if rs.len() == 0 {
        push_line(md, "- 현재 추천할 검색 항목이 없다");
    }
    let ghost head = md@;
    let ghost ls = Seq::new(rs@.len(), |i: int| recommendation_line(rs@[i]));
    let mut i: usize = 0;
    while i < rs.len()
        invariant
            i <= rs@.len(),
            rs@ == v.related_recommendations@,
            ls == Seq::new(rs@.len(), |i: int| recommendation_line(rs@[i])),
            md@ == head + lines(ls.subrange(0, i as int)),
        decreases rs.len() - i,
    {
        let r = &rs[i];
        let mut l = concat3("- [", r.source.as_str(), "] `");
        l.append(r.target.as_str());
        l.append("` — ");
        l.append(r.reason.as_str());
        push_line(md, l.as_str());
        proof {
            assert(ls.subrange(0, i + 1).drop_last() =~= ls.subrange(0, i as int));
            assert(ls.subrange(0, i + 1).last() == l@);
        }
        i = i + 1;
    }
    assert(ls.subrange(0, ls.len() as int) =~= ls);
}

fn write_codex_section(md: &mut String, v: &CodexView, section: CodexViewSection)
    ensures
        final(md)@ == old(md)@ + section_md(*v, section),
{
    match section {
        CodexViewSection::All => {
            write_timeline(md, v);
            write_almanac(md, v);
            write_blueprint(md, v);
            write_analysis(md, v);
            write_related(md, v);
        },
        CodexViewSection::Timeline => write_timeline(md, v),
        CodexViewSection::Almanac => write_almanac(md, v),
        CodexViewSection::Blueprint => write_blueprint(md, v),
        CodexViewSection::Analysis => write_analysis(md, v),
        CodexViewSection::Related => write_related(md, v),
    }
}

/// The whole Archive View as Markdown.
pub fn render_codex_view_markdown(view: &CodexView) -> (r: String)
    ensures
        r@ == archive_md(*view),
{
    let mut md = String::new();
    write_header(&mut md, "# World Archive", view);
    write_codex_section(&mut md, view, CodexViewSection::All);
    md
}

/// One section of the Archive View as Markdown; `All` is the whole view.
pub fn render_codex_view_section_markdown(view: &CodexView, section: CodexViewSection) -> (r: String)
    ensures
        r@ == (if section == CodexViewSection::All {
            archive_md(*view)
        } else {
            header_md("# World Archive: "@ + section_name(section), *view) + section_md(*view, section)
        }),
{
    if section == CodexViewSection::All {
        return render_codex_view_markdown(view);
    }
    let mut md = String::new();
    let title = concat2("# World Archive: ", section.as_str());
    write_header(&mut md, title.as_str(), view);
    write_codex_section(&mut md, view, section);
    md
}


// ---------------------------------------------------------------------------
// Assembling the Archive View.
// ---------------------------------------------------------------------------

/// What the player knows of the world: the questions still open and the
/// entities known by name.
#[derive(Debug, Clone)]
pub struct PlayerKnowledge {
    pub open_questions: Vec<String>,
    pub known_entities: Vec<String>,
}

pub open spec fn analysis_entry_is(e: CodexAnalysisEntry, label: Seq<char>, value: Seq<char>) -> bool {
    e.label@ == label && e.value@ == value
}

/// The realtime analysis: the phase, the location, the open questions of
/// the snapshot and the player's knowledge together, the known entities, and
/// the search hits.
pub open spec fn analysis_is(
    r: Seq<CodexAnalysisEntry>,
    snapshot: TurnSnapshot,
    knowledge: PlayerKnowledge,
    search_hit_count: nat,
) -> bool {
    &&& r.len() == 5
    &&& analysis_entry_is(r[0], "phase"@, snapshot.phase@)
    &&& analysis_entry_is(r[1], "location"@, snapshot.protagonist_state.location@)
    &&& analysis_entry_is(
        r[2],
        "open_questions"@,
        dec(snapshot.open_questions@.len() + knowledge.open_questions@.len()),
    )
    &&& analysis_entry_is(r[3], "known_entities"@, dec(knowledge.known_entities@.len()))
    &&& analysis_entry_is(r[4], "related_search_hits"@, dec(search_hit_count))
}

fn analysis_entry(label: &str, value: String) -> (r: CodexAnalysisEntry)
    ensures
        r.label@ == label@,
        r.value@ == value@,
{
    CodexAnalysisEntry { label: String::from_str(label), value }
}

/// The Archive View's realtime analysis of the current turn.
pub fn realtime_analysis(snapshot: &TurnSnapshot, knowledge: &PlayerKnowledge, search_hit_count: usize) -> (r: Vec<
    CodexAnalysisEntry,
>)
    requires
        snapshot.open_questions@.len() + knowledge.open_questions@.len() <= usize::MAX,
    ensures
        analysis_is(r@, *snapshot, *knowledge, search_hit_count as nat),
{
    let mut r: Vec<CodexAnalysisEntry> = Vec::new();
    r.push(analysis_entry("phase", snapshot.phase.clone()));
    r.push(analysis_entry("location", snapshot.protagonist_state.location.clone()));
    let open = snapshot.open_questions.len() + knowledge.open_questions.len();
    r.push(analysis_entry("open_questions", dec_string(open as u64)));
    r.push(analysis_entry("known_entities", dec_string(knowledge.known_entities.len() as u64)));
    r.push(analysis_entry("related_search_hits", dec_string(search_hit_count as u64)));
    proof {
        reveal_strlit("phase");
        reveal_strlit("location");
        reveal_strlit("open_questions");
        reveal_strlit("known_entities");
        reveal_strlit("related_search_hits");
    }
    r
}

pub open spec fn open_question_recommendation(r: CodexRecommendation, question: Seq<char>) -> bool {
    &&& r.source@ == "open_question"@
    &&& r.target@ == question
    &&& r.reason@ == "아직 닫히지 않은 플레이어-visible 질문"@
}

/// The related recommendations: those drawn from the search hits, or, when
/// there are none, the first open questions of the player, at most five.
pub fn recommendations(knowledge: &PlayerKnowledge, hit_recommendations: Vec<CodexRecommendation>) -> (r: Vec<
    CodexRecommendation,
>)
    ensures
        hit_recommendations@.len() > 0 ==> r@ == hit_recommendations@,
        hit_recommendations@.len() == 0 ==> {
            let n = if knowledge.open_questions@.len() > DEFAULT_RECOMMENDATION_LIMIT {
                DEFAULT_RECOMMENDATION_LIMIT as int
            } else {
                knowledge.open_questions@.len() as int
            };
            &&& r@.len() == n
            &&& forall|k: int| 0 <= k < n ==> open_question_recommendation(#[trigger] r@[k], knowledge.open_questions@[k]@)
        },
{
    if hit_recommendations.len() > 0 {
        return hit_recommendations;
    }
    let mut r: Vec<CodexRecommendation> = Vec::new();
    let qs = &knowledge.open_questions;
    let mut i: usize = 0;
    while i < qs.len() && i < DEFAULT_RECOMMENDATION_LIMIT
        invariant
            i <= qs@.len(),
            i <= DEFAULT_RECOMMENDATION_LIMIT,
            r@.len() == i,
            forall|k: int| 0 <= k < i ==> open_question_recommendation(#[trigger] r@[k], qs@[k]@),
        decreases qs.len() - i,
    {
        proof {
            reveal_strlit("open_question");
            reveal_strlit("아직 닫히지 않은 플레이어-visible 질문");
        }
        r.push(
            CodexRecommendation {
                source: String::from_str("open_question"),
                target: qs[i].clone(),
                reason: String::from_str("아직 닫히지 않은 플레이어-visible 질문"),
            },
        );
        i = i + 1;
    }
    r
}

pub const CODEX_HIDDEN_FILTER_POLICY: &'static str = "hidden truth is counted but never rendered in Archive View";

/// The hidden filter: how many secrets and timers the world keeps, counted
/// and never shown.
pub fn codex_hidden_filter(hidden_state: &HiddenState) -> (r: CodexHiddenFilter)
    ensures
        r.hidden_secrets == hidden_state.secrets@.len(),
        r.hidden_timers == hidden_state.timers@.len(),
        r.policy@ == CODEX_HIDDEN_FILTER_POLICY@,
{
    CodexHiddenFilter {
        hidden_secrets: hidden_state.secrets.len(),
        hidden_timers: hidden_state.timers.len(),
        policy: String::from_str(CODEX_HIDDEN_FILTER_POLICY),
    }
}

/// What an Archive View is assembled from: the world's id and title, the
/// latest snapshot, the hidden state (only counted), the player's knowledge,
/// the entities, the protagonist's default voice, the timeline, almanac and
/// blueprint rows read, the recommendations drawn from the search hits and
/// how many hits there were, and the list limit asked for.
#[derive(Debug, Clone)]
pub struct CodexViewParts {
    pub world_id: String,
    pub title: String,
    pub snapshot: TurnSnapshot,
    pub hidden_state: HiddenState,
    pub knowledge: PlayerKnowledge,
    pub entities: EntityRecords,
    pub protagonist_default: CharacterVoiceAnchor,
    pub timeline: Vec<CodexTimelineEntry>,
    pub almanac: Vec<CodexFactEntry>,
    pub blueprint: Vec<CodexEntityEntry>,
    pub hit_recommendations: Vec<CodexRecommendation>,
    pub search_hit_count: usize,
    pub limit: usize,
}

/// The Archive View: the rows given, the voice anchors of the known
/// characters up to the limit (at least one), the realtime analysis, the
/// recommendations, and the hidden truth only counted.
pub fn assemble_codex_view(parts: CodexViewParts) -> (r: CodexView)
    requires
        parts.snapshot.open_questions@.len() + parts.knowledge.open_questions@.len() <= usize::MAX,
    ensures
        r.schema_version@ == CODEX_VIEW_SCHEMA_VERSION@,
        r.world_id == parts.world_id,
        r.turn_id == parts.snapshot.turn_id,
        r.title == parts.title,
        r.protagonist_timeline@ == parts.timeline@,
        r.world_almanac@ == parts.almanac@,
        r.world_blueprint@ == parts.blueprint@,
        ({
            let limit = if parts.limit == 0 { 1 } else { parts.limit as int };
            let shown = shown_anchors(parts.entities.characters@, parts.protagonist_default);
            let n = if shown.len() > limit { limit } else { shown.len() as int };
            &&& r.voice_anchors@.len() == n
            &&& forall|k: int| 0 <= k < n ==> anchor_entry_is(#[trigger] r.voice_anchors@[k], shown[k].0, shown[k].1)
        }),
        analysis_is(r.realtime_analysis@, parts.snapshot, parts.knowledge, parts.search_hit_count as nat),
        parts.hit_recommendations@.len() > 0 ==> r.related_recommendations@ == parts.hit_recommendations@,
        parts.hit_recommendations@.len() == 0 ==> {
            let n = if parts.knowledge.open_questions@.len() > DEFAULT_RECOMMENDATION_LIMIT {
                DEFAULT_RECOMMENDATION_LIMIT as int
            } else {
                parts.knowledge.open_questions@.len() as int
            };
            &&& r.related_recommendations@.len() == n
            &&& forall|k: int|
                0 <= k < n ==> open_question_recommendation(
                    #[trigger] r.related_recommendations@[k],
                    parts.knowledge.open_questions@[k]@,
                )
        },
        r.hidden_filter.hidden_secrets == parts.hidden_state.secrets@.len(),
        r.hidden_filter.hidden_timers == parts.hidden_state.timers@.len(),
        r.hidden_filter.policy@ == CODEX_HIDDEN_FILTER_POLICY@,
{
    let limit = if parts.limit == 0 { 1 } else { parts.limit };
    let voice_anchors = visible_voice_anchors(&parts.entities, limit, &parts.protagonist_default);
    let realtime_analysis = realtime_analysis(&parts.snapshot, &parts.knowledge, parts.search_hit_count);
    let hidden_filter = codex_hidden_filter(&parts.hidden_state);
    let related_recommendations = recommendations(&parts.knowledge, parts.hit_recommendations);
    CodexView {
        schema_version: String::from_str(CODEX_VIEW_SCHEMA_VERSION),
        world_id: parts.world_id,
        turn_id: parts.snapshot.turn_id,
        title: parts.title,
        protagonist_timeline: parts.timeline,
        world_almanac: parts.almanac,
        world_blueprint: parts.blueprint,
        voice_anchors,
        realtime_analysis,
        related_recommendations,
        hidden_filter,
    }
}

} // verus!
