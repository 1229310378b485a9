//! The structured summary that a compaction leaves behind.
use vstd::prelude::*;
use vstd::string::*;
use crate::json::{Json, JsonView};
use crate::json;
use crate::text;

verus! {

broadcast use vstd::string::group_string_axioms;

/// What the summarizer is asked for.
pub const SECTIONAL_PROMPT: &'static str = "You are compacting a long conversation transcript. Produce a structured summary as a single JSON object with EXACTLY these 8 fields — every field must be present, use `null` for unknown strings and `[]` for empty arrays:\n\n  \"task_overview\": string | null,   // 1-2 sentences naming the user's high-level goal\n  \"current_state\": string | null,   // where the work stands at the most recent turn\n  \"files_touched\": string[],         // file paths the agent read, wrote, or edited\n  \"key_decisions\": string[],         // architectural or design choices the agent made\n  \"discoveries\": string[],           // facts learned from tool calls (bugs found, APIs confirmed)\n  \"next_steps\": string[],            // pending or planned work items\n  \"open_questions\": string[],        // unresolved questions for future turns\n  \"external_refs\": string[]          // URLs, docs, or external resources referenced\n\nRespond with the JSON object only — no prose, no markdown code fence.";

/// The eight slots of a summary.
#[derive(Clone, Debug, Default, PartialEq, Eq)]
pub struct SummarySections {
    pub task_overview: Option<String>,
    pub current_state: Option<String>,
    pub files_touched: Vec<String>,
    pub key_decisions: Vec<String>,
    pub discoveries: Vec<String>,
    pub next_steps: Vec<String>,
    pub open_questions: Vec<String>,
    pub external_refs: Vec<String>,
}

/// The eight slots of a summary in the abstract.
#[verifier::ext_equal]
pub struct SectionsView {
    pub task_overview: Option<Seq<char>>,
    pub current_state: Option<Seq<char>>,
    pub files_touched: Seq<Seq<char>>,
    pub key_decisions: Seq<Seq<char>>,
    pub discoveries: Seq<Seq<char>>,
    pub next_steps: Seq<Seq<char>>,
    pub open_questions: Seq<Seq<char>>,
    pub external_refs: Seq<Seq<char>>,
}

impl DeepView for SummarySections {
    type V = SectionsView;

    open spec fn deep_view(&self) -> SectionsView {
        SectionsView {
            task_overview: self.task_overview.deep_view(),
            current_state: self.current_state.deep_view(),
            files_touched: self.files_touched.deep_view(),
            key_decisions: self.key_decisions.deep_view(),
            discoveries: self.discoveries.deep_view(),
            next_steps: self.next_steps.deep_view(),
            open_questions: self.open_questions.deep_view(),
            external_refs: self.external_refs.deep_view(),
        }
    }
}

/// The strings among the values, trimmed, without those that are blank.
pub open spec fn clean_texts(values: Seq<JsonView>) -> Seq<Seq<char>>
    decreases values.len(),
{
    if values.len() == 0 {
        Seq::empty()
    } else {
        let before = clean_texts(values.drop_last());
        match values.last().text() {
            Some(t) => match text::non_blank(t) {
                Some(clean) => before.push(clean),
                None => before,
            },
            None => before,
        }
    }
}

/// The texts in the array named `key`, trimmed, without those that are blank; none where
/// there is no such array.
pub open spec fn texts_at(value: JsonView, key: Seq<char>) -> Seq<Seq<char>> {
    match value.get(key) {
        Some(JsonView::Array(items)) => clean_texts(items),
        _ => Seq::empty(),
    }
}

/// What a JSON value says in each of the slots.
pub open spec fn sections_of(value: JsonView) -> SectionsView {
    SectionsView {
        task_overview: value.non_blank_at("task_overview"@),
        current_state: value.non_blank_at("current_state"@),
        files_touched: texts_at(value, "files_touched"@),
        key_decisions: texts_at(value, "key_decisions"@),
        discoveries: texts_at(value, "discoveries"@),
        next_steps: texts_at(value, "next_steps"@),
        open_questions: texts_at(value, "open_questions"@),
        external_refs: texts_at(value, "external_refs"@),
    }
}

fn read_texts(value: &Json, key: &str) -> (r: Vec<String>)
    ensures
        r.deep_view() == texts_at(value@, key@),
{
    let mut out: Vec<String> = Vec::new();
    assert(out.deep_view() =~= Seq::<Seq<char>>::empty());
    if let Some(found) = value.get(key) {
        if let Json::Array(items) = found {
            let ghost all = found@->Array_0;
            let mut i: usize = 0;
            assert(all.take(0) =~= Seq::<JsonView>::empty());
            while i < items.len()
                invariant
                    i <= items@.len(),
                    all.len() == items@.len(),
                    forall|k: int| 0 <= k < all.len() ==> #[trigger] all[k] == items@[k]@,
                    out.deep_view() == clean_texts(all.take(i as int)),
                decreases items@.len() - i,
            {
                let ghost before = out.deep_view();
                assert(all.take(i + 1).drop_last() =~= all.take(i as int));
                assert(all[i as int] == items@[i as int]@);
                if let Some(t) = items[i].as_str() {
                    if let Some(clean) = text::non_blank_text(t) {
                        out.push(clean);
                        assert(out.deep_view() =~= before.push(clean@));
                    }
                }
                i = i + 1;
            }
            assert(all.take(i as int) =~= all);
        }
    }
    out
}

/// One where `filled` holds, else none.
pub open spec fn one_if(filled: bool) -> nat {
    if filled {
        1
    } else {
        0
    }
}

/// Whether a slot for one text holds a text that is not empty.
pub open spec fn text_is_filled(body: Option<Seq<char>>) -> bool {
    body matches Some(t) && t.len() > 0
}

/// Whether a slot for a list holds an entry that is not empty.
pub open spec fn list_is_filled(items: Seq<Seq<char>>) -> bool {
    exists|i: int| 0 <= i < items.len() && (#[trigger] items[i]).len() > 0
}

/// How many of the slots hold at least one entry that is not empty.
pub open spec fn filled_count(s: SectionsView) -> nat {
    one_if(text_is_filled(s.task_overview)) + one_if(text_is_filled(s.current_state)) + one_if(
        list_is_filled(s.files_touched),
    ) + one_if(list_is_filled(s.key_decisions)) + one_if(list_is_filled(s.discoveries)) + one_if(
        list_is_filled(s.next_steps),
    ) + one_if(list_is_filled(s.open_questions)) + one_if(list_is_filled(s.external_refs))
}

fn has_text(body: &Option<String>) -> (r: bool)
    ensures
        r == text_is_filled(body.deep_view()),
{
    match body {
        Some(t) => !t.as_str().is_empty(),
        None => false,
    }
}

fn has_entry(items: &Vec<String>) -> (r: bool)
    ensures
        r == list_is_filled(items.deep_view()),
{
    let ghost all = items.deep_view();
    let mut i: usize = 0;
    while i < items.len()
        invariant
            i <= items@.len(),
            all == items.deep_view(),
            forall|k: int| 0 <= k < i ==> (#[trigger] all[k]).len() == 0,
        decreases items@.len() - i,
    {
        if !items[i].as_str().is_empty() {
            assert(all[i as int].len() > 0);
            return true;
        }
        i = i + 1;
    }
    false
}

/// The items as a list, one per line.
pub open spec fn bullet_lines(items: Seq<Seq<char>>) -> Seq<char>
    decreases items.len(),
{
    if items.len() == 0 {
        Seq::empty()
    } else {
        bullet_lines(items.drop_last()) + "- "@ + items.last() + "\n"@
    }
}

/// A section with a heading and a paragraph; nothing where the paragraph is missing or
/// empty.
pub open spec fn text_section(heading: Seq<char>, body: Option<Seq<char>>) -> Seq<char> {
    if text_is_filled(body) {
        heading + body->0 + "\n\n"@
    } else {
        Seq::empty()
    }
}

/// A section with a heading and a list; nothing where every entry of the list is empty.
pub open spec fn list_section(heading: Seq<char>, items: Seq<Seq<char>>) -> Seq<char> {
    if list_is_filled(items) {
        "## "@ + heading + "\n"@ + bullet_lines(items) + "\n"@
    } else {
        Seq::empty()
    }
}

/// The summary in Markdown: the sections of the slots that are filled, without white
/// space at the end.
pub open spec fn markdown(s: SectionsView) -> Seq<char> {
    text::trim_end(
        text_section("## Task overview\n"@, s.task_overview) + text_section(
            "## Current state\n"@,
            s.current_state,
        ) + list_section("Files touched"@, s.files_touched) + list_section(
            "Key decisions"@,
            s.key_decisions,
        ) + list_section("Discoveries"@, s.discoveries) + list_section("Next steps"@, s.next_steps)
            + list_section("Open questions"@, s.open_questions) + list_section(
            "External refs"@,
            s.external_refs,
        ),
    )
}

fn write_text_section(out: &mut String, heading: &str, body: &Option<String>)
    ensures
        final(out)@ == old(out)@ + text_section(heading@, body.deep_view()),
{
    let ghost start = out@;
    if has_text(body) {
        if let Some(t) = body {
            out.append(heading);
            out.append(t.as_str());
            out.append("\n\n");
            assert(out@ =~= start + text_section(heading@, body.deep_view()));
        }
    } else {
        assert(start + text_section(heading@, body.deep_view()) =~= start);
    }
}

fn write_list_section(out: &mut String, heading: &str, items: &Vec<String>)
    ensures
        final(out)@ == old(out)@ + list_section(heading@, items.deep_view()),
{
    let ghost start = out@;
    let ghost all = items.deep_view();
    assert(all.len() == items@.len());
    if !has_entry(items) {
        assert(start + list_section(heading@, all) =~= start);
        return;
    }
    out.append("## ");
    out.append(heading);
    out.append("\n");
    let ghost head = "## "@ + heading@ + "\n"@;
    assert(out@ =~= start + head);
    let mut i: usize = 0;
    assert(all.take(0) =~= Seq::<Seq<char>>::empty());
    assert(out@ =~= start + head + bullet_lines(all.take(0)));
    while i < items.len()
        invariant
            i <= items@.len(),
            all == items.deep_view(),
            out@ == start + head + bullet_lines(all.take(i as int)),
        decreases items@.len() - i,
    {
        assert(all.take(i + 1).drop_last() =~= all.take(i as int));
        out.append("- ");
        out.append(items[i].as_str());
        out.append("\n");
        assert(out@ =~= start + head + bullet_lines(all.take(i + 1)));
        i = i + 1;
    }
    assert(all.take(i as int) =~= all);
    out.append("\n");
    assert(out@ =~= start + list_section(heading@, all));
}

impl SummarySections {
    /// What the summarizer's JSON says in each of the slots. A slot that is missing or of
    /// another type is left empty.
    pub fn from_json(value: &Json) -> (r: Self)
        ensures
            r.deep_view() == sections_of(value@),
    {
        SummarySections {
            task_overview: value.non_blank_at("task_overview"),
            current_state: value.non_blank_at("current_state"),
            files_touched: read_texts(value, "files_touched"),
            key_decisions: read_texts(value, "key_decisions"),
            discoveries: read_texts(value, "discoveries"),
            next_steps: read_texts(value, "next_steps"),
            open_questions: read_texts(value, "open_questions"),
            external_refs: read_texts(value, "external_refs"),
        }
    }

    /// How many of the eight slots hold at least one entry that is not empty. The
    /// completeness of the summary is an eighth of this number.
    pub fn filled_slots(&self) -> (r: u32)
        ensures
            r == filled_count(self.deep_view()),
            r <= 8,
    {
        let mut filled: u32 = 0;
        if has_text(&self.task_overview) {
            filled = filled + 1;
        }
        if has_text(&self.current_state) {
            filled = filled + 1;
        }
        if has_entry(&self.files_touched) {
            filled = filled + 1;
        }
        if has_entry(&self.key_decisions) {
            filled = filled + 1;
        }
        if has_entry(&self.discoveries) {
            filled = filled + 1;
        }
        if has_entry(&self.next_steps) {
            filled = filled + 1;
        }
        if has_entry(&self.open_questions) {
            filled = filled + 1;
        }
        if has_entry(&self.external_refs) {
            filled = filled + 1;
        }
        filled
    }

    /// The summary in Markdown. The sections of slots that hold no entry, or only empty
    /// ones, are left out.
    pub fn to_markdown(&self) -> (r: String)
        ensures
            r@ == markdown(self.deep_view()),
    {
        let ghost s = self.deep_view();
        let mut out = String::new();
        write_text_section(&mut out, "## Task overview\n", &self.task_overview);
        assert(out@ =~= text_section("## Task overview\n"@, s.task_overview));
        write_text_section(&mut out, "## Current state\n", &self.current_state);
        write_list_section(&mut out, "Files touched", &self.files_touched);
        write_list_section(&mut out, "Key decisions", &self.key_decisions);
        write_list_section(&mut out, "Discoveries", &self.discoveries);
        write_list_section(&mut out, "Next steps", &self.next_steps);
        write_list_section(&mut out, "Open questions", &self.open_questions);
        write_list_section(&mut out, "External refs", &self.external_refs);
        text::trimmed_end(out.as_str())
    }
}

// ---------------------------------------------------------------------------
// Writing the slots down as JSON
// ---------------------------------------------------------------------------

/// The strings of an array, where it holds nothing else.
pub open spec fn string_items(v: JsonView) -> Option<Seq<Seq<char>>> {
    match v {
        JsonView::Array(items) => if forall|i: int|
            0 <= i < items.len() ==> (#[trigger] items[i]) is Str {
            Some(Seq::new(items.len(), |i: int| items[i]->Str_0))
        } else {
            None
        },
        _ => None,
    }
}

/// Whether the member named `key` holds the text; there is none where there is no text.
pub open spec fn holds_text(value: JsonView, key: Seq<char>, t: Option<Seq<char>>) -> bool {
    match t {
        Some(t) => value.text_at(key) == Some(t),
        None => value.get(key) is None,
    }
}

/// Whether the member named `key` holds the list; there is none where the list is empty.
pub open spec fn holds_list(value: JsonView, key: Seq<char>, items: Seq<Seq<char>>) -> bool {
    if items.len() == 0 {
        value.get(key) is None
    } else {
        value.get(key) matches Some(v) && string_items(v) == Some(items)
    }
}

/// Whether an object holds the slots that hold anything.
pub open spec fn holds_sections(value: JsonView, s: SectionsView) -> bool {
    &&& holds_text(value, "task_overview"@, s.task_overview)
    &&& holds_text(value, "current_state"@, s.current_state)
    &&& holds_list(value, "files_touched"@, s.files_touched)
    &&& holds_list(value, "key_decisions"@, s.key_decisions)
    &&& holds_list(value, "discoveries"@, s.discoveries)
    &&& holds_list(value, "next_steps"@, s.next_steps)
    &&& holds_list(value, "open_questions"@, s.open_questions)
    &&& holds_list(value, "external_refs"@, s.external_refs)
}

fn add_text(members: &mut Vec<(String, Json)>, key: &str, t: &Option<String>)
    requires
        json::member(json::members_view(old(members)@), key@) is None,
    ensures
        forall|k: Seq<char>|
            k != key@ ==> #[trigger] json::member(json::members_view(final(members)@), k)
                == json::member(json::members_view(old(members)@), k),
        match *t {
            Some(s) => json::member(json::members_view(final(members)@), key@) matches Some(v) && v.text() == Some(s@),
            None => json::member(json::members_view(final(members)@), key@) is None,
        },
{
    let ghost before = json::members_view(members@);
    if let Some(s) = t {
        let value = Json::Str(s.clone());
        let ghost added = (key@, value@);
        members.push((key.to_owned(), value));
        proof {
            assert(json::members_view(members@) =~= before.push(added));
            assert forall|k: Seq<char>| k != key@ implies #[trigger] json::member(
                json::members_view(members@),
                k,
            ) == json::member(before, k) by {
                json::lemma_member_push(before, added, k);
            }
            json::lemma_member_push(before, added, key@);
        }
    }
}

fn add_list(members: &mut Vec<(String, Json)>, key: &str, items: &Vec<String>)
    requires
        json::member(json::members_view(old(members)@), key@) is None,
    ensures
        forall|k: Seq<char>|
            k != key@ ==> #[trigger] json::member(json::members_view(final(members)@), k)
                == json::member(json::members_view(old(members)@), k),
        items@.len() == 0 ==> json::member(json::members_view(final(members)@), key@) is None,
        items@.len() > 0 ==> (json::member(json::members_view(final(members)@), key@) matches Some(v) && string_items(v)
            == Some(items.deep_view())),
{
    let ghost before = json::members_view(members@);
    if items.len() > 0 {
        let mut values: Vec<Json> = Vec::new();
        let mut i: usize = 0;
        while i < items.len()
            invariant
                i <= items@.len(),
                values@.len() == i,
                forall|k: int|
                    0 <= k < i ==> (#[trigger] values@[k]) is Str && values@[k]->Str_0@
                        == items@[k]@,
            decreases items@.len() - i,
        {
            values.push(Json::Str(items[i].clone()));
            i = i + 1;
        }
        let array = Json::Array(values);
        proof {
            reveal_with_fuel(json::json_view, 2);
            let shown = array@->Array_0;
            assert forall|k: int| 0 <= k < shown.len() implies (#[trigger] shown[k]) is Str by {
                assert(values@[k] is Str);
            }
            assert(string_items(array@)->0 =~= items.deep_view());
        }
        let ghost added = (key@, array@);
        members.push((key.to_owned(), array));
        proof {
            assert(json::members_view(members@) =~= before.push(added));
            assert forall|k: Seq<char>| k != key@ implies #[trigger] json::member(
                json::members_view(members@),
                k,
            ) == json::member(before, k) by {
                json::lemma_member_push(before, added, k);
            }
            json::lemma_member_push(before, added, key@);
        }
    }
}

proof fn lemma_slot_names_differ()
    ensures
        "task_overview"@[0] == 't' && "task_overview"@.len() > 0,
        "current_state"@[0] == 'c' && "current_state"@.len() > 0,
        "files_touched"@[0] == 'f' && "files_touched"@.len() > 0,
        "key_decisions"@[0] == 'k' && "key_decisions"@.len() > 0,
        "discoveries"@[0] == 'd' && "discoveries"@.len() > 0,
        "next_steps"@[0] == 'n' && "next_steps"@.len() > 0,
        "open_questions"@[0] == 'o' && "open_questions"@.len() > 0,
        "external_refs"@[0] == 'e' && "external_refs"@.len() > 0,
{
    reveal_strlit("task_overview");
    reveal_strlit("current_state");
    reveal_strlit("files_touched");
    reveal_strlit("key_decisions");
    reveal_strlit("discoveries");
    reveal_strlit("next_steps");
    reveal_strlit("open_questions");
    reveal_strlit("external_refs");
}

impl SummarySections {
    /// The slots as a JSON object. Slots that hold nothing are left out.
    pub fn to_json(&self) -> (r: Json)
        ensures
            holds_sections(r@, self.deep_view()),
    {
        let mut members: Vec<(String, Json)> = Vec::new();
        proof {
            lemma_slot_names_differ();
            assert(json::members_view(members@) =~= Seq::<(Seq<char>, JsonView)>::empty());
        }
        add_text(&mut members, "task_overview", &self.task_overview);
        add_text(&mut members, "current_state", &self.current_state);
        add_list(&mut members, "files_touched", &self.files_touched);
        add_list(&mut members, "key_decisions", &self.key_decisions);
        add_list(&mut members, "discoveries", &self.discoveries);
        add_list(&mut members, "next_steps", &self.next_steps);
        add_list(&mut members, "open_questions", &self.open_questions);
        add_list(&mut members, "external_refs", &self.external_refs);
        let object = Json::Object(members);
        assert(object@->Object_0 =~= json::members_view(members@));
        object
    }
}

/// Whether a text is trimmed and not empty.
pub open spec fn is_clean(t: Seq<char>) -> bool {
    t.len() > 0 && text::trim(t) == t
}

/// Whether every text in the slots is trimmed and not empty.
pub open spec fn is_clean_summary(s: SectionsView) -> bool {
    &&& s.task_overview matches Some(t) ==> is_clean(t)
    &&& s.current_state matches Some(t) ==> is_clean(t)
    &&& all_clean(s.files_touched)
    &&& all_clean(s.key_decisions)
    &&& all_clean(s.discoveries)
    &&& all_clean(s.next_steps)
    &&& all_clean(s.open_questions)
    &&& all_clean(s.external_refs)
}

/// Whether every text is trimmed and not empty.
pub open spec fn all_clean(items: Seq<Seq<char>>) -> bool {
    forall|i: int| 0 <= i < items.len() ==> is_clean(#[trigger] items[i])
}

proof fn lemma_clean_list_is_read_back(values: Seq<JsonView>)
    requires
        forall|i: int| 0 <= i < values.len() ==> (#[trigger] values[i]) is Str,
        forall|i: int| 0 <= i < values.len() ==> is_clean((#[trigger] values[i])->Str_0),
    ensures
        clean_texts(values) == Seq::new(values.len(), |i: int| values[i]->Str_0),
    decreases values.len(),
{
    let wanted = Seq::new(values.len(), |i: int| values[i]->Str_0);
    if values.len() == 0 {
        assert(wanted =~= Seq::<Seq<char>>::empty());
    } else {
        let init = values.drop_last();
        assert(forall|i: int| 0 <= i < init.len() ==> (#[trigger] init[i]) == values[i]);
        lemma_clean_list_is_read_back(init);
        assert(values[values.len() - 1] is Str);
        assert(clean_texts(values) =~= wanted);
    }
}

proof fn lemma_list_is_read_back(value: JsonView, key: Seq<char>, items: Seq<Seq<char>>)
    requires
        holds_list(value, key, items),
        all_clean(items),
    ensures
        texts_at(value, key) == items,
{
    if items.len() == 0 {
        assert(texts_at(value, key) =~= items);
    } else {
        let v = value.get(key)->0;
        let values = v->Array_0;
        assert forall|i: int| 0 <= i < values.len() implies is_clean(
            (#[trigger] values[i])->Str_0,
        ) by {
            assert(items[i] == values[i]->Str_0);
        }
        lemma_clean_list_is_read_back(values);
        assert(texts_at(value, key) =~= items);
    }
}

/// A summary whose texts are trimmed is read back from its JSON as it was.
pub proof fn law_summary_reads_back(value: JsonView, s: SectionsView)
    requires
        holds_sections(value, s),
        is_clean_summary(s),
    ensures
        sections_of(value) == s,
{
    lemma_list_is_read_back(value, "files_touched"@, s.files_touched);
    lemma_list_is_read_back(value, "key_decisions"@, s.key_decisions);
    lemma_list_is_read_back(value, "discoveries"@, s.discoveries);
    lemma_list_is_read_back(value, "next_steps"@, s.next_steps);
    lemma_list_is_read_back(value, "open_questions"@, s.open_questions);
    lemma_list_is_read_back(value, "external_refs"@, s.external_refs);
    assert(sections_of(value) =~= s);
}

proof fn lemma_clean_texts_are_clean(values: Seq<JsonView>)
    ensures
        all_clean(clean_texts(values)),
    decreases values.len(),
{
    if values.len() > 0 {
        lemma_clean_texts_are_clean(values.drop_last());
        if let Some(t) = values.last().text() {
            text::lemma_trim_idempotent(t);
        }
    }
}

proof fn lemma_read_texts_are_clean(value: JsonView, key: Seq<char>)
    ensures
        all_clean(texts_at(value, key)),
        value.non_blank_at(key) matches Some(t) ==> is_clean(t),
{
    if let Some(JsonView::Array(items)) = value.get(key) {
        lemma_clean_texts_are_clean(items);
    }
    if let Some(t) = value.text_at(key) {
        text::lemma_trim_idempotent(t);
    }
}

/// What is read from any JSON is trimmed: so every summary that was read from JSON is read
/// back as it was.
pub proof fn law_read_summary_is_clean(value: JsonView)
    ensures
        is_clean_summary(sections_of(value)),
{
    lemma_read_texts_are_clean(value, "task_overview"@);
    lemma_read_texts_are_clean(value, "current_state"@);
    lemma_read_texts_are_clean(value, "files_touched"@);
    lemma_read_texts_are_clean(value, "key_decisions"@);
    lemma_read_texts_are_clean(value, "discoveries"@);
    lemma_read_texts_are_clean(value, "next_steps"@);
    lemma_read_texts_are_clean(value, "open_questions"@);
    lemma_read_texts_are_clean(value, "external_refs"@);
}

// ---------------------------------------------------------------------------
// The prompt
// ---------------------------------------------------------------------------

/// A block with a heading and a trimmed text; nothing where the text is missing or
/// blank.
pub open spec fn optional_block(heading: Seq<char>, body: Option<Seq<char>>) -> Seq<char> {
    match body {
        Some(t) => match text::non_blank(t) {
            Some(clean) => heading + clean,
            None => Seq::empty(),
        },
        None => Seq::empty(),
    }
}

/// The prompt for the summarizer: the instructions, the summary so far, what to focus on
/// and the transcript, in this order.
pub open spec fn sectional_prompt(
    existing_summary: Option<Seq<char>>,
    transcript: Seq<char>,
    focus: Option<Seq<char>>,
) -> Seq<char> {
    SECTIONAL_PROMPT@ + optional_block("\n\nEXISTING SUMMARY TO UPDATE:\n"@, existing_summary)
        + optional_block("\n\nFOCUS:\n"@, focus) + "\n\nNEW TRANSCRIPT:\n"@ + transcript
}

fn write_optional_block(out: &mut String, heading: &str, body: Option<&str>)
    ensures
        final(out)@ == old(out)@ + optional_block(heading@, body.deep_view()),
{
    let ghost start = out@;
    if let Some(t) = body {
        if let Some(clean) = text::non_blank_text(t) {
            out.append(heading);
            out.append(clean.as_str());
            assert(out@ =~= start + optional_block(heading@, body.deep_view()));
            return;
        }
    }
    assert(start + optional_block(heading@, body.deep_view()) =~= start);
}

/// Writes the prompt for the summarizer. A summary or a focus that is blank counts as
/// missing.
pub fn build_sectional_prompt(
    existing_summary: Option<&str>,
    transcript: &str,
    focus_instructions: Option<&str>,
) -> (r: String)
    ensures
        r@ == sectional_prompt(
            existing_summary.deep_view(),
            transcript@,
            focus_instructions.deep_view(),
        ),
{
    let mut prompt: String = SECTIONAL_PROMPT.to_owned();
    write_optional_block(&mut prompt, "\n\nEXISTING SUMMARY TO UPDATE:\n", existing_summary);
    write_optional_block(&mut prompt, "\n\nFOCUS:\n", focus_instructions);
    prompt.append("\n\nNEW TRANSCRIPT:\n");
    prompt.append(transcript);
    prompt
}

// ---------------------------------------------------------------------------
// Laws of reading and writing
// ---------------------------------------------------------------------------

/// Two lists are cleaned one after the other; of a single value the text is kept, trimmed, where
/// there is one that is not blank.
pub proof fn law_listed_texts_are_kept_each(a: Seq<JsonView>, b: Seq<JsonView>)
    ensures
        clean_texts(a + b) == clean_texts(a) + clean_texts(b),
        a.len() == 1 ==> (clean_texts(a) == match a[0] {
            JsonView::Str(t) => if text::trim(t).len() > 0 {
                seq![text::trim(t)]
            } else {
                Seq::empty()
            },
            _ => Seq::empty(),
        }),
    decreases b.len(),
{
    reveal_with_fuel(clean_texts, 2);
    if b.len() == 0 {
        assert(a + b =~= a);
        assert(clean_texts(a) + clean_texts(b) =~= clean_texts(a));
    } else {
        law_listed_texts_are_kept_each(a, b.drop_last());
        assert((a + b).drop_last() =~= a + b.drop_last());
        assert((a + b).last() == b.last());
        assert(clean_texts(a + b) =~= clean_texts(a) + clean_texts(b));
    }
    if a.len() == 1 {
        assert(a.drop_last() =~= Seq::empty());
        assert(clean_texts(a) =~= match a[0] {
            JsonView::Str(t) => if text::trim(t).len() > 0 {
                seq![text::trim(t)]
            } else {
                Seq::empty()
            },
            _ => Seq::empty(),
        });
    }
}

/// Each section is read from the member of its own name, and is empty where there is none.
pub proof fn law_sections_are_read_by_name(value: JsonView, t: Seq<char>, items: Seq<JsonView>)
    ensures
        value.text_at("task_overview"@) == Some(t) && text::trim(t).len() > 0 ==> sections_of(
            value,
        ).task_overview == Some(text::trim(t)),
        value.text_at("current_state"@) == Some(t) && text::trim(t).len() > 0 ==> sections_of(
            value,
        ).current_state == Some(text::trim(t)),
        value.get("task_overview"@) is None ==> sections_of(value).task_overview is None,
        value.get("current_state"@) is None ==> sections_of(value).current_state is None,
        value.get("files_touched"@) == Some(JsonView::Array(items)) ==> sections_of(
            value,
        ).files_touched == clean_texts(items),
        value.get("key_decisions"@) == Some(JsonView::Array(items)) ==> sections_of(
            value,
        ).key_decisions == clean_texts(items),
        value.get("discoveries"@) == Some(JsonView::Array(items)) ==> sections_of(
            value,
        ).discoveries == clean_texts(items),
        value.get("next_steps"@) == Some(JsonView::Array(items)) ==> sections_of(value).next_steps
            == clean_texts(items),
        value.get("open_questions"@) == Some(JsonView::Array(items)) ==> sections_of(
            value,
        ).open_questions == clean_texts(items),
        value.get("external_refs"@) == Some(JsonView::Array(items)) ==> sections_of(
            value,
        ).external_refs == clean_texts(items),
        value.get("files_touched"@) is None ==> sections_of(value).files_touched.len() == 0,
        value.get("key_decisions"@) is None ==> sections_of(value).key_decisions.len() == 0,
        value.get("discoveries"@) is None ==> sections_of(value).discoveries.len() == 0,
        value.get("next_steps"@) is None ==> sections_of(value).next_steps.len() == 0,
        value.get("open_questions"@) is None ==> sections_of(value).open_questions.len() == 0,
        value.get("external_refs"@) is None ==> sections_of(value).external_refs.len() == 0,
{
}

/// Of the eight sections as many are counted as hold something: none where all are empty, all
/// where each holds a text, and one more for each that is filled.
pub proof fn law_filled_sections_are_counted(s: SectionsView, t: Seq<char>, items: Seq<Seq<char>>)
    requires
        t.len() > 0,
        items.len() > 0,
        items[0].len() > 0,
    ensures
        filled_count(s) <= 8,
        s.task_overview is None ==> filled_count(SectionsView { task_overview: Some(t), ..s })
            == filled_count(s) + 1,
        s.current_state is None ==> filled_count(SectionsView { current_state: Some(t), ..s })
            == filled_count(s) + 1,
        s.files_touched.len() == 0 ==> filled_count(SectionsView { files_touched: items, ..s })
            == filled_count(s) + 1,
        s.key_decisions.len() == 0 ==> filled_count(SectionsView { key_decisions: items, ..s })
            == filled_count(s) + 1,
        s.discoveries.len() == 0 ==> filled_count(SectionsView { discoveries: items, ..s })
            == filled_count(s) + 1,
        s.next_steps.len() == 0 ==> filled_count(SectionsView { next_steps: items, ..s })
            == filled_count(s) + 1,
        s.open_questions.len() == 0 ==> filled_count(SectionsView { open_questions: items, ..s })
            == filled_count(s) + 1,
        s.external_refs.len() == 0 ==> filled_count(SectionsView { external_refs: items, ..s })
            == filled_count(s) + 1,
        s.task_overview is None && s.current_state is None && s.files_touched.len() == 0
            && s.key_decisions.len() == 0 && s.discoveries.len() == 0 && s.next_steps.len() == 0
            && s.open_questions.len() == 0 && s.external_refs.len() == 0 ==> filled_count(s) == 0,
{
    assert(list_is_filled(items));
}

proof fn lemma_bullets_hold(items: Seq<Seq<char>>, i: int)
    requires
        0 <= i < items.len(),
    ensures
        text::contains(bullet_lines(items), "- "@ + items[i]),
    decreases items.len(),
{
    let head = bullet_lines(items.drop_last());
    let line = "- "@ + items.last();
    assert(bullet_lines(items) =~= head + line + "\n"@);
    if i == items.len() - 1 {
        text::lemma_contains_middle(head, line, "\n"@);
    } else {
        lemma_bullets_hold(items.drop_last(), i);
        text::lemma_contains_longer(head, line + "\n"@, "- "@ + items[i]);
        assert(bullet_lines(items) =~= head + (line + "\n"@));
    }
}

/// What a summary holds before the white space at its end is taken off.
spec fn untrimmed(s: SectionsView) -> Seq<char> {
    text_section("## Task overview\n"@, s.task_overview) + text_section(
        "## Current state\n"@,
        s.current_state,
    ) + list_section("Files touched"@, s.files_touched) + list_section(
        "Key decisions"@,
        s.key_decisions,
    ) + list_section("Discoveries"@, s.discoveries) + list_section("Next steps"@, s.next_steps)
        + list_section("Open questions"@, s.open_questions) + list_section(
        "External refs"@,
        s.external_refs,
    )
}

proof fn lemma_section_is_held(s: SectionsView, n: int, needle: Seq<char>)
    requires
        0 <= n < 8,
        text::contains(
            if n == 0 {
                text_section("## Task overview\n"@, s.task_overview)
            } else if n == 1 {
                text_section("## Current state\n"@, s.current_state)
            } else if n == 2 {
                list_section("Files touched"@, s.files_touched)
            } else if n == 3 {
                list_section("Key decisions"@, s.key_decisions)
            } else if n == 4 {
                list_section("Discoveries"@, s.discoveries)
            } else if n == 5 {
                list_section("Next steps"@, s.next_steps)
            } else if n == 6 {
                list_section("Open questions"@, s.open_questions)
            } else {
                list_section("External refs"@, s.external_refs)
            },
            needle,
        ),
        needle.len() > 0,
        !text::is_white_space(needle.last()),
    ensures
        text::contains(markdown(s), needle),
{
    let a0 = text_section("## Task overview\n"@, s.task_overview);
    let a1 = text_section("## Current state\n"@, s.current_state);
    let a2 = list_section("Files touched"@, s.files_touched);
    let a3 = list_section("Key decisions"@, s.key_decisions);
    let a4 = list_section("Discoveries"@, s.discoveries);
    let a5 = list_section("Next steps"@, s.next_steps);
    let a6 = list_section("Open questions"@, s.open_questions);
    let a7 = list_section("External refs"@, s.external_refs);
    if n == 0 {
        text::lemma_contains_longer(a0, a1, needle);
    }
    if n == 1 {
        text::lemma_contains_behind(a0, a1, needle);
    }
    let b1 = a0 + a1;
    if n <= 1 {
        text::lemma_contains_longer(b1, a2, needle);
    } else if n == 2 {
        text::lemma_contains_behind(b1, a2, needle);
    }
    let b2 = b1 + a2;
    if n <= 2 {
        text::lemma_contains_longer(b2, a3, needle);
    } else if n == 3 {
        text::lemma_contains_behind(b2, a3, needle);
    }
    let b3 = b2 + a3;
    if n <= 3 {
        text::lemma_contains_longer(b3, a4, needle);
    } else if n == 4 {
        text::lemma_contains_behind(b3, a4, needle);
    }
    let b4 = b3 + a4;
    if n <= 4 {
        text::lemma_contains_longer(b4, a5, needle);
    } else if n == 5 {
        text::lemma_contains_behind(b4, a5, needle);
    }
    let b5 = b4 + a5;
    if n <= 5 {
        text::lemma_contains_longer(b5, a6, needle);
    } else if n == 6 {
        text::lemma_contains_behind(b5, a6, needle);
    }
    let b6 = b5 + a6;
    if n <= 6 {
        text::lemma_contains_longer(b6, a7, needle);
    } else {
        text::lemma_contains_behind(b6, a7, needle);
    }
    assert(untrimmed(s) == b6 + a7);
    text::lemma_trim_end_contains(untrimmed(s), needle);
}

proof fn lemma_text_section_holds(heading: Seq<char>, t: Seq<char>)
    requires
        t.len() > 0,
    ensures
        text::contains(text_section(heading, Some(t)), heading + t),
{
    text::lemma_contains_middle(Seq::empty(), heading + t, "\n\n"@);
    assert(text_section(heading, Some(t)) =~= Seq::<char>::empty() + (heading + t) + "\n\n"@);
}

proof fn lemma_list_section_holds(heading: Seq<char>, items: Seq<Seq<char>>, i: int)
    requires
        0 <= i < items.len(),
        items[i].len() > 0,
    ensures
        text::contains(list_section(heading, items), "- "@ + items[i]),
        text::contains(list_section(heading, items), "## "@ + heading),
{
    lemma_bullets_hold(items, i);
    let top = "## "@ + heading + "\n"@;
    let list = bullet_lines(items);
    let line = "- "@ + items[i];
    text::lemma_contains_behind(top, list, line);
    text::lemma_contains_longer(top + list, "\n"@, line);
    assert(list_section(heading, items) =~= top + list + "\n"@);
    text::lemma_contains_middle(
        Seq::empty(),
        "## "@ + heading,
        "\n"@ + list + "\n"@,
    );
    assert(list_section(heading, items) =~= Seq::<char>::empty() + ("## "@ + heading) + ("\n"@
        + list + "\n"@));
}

/// A summary shows the overview and the state of the task under their headings, and each entry
/// of each list on a line of its own, for every text that is trimmed and not blank.
pub proof fn law_summary_shows_every_section(s: SectionsView, t: Seq<char>, items: Seq<Seq<char>>, i: int)
    requires
        is_clean(t),
        0 <= i < items.len(),
        is_clean(items[i]),
    ensures
        s.task_overview == Some(t) ==> text::contains(markdown(s), "## Task overview\n"@ + t),
        s.current_state == Some(t) ==> text::contains(markdown(s), "## Current state\n"@ + t),
        s.files_touched == items ==> text::contains(markdown(s), "- "@ + items[i]),
        s.key_decisions == items ==> text::contains(markdown(s), "- "@ + items[i]),
        s.discoveries == items ==> text::contains(markdown(s), "- "@ + items[i]),
        s.next_steps == items ==> text::contains(markdown(s), "- "@ + items[i]),
        s.open_questions == items ==> text::contains(markdown(s), "- "@ + items[i]),
        s.external_refs == items ==> text::contains(markdown(s), "- "@ + items[i]),
{
    text::lemma_trim_ends(t);
    text::lemma_trim_ends(items[i]);
    let line = "- "@ + items[i];
    assert(line.last() == items[i].last());
    if s.task_overview == Some(t) {
        let needle = "## Task overview\n"@ + t;
        lemma_text_section_holds("## Task overview\n"@, t);
        assert(needle.last() == t.last());
        lemma_section_is_held(s, 0, needle);
    }
    if s.current_state == Some(t) {
        let needle = "## Current state\n"@ + t;
        lemma_text_section_holds("## Current state\n"@, t);
        assert(needle.last() == t.last());
        lemma_section_is_held(s, 1, needle);
    }
    if s.files_touched == items {
        lemma_list_section_holds("Files touched"@, items, i);
        lemma_section_is_held(s, 2, line);
    }
    if s.key_decisions == items {
        lemma_list_section_holds("Key decisions"@, items, i);
        lemma_section_is_held(s, 3, line);
    }
    if s.discoveries == items {
        lemma_list_section_holds("Discoveries"@, items, i);
        lemma_section_is_held(s, 4, line);
    }
    if s.next_steps == items {
        lemma_list_section_holds("Next steps"@, items, i);
        lemma_section_is_held(s, 5, line);
    }
    if s.open_questions == items {
        lemma_list_section_holds("Open questions"@, items, i);
        lemma_section_is_held(s, 6, line);
    }
    if s.external_refs == items {
        lemma_list_section_holds("External refs"@, items, i);
        lemma_section_is_held(s, 7, line);
    }
}

/// A summary of nothing is empty, and a section alone is all that its summary shows.
pub proof fn law_summary_shows_nothing_else(s: SectionsView, t: Seq<char>)
    requires
        is_clean(t),
        s.current_state is None,
        s.files_touched.len() == 0,
        s.key_decisions.len() == 0,
        s.discoveries.len() == 0,
        s.next_steps.len() == 0,
        s.open_questions.len() == 0,
    ensures
        s.task_overview is None && s.external_refs.len() == 0 ==> markdown(s).len() == 0,
        s.task_overview is None && s.external_refs == seq![t] ==> markdown(s)
            == "## External refs\n- "@ + t,
{
    text::lemma_trim_ends(t);
    let all = untrimmed(s);
    if s.task_overview is None && s.external_refs.len() == 0 {
        assert(all =~= Seq::<char>::empty());
    }
    if s.task_overview is None && s.external_refs == seq![t] {
        assert(s.external_refs[0].len() > 0);
        assert(list_is_filled(s.external_refs));
        reveal_with_fuel(bullet_lines, 2);
        reveal_strlit("\n");
        reveal_strlit("## ");
        reveal_strlit("- ");
        reveal_strlit("External refs");
        reveal_strlit("## External refs\n- ");
        let kept = "## External refs\n- "@ + t;
        assert(s.external_refs.drop_last() =~= Seq::empty());
        assert("\n"@ =~= seq!['\n']);
        assert("## External refs\n- "@ =~= "## "@ + "External refs"@ + "\n"@ + "- "@);
        assert(all =~= kept + "\n"@ + "\n"@);
        reveal_with_fuel(text::trim_end, 3);
        assert(all.drop_last() =~= kept + "\n"@);
        assert((kept + "\n"@).drop_last() =~= kept);
        assert(kept.last() == t.last());
        assert(text::is_white_space('\n'));
    }
}

/// The summarizer is given the whole transcript, and before it the summary so far and the focus
/// where they are given and not blank.
pub proof fn law_summarizer_is_told_all(
    existing: Option<Seq<char>>,
    transcript: Seq<char>,
    focus: Option<Seq<char>>,
)
    ensures
        text::starts_with(sectional_prompt(existing, transcript, focus), SECTIONAL_PROMPT@),
        text::ends_with(
            sectional_prompt(existing, transcript, focus),
            "\n\nNEW TRANSCRIPT:\n"@ + transcript,
        ),
        existing matches Some(t) ==> (text::trim(t).len() > 0 ==> text::contains(
            sectional_prompt(existing, transcript, focus),
            "\n\nEXISTING SUMMARY TO UPDATE:\n"@ + text::trim(t),
        )),
        focus matches Some(t) ==> (text::trim(t).len() > 0 ==> text::contains(
            sectional_prompt(existing, transcript, focus),
            "\n\nFOCUS:\n"@ + text::trim(t),
        )),
        existing is None && focus is None ==> sectional_prompt(existing, transcript, focus)
            == SECTIONAL_PROMPT@ + "\n\nNEW TRANSCRIPT:\n"@ + transcript,
{
    let head = SECTIONAL_PROMPT@;
    let a = optional_block("\n\nEXISTING SUMMARY TO UPDATE:\n"@, existing);
    let b = optional_block("\n\nFOCUS:\n"@, focus);
    let end = "\n\nNEW TRANSCRIPT:\n"@ + transcript;
    let all = sectional_prompt(existing, transcript, focus);
    assert(all =~= head + a + b + end);
    assert(all.subrange(0, head.len() as int) =~= head);
    assert(all.subrange(all.len() - end.len(), all.len() as int) =~= end);
    text::lemma_contains_middle(head, a, b + end);
    assert(all =~= head + a + (b + end));
    text::lemma_contains_middle(head + a, b, end);
    if existing is None && focus is None {
        assert(all =~= head + "\n\nNEW TRANSCRIPT:\n"@ + transcript);
    }
}

proof fn lemma_bullets_begin(items: Seq<Seq<char>>)
    requires
        items.len() > 0,
    ensures
        bullet_lines(items).len() >= 2 + items[0].len(),
        bullet_lines(items).take(2 + items[0].len() as int) == "- "@ + items[0],
    decreases items.len(),
{
    reveal_strlit("- ");
    let n = 2 + items[0].len() as int;
    let head = bullet_lines(items.drop_last());
    if items.len() == 1 {
        assert(items.drop_last() =~= Seq::empty());
        assert(bullet_lines(items) =~= "- "@ + items[0] + "\n"@);
        assert(bullet_lines(items).take(n) =~= "- "@ + items[0]);
    } else {
        lemma_bullets_begin(items.drop_last());
        assert(items.drop_last()[0] == items[0]);
        assert(bullet_lines(items) =~= head + ("- "@ + items.last() + "\n"@));
        assert(bullet_lines(items).take(n) =~= head.take(n));
    }
}

proof fn lemma_list_section_begins(heading: Seq<char>, items: Seq<Seq<char>>)
    requires
        items.len() > 0,
        items[0].len() > 0,
    ensures
        text::contains(
            list_section(heading, items),
            "## "@ + heading + "\n"@ + ("- "@ + items[0]),
        ),
{
    lemma_bullets_begin(items);
    let n = 2 + items[0].len() as int;
    let top = "## "@ + heading + "\n"@;
    let list = bullet_lines(items);
    assert(list_is_filled(items));
    assert(list =~= list.take(n) + list.skip(n));
    assert(list_section(heading, items) =~= Seq::<char>::empty() + (top + list.take(n)) + (
    list.skip(n) + "\n"@));
    text::lemma_contains_middle(Seq::empty(), top + list.take(n), list.skip(n) + "\n"@);
}

/// Each list stands under its own heading.
pub proof fn law_lists_stand_under_their_headings(s: SectionsView, items: Seq<Seq<char>>)
    requires
        items.len() > 0,
        is_clean(items[0]),
    ensures
        s.files_touched == items ==> text::contains(
            markdown(s),
            "## "@ + "Files touched"@ + "\n"@ + ("- "@ + items[0]),
        ),
        s.key_decisions == items ==> text::contains(
            markdown(s),
            "## "@ + "Key decisions"@ + "\n"@ + ("- "@ + items[0]),
        ),
        s.discoveries == items ==> text::contains(
            markdown(s),
            "## "@ + "Discoveries"@ + "\n"@ + ("- "@ + items[0]),
        ),
        s.next_steps == items ==> text::contains(
            markdown(s),
            "## "@ + "Next steps"@ + "\n"@ + ("- "@ + items[0]),
        ),
        s.open_questions == items ==> text::contains(
            markdown(s),
            "## "@ + "Open questions"@ + "\n"@ + ("- "@ + items[0]),
        ),
        s.external_refs == items ==> text::contains(
            markdown(s),
            "## "@ + "External refs"@ + "\n"@ + ("- "@ + items[0]),
        ),
{
    text::lemma_trim_ends(items[0]);
    let line = "- "@ + items[0];
    assert(line.last() == items[0].last());
    if s.files_touched == items {
        lemma_list_section_begins("Files touched"@, items);
        assert(("## "@ + "Files touched"@ + "\n"@ + line).last() == line.last());
        lemma_section_is_held(s, 2, "## "@ + "Files touched"@ + "\n"@ + line);
    }
    if s.key_decisions == items {
        lemma_list_section_begins("Key decisions"@, items);
        assert(("## "@ + "Key decisions"@ + "\n"@ + line).last() == line.last());
        lemma_section_is_held(s, 3, "## "@ + "Key decisions"@ + "\n"@ + line);
    }
    if s.discoveries == items {
        lemma_list_section_begins("Discoveries"@, items);
        assert(("## "@ + "Discoveries"@ + "\n"@ + line).last() == line.last());
        lemma_section_is_held(s, 4, "## "@ + "Discoveries"@ + "\n"@ + line);
    }
    if s.next_steps == items {
        lemma_list_section_begins("Next steps"@, items);
        assert(("## "@ + "Next steps"@ + "\n"@ + line).last() == line.last());
        lemma_section_is_held(s, 5, "## "@ + "Next steps"@ + "\n"@ + line);
    }
    if s.open_questions == items {
        lemma_list_section_begins("Open questions"@, items);
        assert(("## "@ + "Open questions"@ + "\n"@ + line).last() == line.last());
        lemma_section_is_held(s, 6, "## "@ + "Open questions"@ + "\n"@ + line);
    }
    if s.external_refs == items {
        lemma_list_section_begins("External refs"@, items);
        assert(("## "@ + "External refs"@ + "\n"@ + line).last() == line.last());
        lemma_section_is_held(s, 7, "## "@ + "External refs"@ + "\n"@ + line);
    }
}

} // verus!
