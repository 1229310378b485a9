//! What a request to the HTTP interface says: its text and its images.
use vstd::prelude::*;
use vstd::string::*;
use crate::json::{Json, JsonView};
use crate::json;
use crate::message::{ContentPart, ImageUrl, PartView};
use crate::text;

verus! {

broadcast use vstd::string::group_string_axioms;

/// What a request says.
#[derive(Debug)]
pub struct ParsedChatInput {
    pub content: String,
    pub attachments: Vec<ContentPart>,
}

/// The texts and the images that were found.
#[verifier::ext_equal]
pub struct Found {
    pub texts: Seq<Seq<char>>,
    pub images: Seq<PartView>,
}

/// Nothing was found.
pub open spec fn nothing() -> Found {
    Found { texts: Seq::empty(), images: Seq::empty() }
}

impl Found {
    /// This, and the other behind it.
    pub open spec fn then_found(self, other: Found) -> Found {
        Found { texts: self.texts + other.texts, images: self.images + other.images }
    }
}

/// A text was found.
pub open spec fn one_text(t: Seq<char>) -> Found {
    Found { texts: seq![t], images: Seq::empty() }
}

/// The image that a part names.
pub open spec fn image_in(part: JsonView) -> Option<PartView> {
    match part.get("image_url"@) {
        Some(image) => match image.text_at("url"@) {
            Some(url) => Some(PartView::ImageUrl { url, detail: image.text_at("detail"@) }),
            None => None,
        },
        None => None,
    }
}

/// What an object that names its type says. Types that are not known say nothing.
pub open spec fn found_in_object(part: JsonView) -> Found {
    match part.text_at("type"@) {
        Some(kind) => if kind == "text"@ {
            match part.text_at("text"@) {
                Some(t) => one_text(t),
                None => nothing(),
            }
        } else if kind == "image_url"@ {
            match image_in(part) {
                Some(image) => Found { texts: Seq::empty(), images: seq![image] },
                None => nothing(),
            }
        } else {
            nothing()
        },
        None => nothing(),
    }
}

/// What a part of a message says: a text, or an object that names its type.
pub open spec fn found_in_part(part: JsonView) -> Result<Found, Seq<char>> {
    match part {
        JsonView::Str(t) => Ok(one_text(t)),
        JsonView::Object(_) => Ok(found_in_object(part)),
        _ => Err("Unsupported content part type. Expected string or object."@),
    }
}

/// What the parts of a message say.
pub open spec fn found_in_parts(parts: Seq<JsonView>) -> Result<Found, Seq<char>>
    decreases parts.len(),
{
    if parts.len() == 0 {
        Ok(nothing())
    } else {
        match found_in_parts(parts.drop_last()) {
            Err(e) => Err(e),
            Ok(head) => match found_in_part(parts.last()) {
                Err(e) => Err(e),
                Ok(last) => Ok(head.then_found(last)),
            },
        }
    }
}

/// What the input of a request says: a text, a list, an object that names its type, has a
/// text, or has content of its own.
pub open spec fn found_in_input(input: JsonView) -> Result<Found, Seq<char>>
    decreases input, 0nat,
{
    match input {
        JsonView::Str(t) => Ok(one_text(t)),
        JsonView::Array(items) => found_in_items(items, items.len()),
        JsonView::Object(members) => if input.text_at("type"@) is Some {
            Ok(found_in_object(input))
        } else if input.text_at("text"@) is Some {
            Ok(one_text(input.text_at("text"@)->0))
        } else {
            match first_at(members, "content"@) {
                Some(i) => if 0 <= i < members.len() {
                    found_in_input(members[i].1)
                } else {
                    Err("Unsupported responses input object. Expected text or content."@)
                },
                None => Err("Unsupported responses input object. Expected text or content."@),
            }
        },
        _ => Err("Unsupported responses input type. Expected string, array, or object."@),
    }
}

/// What the first items of a list say.
pub open spec fn found_in_items(items: Seq<JsonView>, n: nat) -> Result<Found, Seq<char>>
    decreases items, n,
{
    if n == 0 || n > items.len() {
        Ok(nothing())
    } else {
        match found_in_items(items, (n - 1) as nat) {
            Err(e) => Err(e),
            Ok(head) => match found_in_input(items[n - 1]) {
                Err(e) => Err(e),
                Ok(last) => Ok(head.then_found(last)),
            },
        }
    }
}

/// Where the first member with the name is.
pub open spec fn first_at(members: Seq<(Seq<char>, JsonView)>, key: Seq<char>) -> Option<int>
    decreases members.len(),
{
    if members.len() == 0 {
        None
    } else if members[0].0 == key {
        Some(0)
    } else {
        match first_at(members.drop_first(), key) {
            Some(i) => Some(i + 1),
            None => None,
        }
    }
}

proof fn lemma_first_at(members: Seq<(Seq<char>, JsonView)>, key: Seq<char>)
    ensures
        match first_at(members, key) {
            Some(i) => 0 <= i < members.len() && json::member(members, key) == Some(members[i].1),
            None => json::member(members, key) is None,
        },
    decreases members.len(),
{
    if members.len() > 0 {
        lemma_first_at(members.drop_first(), key);
    }
}

proof fn lemma_bad_items(items: Seq<JsonView>, n: nat, m: nat)
    requires
        n <= m <= items.len(),
        found_in_items(items, n) is Err,
    ensures
        found_in_items(items, m) == found_in_items(items, n),
    decreases m,
{
    if n < m {
        lemma_bad_items(items, n, (m - 1) as nat);
    }
}

proof fn lemma_bad_parts(parts: Seq<JsonView>, n: int)
    requires
        0 <= n <= parts.len(),
        found_in_parts(parts.take(n)) is Err,
    ensures
        found_in_parts(parts) == found_in_parts(parts.take(n)),
    decreases parts.len(),
{
    if n < parts.len() {
        assert(parts.drop_last().take(n) =~= parts.take(n));
        lemma_bad_parts(parts.drop_last(), n);
    } else {
        assert(parts.take(n) =~= parts);
    }
}

// ---------------------------------------------------------------------------
// Finding
// ---------------------------------------------------------------------------

/// What was found so far.
struct Findings {
    texts: Vec<String>,
    images: Vec<ContentPart>,
}

impl Findings {
    spec fn found(self) -> Found {
        Found { texts: self.texts.deep_view(), images: self.images.deep_view() }
    }

    fn new() -> (r: Self)
        ensures
            r.found() == nothing(),
    {
        let f = Findings { texts: Vec::new(), images: Vec::new() };
        assert(f.found() =~= nothing());
        f
    }

    fn add_text(&mut self, t: &str)
        ensures
            final(self).found() == old(self).found().then_found(one_text(t@)),
    {
        let ghost before = self.found();
        self.texts.push(t.to_owned());
        assert(self.found() =~= before.then_found(one_text(t@)));
    }

    fn add_image(&mut self, image: ContentPart)
        ensures
            final(self).found() == old(self).found().then_found(
                (Found { texts: Seq::empty(), images: seq![image.deep_view()] }),
            ),
    {
        let ghost before = self.found();
        self.images.push(image);
        assert(self.found() =~= before.then_found(
            (Found { texts: Seq::empty(), images: seq![image.deep_view()] }),
        ));
    }
}

fn find_image(part: &Json) -> (r: Option<ContentPart>)
    ensures
        r.deep_view() == image_in(part@),
{
    match part.get("image_url") {
        Some(image) => match image.text_at("url") {
            Some(url) => {
                let detail: Option<String> = match image.text_at("detail") {
                    Some(d) => Some(d.to_owned()),
                    None => None,
                };
                Some(ContentPart::ImageUrl { image_url: ImageUrl { url: url.to_owned(), detail } })
            },
            None => None,
        },
        None => None,
    }
}

fn collect_object(part: &Json, findings: &mut Findings)
    ensures
        final(findings).found() == old(findings).found().then_found(found_in_object(part@)),
{
    let ghost before = findings.found();
    assert(before.then_found(nothing()) =~= before);
    if let Some(kind) = part.text_at("type") {
        if text::same(kind, "text") {
            if let Some(t) = part.text_at("text") {
                findings.add_text(t);
            }
        } else if text::same(kind, "image_url") {
            if let Some(image) = find_image(part) {
                findings.add_image(image);
            }
        }
    }
}

/// Collects what a part of a message says.
fn collect_content_parts(part: &Json, findings: &mut Findings) -> (r: Result<(), String>)
    ensures
        match found_in_part(part@) {
            Ok(found) => r is Ok && final(findings).found() == old(findings).found().then_found(
                found,
            ),
            Err(why) => r matches Err(e) && e@ == why,
        },
{
    match part {
        Json::Str(t) => {
            findings.add_text(t.as_str());
            Ok(())
        },
        Json::Object(_) => {
            collect_object(part, findings);
            Ok(())
        },
        _ => Err("Unsupported content part type. Expected string or object.".to_owned()),
    }
}

/// Collects what the input of a request says.
fn collect_input_parts(input: &Json, findings: &mut Findings) -> (r: Result<(), String>)
    ensures
        match found_in_input(input@) {
            Ok(found) => r is Ok && final(findings).found() == old(findings).found().then_found(
                found,
            ),
            Err(why) => r matches Err(e) && e@ == why,
        },
    decreases input,
{
    match input {
        Json::Str(t) => {
            findings.add_text(t.as_str());
            Ok(())
        },
        Json::Array(items) => {
            let ghost all = input@->Array_0;
            let ghost before = findings.found();
            let mut i: usize = 0;
            assert(before.then_found(nothing()) =~= before);
            while i < items.len()
                invariant
                    i <= items@.len(),
                    input@ is Array,
                    all == input@->Array_0,
                    all.len() == items@.len(),
                    *input is Array,
                    *items == input->Array_0,
                    forall|k: int| 0 <= k < items@.len() ==> #[trigger] all[k] == items@[k]@,
                    before == old(findings).found(),
                    found_in_items(all, i as nat) matches Ok(found) && findings.found()
                        == before.then_found(found),
                decreases items@.len() - i,
            {
                let ghost so_far = found_in_items(all, i as nat)->Ok_0;
                assert(all[i as int] == items@[i as int]@);
                proof {
                    assert(decreases_to!(*input => input->Array_0));
                    assert(decreases_to!(*items => items@));
                    assert(decreases_to!(items@ => items@[i as int]));
                }
                match collect_input_parts(&items[i], findings) {
                    Ok(_) => {
                        proof {
                            let last = found_in_input(all[i as int])->Ok_0;
                            assert(before.then_found(so_far).then_found(last)
                                =~= before.then_found(so_far.then_found(last)));
                        }
                    },
                    Err(e) => {
                        proof {
                            lemma_bad_items(all, (i + 1) as nat, all.len());
                        }
                        return Err(e);
                    },
                }
                i = i + 1;
            }
            Ok(())
        },
        Json::Object(_) => {
            if input.text_at("type").is_some() {
                collect_object(input, findings);
                return Ok(());
            }
            if let Some(t) = input.text_at("text") {
                findings.add_text(t);
                return Ok(());
            }
            proof {
                lemma_first_at(input@->Object_0, "content"@);
            }
            match input.get("content") {
                Some(content) => collect_input_parts(content, findings),
                None => Err(
                    "Unsupported responses input object. Expected text or content.".to_owned(),
                ),
            }
        },
        _ => Err(
            "Unsupported responses input type. Expected string, array, or object.".to_owned(),
        ),
    }
}

// ---------------------------------------------------------------------------
// Requests
// ---------------------------------------------------------------------------

/// The content of a request: the texts that are not blank, trimmed, with a blank line
/// between each two.
pub open spec fn content_of(found: Found) -> Seq<char> {
    text::join(text::clean_texts(found.texts), "\n\n"@)
}

/// What a request comes to that says what was found; an error where it says nothing.
pub open spec fn request_of(found: Found, empty: Seq<char>) -> Result<
    (Seq<char>, Seq<PartView>),
    Seq<char>,
> {
    if content_of(found).len() == 0 && found.images.len() == 0 {
        Err(empty)
    } else {
        Ok((content_of(found), found.images))
    }
}

fn finish(findings: Findings, empty: &str) -> (r: Result<ParsedChatInput, String>)
    ensures
        match request_of(findings.found(), empty@) {
            Ok((content, images)) => r matches Ok(p) && p.content@ == content
                && p.attachments.deep_view() == images,
            Err(why) => r matches Err(e) && e@ == why,
        },
{
    let segments: Vec<String> = text::cleaned_list(&findings.texts);
    let content: String = text::joined(segments.as_slice(), "\n\n");
    assert(findings.images.deep_view().len() == findings.images@.len());
    if content.as_str().is_empty() && findings.images.len() == 0 {
        Err(empty.to_owned())
    } else {
        Ok(ParsedChatInput { content, attachments: findings.images })
    }
}

/// What a chat message says.
pub open spec fn chat_message(value: JsonView) -> Result<(Seq<char>, Seq<PartView>), Seq<char>> {
    match value {
        JsonView::Str(t) => Ok((t, Seq::empty())),
        JsonView::Array(parts) => match found_in_parts(parts) {
            Ok(found) => request_of(
                found,
                "Chat message did not contain any text or image content."@,
            ),
            Err(e) => Err(e),
        },
        _ => Err("Chat message must be a string or an array of content parts."@),
    }
}

/// Reads a chat message: a text as it is, or a list of parts.
pub fn parse_chat_message_value(value: &Json) -> (r: Result<ParsedChatInput, String>)
    ensures
        match chat_message(value@) {
            Ok((content, images)) => r matches Ok(p) && p.content@ == content
                && p.attachments.deep_view() == images,
            Err(why) => r matches Err(e) && e@ == why,
        },
{
    match value {
        Json::Str(t) => {
            let none: Vec<ContentPart> = Vec::new();
            assert(none.deep_view() =~= Seq::<PartView>::empty());
            Ok(ParsedChatInput { content: t.clone(), attachments: none })
        },
        Json::Array(parts) => {
            let ghost all = value@->Array_0;
            let mut findings = Findings::new();
            let mut i: usize = 0;
            assert(all.take(0) =~= Seq::<JsonView>::empty());
            assert(found_in_parts(all.take(0)) == Ok::<Found, Seq<char>>(nothing()));
            while i < parts.len()
                invariant
                    i <= parts@.len(),
                    value@ is Array,
                    all == value@->Array_0,
                    all.len() == parts@.len(),
                    forall|k: int| 0 <= k < parts@.len() ==> #[trigger] all[k] == parts@[k]@,
                    found_in_parts(all.take(i as int)) == Ok::<Found, Seq<char>>(findings.found()),
                decreases parts@.len() - i,
            {
                assert(all.take(i + 1).drop_last() =~= all.take(i as int));
                assert(all.take(i + 1).last() == parts@[i as int]@);
                match collect_content_parts(&parts[i], &mut findings) {
                    Ok(_) => {},
                    Err(e) => {
                        proof {
                            lemma_bad_parts(all, i + 1);
                        }
                        return Err(e);
                    },
                }
                i = i + 1;
            }
            assert(all.take(i as int) =~= all);
            finish(findings, "Chat message did not contain any text or image content.")
        },
        _ => Err("Chat message must be a string or an array of content parts.".to_owned()),
    }
}

/// What the input of a request comes to.
pub open spec fn responses_input(input: JsonView) -> Result<
    (Seq<char>, Seq<PartView>),
    Seq<char>,
> {
    match found_in_input(input) {
        Ok(found) => request_of(
            found,
            "Responses input did not contain any text or image content."@,
        ),
        Err(e) => Err(e),
    }
}

/// Reads the input of a request.
pub fn normalize_responses_input(input: &Json) -> (r: Result<ParsedChatInput, String>)
    ensures
        match responses_input(input@) {
            Ok((content, images)) => r matches Ok(p) && p.content@ == content
                && p.attachments.deep_view() == images,
            Err(why) => r matches Err(e) && e@ == why,
        },
{
    let mut findings = Findings::new();
    match collect_input_parts(input, &mut findings) {
        Ok(_) => {
            proof {
                let found = found_in_input(input@)->Ok_0;
                assert(nothing().then_found(found) =~= found);
            }
            finish(findings, "Responses input did not contain any text or image content.")
        },
        Err(e) => Err(e),
    }
}

// ---------------------------------------------------------------------------
// Laws
// ---------------------------------------------------------------------------

/// A text that is not blank comes to itself, trimmed.
pub proof fn law_plain_input_is_trimmed(t: Seq<char>)
    requires
        text::trim(t).len() > 0,
    ensures
        responses_input(JsonView::Str(t)) == Ok::<(Seq<char>, Seq<PartView>), Seq<char>>(
            (text::trim(t), Seq::empty()),
        ),
{
    reveal_with_fuel(text::clean_texts, 2);
    reveal_with_fuel(text::join, 2);
    let texts = one_text(t).texts;
    assert(texts.drop_last() =~= Seq::<Seq<char>>::empty());
    assert(text::clean_texts(texts) =~= seq![text::trim(t)]);
    assert(content_of(one_text(t)) =~= text::trim(t));
}

/// A request that comes to anything has a text or an image.
pub proof fn law_accepted_input_says_something(input: JsonView)
    requires
        responses_input(input) is Ok,
    ensures
        responses_input(input)->Ok_0.0.len() > 0 || responses_input(input)->Ok_0.1.len() > 0,
{
}

proof fn lemma_items_prefix(items: Seq<JsonView>, more: JsonView, n: nat)
    requires
        n <= items.len(),
    ensures
        found_in_items(items.push(more), n) == found_in_items(items, n),
    decreases n,
{
    if n > 0 {
        lemma_items_prefix(items, more, (n - 1) as nat);
        assert(items.push(more)[n - 1] == items[n - 1]);
    }
}

/// A part that names an image gives one attachment, with the address and the detail that it
/// names; it is enough for a request.
pub proof fn law_image_becomes_an_attachment(input: JsonView, url: Seq<char>)
    requires
        input is Object,
        input.text_at("type"@) == Some("image_url"@),
        input.get("image_url"@) is Some,
        input.get("image_url"@)->0.text_at("url"@) == Some(url),
    ensures
        responses_input(input) == Ok::<(Seq<char>, Seq<PartView>), Seq<char>>(
            (
                Seq::empty(),
                seq![
                    PartView::ImageUrl {
                        url,
                        detail: input.get("image_url"@)->0.text_at("detail"@),
                    },
                ],
            ),
        ),
        chat_message(JsonView::Array(seq![input])) == responses_input(input),
        found_in_input(input) matches Ok(found) && found.texts.len() == 0,
{
    reveal_strlit("text");
    reveal_strlit("image_url");
    assert("text"@[0] != "image_url"@[0]);
    reveal_with_fuel(found_in_parts, 2);
    let found = found_in_input(input)->Ok_0;
    assert(found.texts =~= Seq::<Seq<char>>::empty());
    assert(text::clean_texts(found.texts) =~= Seq::<Seq<char>>::empty());
    assert(content_of(found) =~= Seq::<char>::empty());
    assert(seq![input].drop_last() =~= Seq::<JsonView>::empty());
    assert(nothing().then_found(found) =~= found);
}

/// A part that names a text says what the text says, be it a part of type text, a text alone,
/// or an object with nothing but a text.
pub proof fn law_text_part_says_its_text(input: JsonView, t: Seq<char>)
    requires
        input is Object,
        input.text_at("text"@) == Some(t),
        input.text_at("type"@) == Some("text"@) || input.text_at("type"@) is None,
    ensures
        responses_input(input) == responses_input(JsonView::Str(t)),
        found_in_input(input) matches Ok(found) && found.texts == seq![t] && found.images.len()
            == 0,
        found_in_input(JsonView::Str(t)) == found_in_input(input),
        input.text_at("type"@) == Some("text"@) ==> found_in_part(input) == found_in_input(input),
{
}

/// An object with neither type nor text says what its content says.
pub proof fn law_content_is_read_through(input: JsonView)
    requires
        input is Object,
        input.text_at("type"@) is None,
        input.text_at("text"@) is None,
    ensures
        input.get("content"@) matches Some(content) ==> found_in_input(input) == found_in_input(
            content,
        ) && responses_input(input) == responses_input(content),
        input.get("content"@) is None ==> responses_input(input) is Err,
{
    lemma_first_at(input->Object_0, "content"@);
}

/// A list says what its items say, one behind the other: its texts are theirs, and its images
/// are theirs, in their order. It is refused if and only if one of them is.
pub proof fn law_list_says_what_its_items_say(items: Seq<JsonView>, more: JsonView)
    ensures
        found_in_input(JsonView::Array(Seq::empty())) == Ok::<Found, Seq<char>>(
            Found { texts: Seq::empty(), images: Seq::empty() },
        ),
        ({
            let head = found_in_input(JsonView::Array(items));
            let last = found_in_input(more);
            let all = found_in_input(JsonView::Array(items.push(more)));
            &&& all is Ok <==> head is Ok && last is Ok
            &&& all is Ok ==> all->Ok_0.texts == head->Ok_0.texts + last->Ok_0.texts
            &&& all is Ok ==> all->Ok_0.images == head->Ok_0.images + last->Ok_0.images
            &&& head is Err ==> all == head
            &&& head is Ok && last is Err ==> all == last
        }),
{
    reveal_with_fuel(found_in_input, 2);
    reveal_with_fuel(found_in_items, 2);
    lemma_items_prefix(items, more, items.len());
    assert(items.push(more)[items.len() as int] == more);
    let none = Seq::<JsonView>::empty();
    assert(found_in_input(JsonView::Array(none)) == found_in_items(none, 0));
    assert(found_in_input(JsonView::Array(items)) == found_in_items(items, items.len()));
    assert(found_in_input(JsonView::Array(items.push(more))) == found_in_items(
        items.push(more),
        items.len() + 1,
    ));
}

/// The same holds of the parts of a chat message, of which each is a text or an object that
/// names its type.
pub proof fn law_parts_say_what_each_says(parts: Seq<JsonView>, more: JsonView)
    ensures
        found_in_parts(Seq::empty()) == Ok::<Found, Seq<char>>(
            Found { texts: Seq::empty(), images: Seq::empty() },
        ),
        found_in_part(more) is Ok <==> more is Str || more is Object,
        more matches JsonView::Str(t) ==> found_in_part(more)->Ok_0.texts == seq![t]
            && found_in_part(more)->Ok_0.images.len() == 0,
        more is Object && more.text_at("type"@) is Some ==> found_in_part(more) == found_in_input(
            more,
        ),
        ({
            let head = found_in_parts(parts);
            let last = found_in_part(more);
            let all = found_in_parts(parts.push(more));
            &&& all is Ok <==> head is Ok && last is Ok
            &&& all is Ok ==> all->Ok_0.texts == head->Ok_0.texts + last->Ok_0.texts
            &&& all is Ok ==> all->Ok_0.images == head->Ok_0.images + last->Ok_0.images
        }),
{
    assert(parts.push(more).drop_last() =~= parts);
}

/// A request is refused as empty if and only if it has no image, and no text that is not
/// blank; else its attachments are the images, and its content the texts.
pub proof fn law_request_holds_what_was_found(input: JsonView)
    requires
        found_in_input(input) is Ok,
    ensures
        ({
            let found = found_in_input(input)->Ok_0;
            let spoken = exists|i: int|
                0 <= i < found.texts.len() && text::trim(#[trigger] found.texts[i]).len() > 0;
            &&& responses_input(input) is Ok <==> found.images.len() > 0 || spoken
            &&& responses_input(input) matches Ok(r) ==> r.1 == found.images && r.0 == content_of(
                found,
            )
            &&& !spoken ==> content_of(found).len() == 0
        }),
{
    let found = found_in_input(input)->Ok_0;
    lemma_content_is_empty(found.texts);
}

proof fn lemma_content_is_empty(texts: Seq<Seq<char>>)
    ensures
        text::clean_texts(texts).len() == 0 <==> forall|i: int|
            0 <= i < texts.len() ==> text::trim(#[trigger] texts[i]).len() == 0,
        text::join(text::clean_texts(texts), "\n\n"@).len() == 0 <==> text::clean_texts(texts).len()
            == 0,
    decreases texts.len(),
{
    reveal_strlit("\n\n");
    if texts.len() > 0 {
        let init = texts.drop_last();
        lemma_content_is_empty(init);
        let head = text::clean_texts(init);
        assert(forall|i: int| 0 <= i < init.len() ==> (#[trigger] init[i]) == texts[i]);
        assert(texts[texts.len() - 1] == texts.last());
        if text::trim(texts.last()).len() > 0 {
            let all = head.push(text::trim(texts.last()));
            assert(text::clean_texts(texts) =~= all);
            assert(all.drop_last() =~= head);
        } else {
            assert(text::clean_texts(texts) =~= head);
            if forall|i: int| 0 <= i < init.len() ==> text::trim(#[trigger] init[i]).len() == 0 {
                assert forall|i: int| 0 <= i < texts.len() implies text::trim(
                    #[trigger] texts[i],
                ).len() == 0 by {
                    if i < init.len() {
                        assert(text::trim(init[i]).len() == 0);
                    }
                }
            }
            if forall|i: int| 0 <= i < texts.len() ==> text::trim(#[trigger] texts[i]).len() == 0 {
                assert forall|i: int| 0 <= i < init.len() implies text::trim(
                    #[trigger] init[i],
                ).len() == 0 by {
                    assert(text::trim(texts[i]).len() == 0);
                }
            }
        }
    }
}

/// A further text stands in the content trimmed, behind a blank line where there is a text
/// before it; a blank one is left out.
pub proof fn law_texts_are_put_together(found: Found, t: Seq<char>)
    ensures
        ({
            let more = Found { texts: found.texts.push(t), images: found.images };
            &&& text::trim(t).len() == 0 ==> content_of(more) == content_of(found)
            &&& text::trim(t).len() > 0 && content_of(found).len() == 0 ==> content_of(more)
                == text::trim(t)
            &&& text::trim(t).len() > 0 && content_of(found).len() > 0 ==> content_of(more)
                == content_of(found) + "\n\n"@ + text::trim(t)
        }),
{
    lemma_content_is_empty(found.texts);
    let head = text::clean_texts(found.texts);
    assert(found.texts.push(t).drop_last() =~= found.texts);
    assert(head.push(text::trim(t)).drop_last() =~= head);
}

/// A chat message that is a text comes to the text as it is. Anything but a text or a list is
/// refused, and so is an input that is neither text, list nor object.
pub proof fn law_other_input_is_refused(value: JsonView)
    ensures
        value matches JsonView::Str(t) ==> chat_message(value) == Ok::<
            (Seq<char>, Seq<PartView>),
            Seq<char>,
        >((t, Seq::empty())),
        !(value is Str || value is Array) ==> chat_message(value) is Err,
        !(value is Str || value is Array || value is Object) ==> responses_input(value) is Err,
        value matches JsonView::Array(parts) ==> (chat_message(value) matches Ok(r) ==> (
        found_in_parts(parts) matches Ok(found) && r.0 == content_of(found) && r.1 == found.images)),
        value matches JsonView::Array(parts) ==> (found_in_parts(parts) matches Ok(found) && (
        found.images.len() > 0 || content_of(found).len() > 0) ==> chat_message(value) is Ok),
{
}

} // verus!
