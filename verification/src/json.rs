//! JSON values as the library reads them.
use vstd::prelude::*;
use crate::text;

verus! {

/// A JSON value. A number is kept as its text; the members of an object are kept
/// in a list, each key once.
#[derive(Debug)]
pub enum Json {
    Null,
    Bool(bool),
    Number(String),
    Str(String),
    Array(Vec<Json>),
    Object(Vec<(String, Json)>),
}

/// A JSON value in the abstract.
#[verifier::ext_equal]
pub enum JsonView {
    Null,
    Bool(bool),
    Number(Seq<char>),
    Str(Seq<char>),
    Array(Seq<JsonView>),
    Object(Seq<(Seq<char>, JsonView)>),
}

/// A JSON value in the abstract.
pub open spec fn json_view(j: Json) -> JsonView
    decreases j,
{
    match j {
        Json::Null => JsonView::Null,
        Json::Bool(b) => JsonView::Bool(b),
        Json::Number(n) => JsonView::Number(n@),
        Json::Str(s) => JsonView::Str(s@),
        Json::Array(items) => JsonView::Array(
            Seq::new(
                items@.len(),
                |i: int|
                    if 0 <= i < items@.len() {
                        json_view(items@[i])
                    } else {
                        JsonView::Null
                    },
            ),
        ),
        Json::Object(members) => JsonView::Object(
            Seq::new(
                members@.len(),
                |i: int|
                    if 0 <= i < members@.len() {
                        (members@[i].0@, json_view(members@[i].1))
                    } else {
                        (Seq::empty(), JsonView::Null)
                    },
            ),
        ),
    }
}

impl View for Json {
    type V = JsonView;

    open spec fn view(&self) -> JsonView {
        json_view(*self)
    }
}

/// The members of an object in the abstract.
pub open spec fn members_view(members: Seq<(String, Json)>) -> Seq<(Seq<char>, JsonView)> {
    members.map_values(|m: (String, Json)| (m.0@, m.1@))
}

/// The value that the first member named `key` holds.
pub open spec fn member(members: Seq<(Seq<char>, JsonView)>, key: Seq<char>) -> Option<JsonView>
    decreases members.len(),
{
    if members.len() == 0 {
        None
    } else if members[0].0 == key {
        Some(members[0].1)
    } else {
        member(members.drop_first(), key)
    }
}

/// The first member with the key is the one that is found.
pub proof fn lemma_member_at(members: Seq<(Seq<char>, JsonView)>, key: Seq<char>, i: int)
    requires
        0 <= i < members.len(),
        members[i].0 == key,
        forall|k: int| 0 <= k < i ==> (#[trigger] members[k]).0 != key,
    ensures
        member(members, key) == Some(members[i].1),
    decreases i,
{
    if i > 0 {
        assert(members[0].0 != key);
        assert forall|k: int| 0 <= k < i - 1 implies (#[trigger] members.drop_first()[k]).0
            != key by {
            assert(members[k + 1].0 != key);
        }
        lemma_member_at(members.drop_first(), key, i - 1);
    }
}

/// A key that no member has is not found.
pub proof fn lemma_member_absent(members: Seq<(Seq<char>, JsonView)>, key: Seq<char>)
    requires
        forall|k: int| 0 <= k < members.len() ==> (#[trigger] members[k]).0 != key,
    ensures
        member(members, key) is None,
    decreases members.len(),
{
    if members.len() > 0 {
        assert(members[0].0 != key);
        assert forall|k: int| 0 <= k < members.len() - 1 implies (
        #[trigger] members.drop_first()[k]).0 != key by {
            assert(members[k + 1].0 != key);
        }
        lemma_member_absent(members.drop_first(), key);
    }
}

/// A member that is added at the end is found where no other has its name.
pub proof fn lemma_member_push(
    members: Seq<(Seq<char>, JsonView)>,
    added: (Seq<char>, JsonView),
    key: Seq<char>,
)
    ensures
        member(members.push(added), key) == if member(members, key) is Some {
            member(members, key)
        } else if added.0 == key {
            Some(added.1)
        } else {
            None
        },
    decreases members.len(),
{
    let all = members.push(added);
    if members.len() == 0 {
        assert(all.drop_first() =~= Seq::<(Seq<char>, JsonView)>::empty());
        reveal_with_fuel(member, 2);
    } else {
        assert(all.drop_first() =~= members.drop_first().push(added));
        assert(all[0] == members[0]);
        lemma_member_push(members.drop_first(), added, key);
    }
}

/// Finds the value that the member named `key` holds.
pub fn find_member<'a>(members: &'a Vec<(String, Json)>, key: &str) -> (r: Option<&'a Json>)
    ensures
        match r {
            Some(v) => member(members_view(members@), key@) == Some(v@),
            None => member(members_view(members@), key@) is None,
        },
        r matches Some(v) ==> exists|i: int|
            0 <= i < members@.len() && (#[trigger] members@[i]).1 == *v,
{
    let ghost all = members_view(members@);
    let mut i: usize = 0;
    while i < members.len()
        invariant
            i <= members@.len(),
            all == members_view(members@),
            forall|k: int| 0 <= k < i ==> (#[trigger] all[k]).0 != key@,
        decreases members@.len() - i,
    {
        if text::same(members[i].0.as_str(), key) {
            proof {
                lemma_member_at(all, key@, i as int);
            }
            return Some(&members[i].1);
        }
        i = i + 1;
    }
    proof {
        lemma_member_absent(all, key@);
    }
    None
}

/// Appends a member.
pub fn put(members: &mut Vec<(String, Json)>, key: &str, value: Json)
    ensures
        members_view(final(members)@) == members_view(old(members)@).push((key@, value@)),
{
    let ghost before = members_view(members@);
    members.push((key.to_owned(), value));
    assert(members_view(members@) =~= before.push((key@, value@)));
}

/// No members.
pub fn no_members() -> (r: Vec<(String, Json)>)
    ensures
        members_view(r@) == Seq::<(Seq<char>, JsonView)>::empty(),
{
    let none: Vec<(String, Json)> = Vec::new();
    assert(members_view(none@) =~= Seq::<(Seq<char>, JsonView)>::empty());
    none
}

/// The object with the members.
pub fn object(members: Vec<(String, Json)>) -> (r: Json)
    ensures
        r@ == JsonView::Object(members_view(members@)),
{
    let out = Json::Object(members);
    assert(out@->Object_0 =~= members_view(members@));
    out
}

/// A list with one item.
pub fn list_of_one(item: Json) -> (r: Json)
    ensures
        r@ == JsonView::Array(seq![item@]),
{
    let mut items: Vec<Json> = Vec::new();
    items.push(item);
    let out = Json::Array(items);
    assert(out@->Array_0 =~= seq![item@]);
    out
}

/// A list without items.
pub fn empty_list() -> (r: Json)
    ensures
        r@ == JsonView::Array(Seq::<JsonView>::empty()),
{
    let out = Json::Array(Vec::new());
    assert(out@->Array_0 =~= Seq::<JsonView>::empty());
    out
}

/// A string value, or null where there is none.
pub fn optional_string(s: &Option<String>) -> (r: Json)
    ensures
        r@ == match *s {
            Some(t) => JsonView::Str(t@),
            None => JsonView::Null,
        },
{
    match s {
        Some(t) => Json::Str(t.clone()),
        None => Json::Null,
    }
}

/// A string value.
pub fn string(s: &str) -> (r: Json)
    ensures
        r@ == JsonView::Str(s@),
{
    Json::Str(s.to_owned())
}

impl JsonView {
    /// The member named `key` of an object.
    pub open spec fn get(self, key: Seq<char>) -> Option<JsonView> {
        match self {
            JsonView::Object(members) => member(members, key),
            _ => None,
        }
    }

    /// The text of a string value.
    pub open spec fn text(self) -> Option<Seq<char>> {
        match self {
            JsonView::Str(s) => Some(s),
            _ => None,
        }
    }

    /// The text of the member named `key`, where it is a string.
    pub open spec fn text_at(self, key: Seq<char>) -> Option<Seq<char>> {
        match self.get(key) {
            Some(v) => v.text(),
            None => None,
        }
    }

    /// Whether the member named `key` is the boolean true.
    pub open spec fn flag_at(self, key: Seq<char>) -> bool {
        self.get(key) == Some(JsonView::Bool(true))
    }

    /// The value of a number that is a whole one, not negative, and of 64 bits at the most.
    pub open spec fn unsigned(self) -> Option<u64> {
        match self {
            JsonView::Number(s) => if text::all_digits(s) && text::digits_value(s) <= u64::MAX {
                Some(text::digits_value(s) as u64)
            } else {
                None
            },
            _ => None,
        }
    }

    /// The text of the member named `key`, trimmed, where it is a string that is
    /// not blank.
    pub open spec fn non_blank_at(self, key: Seq<char>) -> Option<Seq<char>> {
        match self.text_at(key) {
            Some(t) => text::non_blank(t),
            None => None,
        }
    }
}

impl Json {
    /// The member named `key` of an object.
    pub fn get(&self, key: &str) -> (r: Option<&Json>)
        ensures
            match r {
                Some(v) => self@.get(key@) == Some(v@),
                None => self@.get(key@) is None,
            },
            r matches Some(v) ==> decreases_to!(*self => *v),
    {
        match self {
            Json::Object(members) => {
                assert(self@->Object_0 =~= members_view(members@));
                let found = find_member(members, key);
                proof {
                    if let Some(v) = found {
                        let i = choose|i: int|
                            0 <= i < members@.len() && (#[trigger] members@[i]).1 == *v;
                        assert(decreases_to!(*self => members@));
                        assert(decreases_to!(members@ => members@[i]));
                        assert(decreases_to!(members@[i] => members@[i].1));
                    }
                }
                found
            },
            _ => None,
        }
    }

    /// The text of a string value.
    pub fn as_str(&self) -> (r: Option<&str>)
        ensures
            r.deep_view() == self@.text(),
    {
        match self {
            Json::Str(s) => Some(s.as_str()),
            _ => None,
        }
    }

    /// The text of the member named `key`, where it is a string.
    pub fn text_at(&self, key: &str) -> (r: Option<&str>)
        ensures
            r.deep_view() == self@.text_at(key@),
    {
        match self.get(key) {
            Some(v) => v.as_str(),
            None => None,
        }
    }

    /// Whether the member named `key` is the boolean true.
    pub fn flag_at(&self, key: &str) -> (r: bool)
        ensures
            r == self@.flag_at(key@),
    {
        match self.get(key) {
            Some(Json::Bool(b)) => *b,
            _ => false,
        }
    }

    /// The value of a number that is a whole one, not negative, and of 64 bits at the most.
    pub fn as_u64(&self) -> (r: Option<u64>)
        ensures
            r == self@.unsigned(),
    {
        match self {
            Json::Number(s) => text::read_digits(s.as_str()),
            _ => None,
        }
    }

    /// The text of the member named `key`, trimmed, where it is a string that is
    /// not blank.
    pub fn non_blank_at(&self, key: &str) -> (r: Option<String>)
        ensures
            r.deep_view() == self@.non_blank_at(key@),
    {
        match self.text_at(key) {
            Some(t) => text::non_blank_text(t),
            None => None,
        }
    }
}

impl Json {
    /// A value of its own that holds the same.
    pub fn duplicate(&self) -> (r: Json)
        ensures
            r@ == self@,
        decreases self,
    {
        match self {
            Json::Null => Json::Null,
            Json::Bool(b) => Json::Bool(*b),
            Json::Number(n) => Json::Number(n.clone()),
            Json::Str(s) => Json::Str(s.clone()),
            Json::Array(items) => {
                let mut copies: Vec<Json> = Vec::new();
                let mut i: usize = 0;
                while i < items.len()
                    invariant
                        i <= items@.len(),
                        copies@.len() == i,
                        *self == Json::Array(*items),
                        forall|k: int| 0 <= k < i ==> (#[trigger] copies@[k])@ == items@[k]@,
                    decreases items@.len() - i,
                {
                    assert(decreases_to!(*self => self->Array_0));
                    assert(decreases_to!(*items => items@));
                    assert(decreases_to!(items@ => items@[i as int]));
                    let copied = items[i].duplicate();
                    copies.push(copied);
                    i = i + 1;
                }
                let copy = Json::Array(copies);
                assert(copy@->Array_0 =~= self@->Array_0);
                copy
            },
            Json::Object(members) => {
                let mut copies: Vec<(String, Json)> = Vec::new();
                let mut i: usize = 0;
                while i < members.len()
                    invariant
                        i <= members@.len(),
                        copies@.len() == i,
                        *self == Json::Object(*members),
                        forall|k: int|
                            0 <= k < i ==> (#[trigger] copies@[k]).0@ == members@[k].0@
                                && copies@[k].1@ == members@[k].1@,
                    decreases members@.len() - i,
                {
                    assert(decreases_to!(*self => self->Object_0));
                    assert(decreases_to!(*members => members@));
                    assert(decreases_to!(members@ => members@[i as int]));
                    assert(decreases_to!(members@[i as int] => members@[i as int].1));
                    let copied = members[i].1.duplicate();
                    copies.push((members[i].0.clone(), copied));
                    i = i + 1;
                }
                let copy = Json::Object(copies);
                assert(copy@->Object_0 =~= self@->Object_0);
                copy
            },
        }
    }
}

// ---------------------------------------------------------------------------
// Laws
// ---------------------------------------------------------------------------

/// A member is found by its name, and a value that is put behind the others is found where no
/// other has its name; what is no object has no members.
pub proof fn law_members_are_found_by_name(
    members: Seq<(Seq<char>, JsonView)>,
    key: Seq<char>,
    value: JsonView,
)
    requires
        forall|k: int| 0 <= k < members.len() ==> (#[trigger] members[k]).0 != key,
    ensures
        JsonView::Object(members).get(key) is None,
        JsonView::Object(members.push((key, value))).get(key) == Some(value),
        JsonView::Null.get(key) is None,
        JsonView::Array(seq![value]).get(key) is None,
        JsonView::Str(key).get(key) is None,
{
    lemma_member_absent(members, key);
    lemma_member_push(members, (key, value), key);
}

/// A text is read under a key where a text stands there, a flag is on only where it is true, and
/// a text that is blank counts as none.
pub proof fn law_values_are_read_by_kind(
    members: Seq<(Seq<char>, JsonView)>,
    key: Seq<char>,
    s: Seq<char>,
)
    requires
        forall|k: int| 0 <= k < members.len() ==> (#[trigger] members[k]).0 != key,
    ensures
        JsonView::Object(members.push((key, JsonView::Str(s)))).text_at(key) == Some(s),
        JsonView::Object(members.push((key, JsonView::Bool(true)))).flag_at(key),
        !JsonView::Object(members.push((key, JsonView::Bool(false)))).flag_at(key),
        !JsonView::Object(members.push((key, JsonView::Str(s)))).flag_at(key),
        JsonView::Object(members.push((key, JsonView::Bool(true)))).text_at(key) is None,
        !JsonView::Object(members).flag_at(key),
        text::trim(s).len() > 0 ==> JsonView::Object(
            members.push((key, JsonView::Str(s))),
        ).non_blank_at(key) == Some(text::trim(s)),
        text::trim(s).len() == 0 ==> JsonView::Object(
            members.push((key, JsonView::Str(s))),
        ).non_blank_at(key) is None,
{
    lemma_member_absent(members, key);
    lemma_member_push(members, (key, JsonView::Str(s)), key);
    lemma_member_push(members, (key, JsonView::Bool(true)), key);
    lemma_member_push(members, (key, JsonView::Bool(false)), key);
}

/// A number is read as it was written, where it fits; what is no number, or is negative, is not.
pub proof fn law_numbers_are_read_back(n: u64, s: Seq<char>)
    ensures
        JsonView::Number(text::decimal(n as nat)).unsigned() == Some(n),
        JsonView::Number(seq!['-'] + text::decimal(n as nat)).unsigned() is None,
        JsonView::Str(s).unsigned() is None,
        JsonView::Null.unsigned() is None,
{
    text::law_decimal_is_read_back(n as nat);
    let minus = seq!['-'] + text::decimal(n as nat);
    assert(minus[0] == '-');
    assert(!text::all_digits(minus));
}

} // verus!
