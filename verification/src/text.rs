//! Text as a sequence of characters: the vocabulary that the other modules'
//! contracts are written in, and the executable functions that meet it.
use vstd::prelude::*;
use vstd::string::*;
use vstd::utf8::*;

verus! {

broadcast use vstd::string::group_string_axioms;

/// `String::push` appends one character to the end of the string.
pub assume_specification[ String::push ](s: &mut String, c: char)
    ensures
        final(s)@ == old(s)@.push(c),
;

// ---------------------------------------------------------------------------
// Characters
// ---------------------------------------------------------------------------

/// The characters with the Unicode `White_Space` property.
pub open spec fn is_white_space(c: char) -> bool {
    let u = c as u32;
    ||| 0x9 <= u <= 0xD
    ||| u == 0x20
    ||| u == 0x85
    ||| u == 0xA0
    ||| u == 0x1680
    ||| 0x2000 <= u <= 0x200A
    ||| u == 0x2028
    ||| u == 0x2029
    ||| u == 0x202F
    ||| u == 0x205F
    ||| u == 0x3000
}

/// Whether `c` is white space.
pub fn char_is_white_space(c: char) -> (r: bool)
    ensures
        r == is_white_space(c),
{
    let u: u32 = c as u32;
    (0x9 <= u && u <= 0xD) || u == 0x20 || u == 0x85 || u == 0xA0 || u == 0x1680 || (0x2000 <= u
        && u <= 0x200A) || u == 0x2028 || u == 0x2029 || u == 0x202F || u == 0x205F || u == 0x3000
}

/// `c` with an ASCII capital letter replaced by its small form.
pub open spec fn ascii_lower_char(c: char) -> char {
    if 'A' <= c <= 'Z' {
        (c as u32 + 32) as char
    } else {
        c
    }
}

/// The small form of an ASCII capital letter; any other character unchanged.
pub fn char_to_ascii_lower(c: char) -> (r: char)
    ensures
        r == ascii_lower_char(c),
{
    if 'A' <= c && c <= 'Z' {
        let b: u8 = c as u8;
        assert(b == c as u32) by {
            let u: u32 = c as u32;
            assert(65 <= u <= 90);
            assert(u as u8 == u) by (bit_vector)
                requires
                    65 <= u <= 90,
            ;
        }
        let lowered: u8 = b + 32;
        lowered as char
    } else {
        c
    }
}

/// How many bytes `c` takes in UTF-8.
pub open spec fn char_width(c: char) -> nat {
    let u = c as u32;
    if u <= 0x7F {
        1
    } else if u <= 0x7FF {
        2
    } else if u <= 0xFFFF {
        3
    } else {
        4
    }
}

/// The width of `c` in UTF-8.
pub fn char_utf8_width(c: char) -> (r: usize)
    ensures
        r == char_width(c),
{
    let u: u32 = c as u32;
    if u <= 0x7F {
        1
    } else if u <= 0x7FF {
        2
    } else if u <= 0xFFFF {
        3
    } else {
        4
    }
}

// ---------------------------------------------------------------------------
// Byte lengths
// ---------------------------------------------------------------------------

/// How many bytes `s` takes in UTF-8.
pub open spec fn byte_len(s: Seq<char>) -> nat
    decreases s.len(),
{
    if s.len() == 0 {
        0
    } else {
        byte_len(s.drop_last()) + char_width(s.last())
    }
}

/// Byte lengths add up under concatenation.
pub proof fn lemma_byte_len_concat(a: Seq<char>, b: Seq<char>)
    ensures
        byte_len(a + b) == byte_len(a) + byte_len(b),
    decreases b.len(),
{
    if b.len() == 0 {
        assert(a + b =~= a);
    } else {
        assert((a + b).drop_last() =~= a + b.drop_last());
        lemma_byte_len_concat(a, b.drop_last());
    }
}

/// A text is at least as many bytes long as it has characters.
pub proof fn lemma_byte_len_at_least_chars(s: Seq<char>)
    ensures
        s.len() <= byte_len(s) <= 4 * s.len(),
    decreases s.len(),
{
    if s.len() > 0 {
        lemma_byte_len_at_least_chars(s.drop_last());
    }
}

/// A prefix is at most as many bytes long as the whole.
pub proof fn lemma_byte_len_prefix(s: Seq<char>, n: int)
    requires
        0 <= n <= s.len(),
    ensures
        byte_len(s.take(n)) <= byte_len(s),
{
    assert(s =~= s.take(n) + s.skip(n));
    lemma_byte_len_concat(s.take(n), s.skip(n));
}

proof fn lemma_encode_scalar_len(c: char)
    ensures
        encode_scalar(c as u32).len() == char_width(c),
{
}

/// `byte_len` is the length of the UTF-8 encoding.
pub proof fn lemma_byte_len_is_encoded_len(s: Seq<char>)
    ensures
        byte_len(s) == encode_utf8(s).len(),
    decreases s.len(),
{
    if s.len() > 0 {
        let first = seq![s[0]];
        lemma_byte_len_is_encoded_len(s.drop_first());
        lemma_encode_scalar_len(s[0]);
        assert(first + s.drop_first() =~= s);
        lemma_byte_len_concat(first, s.drop_first());
        assert(first.drop_last() =~= Seq::<char>::empty());
        assert(byte_len(first) == byte_len(first.drop_last()) + char_width(s[0]));
        assert(byte_len(Seq::<char>::empty()) == 0);
    }
}

/// The number of bytes of `s`.
pub fn byte_length(s: &str) -> (r: usize)
    ensures
        r == byte_len(s@),
{
    proof {
        lemma_byte_len_is_encoded_len(s@);
    }
    s.as_bytes().len()
}

// ---------------------------------------------------------------------------
// Between strings and characters
// ---------------------------------------------------------------------------

/// The characters of `s`.
pub fn chars_of(s: &str) -> (r: Vec<char>)
    ensures
        r@ == s@,
{
    let mut out: Vec<char> = Vec::new();
    for c in it: s.chars()
        invariant
            it.seq() == s@,
            out@ == s@.take(it.index()),
    {
        proof {
            assert(s@.take(it.index() + 1) =~= s@.take(it.index()).push(s@[it.index()]));
        }
        out.push(c);
    }
    assert(s@.take(s@.len() as int) =~= s@);
    out
}

/// The text made of `chars[from..to]`.
pub fn string_of(chars: &[char], from: usize, to: usize) -> (r: String)
    requires
        from <= to <= chars@.len(),
    ensures
        r@ == chars@.subrange(from as int, to as int),
{
    let mut out = String::new();
    let mut i: usize = from;
    assert(chars@.subrange(from as int, from as int) =~= Seq::<char>::empty());
    while i < to
        invariant
            from <= i <= to <= chars@.len(),
            out@ == chars@.subrange(from as int, i as int),
        decreases to - i,
    {
        out.push(chars[i]);
        assert(chars@.subrange(from as int, i + 1) =~= chars@.subrange(from as int, i as int).push(
            chars@[i as int],
        ));
        i = i + 1;
    }
    out
}

/// Whether two texts are the same.
pub fn same(a: &str, b: &str) -> (r: bool)
    ensures
        r == (a@ == b@),
{
    let x: String = a.to_owned();
    let y: String = b.to_owned();
    x == y
}

// ---------------------------------------------------------------------------
// Prefixes and searching
// ---------------------------------------------------------------------------

/// Whether `needle` stands in `s` at position `at`.
pub open spec fn occurs_at(s: Seq<char>, needle: Seq<char>, at: int) -> bool {
    &&& 0 <= at
    &&& at + needle.len() <= s.len()
    &&& s.subrange(at, at + needle.len()) == needle
}

/// Whether `needle` stands anywhere in `s`.
pub open spec fn contains(s: Seq<char>, needle: Seq<char>) -> bool {
    exists|at: int| #[trigger] occurs_at(s, needle, at)
}

/// Whether `s` begins with `prefix`.
pub open spec fn starts_with(s: Seq<char>, prefix: Seq<char>) -> bool {
    occurs_at(s, prefix, 0)
}

/// Whether `s` ends with `suffix`.
pub open spec fn ends_with(s: Seq<char>, suffix: Seq<char>) -> bool {
    occurs_at(s, suffix, s.len() - suffix.len())
}

/// A text begins with the first of the parts that it is made of.
pub proof fn lemma_starts_with_concat(prefix: Seq<char>, rest: Seq<char>)
    ensures
        starts_with(prefix + rest, prefix),
{
    assert((prefix + rest).subrange(0, prefix.len() as int) =~= prefix);
}

/// A text contains each of the parts that it is made of.
pub proof fn lemma_contains_middle(before: Seq<char>, needle: Seq<char>, after: Seq<char>)
    ensures
        contains(before + needle + after, needle),
{
    let s = before + needle + after;
    assert(s.subrange(before.len() as int, (before.len() + needle.len()) as int) =~= needle);
    assert(occurs_at(s, needle, before.len() as int));
}

/// Whether the characters of `needle` stand in `s` at position `at`.
pub fn chars_occur_at(s: &[char], needle: &[char], at: usize) -> (r: bool)
    ensures
        r == occurs_at(s@, needle@, at as int),
{
    let s_len: usize = s.len();
    let n_len: usize = needle.len();
    if n_len > s_len || at > s_len - n_len {
        return false;
    }
    let mut i: usize = 0;
    while i < n_len
        invariant
            i <= n_len,
            n_len == needle@.len(),
            s_len == s@.len(),
            at + n_len <= s_len,
            s@.subrange(at as int, at + i) == needle@.subrange(0, i as int),
        decreases n_len - i,
    {
        let ghost window = s@.subrange(at as int, at + n_len);
        if s[at + i] != needle[i] {
            assert(window[i as int] != needle@[i as int]);
            return false;
        }
        assert(s@.subrange(at as int, at + i + 1) =~= s@.subrange(at as int, at + i).push(
            s@[at + i],
        ));
        assert(needle@.subrange(0, i + 1) =~= needle@.subrange(0, i as int).push(
            needle@[i as int],
        ));
        i = i + 1;
    }
    assert(needle@.subrange(0, n_len as int) =~= needle@);
    true
}

/// Where `needle` stands first in `s`.
#[verifier::opaque]
pub open spec fn first_occurrence(s: Seq<char>, needle: Seq<char>) -> Option<int> {
    if contains(s, needle) {
        Some(
            choose|at: int|
                #[trigger] occurs_at(s, needle, at) && forall|k: int|
                    0 <= k < at ==> !#[trigger] occurs_at(s, needle, k),
        )
    } else {
        None
    }
}

/// Finds the first place at which `needle` stands in `s`.
pub fn find_chars(s: &[char], needle: &[char]) -> (r: Option<usize>)
    ensures
        match r {
            Some(at) => first_occurrence(s@, needle@) == Some(at as int) && occurs_at(
                s@,
                needle@,
                at as int,
            ),
            None => first_occurrence(s@, needle@) is None,
        },
{
    proof {
        reveal(first_occurrence);
    }
    let s_len: usize = s.len();
    let n_len: usize = needle.len();
    if n_len > s_len {
        return None;
    }
    let last: usize = s_len - n_len;
    let mut i: usize = 0;
    loop
        invariant
            last == s@.len() - needle@.len(),
            i <= last,
            forall|k: int| 0 <= k < i ==> !#[trigger] occurs_at(s@, needle@, k),
        decreases last - i,
    {
        if chars_occur_at(s, needle, i) {
            proof {
                reveal(first_occurrence);
                let found = i as int;
                assert(occurs_at(s@, needle@, found));
                let chosen = first_occurrence(s@, needle@)->0;
                assert(occurs_at(s@, needle@, chosen) && forall|k: int|
                    0 <= k < chosen ==> !#[trigger] occurs_at(s@, needle@, k));
                assert(chosen == found);
            }
            return Some(i);
        }
        if i == last {
            proof {
                reveal(first_occurrence);
            }
            return None;
        }
        i = i + 1;
    }
}

/// Whether `needle` stands anywhere in `s`.
pub fn has(s: &str, needle: &str) -> (r: bool)
    ensures
        r == contains(s@, needle@),
{
    let hay: Vec<char> = chars_of(s);
    let wanted: Vec<char> = chars_of(needle);
    proof {
        reveal(first_occurrence);
    }
    find_chars(&hay, &wanted).is_some()
}

/// Whether `s` begins with `prefix`.
pub fn begins_with(s: &str, prefix: &str) -> (r: bool)
    ensures
        r == starts_with(s@, prefix@),
{
    let hay: Vec<char> = chars_of(s);
    let wanted: Vec<char> = chars_of(prefix);
    chars_occur_at(&hay, &wanted, 0)
}

/// Whether `s` ends with `suffix`.
pub fn finishes_with(s: &str, suffix: &str) -> (r: bool)
    ensures
        r == ends_with(s@, suffix@),
{
    let hay: Vec<char> = chars_of(s);
    let wanted: Vec<char> = chars_of(suffix);
    if wanted.len() > hay.len() {
        return false;
    }
    let at: usize = hay.len() - wanted.len();
    chars_occur_at(&hay, &wanted, at)
}

/// What follows `prefix` in `s`, where `s` begins with it.
pub fn without_prefix(s: &str, prefix: &str) -> (r: Option<String>)
    ensures
        match r {
            Some(rest) => starts_with(s@, prefix@) && rest@ == s@.skip(prefix@.len() as int),
            None => !starts_with(s@, prefix@),
        },
{
    let hay: Vec<char> = chars_of(s);
    let wanted: Vec<char> = chars_of(prefix);
    if chars_occur_at(&hay, &wanted, 0) {
        let rest: String = string_of(&hay, wanted.len(), hay.len());
        assert(rest@ =~= s@.skip(prefix@.len() as int));
        Some(rest)
    } else {
        None
    }
}

/// What follows the first place at which `mark` stands in `s`.
pub open spec fn after_first(s: Seq<char>, mark: Seq<char>) -> Option<Seq<char>> {
    match first_occurrence(s, mark) {
        Some(at) => Some(s.skip(at + mark.len())),
        None => None,
    }
}

/// What follows the first place at which `mark` stands in `s`.
pub fn text_after(s: &str, mark: &str) -> (r: Option<String>)
    ensures
        r.deep_view() == after_first(s@, mark@),
{
    let hay: Vec<char> = chars_of(s);
    let wanted: Vec<char> = chars_of(mark);
    let total: usize = hay.len();
    match find_chars(&hay, &wanted) {
        Some(at) => {
            assert(at + wanted@.len() <= total);
            let from: usize = at + wanted.len();
            let rest: String = string_of(&hay, from, total);
            assert(rest@ =~= s@.skip(from as int));
            Some(rest)
        },
        None => None,
    }
}

/// A mark that stands in none of the places before the end of `before` stands first there.
pub proof fn lemma_after_first(before: Seq<char>, mark: Seq<char>, after: Seq<char>)
    requires
        forall|at: int| 0 <= at < before.len() ==> !#[trigger] occurs_at(before + mark, mark, at),
    ensures
        after_first(before + mark + after, mark) == Some(after),
{
    let all = before + mark + after;
    let n = before.len() as int;
    assert(all.subrange(n, n + mark.len()) =~= mark);
    assert(occurs_at(all, mark, n));
    assert forall|at: int| 0 <= at < n implies !#[trigger] occurs_at(all, mark, at) by {
        if occurs_at(all, mark, at) {
            assert((before + mark).subrange(at, at + mark.len()) =~= all.subrange(
                at,
                at + mark.len(),
            ));
            assert(occurs_at(before + mark, mark, at));
        }
    }
    reveal(first_occurrence);
    let at = first_occurrence(all, mark)->0;
    assert(occurs_at(all, mark, at) && forall|k: int|
        0 <= k < at ==> !#[trigger] occurs_at(all, mark, k));
    assert(at == n);
    assert(all.skip(n + mark.len()) =~= after);
}

// ---------------------------------------------------------------------------
// Trimming
// ---------------------------------------------------------------------------

/// `s` without the white space at its start.
pub open spec fn trim_start(s: Seq<char>) -> Seq<char>
    decreases s.len(),
{
    if s.len() > 0 && is_white_space(s[0]) {
        trim_start(s.drop_first())
    } else {
        s
    }
}

/// `s` without the white space at its end.
pub open spec fn trim_end(s: Seq<char>) -> Seq<char>
    decreases s.len(),
{
    if s.len() > 0 && is_white_space(s.last()) {
        trim_end(s.drop_last())
    } else {
        s
    }
}

/// `s` without the white space at its two ends.
pub open spec fn trim(s: Seq<char>) -> Seq<char> {
    trim_end(trim_start(s))
}

/// The text in `chars[from..to]` without white space at its start begins at the
/// position returned.
fn skip_white_space(chars: &[char], from: usize, to: usize) -> (r: usize)
    requires
        from <= to <= chars@.len(),
    ensures
        from <= r <= to,
        trim_start(chars@.subrange(from as int, to as int)) == chars@.subrange(
            r as int,
            to as int,
        ),
        r < to ==> !is_white_space(chars@[r as int]),
{
    let mut i: usize = from;
    while i < to && char_is_white_space(chars[i])
        invariant
            from <= i <= to <= chars@.len(),
            trim_start(chars@.subrange(from as int, to as int)) == trim_start(
                chars@.subrange(i as int, to as int),
            ),
        decreases to - i,
    {
        assert(chars@.subrange(i as int, to as int).drop_first() =~= chars@.subrange(
            i + 1,
            to as int,
        ));
        i = i + 1;
    }
    i
}

/// The text in `chars[from..to]` without white space at its end stops at the
/// position returned.
fn back_over_white_space(chars: &[char], from: usize, to: usize) -> (r: usize)
    requires
        from <= to <= chars@.len(),
    ensures
        from <= r <= to,
        trim_end(chars@.subrange(from as int, to as int)) == chars@.subrange(
            from as int,
            r as int,
        ),
{
    let mut i: usize = to;
    while i > from && char_is_white_space(chars[i - 1])
        invariant
            from <= i <= to <= chars@.len(),
            trim_end(chars@.subrange(from as int, to as int)) == trim_end(
                chars@.subrange(from as int, i as int),
            ),
        decreases i,
    {
        assert(chars@.subrange(from as int, i as int).drop_last() =~= chars@.subrange(
            from as int,
            i - 1,
        ));
        i = i - 1;
    }
    i
}

/// `s` without the white space at its two ends.
pub fn trimmed(s: &str) -> (r: String)
    ensures
        r@ == trim(s@),
{
    let chars: Vec<char> = chars_of(s);
    let len: usize = chars.len();
    assert(chars@.subrange(0, len as int) =~= s@);
    let from: usize = skip_white_space(&chars, 0, len);
    let to: usize = back_over_white_space(&chars, from, len);
    string_of(&chars, from, to)
}

/// `s` without the white space at its start.
pub fn trimmed_start(s: &str) -> (r: String)
    ensures
        r@ == trim_start(s@),
{
    let chars: Vec<char> = chars_of(s);
    let len: usize = chars.len();
    assert(chars@.subrange(0, len as int) =~= s@);
    let from: usize = skip_white_space(&chars, 0, len);
    string_of(&chars, from, len)
}

/// `s` without the white space at its end.
pub fn trimmed_end(s: &str) -> (r: String)
    ensures
        r@ == trim_end(s@),
{
    let chars: Vec<char> = chars_of(s);
    let len: usize = chars.len();
    assert(chars@.subrange(0, len as int) =~= s@);
    let to: usize = back_over_white_space(&chars, 0, len);
    string_of(&chars, 0, to)
}

/// The trimmed text, where anything is left of it.
pub open spec fn non_blank(s: Seq<char>) -> Option<Seq<char>> {
    if trim(s).len() == 0 {
        None
    } else {
        Some(trim(s))
    }
}

/// The trimmed text, where anything is left of it.
pub fn non_blank_text(s: &str) -> (r: Option<String>)
    ensures
        r.deep_view() == non_blank(s@),
{
    let t: String = trimmed(s);
    if t.as_str().is_empty() {
        None
    } else {
        Some(t)
    }
}

/// `s` without the characters `c` at its end.
pub open spec fn trim_end_char(s: Seq<char>, c: char) -> Seq<char>
    decreases s.len(),
{
    if s.len() > 0 && s.last() == c {
        trim_end_char(s.drop_last(), c)
    } else {
        s
    }
}

/// `s` without the characters `c` at its end.
pub fn without_trailing(s: &str, c: char) -> (r: String)
    ensures
        r@ == trim_end_char(s@, c),
{
    let chars: Vec<char> = chars_of(s);
    let mut i: usize = chars.len();
    assert(s@.take(i as int) =~= s@);
    while i > 0 && chars[i - 1] == c
        invariant
            i <= chars@.len(),
            chars@ == s@,
            trim_end_char(s@, c) == trim_end_char(s@.take(i as int), c),
        decreases i,
    {
        assert(s@.take(i as int).drop_last() =~= s@.take(i - 1));
        i = i - 1;
    }
    assert(chars@.subrange(0, i as int) =~= s@.take(i as int));
    string_of(&chars, 0, i)
}

/// `s` without the characters `c` at its start.
pub open spec fn trim_start_char(s: Seq<char>, c: char) -> Seq<char>
    decreases s.len(),
{
    if s.len() > 0 && s[0] == c {
        trim_start_char(s.drop_first(), c)
    } else {
        s
    }
}

/// `s` without the characters `c` at its start.
pub fn without_leading(s: &str, c: char) -> (r: String)
    ensures
        r@ == trim_start_char(s@, c),
{
    let chars: Vec<char> = chars_of(s);
    let mut i: usize = 0;
    assert(s@.skip(0) =~= s@);
    while i < chars.len() && chars[i] == c
        invariant
            i <= chars@.len(),
            chars@ == s@,
            trim_start_char(s@, c) == trim_start_char(s@.skip(i as int), c),
        decreases chars@.len() - i,
    {
        assert(s@.skip(i as int).drop_first() =~= s@.skip(i + 1));
        i = i + 1;
    }
    assert(chars@.subrange(i as int, s@.len() as int) =~= s@.skip(i as int));
    string_of(&chars, i, chars.len())
}

/// Trimming the start leaves no white space there.
proof fn lemma_trim_start_first(s: Seq<char>)
    ensures
        trim_start(s).len() > 0 ==> !is_white_space(trim_start(s)[0]),
        trim_start(s).len() <= s.len(),
    decreases s.len(),
{
    if s.len() > 0 && is_white_space(s[0]) {
        lemma_trim_start_first(s.drop_first());
    }
}

proof fn lemma_trim_end_keeps_first(s: Seq<char>)
    ensures
        trim_end(s).len() <= s.len(),
        trim_end(s).len() > 0 ==> trim_end(s)[0] == s[0],
        trim_end(s).len() > 0 ==> !is_white_space(trim_end(s).last()),
    decreases s.len(),
{
    if s.len() > 0 && is_white_space(s.last()) {
        lemma_trim_end_keeps_first(s.drop_last());
    }
}

/// A trimmed text begins and ends with a character that is not white space.
pub proof fn lemma_trim_ends(s: Seq<char>)
    ensures
        trim(s).len() <= s.len(),
        trim(s).len() > 0 ==> !is_white_space(trim(s)[0]) && !is_white_space(trim(s).last()),
{
    lemma_trim_start_first(s);
    lemma_trim_end_keeps_first(trim_start(s));
}

/// Trimming twice is trimming once.
pub proof fn lemma_trim_idempotent(s: Seq<char>)
    ensures
        trim(trim(s)) == trim(s),
{
    lemma_trim_ends(s);
}

/// White space at the start makes no difference to what is left after trimming.
pub proof fn lemma_trim_after_trim_start(s: Seq<char>)
    ensures
        trim(trim_start(s)) == trim(s),
{
    lemma_trim_start_first(s);
}

proof fn lemma_trim_start_of_blank(s: Seq<char>)
    ensures
        trim_start(s).len() == 0 <==> forall|i: int|
            0 <= i < s.len() ==> is_white_space(#[trigger] s[i]),
    decreases s.len(),
{
    if s.len() > 0 && is_white_space(s[0]) {
        let rest = s.drop_first();
        lemma_trim_start_of_blank(rest);
        if trim_start(rest).len() == 0 {
            assert forall|i: int| 0 <= i < s.len() implies is_white_space(#[trigger] s[i]) by {
                if i > 0 {
                    assert(is_white_space(rest[i - 1]));
                }
            }
        } else {
            let i = choose|i: int| 0 <= i < rest.len() && !is_white_space(#[trigger] rest[i]);
            assert(s[i + 1] == rest[i]);
        }
    } else if s.len() > 0 {
        assert(!is_white_space(s[0]));
    }
}

proof fn lemma_trim_end_keeps_text(s: Seq<char>)
    requires
        s.len() > 0,
        !is_white_space(s[0]),
    ensures
        trim_end(s).len() > 0,
    decreases s.len(),
{
    if is_white_space(s.last()) {
        lemma_trim_end_keeps_text(s.drop_last());
    }
}

/// A text that ends with one that is not blank is not blank.
pub proof fn lemma_trim_of_tail(s: Seq<char>, tail: Seq<char>)
    requires
        ends_with(s, tail),
        trim(tail).len() > 0,
    ensures
        trim(s).len() > 0,
{
    lemma_trim_end_keeps_first(trim_start(tail));
    lemma_trim_start_of_blank(tail);
    let i = choose|i: int| 0 <= i < tail.len() && !is_white_space(#[trigger] tail[i]);
    let at = s.len() - tail.len();
    assert(s.subrange(at, at + tail.len())[i] == s[at + i]);
    lemma_trim_start_of_blank(s);
    lemma_trim_start_first(s);
    lemma_trim_end_keeps_text(trim_start(s));
}

// ---------------------------------------------------------------------------
// ASCII case
// ---------------------------------------------------------------------------

/// `s` with its ASCII capital letters replaced by their small forms.
pub open spec fn ascii_lower(s: Seq<char>) -> Seq<char> {
    s.map_values(|c: char| ascii_lower_char(c))
}

/// `s` with its ASCII capital letters replaced by their small forms.
pub fn to_ascii_lower(s: &str) -> (r: String)
    ensures
        r@ == ascii_lower(s@),
{
    let chars: Vec<char> = chars_of(s);
    let mut out = String::new();
    let mut i: usize = 0;
    while i < chars.len()
        invariant
            i <= chars@.len(),
            chars@ == s@,
            out@ == ascii_lower(s@).take(i as int),
        decreases chars@.len() - i,
    {
        out.push(char_to_ascii_lower(chars[i]));
        assert(ascii_lower(s@).take(i + 1) =~= ascii_lower(s@).take(i as int).push(
            ascii_lower(s@)[i as int],
        ));
        i = i + 1;
    }
    assert(ascii_lower(s@).take(i as int) =~= ascii_lower(s@));
    out
}

/// `c` with an ASCII small letter made a capital letter.
pub open spec fn ascii_upper_char(c: char) -> char {
    if 'a' <= c <= 'z' {
        (c as int - 32) as char
    } else {
        c
    }
}

/// `s` with every ASCII small letter made a capital letter.
pub open spec fn ascii_upper(s: Seq<char>) -> Seq<char> {
    s.map_values(|c: char| ascii_upper_char(c))
}

/// Whether two texts are the same but for the case of ASCII letters.
pub open spec fn same_ignoring_ascii_case(a: Seq<char>, b: Seq<char>) -> bool {
    ascii_lower(a) == ascii_lower(b)
}

/// Whether two texts are the same but for the case of ASCII letters.
pub fn equals_ignoring_ascii_case(a: &str, b: &str) -> (r: bool)
    ensures
        r == same_ignoring_ascii_case(a@, b@),
{
    let x: String = to_ascii_lower(a);
    let y: String = to_ascii_lower(b);
    x == y
}

// ---------------------------------------------------------------------------
// Splitting
// ---------------------------------------------------------------------------

/// The pieces of `s` between the characters that `is_sep` picks out, empty
/// pieces included.
pub open spec fn split_by(s: Seq<char>, is_sep: spec_fn(char) -> bool) -> Seq<Seq<char>>
    decreases s.len(),
{
    if s.len() == 0 {
        seq![Seq::<char>::empty()]
    } else {
        let before = split_by(s.drop_last(), is_sep);
        if is_sep(s.last()) {
            before.push(Seq::<char>::empty())
        } else {
            before.drop_last().push(before.last().push(s.last()))
        }
    }
}

/// There is always at least one piece.
pub proof fn lemma_split_by_nonempty(s: Seq<char>, is_sep: spec_fn(char) -> bool)
    ensures
        split_by(s, is_sep).len() > 0,
    decreases s.len(),
{
    if s.len() > 0 {
        lemma_split_by_nonempty(s.drop_last(), is_sep);
    }
}

proof fn lemma_split_by_none(s: Seq<char>, is_sep: spec_fn(char) -> bool)
    requires
        forall|i: int| 0 <= i < s.len() ==> !is_sep(#[trigger] s[i]),
    ensures
        split_by(s, is_sep) == seq![s],
    decreases s.len(),
{
    if s.len() == 0 {
        assert(s =~= Seq::<char>::empty());
    } else {
        lemma_split_by_none(s.drop_last(), is_sep);
        assert(s.drop_last().push(s.last()) =~= s);
        assert(split_by(s, is_sep) =~= seq![s]);
    }
}

/// What comes before the first separator is the first piece, and what follows is split on
/// its own.
pub proof fn lemma_split_by_first(
    first: Seq<char>,
    sep: char,
    rest: Seq<char>,
    is_sep: spec_fn(char) -> bool,
)
    requires
        forall|i: int| 0 <= i < first.len() ==> !is_sep(#[trigger] first[i]),
        is_sep(sep),
    ensures
        split_by(first + seq![sep] + rest, is_sep) == seq![first] + split_by(rest, is_sep),
    decreases rest.len(),
{
    let s = first + seq![sep] + rest;
    if rest.len() == 0 {
        lemma_split_by_none(first, is_sep);
        assert(s.drop_last() =~= first);
        assert(split_by(s, is_sep) =~= seq![first] + split_by(rest, is_sep));
    } else {
        lemma_split_by_first(first, sep, rest.drop_last(), is_sep);
        lemma_split_by_nonempty(rest.drop_last(), is_sep);
        assert(s.drop_last() =~= first + seq![sep] + rest.drop_last());
        assert(s.last() == rest.last());
        assert(split_by(s, is_sep) =~= seq![first] + split_by(rest, is_sep));
    }
}

/// The pieces of `pieces` that are not empty, in their order.
pub open spec fn drop_empty(pieces: Seq<Seq<char>>) -> Seq<Seq<char>> {
    pieces.filter(|p: Seq<char>| p.len() > 0)
}

/// The words of `s`: the runs of characters that are not white space.
pub open spec fn words(s: Seq<char>) -> Seq<Seq<char>> {
    drop_empty(split_by(s, |c: char| is_white_space(c)))
}

proof fn lemma_drop_empty_push(pieces: Seq<Seq<char>>, p: Seq<char>)
    ensures
        drop_empty(pieces.push(p)) == if p.len() > 0 {
            drop_empty(pieces).push(p)
        } else {
            drop_empty(pieces)
        },
{
    reveal(Seq::filter);
    assert(pieces.push(p).drop_last() =~= pieces);
}

/// Splits at the characters for which `marks` holds true, and leaves the empty
/// pieces out. `marks` and `is_sep` agree on every character of `chars`.
pub(crate) fn split_marked(chars: &[char], marks: &[bool], is_sep: Ghost<spec_fn(char) -> bool>) -> (r: Vec<
    String,
>)
    requires
        marks@.len() == chars@.len(),
        forall|i: int| 0 <= i < chars@.len() ==> marks@[i] == (is_sep@)(#[trigger] chars@[i]),
    ensures
        r.deep_view() == drop_empty(split_by(chars@, is_sep@)),
{
    let mut out: Vec<String> = Vec::new();
    let mut piece = String::new();
    let mut i: usize = 0;
    proof {
        assert(chars@.take(0) =~= Seq::<char>::empty());
        assert(split_by(chars@.take(0), is_sep@).drop_last() =~= Seq::<Seq<char>>::empty());
        reveal(Seq::filter);
        assert(out.deep_view() =~= drop_empty(Seq::<Seq<char>>::empty()));
    }
    while i < chars.len()
        invariant
            i <= chars@.len(),
            marks@.len() == chars@.len(),
            forall|k: int| 0 <= k < chars@.len() ==> marks@[k] == (is_sep@)(#[trigger] chars@[k]),
            out.deep_view() == drop_empty(split_by(chars@.take(i as int), is_sep@).drop_last()),
            piece@ == split_by(chars@.take(i as int), is_sep@).last(),
        decreases chars@.len() - i,
    {
        let ghost sofar = split_by(chars@.take(i as int), is_sep@);
        proof {
            lemma_split_by_nonempty(chars@.take(i as int), is_sep@);
            assert(chars@.take(i + 1).drop_last() =~= chars@.take(i as int));
            assert(sofar.drop_last().push(sofar.last()) =~= sofar);
            lemma_drop_empty_push(sofar.drop_last(), sofar.last());
        }
        if marks[i] {
            proof {
                assert(sofar.push(Seq::<char>::empty()).drop_last() =~= sofar);
            }
            if !piece.as_str().is_empty() {
                let ghost before = out.deep_view();
                out.push(piece);
                assert(out.deep_view() =~= before.push(piece@));
            }
            piece = String::new();
        } else {
            proof {
                let grown = sofar.drop_last().push(sofar.last().push(chars@[i as int]));
                assert(grown.drop_last() =~= sofar.drop_last());
            }
            piece.push(chars[i]);
        }
        i = i + 1;
    }
    proof {
        assert(chars@.take(i as int) =~= chars@);
        let all = split_by(chars@, is_sep@);
        lemma_split_by_nonempty(chars@, is_sep@);
        assert(all.drop_last().push(all.last()) =~= all);
        lemma_drop_empty_push(all.drop_last(), all.last());
    }
    if !piece.as_str().is_empty() {
        let ghost before = out.deep_view();
        out.push(piece);
        assert(out.deep_view() =~= before.push(piece@));
    }
    out
}

/// The words of `s`.
pub fn words_of(s: &str) -> (r: Vec<String>)
    ensures
        r.deep_view() == words(s@),
{
    let chars: Vec<char> = chars_of(s);
    let mut marks: Vec<bool> = Vec::new();
    let mut i: usize = 0;
    while i < chars.len()
        invariant
            i <= chars@.len(),
            marks@.len() == i,
            forall|k: int| 0 <= k < i ==> marks@[k] == is_white_space(#[trigger] chars@[k]),
        decreases chars@.len() - i,
    {
        marks.push(char_is_white_space(chars[i]));
        i = i + 1;
    }
    split_marked(&chars, &marks, Ghost(|c: char| is_white_space(c)))
}

/// Picks out one character.
pub open spec fn is_char(sep: char) -> spec_fn(char) -> bool {
    |c: char| c == sep
}

/// The pieces of `s` between the separators, empty pieces included.
pub open spec fn split_at_char(s: Seq<char>, sep: char) -> Seq<Seq<char>> {
    split_by(s, is_char(sep))
}

/// Splits `s` at every separator.
pub fn pieces_between(s: &str, sep: char) -> (r: Vec<String>)
    ensures
        r.deep_view() == split_at_char(s@, sep),
{
    let chars: Vec<char> = chars_of(s);
    let ghost is_sep = is_char(sep);
    let mut pieces: Vec<String> = Vec::new();
    let mut piece: String = String::new();
    let mut i: usize = 0;
    assert(s@.take(0) =~= Seq::<char>::empty());
    assert(pieces.deep_view().push(piece@) =~= split_by(s@.take(0), is_sep));
    while i < chars.len()
        invariant
            i <= chars@.len(),
            chars@ == s@,
            is_sep == is_char(sep),
            pieces.deep_view().push(piece@) == split_by(s@.take(i as int), is_sep),
        decreases chars@.len() - i,
    {
        let ghost before = pieces.deep_view();
        let ghost all = split_by(s@.take(i as int), is_sep);
        assert(s@.take(i + 1).drop_last() =~= s@.take(i as int));
        assert(s@.take(i + 1).last() == chars@[i as int]);
        assert(all.last() == piece@);
        assert(all.drop_last() =~= before);
        if chars[i] == sep {
            pieces.push(piece);
            piece = String::new();
            assert(piece@ =~= Seq::<char>::empty());
            assert(pieces.deep_view() =~= all);
        } else {
            piece.push(chars[i]);
        }
        i = i + 1;
    }
    assert(s@.take(i as int) =~= s@);
    let ghost before = pieces.deep_view();
    let ghost last = piece@;
    pieces.push(piece);
    assert(pieces.deep_view() =~= before.push(last));
    pieces
}

// ---------------------------------------------------------------------------
// Joining
// ---------------------------------------------------------------------------

/// The parts one after the other with `sep` between each two.
pub open spec fn join(parts: Seq<Seq<char>>, sep: Seq<char>) -> Seq<char>
    decreases parts.len(),
{
    if parts.len() == 0 {
        Seq::empty()
    } else if parts.len() == 1 {
        parts[0]
    } else {
        join(parts.drop_last(), sep) + sep + parts.last()
    }
}

/// The parts one after the other with `sep` between each two.
pub fn joined(parts: &[String], sep: &str) -> (r: String)
    ensures
        r@ == join(parts.deep_view(), sep@),
{
    let mut out = String::new();
    let mut i: usize = 0;
    assert(parts.deep_view().take(0) =~= Seq::<Seq<char>>::empty());
    while i < parts.len()
        invariant
            i <= parts@.len(),
            out@ == join(parts.deep_view().take(i as int), sep@),
        decreases parts@.len() - i,
    {
        let ghost next = parts.deep_view().take(i + 1);
        assert(next.drop_last() =~= parts.deep_view().take(i as int));
        if i > 0 {
            out.append(sep);
        }
        out.append(parts[i].as_str());
        assert(i == 0 ==> out@ =~= parts.deep_view()[0]);
        i = i + 1;
    }
    assert(parts.deep_view().take(i as int) =~= parts.deep_view());
    out
}

// ---------------------------------------------------------------------------
// Numbers
// ---------------------------------------------------------------------------

/// The decimal digit for `d`.
pub open spec fn digit(d: nat) -> char {
    (48 + d) as char
}

/// `n` in decimal, without leading zeros.
pub open spec fn decimal(n: nat) -> Seq<char>
    decreases n,
{
    if n < 10 {
        seq![digit(n)]
    } else {
        decimal(n / 10).push(digit(n % 10))
    }
}

/// `n` in decimal.
pub fn decimal_text(n: u64) -> (r: String)
    ensures
        r@ == decimal(n as nat),
    decreases n,
{
    let d: u8 = (n % 10) as u8;
    let c: char = (48 + d) as char;
    assert(c == digit((n % 10) as nat));
    if n < 10 {
        let mut out = String::new();
        out.push(c);
        assert(out@ =~= seq![c]);
        out
    } else {
        let mut out: String = decimal_text(n / 10);
        out.push(c);
        out
    }
}

/// `n` in decimal.
pub fn decimal_usize(n: usize) -> (r: String)
    ensures
        r@ == decimal(n as nat),
{
    decimal_text(n as u64)
}

/// `n` in decimal, with a minus sign in front where it is negative.
pub open spec fn signed_decimal(n: int) -> Seq<char> {
    if n < 0 {
        seq!['-'] + decimal((-n) as nat)
    } else {
        decimal(n as nat)
    }
}

/// `n` in decimal, with a minus sign in front where it is negative.
pub fn signed_decimal_text(n: i64) -> (r: String)
    ensures
        r@ == signed_decimal(n as int),
{
    if n < 0 {
        let mut out: String = String::new();
        out.push('-');
        let ghost sign = out@;
        let size: u64 = if n == i64::MIN {
            9223372036854775808
        } else {
            (-n) as u64
        };
        let digits: String = decimal_text(size);
        out.append(digits.as_str());
        assert(sign =~= seq!['-']);
        out
    } else {
        decimal_text(n as u64)
    }
}

/// Whether `s` is made of decimal digits, and is not empty.
pub open spec fn all_digits(s: Seq<char>) -> bool {
    s.len() > 0 && forall|i: int| 0 <= i < s.len() ==> '0' <= #[trigger] s[i] <= '9'
}

/// The number that decimal digits stand for.
pub open spec fn digits_value(s: Seq<char>) -> nat
    decreases s.len(),
{
    if s.len() == 0 {
        0
    } else {
        digits_value(s.drop_last()) * 10 + (s.last() as int - '0' as int) as nat
    }
}

/// Reads a number that is written in decimal digits alone; nothing where there is another
/// character, or none, or the number is too large.
pub fn read_digits(s: &str) -> (r: Option<u64>)
    ensures
        r == if all_digits(s@) && digits_value(s@) <= u64::MAX {
            Some(digits_value(s@) as u64)
        } else {
            None
        },
{
    let chars: Vec<char> = chars_of(s);
    if chars.len() == 0 {
        return None;
    }
    let mut value: u64 = 0;
    let mut too_large: bool = false;
    let mut i: usize = 0;
    assert(s@.take(0) =~= Seq::<char>::empty());
    while i < chars.len()
        invariant
            i <= chars@.len(),
            chars@ == s@,
            forall|k: int| 0 <= k < i ==> '0' <= #[trigger] s@[k] <= '9',
            too_large == (digits_value(s@.take(i as int)) > u64::MAX),
            !too_large ==> value == digits_value(s@.take(i as int)),
        decreases chars@.len() - i,
    {
        let c: char = chars[i];
        if !('0' <= c && c <= '9') {
            assert(!('0' <= s@[i as int] <= '9'));
            return None;
        }
        assert(s@.take(i + 1).drop_last() =~= s@.take(i as int));
        assert(s@.take(i + 1).last() == c);
        let d: u64 = c as u64 - 48;
        if !too_large {
            if value > 1844674407370955161 || (value == 1844674407370955161 && d > 5) {
                too_large = true;
            } else {
                value = value * 10 + d;
            }
        }
        i = i + 1;
    }
    assert(s@.take(i as int) =~= s@);
    if too_large {
        None
    } else {
        Some(value)
    }
}

// ---------------------------------------------------------------------------
// Cutting to a number of characters
// ---------------------------------------------------------------------------

/// The first `n` characters of `s`, or all of them where there are fewer.
pub open spec fn first_chars(s: Seq<char>, n: nat) -> Seq<char> {
    if s.len() <= n {
        s
    } else {
        s.take(n as int)
    }
}

/// Cuts `s` to its first `n` characters.
pub fn cut_to_chars(s: &str, n: usize) -> (r: String)
    ensures
        r@ == first_chars(s@, n as nat),
{
    let chars: Vec<char> = chars_of(s);
    if chars.len() <= n {
        let out: String = string_of(&chars, 0, chars.len());
        assert(out@ =~= s@);
        out
    } else {
        let out: String = string_of(&chars, 0, n);
        assert(out@ =~= s@.take(n as int));
        out
    }
}

/// Whether every character of `s` is an ASCII character.
pub open spec fn is_ascii(s: Seq<char>) -> bool {
    forall|i: int| 0 <= i < s.len() ==> (#[trigger] s[i] as u32) < 0x80
}

// ---------------------------------------------------------------------------
// Cutting to a byte budget
// ---------------------------------------------------------------------------

/// How many characters of `s` fit into `max_bytes` bytes.
pub open spec fn fitting_chars(s: Seq<char>, max_bytes: nat) -> nat
    decreases s.len(),
{
    if byte_len(s) <= max_bytes || s.len() == 0 {
        s.len()
    } else {
        fitting_chars(s.drop_last(), max_bytes)
    }
}

/// The longest prefix of `s` that fits into `max_bytes` bytes.
pub open spec fn fitting_prefix(s: Seq<char>, max_bytes: nat) -> Seq<char> {
    s.take(fitting_chars(s, max_bytes) as int)
}

/// The prefix fits, and one more character would not.
pub proof fn lemma_fitting_prefix(s: Seq<char>, max_bytes: nat)
    ensures
        fitting_chars(s, max_bytes) <= s.len(),
        byte_len(fitting_prefix(s, max_bytes)) <= max_bytes,
        fitting_chars(s, max_bytes) < s.len() ==> byte_len(
            s.take(fitting_chars(s, max_bytes) as int + 1),
        ) > max_bytes,
    decreases s.len(),
{
    if byte_len(s) <= max_bytes || s.len() == 0 {
        assert(s.take(s.len() as int) =~= s);
    } else {
        let t = s.drop_last();
        lemma_fitting_prefix(t, max_bytes);
        let n = fitting_chars(t, max_bytes) as int;
        assert(s.take(n) =~= t.take(n));
        if n < t.len() {
            assert(s.take(n + 1) =~= t.take(n + 1));
        } else {
            assert(s.take(n + 1) =~= s);
        }
    }
}

/// A prefix that fits, and cannot be made longer, is the longest that fits.
pub proof fn lemma_fitting_chars_unique(s: Seq<char>, max_bytes: nat, n: int)
    requires
        0 <= n <= s.len(),
        byte_len(s.take(n)) <= max_bytes,
        n < s.len() ==> byte_len(s.take(n + 1)) > max_bytes,
    ensures
        fitting_chars(s, max_bytes) == n,
{
    lemma_fitting_prefix(s, max_bytes);
    let m = fitting_chars(s, max_bytes) as int;
    if m < n {
        assert(s.take(n).take(m + 1) =~= s.take(m + 1));
        lemma_byte_len_prefix(s.take(n), m + 1);
    } else if m > n {
        assert(s.take(m).take(n + 1) =~= s.take(n + 1));
        lemma_byte_len_prefix(s.take(m), n + 1);
    }
}

/// How many of `chars` fit into `max_bytes` bytes.
pub fn count_fitting(chars: &[char], max_bytes: usize) -> (r: usize)
    ensures
        r == fitting_chars(chars@, max_bytes as nat),
        r <= chars@.len(),
{
    let mut used: usize = 0;
    let mut i: usize = 0;
    assert(chars@.take(0) =~= Seq::<char>::empty());
    while i < chars.len()
        invariant
            i <= chars@.len(),
            used == byte_len(chars@.take(i as int)),
            used <= max_bytes,
        decreases chars@.len() - i,
    {
        let width: usize = char_utf8_width(chars[i]);
        assert(chars@.take(i + 1).drop_last() =~= chars@.take(i as int));
        if width > max_bytes - used {
            proof {
                lemma_fitting_chars_unique(chars@, max_bytes as nat, i as int);
            }
            return i;
        }
        used = used + width;
        i = i + 1;
    }
    proof {
        lemma_fitting_chars_unique(chars@, max_bytes as nat, i as int);
    }
    i
}

/// `s` cut to `max_bytes` bytes with `suffix` behind it, where it is longer; else
/// `s` itself.
pub open spec fn truncate_utf8(s: Seq<char>, max_bytes: nat, suffix: Seq<char>) -> Seq<char> {
    if byte_len(s) <= max_bytes {
        s
    } else {
        fitting_prefix(s, max_bytes) + suffix
    }
}

/// Cuts `s` to `max_bytes` bytes without splitting a character and puts `suffix`
/// behind it, where it is longer.
pub fn truncate_utf8_safe(s: &mut String, max_bytes: usize, suffix: &str)
    ensures
        final(s)@ == truncate_utf8(old(s)@, max_bytes as nat, suffix@),
{
    if byte_length(s.as_str()) > max_bytes {
        let chars: Vec<char> = chars_of(s.as_str());
        let keep: usize = count_fitting(&chars, max_bytes);
        let mut out: String = string_of(&chars, 0, keep);
        assert(out@ =~= fitting_prefix(old(s)@, max_bytes as nat));
        out.append(suffix);
        *s = out;
    }
}

// ---------------------------------------------------------------------------
// Lists of texts
// ---------------------------------------------------------------------------

/// The texts, trimmed, without those that are blank.
pub open spec fn clean_texts(list: Seq<Seq<char>>) -> Seq<Seq<char>>
    decreases list.len(),
{
    if list.len() == 0 {
        Seq::empty()
    } else {
        let head = clean_texts(list.drop_last());
        match non_blank(list.last()) {
            Some(t) => head.push(t),
            None => head,
        }
    }
}

/// Trims the texts, and leaves out those that are blank.
pub fn cleaned_list(list: &Vec<String>) -> (r: Vec<String>)
    ensures
        r.deep_view() == clean_texts(list.deep_view()),
{
    let ghost all = list.deep_view();
    let mut kept: Vec<String> = Vec::new();
    let mut i: usize = 0;
    assert(kept.deep_view() =~= clean_texts(all.take(0)));
    while i < list.len()
        invariant
            i <= list@.len(),
            all == list.deep_view(),
            kept.deep_view() == clean_texts(all.take(i as int)),
        decreases list@.len() - i,
    {
        let ghost before = kept.deep_view();
        assert(all.take(i + 1).drop_last() =~= all.take(i as int));
        assert(all.take(i + 1).last() == list@[i as int]@);
        if let Some(t) = non_blank_text(list[i].as_str()) {
            kept.push(t);
            assert(kept.deep_view() =~= before.push(t@));
        }
        i = i + 1;
    }
    assert(all.take(i as int) =~= all);
    kept
}

// ---------------------------------------------------------------------------
// Laws
// ---------------------------------------------------------------------------

/// Joining two lists is joining each and putting the separator between the two; a list of one
/// text is that text, and an empty list gives nothing.
pub proof fn law_join_of_two_lists(a: Seq<Seq<char>>, b: Seq<Seq<char>>, sep: Seq<char>)
    ensures
        join(Seq::empty(), sep) == Seq::<char>::empty(),
        a.len() == 1 ==> join(a, sep) == a[0],
        a.len() > 0 && b.len() > 0 ==> join(a + b, sep) == join(a, sep) + sep + join(b, sep),
    decreases b.len(),
{
    if a.len() > 0 && b.len() > 0 {
        let all = a + b;
        assert(all.last() == b.last());
        assert(all.drop_last() =~= a + b.drop_last());
        if b.len() == 1 {
            assert(a + b.drop_last() =~= a);
        } else {
            law_join_of_two_lists(a, b.drop_last(), sep);
            assert(join(all, sep) =~= join(a, sep) + sep + join(b, sep));
        }
    }
}

proof fn lemma_trim_start_takes_blanks(s: Seq<char>)
    ensures
        trim_start(s) == s.skip(s.len() - trim_start(s).len()),
        trim_start(s).len() <= s.len(),
        forall|i: int|
            0 <= i < s.len() - trim_start(s).len() ==> is_white_space(#[trigger] s[i]),
    decreases s.len(),
{
    if s.len() > 0 && is_white_space(s[0]) {
        let rest = s.drop_first();
        lemma_trim_start_takes_blanks(rest);
        assert(s.skip(s.len() - trim_start(s).len()) =~= rest.skip(
            rest.len() - trim_start(rest).len(),
        ));
        assert forall|i: int| 0 <= i < s.len() - trim_start(s).len() implies is_white_space(
            #[trigger] s[i],
        ) by {
            if i > 0 {
                assert(s[i] == rest[i - 1]);
            }
        }
    } else {
        assert(s.skip(0) =~= s);
    }
}

proof fn lemma_trim_end_takes_blanks(s: Seq<char>)
    ensures
        trim_end(s).len() <= s.len(),
        trim_end(s) == s.take(trim_end(s).len() as int),
        forall|i: int| trim_end(s).len() <= i < s.len() ==> is_white_space(#[trigger] s[i]),
    decreases s.len(),
{
    if s.len() > 0 && is_white_space(s.last()) {
        let rest = s.drop_last();
        lemma_trim_end_takes_blanks(rest);
        assert(s.take(trim_end(s).len() as int) =~= rest.take(trim_end(rest).len() as int));
        assert forall|i: int| trim_end(s).len() <= i < s.len() implies is_white_space(
            #[trigger] s[i],
        ) by {
            if i < rest.len() {
                assert(s[i] == rest[i]);
            }
        }
    } else {
        assert(s.take(s.len() as int) =~= s);
    }
}

/// Trimming takes white space off the two ends and nothing else, and leaves none there.
pub proof fn law_trim_takes_white_space_only(s: Seq<char>) -> (ends: (Seq<char>, Seq<char>))
    ensures
        s == ends.0 + trim(s) + ends.1,
        forall|i: int| 0 <= i < ends.0.len() ==> is_white_space(#[trigger] ends.0[i]),
        forall|i: int| 0 <= i < ends.1.len() ==> is_white_space(#[trigger] ends.1[i]),
        trim(s).len() > 0 ==> !is_white_space(trim(s)[0]) && !is_white_space(trim(s).last()),
        non_blank(s) is None <==> forall|i: int|
            0 <= i < s.len() ==> is_white_space(#[trigger] s[i]),
        non_blank(s) matches Some(t) ==> t == trim(s) && t.len() > 0,
{
    let t = trim_start(s);
    lemma_trim_start_takes_blanks(s);
    lemma_trim_end_takes_blanks(t);
    lemma_trim_ends(s);
    let ends = (s.take(s.len() - t.len()), t.skip(trim(s).len() as int));
    assert(s =~= ends.0 + trim(s) + ends.1);
    assert forall|i: int| 0 <= i < ends.1.len() implies is_white_space(#[trigger] ends.1[i]) by {
        assert(ends.1[i] == t[trim(s).len() as int + i]);
    }
    if trim(s).len() == 0 {
        assert forall|i: int| 0 <= i < s.len() implies is_white_space(#[trigger] s[i]) by {
            if i >= s.len() - t.len() {
                assert(s[i] == t[i - (s.len() - t.len())]);
            }
        }
    } else {
        assert(s[ends.0.len() as int] == trim(s)[0]);
    }
    ends
}

proof fn lemma_split_by_concat(
    a: Seq<char>,
    sep: char,
    b: Seq<char>,
    is_sep: spec_fn(char) -> bool,
)
    requires
        is_sep(sep),
    ensures
        split_by(a + seq![sep] + b, is_sep) == split_by(a, is_sep) + split_by(b, is_sep),
    decreases b.len(),
{
    let s = a + seq![sep] + b;
    if b.len() == 0 {
        assert(s.drop_last() =~= a);
        assert(split_by(s, is_sep) =~= split_by(a, is_sep) + split_by(b, is_sep));
    } else {
        lemma_split_by_concat(a, sep, b.drop_last(), is_sep);
        lemma_split_by_nonempty(b.drop_last(), is_sep);
        assert(s.drop_last() =~= a + seq![sep] + b.drop_last());
        assert(s.last() == b.last());
        assert(split_by(s, is_sep) =~= split_by(a, is_sep) + split_by(b, is_sep));
    }
}

/// Splitting goes piece by piece: a separator ends one piece and begins the next, and a text
/// without separators is one piece.
pub proof fn law_split_at_separators(
    a: Seq<char>,
    sep: char,
    b: Seq<char>,
    is_sep: spec_fn(char) -> bool,
)
    ensures
        is_sep(sep) ==> split_by(a + seq![sep] + b, is_sep) == split_by(a, is_sep) + split_by(
            b,
            is_sep,
        ),
        (forall|i: int| 0 <= i < a.len() ==> !is_sep(#[trigger] a[i])) ==> split_by(a, is_sep)
            == seq![a],
{
    if is_sep(sep) {
        lemma_split_by_concat(a, sep, b, is_sep);
    }
    if forall|i: int| 0 <= i < a.len() ==> !is_sep(#[trigger] a[i]) {
        lemma_split_by_none(a, is_sep);
    }
}

proof fn lemma_drop_empty_concat(a: Seq<Seq<char>>, b: Seq<Seq<char>>)
    ensures
        drop_empty(a + b) == drop_empty(a) + drop_empty(b),
    decreases b.len(),
{
    if b.len() == 0 {
        assert(a + b =~= a);
        reveal(Seq::filter);
        assert(drop_empty(a) + drop_empty(b) =~= drop_empty(a));
    } else {
        lemma_drop_empty_concat(a, b.drop_last());
        assert(b.drop_last().push(b.last()) =~= b);
        assert((a + b.drop_last()).push(b.last()) =~= a + b);
        lemma_drop_empty_push(b.drop_last(), b.last());
        lemma_drop_empty_push(a + b.drop_last(), b.last());
        assert(drop_empty(a + b) =~= drop_empty(a) + drop_empty(b));
    }
}

/// The pieces between separators, without the empty ones, are those on either side of any one
/// separator; a text without separators is one piece, unless it is empty.
pub proof fn law_pieces_of_two_texts(
    a: Seq<char>,
    sep: char,
    b: Seq<char>,
    is_sep: spec_fn(char) -> bool,
)
    ensures
        is_sep(sep) ==> drop_empty(split_by(a + seq![sep] + b, is_sep)) == drop_empty(
            split_by(a, is_sep),
        ) + drop_empty(split_by(b, is_sep)),
        (forall|i: int| 0 <= i < a.len() ==> !is_sep(#[trigger] a[i])) ==> drop_empty(
            split_by(a, is_sep),
        ) == if a.len() > 0 {
            seq![a]
        } else {
            Seq::empty()
        },
{
    law_split_at_separators(a, sep, b, is_sep);
    lemma_drop_empty_concat(split_by(a, is_sep), split_by(b, is_sep));
    lemma_drop_empty_push(Seq::empty(), a);
    reveal(Seq::filter);
    assert(Seq::<Seq<char>>::empty().push(a) =~= seq![a]);
    assert(drop_empty(Seq::empty()) =~= Seq::empty());
    assert(Seq::<Seq<char>>::empty().push(a) =~= seq![a]);
}

/// The words of two texts with white space between them are those of the one and then those of
/// the other; a text without white space is one word, unless it is empty.
pub proof fn law_words_of_two_texts(a: Seq<char>, blank: char, b: Seq<char>)
    ensures
        is_white_space(blank) ==> words(a + seq![blank] + b) == words(a) + words(b),
        (forall|i: int| 0 <= i < a.len() ==> !is_white_space(#[trigger] a[i])) ==> words(a)
            == if a.len() > 0 {
            seq![a]
        } else {
            Seq::empty()
        },
{
    law_pieces_of_two_texts(a, blank, b, |c: char| is_white_space(c));
}

/// Putting the pieces together again with the separator gives the text back, and no piece holds
/// the separator.
pub proof fn law_split_is_undone_by_join(s: Seq<char>, sep: char)
    ensures
        join(split_at_char(s, sep), seq![sep]) == s,
        forall|i: int|
            0 <= i < split_at_char(s, sep).len() ==> !(#[trigger] split_at_char(
                s,
                sep,
            )[i]).contains(sep),
    decreases s.len(),
{
    let is_sep = is_char(sep);
    if s.len() > 0 {
        let t = s.drop_last();
        let before = split_at_char(t, sep);
        law_split_is_undone_by_join(t, sep);
        lemma_split_by_nonempty(t, is_sep);
        let all = split_at_char(s, sep);
        assert(s =~= t.push(s.last()));
        if is_sep(s.last()) {
            assert(all.drop_last() =~= before);
            assert(join(all, seq![sep]) =~= t + seq![sep] + Seq::empty());
            assert(t + seq![sep] + Seq::<char>::empty() =~= s);
        } else {
            let last = before.last().push(s.last());
            assert(all.drop_last() =~= before.drop_last());
            assert(all.last() == last);
            assert(join(all, seq![sep]) =~= s);
            assert forall|i: int| 0 <= i < all.len() implies !(#[trigger] all[i]).contains(
                sep,
            ) by {
                if i < before.len() - 1 {
                    assert(all[i] == before[i]);
                } else {
                    assert(!before[before.len() - 1].contains(sep));
                    assert(all[i] == last);
                    if last.contains(sep) {
                        let k = choose|k: int| 0 <= k < last.len() && last[k] == sep;
                        assert(k < before.last().len());
                        assert(before.last()[k] == sep);
                    }
                }
            }
        }
    }
}

/// The digits of a number are digits, the first is not `0` unless the number is, the last is
/// what is left by ten, and read again they give the number.
pub proof fn law_decimal_is_read_back(n: nat)
    ensures
        all_digits(decimal(n)),
        digits_value(decimal(n)) == n,
        decimal(n).last() as int == 48 + n % 10,
        n >= 10 ==> decimal(n).drop_last() == decimal(n / 10) && decimal(n)[0] != '0',
        n < 10 ==> decimal(n).len() == 1,
        n > 0 ==> decimal(n)[0] != '0',
    decreases n,
{
    reveal_with_fuel(digits_value, 2);
    if n >= 10 {
        law_decimal_is_read_back(n / 10);
        assert(decimal(n).drop_last() =~= decimal(n / 10));
        assert(decimal(n)[0] == decimal(n / 10)[0]);
    } else {
        assert(decimal(n).drop_last() =~= Seq::<char>::empty());
    }
}

/// Only the ASCII letters change with the case, each by its place in the alphabet.
pub proof fn law_only_ascii_letters_change_case(s: Seq<char>, i: int)
    requires
        0 <= i < s.len(),
    ensures
        ascii_lower(s).len() == s.len(),
        ascii_upper(s).len() == s.len(),
        s[i] as u32 >= 128 ==> ascii_lower(s)[i] == s[i] && ascii_upper(s)[i] == s[i],
        'A' <= s[i] <= 'Z' ==> ascii_lower(s)[i] as int - 97 == s[i] as int - 65
            && ascii_upper(s)[i] == s[i],
        'a' <= s[i] <= 'z' ==> ascii_upper(s)[i] as int - 65 == s[i] as int - 97
            && ascii_lower(s)[i] == s[i],
        !('A' <= s[i] <= 'Z') && !('a' <= s[i] <= 'z') ==> ascii_lower(s)[i] == s[i]
            && ascii_upper(s)[i] == s[i],
        same_ignoring_ascii_case(s, ascii_lower(s)),
        same_ignoring_ascii_case(s, ascii_upper(s)),
{
    assert(ascii_lower(ascii_lower(s)) =~= ascii_lower(s));
    assert(ascii_lower(ascii_upper(s)) =~= ascii_lower(s));
}

/// A text that fits is kept whole. One that does not is cut to the longest beginning that fits,
/// and the mark of the cut follows.
pub proof fn law_truncation_keeps_what_fits(s: Seq<char>, max_bytes: nat, suffix: Seq<char>, n: int)
    requires
        0 <= n <= s.len(),
    ensures
        vstd::utf8::encode_utf8(s).len() <= max_bytes ==> truncate_utf8(s, max_bytes, suffix) == s,
        vstd::utf8::encode_utf8(s).len() > max_bytes && vstd::utf8::encode_utf8(s.take(n)).len()
            <= max_bytes && (n == s.len() || vstd::utf8::encode_utf8(s.take(n + 1)).len()
            > max_bytes) ==> truncate_utf8(s, max_bytes, suffix) == s.take(n) + suffix,
{
    lemma_byte_len_is_encoded_len(s);
    lemma_byte_len_is_encoded_len(s.take(n));
    if n < s.len() {
        lemma_byte_len_is_encoded_len(s.take(n + 1));
    }
    if byte_len(s) > max_bytes && byte_len(s.take(n)) <= max_bytes && (n == s.len() || byte_len(
        s.take(n + 1),
    ) > max_bytes) {
        lemma_fitting_chars_unique(s, max_bytes, n);
    }
}

/// Two lists are cleaned one after the other; a text alone is trimmed, or left out where it is
/// blank.
pub proof fn law_texts_are_cleaned_each(a: Seq<Seq<char>>, b: Seq<Seq<char>>)
    ensures
        clean_texts(a + b) == clean_texts(a) + clean_texts(b),
        a.len() == 1 ==> clean_texts(a) == if trim(a[0]).len() > 0 {
            seq![trim(a[0])]
        } else {
            Seq::empty()
        },
    decreases b.len(),
{
    reveal_with_fuel(clean_texts, 2);
    if b.len() == 0 {
        assert(a + b =~= a);
        assert(clean_texts(a) + clean_texts(b) =~= clean_texts(a));
    } else {
        law_texts_are_cleaned_each(a, b.drop_last());
        assert((a + b).drop_last() =~= a + b.drop_last());
        assert((a + b).last() == b.last());
        assert(clean_texts(a + b) =~= clean_texts(a) + clean_texts(b));
    }
    if a.len() == 1 {
        assert(a.drop_last() =~= Seq::empty());
        assert(clean_texts(a) =~= if trim(a[0]).len() > 0 {
            seq![trim(a[0])]
        } else {
            Seq::empty()
        });
    }
}

/// What a text holds, a longer one that begins with it holds too.
pub proof fn lemma_contains_longer(a: Seq<char>, b: Seq<char>, needle: Seq<char>)
    requires
        contains(a, needle),
    ensures
        contains(a + b, needle),
{
    let at = choose|at: int| #[trigger] occurs_at(a, needle, at);
    assert((a + b).subrange(at, at + needle.len()) =~= a.subrange(at, at + needle.len()));
    assert(occurs_at(a + b, needle, at));
}

/// A text holds what it ends with.
pub proof fn lemma_contains_end(a: Seq<char>, b: Seq<char>)
    ensures
        contains(a + b, b),
{
    assert((a + b).subrange(a.len() as int, (a + b).len() as int) =~= b);
    assert(occurs_at(a + b, b, a.len() as int));
}

/// Texts that are joined are all held by what comes of it.
pub proof fn lemma_join_contains(
    before: Seq<Seq<char>>,
    part: Seq<char>,
    after: Seq<Seq<char>>,
    sep: Seq<char>,
)
    ensures
        contains(join(before + seq![part] + after, sep), part),
{
    let one = seq![part];
    let none = Seq::<char>::empty();
    law_join_of_two_lists(one, after, sep);
    law_join_of_two_lists(before, one + after, sep);
    assert(before + one + after =~= before + (one + after));
    let behind = if after.len() > 0 {
        sep + join(after, sep)
    } else {
        none
    };
    if after.len() == 0 {
        assert(one + after =~= one);
    }
    assert(join(one + after, sep) =~= part + behind);
    let ahead = if before.len() > 0 {
        join(before, sep) + sep
    } else {
        none
    };
    if before.len() == 0 {
        assert(before + (one + after) =~= one + after);
    }
    assert(join(before + one + after, sep) =~= ahead + part + behind);
    lemma_contains_middle(ahead, part, behind);
}

/// Taking white space off the end loses nothing that ends otherwise.
pub proof fn lemma_trim_end_contains(s: Seq<char>, needle: Seq<char>)
    requires
        contains(s, needle),
        needle.len() > 0,
        !is_white_space(needle.last()),
    ensures
        contains(trim_end(s), needle),
{
    let at = choose|at: int| #[trigger] occurs_at(s, needle, at);
    lemma_trim_end_takes_blanks(s);
    let t = trim_end(s);
    let last = at + needle.len() - 1;
    assert(s.subrange(at, at + needle.len())[needle.len() - 1] == s[last]);
    assert(last < t.len());
    assert(t.subrange(at, at + needle.len()) =~= s.subrange(at, at + needle.len()));
    assert(occurs_at(t, needle, at));
}

/// A longer text begins with what its beginning begins with.
pub proof fn lemma_starts_longer(a: Seq<char>, b: Seq<char>, prefix: Seq<char>)
    requires
        starts_with(a, prefix),
    ensures
        starts_with(a + b, prefix),
{
    assert((a + b).subrange(0, prefix.len() as int) =~= a.subrange(0, prefix.len() as int));
}

/// What the end of a text holds, the text holds too.
pub proof fn lemma_contains_behind(a: Seq<char>, b: Seq<char>, needle: Seq<char>)
    requires
        contains(b, needle),
    ensures
        contains(a + b, needle),
{
    let at = choose|at: int| #[trigger] occurs_at(b, needle, at);
    let n = a.len() as int;
    assert((a + b).subrange(n + at, n + at + needle.len()) =~= b.subrange(at, at + needle.len()));
    assert(occurs_at(a + b, needle, n + at));
}

/// A character is taken off an end as often as it stands there, and nothing else is.
pub proof fn law_one_character_is_taken_off(s: Seq<char>, c: char)
    ensures
        trim_end_char(s.push(c), c) == trim_end_char(s, c),
        trim_start_char(seq![c] + s, c) == trim_start_char(s, c),
        s.len() == 0 || s.last() != c ==> trim_end_char(s, c) == s,
        s.len() == 0 || s[0] != c ==> trim_start_char(s, c) == s,
        trim_end_char(s, c).len() > 0 ==> trim_end_char(s, c).last() != c,
        trim_start_char(s, c).len() > 0 ==> trim_start_char(s, c)[0] != c,
    decreases s.len(),
{
    assert(s.push(c).drop_last() =~= s);
    assert((seq![c] + s).drop_first() =~= s);
    assert((seq![c] + s)[0] == c);
    if s.len() > 0 && s.last() == c {
        law_one_character_is_taken_off(s.drop_last(), c);
    }
    if s.len() > 0 && s[0] == c {
        law_one_character_is_taken_off(s.drop_first(), c);
    }
}

/// The beginning of a text has as many characters as asked for, or all that there are.
pub proof fn law_beginning_is_as_long_as_asked(s: Seq<char>, n: nat)
    ensures
        s.len() >= n ==> first_chars(s, n).len() == n,
        s.len() < n ==> first_chars(s, n) == s,
        starts_with(s, first_chars(s, n)),
{
    if s.len() <= n {
        assert(s.subrange(0, s.len() as int) =~= s);
    } else {
        assert(s.subrange(0, n as int) =~= s.take(n as int));
    }
}

} // verus!
