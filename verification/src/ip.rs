//! The texts of internet addresses, as far as it takes to tell which of them stay on the
//! machine.
use vstd::prelude::*;
use crate::text;

verus! {

// ---------------------------------------------------------------------------
// Version 4
// ---------------------------------------------------------------------------

/// The number of one of the four parts: up to three digits without a leading zero, and no
/// more than 255.
pub open spec fn octet(s: Seq<char>) -> Option<nat> {
    if text::all_digits(s) && s.len() <= 3 && (s.len() == 1 || s[0] != '0') && text::digits_value(s)
        <= 255 {
        Some(text::digits_value(s))
    } else {
        None
    }
}

/// The four numbers of an address of version 4.
pub open spec fn ipv4(s: Seq<char>) -> Option<Seq<nat>> {
    let parts = text::split_at_char(s, '.');
    if parts.len() == 4 && octet(parts[0]) is Some && octet(parts[1]) is Some && octet(
        parts[2],
    ) is Some && octet(parts[3]) is Some {
        Some(
            seq![
                octet(parts[0])->0,
                octet(parts[1])->0,
                octet(parts[2])->0,
                octet(parts[3])->0,
            ],
        )
    } else {
        None
    }
}

fn read_octet(s: &str) -> (r: Option<u64>)
    ensures
        match r {
            Some(n) => octet(s@) == Some(n as nat),
            None => octet(s@) is None,
        },
{
    let chars: Vec<char> = text::chars_of(s);
    if chars.len() == 0 || chars.len() > 3 || (chars.len() > 1 && chars[0] == '0') {
        return None;
    }
    match text::read_digits(s) {
        Some(n) => if n <= 255 {
            Some(n)
        } else {
            None
        },
        None => {
            proof {
                if text::all_digits(s@) {
                    lemma_three_digits(s@);
                }
            }
            None
        },
    }
}

proof fn lemma_three_digits(s: Seq<char>)
    requires
        text::all_digits(s),
        s.len() <= 3,
    ensures
        text::digits_value(s) <= 999,
{
    reveal_with_fuel(text::digits_value, 4);
    let a = s.drop_last();
    assert(s.last() == s[s.len() - 1]);
    if s.len() >= 2 {
        assert(a.last() == s[s.len() - 2]);
        let b = a.drop_last();
        if s.len() >= 3 {
            assert(b.last() == s[s.len() - 3]);
            assert(b.drop_last().len() == 0);
        } else {
            assert(b.len() == 0);
        }
    } else {
        assert(a.len() == 0);
    }
}

/// Reads an address of version 4.
pub fn read_ipv4(s: &str) -> (r: Option<Vec<u64>>)
    ensures
        match r {
            Some(v) => ipv4(s@) matches Some(numbers) && v@.len() == 4 && numbers.len() == 4
                && forall|i: int| 0 <= i < 4 ==> #[trigger] v@[i] as nat == numbers[i],
            None => ipv4(s@) is None,
        },
{
    let parts: Vec<String> = text::pieces_between(s, '.');
    let ghost all = text::split_at_char(s@, '.');
    if parts.len() != 4 {
        assert(all.len() != 4);
        return None;
    }
    assert(all[0] == parts@[0]@ && all[1] == parts@[1]@ && all[2] == parts@[2]@ && all[3]
        == parts@[3]@);
    let a: Option<u64> = read_octet(parts[0].as_str());
    let b: Option<u64> = read_octet(parts[1].as_str());
    let c: Option<u64> = read_octet(parts[2].as_str());
    let d: Option<u64> = read_octet(parts[3].as_str());
    match (a, b, c, d) {
        (Some(a), Some(b), Some(c), Some(d)) => {
            let mut v: Vec<u64> = Vec::new();
            v.push(a);
            v.push(b);
            v.push(c);
            v.push(d);
            Some(v)
        },
        _ => None,
    }
}

// ---------------------------------------------------------------------------
// Version 6
// ---------------------------------------------------------------------------

/// The number of a hexadecimal digit.
pub open spec fn hex_value_of(c: char) -> Option<nat> {
    if '0' <= c <= '9' {
        Some((c as int - '0' as int) as nat)
    } else if 'a' <= c <= 'f' {
        Some((c as int - 'a' as int + 10) as nat)
    } else if 'A' <= c <= 'F' {
        Some((c as int - 'A' as int + 10) as nat)
    } else {
        None
    }
}

/// The number that hexadecimal digits stand for.
pub open spec fn hex_number(s: Seq<char>) -> Option<nat>
    decreases s.len(),
{
    if s.len() == 0 {
        Some(0)
    } else {
        match (hex_number(s.drop_last()), hex_value_of(s.last())) {
            (Some(n), Some(d)) => Some(n * 16 + d),
            _ => None,
        }
    }
}

/// The number of a group: one to four hexadecimal digits.
pub open spec fn hex_group(s: Seq<char>) -> Option<nat> {
    if 1 <= s.len() <= 4 {
        hex_number(s)
    } else {
        None
    }
}

/// The numbers of the groups, the last of which may be an address of version 4 and then
/// counts as two.
pub open spec fn groups(pieces: Seq<Seq<char>>, tail_v4: bool) -> Option<Seq<nat>>
    decreases pieces.len(),
{
    if pieces.len() == 0 {
        Some(Seq::empty())
    } else {
        match groups(pieces.drop_last(), false) {
            None => None,
            Some(head) => match hex_group(pieces.last()) {
                Some(g) => Some(head.push(g)),
                None => match ipv4(pieces.last()) {
                    Some(v4) if tail_v4 => Some(
                        head.push(v4[0] * 256 + v4[1]).push(v4[2] * 256 + v4[3]),
                    ),
                    _ => None,
                },
            },
        }
    }
}

/// The groups of a part of an address; none where it is empty.
pub open spec fn groups_in(s: Seq<char>, tail_v4: bool) -> Option<Seq<nat>> {
    if s.len() == 0 {
        Some(Seq::empty())
    } else {
        groups(text::split_at_char(s, ':'), tail_v4)
    }
}

/// The eight groups of an address of version 6. Two colons stand for one or more groups that
/// are zero.
pub open spec fn ipv6(s: Seq<char>) -> Option<Seq<nat>> {
    match text::first_occurrence(s, "::"@) {
        None => match groups_in(s, true) {
            Some(g) if g.len() == 8 => Some(g),
            _ => None,
        },
        Some(at) => match (groups_in(s.take(at), false), groups_in(s.skip(at + 2), true)) {
            (Some(left), Some(right)) => if left.len() + right.len() <= 7 {
                Some(left + Seq::new((8 - left.len() - right.len()) as nat, |i: int| 0nat) + right)
            } else {
                None
            },
            _ => None,
        },
    }
}

fn read_hex_group(s: &str) -> (r: Option<u64>)
    ensures
        match r {
            Some(n) => hex_group(s@) == Some(n as nat),
            None => hex_group(s@) is None,
        },
{
    let chars: Vec<char> = text::chars_of(s);
    if chars.len() == 0 || chars.len() > 4 {
        return None;
    }
    let mut value: u64 = 0;
    let mut i: usize = 0;
    assert(s@.take(0) =~= Seq::<char>::empty());
    while i < chars.len()
        invariant
            i <= chars@.len() <= 4,
            chars@ == s@,
            hex_number(s@.take(i as int)) == Some(value as nat),
            i == 0 ==> value == 0,
            i == 1 ==> value < 16,
            i == 2 ==> value < 256,
            i == 3 ==> value < 4096,
            i == 4 ==> value < 65536,
        decreases chars@.len() - i,
    {
        let c: char = chars[i];
        assert(s@.take(i + 1).drop_last() =~= s@.take(i as int));
        assert(s@.take(i + 1).last() == c);
        let d: u64 = if '0' <= c && c <= '9' {
            c as u64 - 48
        } else if 'a' <= c && c <= 'f' {
            c as u64 - 87
        } else if 'A' <= c && c <= 'F' {
            c as u64 - 55
        } else {
            proof {
                lemma_bad_prefix(s@, i + 1);
            }
            return None;
        };
        value = value * 16 + d;
        i = i + 1;
    }
    assert(s@.take(i as int) =~= s@);
    Some(value)
}

proof fn lemma_bad_prefix(s: Seq<char>, n: int)
    requires
        0 <= n <= s.len(),
        hex_number(s.take(n)) is None,
    ensures
        hex_number(s) is None,
    decreases s.len(),
{
    if n == s.len() {
        assert(s.take(n) =~= s);
    } else {
        assert(s.drop_last().take(n) =~= s.take(n));
        lemma_bad_prefix(s.drop_last(), n);
    }
}

proof fn lemma_bad_group(pieces: Seq<Seq<char>>, n: int, tail_v4: bool)
    requires
        0 <= n <= pieces.len(),
        groups(pieces.take(n), false) is None,
        n < pieces.len() || !tail_v4,
    ensures
        groups(pieces, tail_v4) is None,
    decreases pieces.len(),
{
    if n == pieces.len() {
        assert(pieces.take(n) =~= pieces);
    } else {
        assert(pieces.drop_last().take(n) =~= pieces.take(n));
        if n < pieces.len() - 1 {
            lemma_bad_group(pieces.drop_last(), n, false);
        } else {
            assert(pieces.drop_last() =~= pieces.take(n));
        }
    }
}

/// Whether the numbers are those of the list.
pub open spec fn same_numbers(v: Seq<u64>, numbers: Seq<nat>) -> bool {
    v.len() == numbers.len() && forall|i: int| 0 <= i < v.len() ==> #[trigger] v[i] as nat
        == numbers[i]
}

fn read_groups(s: &str, tail_v4: bool) -> (r: Option<Vec<u64>>)
    ensures
        match r {
            Some(v) => groups_in(s@, tail_v4) matches Some(numbers) && same_numbers(v@, numbers),
            None => groups_in(s@, tail_v4) is None,
        },
{
    let mut found: Vec<u64> = Vec::new();
    if s.is_empty() {
        return Some(found);
    }
    let pieces: Vec<String> = text::pieces_between(s, ':');
    let ghost all = text::split_at_char(s@, ':');
    proof {
        text::lemma_split_by_nonempty(s@, text::is_char(':'));
        assert(all.len() == pieces@.len());
    }
    let last: usize = pieces.len() - 1;
    let mut i: usize = 0;
    assert(all.take(0) =~= Seq::<Seq<char>>::empty());
    while i < last
        invariant
            i <= last == pieces@.len() - 1,
            s@.len() > 0,
            all == text::split_at_char(s@, ':'),
            all == pieces.deep_view(),
            all.len() == pieces@.len(),
            groups(all.take(i as int), false) matches Some(numbers) && same_numbers(
                found@,
                numbers,
            ),
        decreases last - i,
    {
        assert(all.take(i + 1).drop_last() =~= all.take(i as int));
        assert(all.take(i + 1).last() == pieces@[i as int]@);
        match read_hex_group(pieces[i].as_str()) {
            Some(g) => found.push(g),
            None => {
                proof {
                    lemma_bad_group(all, i + 1, tail_v4);
                }
                return None;
            },
        }
        i = i + 1;
    }
    assert(all.drop_last() =~= all.take(i as int));
    assert(all.last() == pieces@[i as int]@);
    match read_hex_group(pieces[i].as_str()) {
        Some(g) => {
            found.push(g);
            Some(found)
        },
        None => {
            if !tail_v4 {
                return None;
            }
            match read_ipv4(pieces[i].as_str()) {
                Some(v4) => {
                    proof {
                        lemma_octets(pieces@[i as int]@);
                    }
                    found.push(v4[0] * 256 + v4[1]);
                    found.push(v4[2] * 256 + v4[3]);
                    Some(found)
                },
                None => None,
            }
        },
    }
}

proof fn lemma_octets(s: Seq<char>)
    requires
        ipv4(s) is Some,
    ensures
        forall|i: int| 0 <= i < 4 ==> #[trigger] ipv4(s)->0[i] <= 255,
{
}

/// Reads an address of version 6.
pub fn read_ipv6(s: &str) -> (r: Option<Vec<u64>>)
    ensures
        match r {
            Some(v) => ipv6(s@) matches Some(numbers) && same_numbers(v@, numbers),
            None => ipv6(s@) is None,
        },
{
    let chars: Vec<char> = text::chars_of(s);
    let marks: Vec<char> = text::chars_of("::");
    let total: usize = chars.len();
    proof {
        reveal_strlit("::");
    }
    match text::find_chars(&chars, &marks) {
        None => match read_groups(s, true) {
            Some(v) => if v.len() == 8 {
                Some(v)
            } else {
                None
            },
            None => None,
        },
        Some(at) => {
            assert(at + 2 <= total);
            let left_text: String = text::string_of(&chars, 0, at);
            let right_text: String = text::string_of(&chars, at + 2, total);
            assert(left_text@ =~= s@.take(at as int));
            assert(right_text@ =~= s@.skip(at + 2));
            let left: Option<Vec<u64>> = read_groups(left_text.as_str(), false);
            let right: Option<Vec<u64>> = read_groups(right_text.as_str(), true);
            match (left, right) {
                (Some(left), Some(right)) => {
                    if left.len() > 7 || right.len() > 7 - left.len() {
                        return None;
                    }
                    Some(fill_groups(left, right))
                },
                _ => None,
            }
        },
    }
}

fn fill_groups(left: Vec<u64>, right: Vec<u64>) -> (r: Vec<u64>)
    requires
        left@.len() + right@.len() <= 7,
    ensures
        r@ == left@ + Seq::new((8 - left@.len() - right@.len()) as nat, |i: int| 0u64) + right@,
{
    let ghost l = left@;
    let ghost zeros = Seq::new((8 - left@.len() - right@.len()) as nat, |i: int| 0u64);
    let mut out: Vec<u64> = left;
    assert(l + zeros.take(0) =~= l);
    while out.len() < 8 - right.len()
        invariant
            l.len() + right@.len() <= 7,
            l.len() <= out@.len() <= 8 - right@.len(),
            zeros == Seq::new((8 - l.len() - right@.len()) as nat, |i: int| 0u64),
            out@ == l + zeros.take(out@.len() - l.len()),
        decreases 8 - out@.len(),
    {
        let ghost n = out@.len() - l.len();
        out.push(0);
        assert(zeros.take(n + 1) =~= zeros.take(n).push(0));
        assert(out@ =~= l + zeros.take(n + 1));
    }
    assert(zeros.take(zeros.len() as int) =~= zeros);
    let mut i: usize = 0;
    assert(l + zeros + right@.take(0) =~= l + zeros);
    while i < right.len()
        invariant
            i <= right@.len(),
            out@ == l + zeros + right@.take(i as int),
        decreases right@.len() - i,
    {
        out.push(right[i]);
        assert(l + zeros + right@.take(i + 1) =~= (l + zeros + right@.take(i as int)).push(
            right@[i as int],
        ));
        i = i + 1;
    }
    assert(right@.take(i as int) =~= right@);
    out
}

// ---------------------------------------------------------------------------
// Loopback
// ---------------------------------------------------------------------------

/// Whether the text is an address that stays on the machine: one of version 4 that begins
/// with 127, or the one of version 6 that ends in one and is zero else.
pub open spec fn is_loopback(s: Seq<char>) -> bool {
    match ipv4(s) {
        Some(numbers) => numbers[0] == 127,
        None => ipv6(s) == Some(seq![0nat, 0, 0, 0, 0, 0, 0, 1]),
    }
}

/// Decides whether the text is an address that stays on the machine.
pub fn ip_is_loopback(s: &str) -> (r: bool)
    ensures
        r == is_loopback(s@),
{
    match read_ipv4(s) {
        Some(v) => v[0] == 127,
        None => match read_ipv6(s) {
            Some(v) => {
                let ghost one = seq![0nat, 0, 0, 0, 0, 0, 0, 1];
                let r: bool = v.len() == 8 && v[0] == 0 && v[1] == 0 && v[2] == 0 && v[3] == 0
                    && v[4] == 0 && v[5] == 0 && v[6] == 0 && v[7] == 1;
                proof {
                    let numbers = ipv6(s@)->0;
                    if r {
                        assert(numbers =~= one);
                    } else if numbers == one {
                        assert(v@.len() == 8);
                        assert(v@[0] == 0 && v@[1] == 0 && v@[2] == 0 && v@[3] == 0 && v@[4] == 0
                            && v@[5] == 0 && v@[6] == 0 && v@[7] == 1);
                    }
                }
                r
            },
            None => false,
        },
    }
}

// ---------------------------------------------------------------------------
// Laws
// ---------------------------------------------------------------------------

proof fn lemma_octet_of_decimal(n: nat)
    requires
        n <= 255,
    ensures
        octet(text::decimal(n)) == Some(n),
        !text::decimal(n).contains('.'),
{
    text::law_decimal_is_read_back(n);
    text::law_decimal_is_read_back(n / 10);
    text::law_decimal_is_read_back(n / 10 / 10);
    let s = text::decimal(n);
    assert(s.len() <= 3) by {
        if n >= 10 {
            assert(s.len() == text::decimal(n / 10).len() + 1);
            if n >= 100 {
                assert(text::decimal(n / 10).len() == text::decimal(n / 10 / 10).len() + 1);
                assert(n / 10 / 10 < 10);
            }
        }
    }
    if s.contains('.') {
        let i = choose|i: int| 0 <= i < s.len() && s[i] == '.';
        assert('0' <= s[i] <= '9');
    }
}

proof fn lemma_dotted(a: Seq<char>, rest: Seq<char>)
    requires
        !a.contains('.'),
    ensures
        text::split_at_char(a + seq!['.'] + rest, '.') == seq![a] + text::split_at_char(rest, '.'),
        text::split_at_char(a, '.') == seq![a],
{
    let is_sep = text::is_char('.');
    assert forall|i: int| 0 <= i < a.len() implies !is_sep(#[trigger] a[i]) by {
        assert(a.contains(a[i]));
    }
    text::lemma_split_by_first(a, '.', rest, is_sep);
    text::law_split_at_separators(a, '.', rest, is_sep);
}

/// An address is read as the four numbers that are written between its dots, and stays on the
/// machine if and only if the first of them is 127.
pub proof fn law_dotted_address_is_read(a: nat, b: nat, c: nat, d: nat)
    requires
        a <= 255,
        b <= 255,
        c <= 255,
        d <= 255,
    ensures
        ({
            let s = text::decimal(a) + seq!['.'] + (text::decimal(b) + seq!['.'] + (text::decimal(c)
                + seq!['.'] + text::decimal(d)));
            &&& ipv4(s) == Some(seq![a, b, c, d])
            &&& is_loopback(s) <==> a == 127
        }),
{
    lemma_octet_of_decimal(a);
    lemma_octet_of_decimal(b);
    lemma_octet_of_decimal(c);
    lemma_octet_of_decimal(d);
    let sd = text::decimal(d);
    let sc = text::decimal(c) + seq!['.'] + sd;
    let sb = text::decimal(b) + seq!['.'] + sc;
    let s = text::decimal(a) + seq!['.'] + sb;
    lemma_dotted(sd, sd);
    lemma_dotted(text::decimal(c), sd);
    lemma_dotted(text::decimal(b), sc);
    lemma_dotted(text::decimal(a), sb);
    assert(text::split_at_char(s, '.') =~= seq![
        text::decimal(a),
        text::decimal(b),
        text::decimal(c),
        text::decimal(d),
    ]);
    assert(ipv4(s)->0 =~= seq![a, b, c, d]);
}

/// A number that is too large for its place, or that is written with a zero before it, makes no
/// address, and neither does any other number of dots than three.
pub proof fn law_other_dotted_texts_are_refused(s: Seq<char>, n: nat)
    ensures
        n > 255 ==> octet(text::decimal(n)) is None,
        octet(seq!['0'] + text::decimal(n)) is None,
        octet(Seq::empty()) is None,
        text::split_at_char(s, '.').len() != 4 ==> ipv4(s) is None,
        !s.contains('.') ==> ipv4(s) is None,
{
    text::law_decimal_is_read_back(n);
    let zero = seq!['0'] + text::decimal(n);
    assert(zero[0] == '0');
    if !s.contains('.') {
        lemma_dotted(s, s);
    }
}

/// A group of hexadecimal digits behind two colons is the last of eight groups of which the
/// others are zero; the address stays on the machine if and only if that group is one.
pub proof fn law_short_address_is_read(g: Seq<char>)
    requires
        hex_group(g) is Some,
    ensures
        ipv6("::"@ + g) == Some(
            seq![0nat, 0, 0, 0, 0, 0, 0, hex_group(g)->0],
        ),
        is_loopback("::"@ + g) <==> hex_group(g) == Some(1nat),
{
    reveal_strlit("::");
    let s = "::"@ + g;
    lemma_hex_digits(g);
    assert(!s.contains('.')) by {
        if s.contains('.') {
            let i = choose|i: int| 0 <= i < s.len() && s[i] == '.';
            if i >= 2 {
                assert(g[i - 2] == '.');
                assert(g.contains('.'));
            }
        }
    }
    lemma_dotted(s, s);
    assert(ipv4(s) is None);
    assert(s.subrange(0, 2) =~= "::"@);
    assert(text::occurs_at(s, "::"@, 0));
    reveal(text::first_occurrence);
    let at = text::first_occurrence(s, "::"@)->0;
    assert(text::occurs_at(s, "::"@, at) && forall|k: int|
        0 <= k < at ==> !#[trigger] text::occurs_at(s, "::"@, k));
    assert(text::first_occurrence(s, "::"@) == Some(0int));
    assert(s.take(0) =~= Seq::<char>::empty());
    assert(s.skip(2) =~= g);
    let is_sep = text::is_char(':');
    assert forall|i: int| 0 <= i < g.len() implies !is_sep(#[trigger] g[i]) by {
        assert(g.contains(g[i]));
    }
    text::law_split_at_separators(g, ':', g, is_sep);
    assert(text::split_at_char(g, ':') == seq![g]);
    reveal_with_fuel(groups, 2);
    assert(seq![g].drop_last() =~= Seq::empty());
    let n = hex_group(g)->0;
    assert(groups(seq![g], true)->0 =~= seq![n]);
    assert(groups_in(g, true) == Some(seq![n]));
    assert(ipv6(s)->0 =~= seq![0nat, 0, 0, 0, 0, 0, 0, n]);
    let one = seq![0nat, 0, 0, 0, 0, 0, 0, 1];
    let read = seq![0nat, 0, 0, 0, 0, 0, 0, n];
    if n == 1 {
        assert(read =~= one);
    } else {
        assert(read[7] != one[7]);
    }
}

proof fn lemma_hex_digits(g: Seq<char>)
    requires
        hex_number(g) is Some,
    ensures
        !g.contains('.'),
        !g.contains(':'),
    decreases g.len(),
{
    if g.len() > 0 {
        lemma_hex_digits(g.drop_last());
        if g.contains('.') {
            let i = choose|i: int| 0 <= i < g.len() && g[i] == '.';
            if i < g.len() - 1 {
                assert(g.drop_last()[i] == '.');
            }
        }
        if g.contains(':') {
            let i = choose|i: int| 0 <= i < g.len() && g[i] == ':';
            if i < g.len() - 1 {
                assert(g.drop_last()[i] == ':');
            }
        }
    }
}

/// Each further hexadecimal digit makes the number sixteen times as large and adds its value,
/// in either case of its letters.
pub proof fn law_hexadecimal_is_read(s: Seq<char>, c: char, v: nat)
    requires
        v < 16,
        v < 10 ==> c as int == '0' as int + v,
        v >= 10 ==> c as int == 'a' as int + v - 10 || c as int == 'A' as int + v - 10,
    ensures
        hex_number(Seq::empty()) == Some(0nat),
        hex_number(s) matches Some(n) ==> hex_number(s.push(c)) == Some(n * 16 + v),
        hex_number(s) is None ==> hex_number(s.push(c)) is None,
{
    assert(s.push(c).drop_last() =~= s);
}

} // verus!
