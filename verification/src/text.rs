//! Text as a sequence of characters: trimming, splitting, comparing, numbers
//! and hexadecimal.

use vstd::prelude::*;

verus! {

// ---------------------------------------------------------------------------
// Characters
// ---------------------------------------------------------------------------

/// Unicode white space.
pub open spec fn is_space(c: char) -> bool {
    let u = c as u32;
    ||| 0x09 <= u <= 0x0d
    ||| u == 0x20
    ||| u == 0x85
    ||| u == 0xa0
    ||| u == 0x1680
    ||| 0x2000 <= u <= 0x200a
    ||| u == 0x2028
    ||| u == 0x2029
    ||| u == 0x202f
    ||| u == 0x205f
    ||| u == 0x3000
}

pub fn char_is_space(c: char) -> (yes: bool)
    ensures
        yes == is_space(c),
{
    let u: u32 = c as u32;
    (0x09 <= u && u <= 0x0d) || u == 0x20 || u == 0x85 || u == 0xa0 || u == 0x1680 || (0x2000 <= u && u <= 0x200a)
        || u == 0x2028 || u == 0x2029 || u == 0x202f || u == 0x205f || u == 0x3000
}

/// `c` with an ASCII capital made small.
pub open spec fn lower(c: char) -> char {
    if 'A' <= c <= 'Z' {
        ((c as u32 + 32) as u32) as char
    } else {
        c
    }
}

pub fn char_lower(c: char) -> (out: char)
    ensures
        out == lower(c),
{
    if 'A' <= c && c <= 'Z' {
        ((c as u8) + 32) as char
    } else {
        c
    }
}

pub open spec fn is_digit(c: char) -> bool {
    '0' <= c <= '9'
}

/// What a hexadecimal digit is worth.
pub open spec fn hex_value(c: char) -> Option<nat> {
    if '0' <= c <= '9' {
        Some((c as u32 - '0' as u32) as nat)
    } else if 'a' <= c <= 'f' {
        Some((c as u32 - 'a' as u32 + 10) as nat)
    } else if 'A' <= c <= 'F' {
        Some((c as u32 - 'A' as u32 + 10) as nat)
    } else {
        None
    }
}

pub fn char_hex_value(c: char) -> (value: Option<u8>)
    ensures
        match value {
            Some(v) => hex_value(c) == Some(v as nat) && v < 16,
            None => hex_value(c) is None,
        },
{
    if '0' <= c && c <= '9' {
        Some(c as u8 - 48)
    } else if 'a' <= c && c <= 'f' {
        Some(c as u8 - 97 + 10)
    } else if 'A' <= c && c <= 'F' {
        Some(c as u8 - 65 + 10)
    } else {
        None
    }
}

/// The small hexadecimal digit for `v`.
pub open spec fn hex_digit(v: nat) -> char {
    if v < 10 {
        ((48 + v) as u32) as char
    } else {
        ((87 + v) as u32) as char
    }
}

pub fn char_hex_digit(v: u8) -> (c: char)
    requires
        v < 16,
    ensures
        c == hex_digit(v as nat),
{
    if v < 10 {
        (48 + v) as char
    } else {
        (87 + v) as char
    }
}

// ---------------------------------------------------------------------------
// Strings and characters
// ---------------------------------------------------------------------------

/// The characters of a string.
pub fn chars_of(s: &str) -> (out: Vec<char>)
    ensures
        out@ == s@,
{
    let mut out: Vec<char> = Vec::new();
    for c in it: s.chars()
        invariant
            out@ == it.seq().take(it.index() as int),
            it.seq() == s@,
    {
        out.push(c);
        assert(it.seq().take(it.index() as int).push(c) =~= it.seq().take(it.index() + 1));
    }
    assert(out@ =~= s@);
    out
}

/// `String::from_iter` over characters: the string made of them.
#[verifier::external_body]
pub(crate) fn string_of(chars: &[char]) -> (out: String)
    ensures
        out@ == chars@,
{
    String::from_iter(chars)
}

/// `std::str::from_utf8`: the text that some bytes encode, if they do.
#[verifier::external_body]
pub(crate) fn utf8_str(bytes: &[u8]) -> (text: Option<&str>)
    ensures
        match text {
            Some(text) => vstd::utf8::valid_utf8(bytes@) && text@ == vstd::utf8::decode_utf8(bytes@),
            None => !vstd::utf8::valid_utf8(bytes@),
        },
{
    std::str::from_utf8(bytes).ok()
}

/// The UTF-8 encoding of some characters.
pub fn utf8_bytes(chars: &[char]) -> (bytes: Vec<u8>)
    ensures
        bytes@ == vstd::utf8::encode_utf8(chars@),
{
    let text = string_of(chars);
    vstd::slice::slice_to_vec(text.as_str().as_bytes())
}

/// A string of its own with the characters of `s`.
pub fn text(s: &str) -> (out: String)
    ensures
        out@ == s@,
{
    string_of(&chars_of(s))
}

/// One text after the other.
pub fn joined(a: &str, b: &str) -> (out: String)
    ensures
        out@ == a@ + b@,
{
    let mut chars = chars_of(a);
    chars.extend_from_slice(&chars_of(b));
    assert(chars@ =~= a@ + b@);
    string_of(&chars)
}

/// Whether `name` is one of `names`, case aside.
pub open spec fn listed(names: Seq<String>, name: Seq<char>) -> bool {
    exists|i: int| 0 <= i < names.len() && lower_all(#[trigger] names[i]@) == lower_all(name)
}

pub fn is_listed(names: &Vec<String>, name: &[char]) -> (yes: bool)
    ensures
        yes == listed(names@, name@),
{
    let mut i: usize = 0;
    while i < names.len()
        invariant
            i <= names@.len(),
            forall|j: int| 0 <= j < i ==> lower_all(#[trigger] names@[j]@) != lower_all(name@),
        decreases names@.len() - i,
    {
        if same_ignoring_case(&chars_of(&names[i]), name) {
            return true;
        }
        i = i + 1;
    }
    false
}

/// The characters as a vector of their own.
pub fn owned(chars: &[char]) -> (out: Vec<char>)
    ensures
        out@ == chars@,
{
    vstd::slice::slice_to_vec(chars)
}

/// Whether two runs of characters are the same.
pub fn same(a: &[char], b: &[char]) -> (yes: bool)
    ensures
        yes == (a@ == b@),
{
    if a.len() != b.len() {
        return false;
    }
    let mut i: usize = 0;
    while i < a.len()
        invariant
            i <= a.len(),
            a@.len() == b@.len(),
            forall|j: int| 0 <= j < i ==> a@[j] == b@[j],
        decreases a.len() - i,
    {
        if a[i] != b[i] {
            return false;
        }
        i = i + 1;
    }
    assert(a@ =~= b@);
    true
}

/// Whether the characters spell this string.
pub fn spells(a: &[char], s: &str) -> (yes: bool)
    ensures
        yes == (a@ == s@),
{
    same(a, &chars_of(s))
}

/// `s` with its ASCII capitals made small.
pub open spec fn lower_all(s: Seq<char>) -> Seq<char> {
    Seq::new(s.len(), |i: int| lower(s[i]))
}

pub fn lowered(s: &[char]) -> (out: Vec<char>)
    ensures
        out@ == lower_all(s@),
{
    let mut out: Vec<char> = Vec::new();
    let mut i: usize = 0;
    while i < s.len()
        invariant
            i <= s.len(),
            out@ == lower_all(s@.take(i as int)),
        decreases s.len() - i,
    {
        out.push(char_lower(s[i]));
        i = i + 1;
        assert(out@ =~= lower_all(s@.take(i as int)));
    }
    assert(s@.take(i as int) =~= s@);
    out
}

/// Whether two runs of characters differ at most in ASCII case.
pub fn same_ignoring_case(a: &[char], b: &[char]) -> (yes: bool)
    ensures
        yes == (lower_all(a@) == lower_all(b@)),
{
    same(&lowered(a), &lowered(b))
}

// ---------------------------------------------------------------------------
// Trimming
// ---------------------------------------------------------------------------

pub open spec fn trim_front(s: Seq<char>) -> Seq<char>
    decreases s.len(),
{
    if s.len() > 0 && is_space(s[0]) {
        trim_front(s.skip(1))
    } else {
        s
    }
}

pub open spec fn trim_back(s: Seq<char>) -> Seq<char>
    decreases s.len(),
{
    if s.len() > 0 && is_space(s.last()) {
        trim_back(s.drop_last())
    } else {
        s
    }
}

/// `s` without white space at its ends.
pub open spec fn trim(s: Seq<char>) -> Seq<char> {
    trim_back(trim_front(s))
}

pub fn trimmed(s: &[char]) -> (out: &[char])
    ensures
        out@ == trim(s@),
        out@.len() <= s@.len(),
{
    let mut from: usize = 0;
    assert(s@.skip(0) =~= s@);
    while from < s.len() && char_is_space(s[from])
        invariant
            from <= s.len(),
            trim_front(s@) == trim_front(s@.skip(from as int)),
        decreases s.len() - from,
    {
        assert(s@.skip(from as int).skip(1) =~= s@.skip(from + 1));
        from = from + 1;
    }
    let ghost front = s@.skip(from as int);
    let mut to: usize = s.len();
    assert(front =~= s@.subrange(from as int, to as int));
    while to > from && char_is_space(s[to - 1])
        invariant
            from <= to <= s.len(),
            trim_back(front) == trim_back(s@.subrange(from as int, to as int)),
        decreases to,
    {
        assert(s@.subrange(from as int, to as int).drop_last() =~= s@.subrange(from as int, to - 1));
        to = to - 1;
    }
    vstd::slice::slice_subrange(s, from, to)
}

/// `s` without the prefix `p` as often as it stands there.
pub open spec fn trim_prefixes(s: Seq<char>, p: Seq<char>) -> Seq<char>
    decreases s.len(),
{
    if 0 < p.len() <= s.len() && s.take(p.len() as int) == p {
        trim_prefixes(s.skip(p.len() as int), p)
    } else {
        s
    }
}

/// Whether `s` begins with `p`.
pub fn begins_with(s: &[char], p: &[char]) -> (yes: bool)
    ensures
        yes == (p@.len() <= s@.len() && s@.take(p@.len() as int) == p@),
{
    if s.len() < p.len() {
        return false;
    }
    let head = vstd::slice::slice_subrange(s, 0, p.len());
    assert(head@ =~= s@.take(p@.len() as int));
    same(head, p)
}

/// The characters from `from` on.
pub fn after(s: &[char], from: usize) -> (out: &[char])
    requires
        from <= s@.len(),
    ensures
        out@ == s@.skip(from as int),
{
    let out = vstd::slice::slice_subrange(s, from, s.len());
    assert(out@ =~= s@.skip(from as int));
    out
}

/// The first `to` characters.
pub fn before(s: &[char], to: usize) -> (out: &[char])
    requires
        to <= s@.len(),
    ensures
        out@ == s@.take(to as int),
{
    let out = vstd::slice::slice_subrange(s, 0, to);
    assert(out@ =~= s@.take(to as int));
    out
}

pub fn without_prefixes<'a>(s: &'a [char], p: &[char]) -> (out: &'a [char])
    requires
        p@.len() > 0,
    ensures
        out@ == trim_prefixes(s@, p@),
        out@.len() <= s@.len(),
{
    let mut rest = s;
    while begins_with(rest, p)
        invariant
            p@.len() > 0,
            trim_prefixes(rest@, p@) == trim_prefixes(s@, p@),
            rest@.len() <= s@.len(),
        decreases rest@.len(),
    {
        rest = after(rest, p.len());
    }
    rest
}

// ---------------------------------------------------------------------------
// Finding
// ---------------------------------------------------------------------------

/// Where `c` stands first in `s`.
pub open spec fn first_place(s: Seq<char>, c: char) -> Option<int>
    decreases s.len(),
{
    if s.len() == 0 {
        None
    } else if s[0] == c {
        Some(0)
    } else {
        match first_place(s.skip(1), c) {
            Some(at) => Some(at + 1),
            None => None,
        }
    }
}

/// Where `c` stands last in `s`.
pub open spec fn last_place(s: Seq<char>, c: char) -> Option<int>
    decreases s.len(),
{
    if s.len() == 0 {
        None
    } else if s.last() == c {
        Some(s.len() - 1)
    } else {
        last_place(s.drop_last(), c)
    }
}

pub fn find_first(s: &[char], c: char) -> (place: Option<usize>)
    ensures
        match place {
            Some(place) => first_place(s@, c) == Some(place as int) && place < s@.len(),
            None => first_place(s@, c) is None,
        },
{
    let mut i: usize = 0;
    assert(s@.skip(0) =~= s@);
    while i < s.len()
        invariant
            i <= s.len(),
            first_place(s@, c) == (match first_place(s@.skip(i as int), c) {
                Some(at) => Some(at + i),
                None => None,
            }),
        decreases s.len() - i,
    {
        assert(s@.skip(i as int).skip(1) =~= s@.skip(i + 1));
        if s[i] == c {
            return Some(i);
        }
        i = i + 1;
    }
    None
}

pub fn find_last(s: &[char], c: char) -> (place: Option<usize>)
    ensures
        match place {
            Some(place) => last_place(s@, c) == Some(place as int) && place < s@.len(),
            None => last_place(s@, c) is None,
        },
{
    let mut n: usize = s.len();
    assert(s@.take(n as int) =~= s@);
    while n > 0
        invariant
            n <= s.len(),
            last_place(s@, c) == last_place(s@.take(n as int), c),
        decreases n,
    {
        assert(s@.take(n as int).drop_last() =~= s@.take(n - 1));
        if s[n - 1] == c {
            return Some(n - 1);
        }
        n = n - 1;
    }
    None
}

// ---------------------------------------------------------------------------
// Splitting
// ---------------------------------------------------------------------------

/// The pieces of `s` between characters of `seps`; one more than there are
/// such characters.
pub open spec fn split(s: Seq<char>, seps: Seq<char>) -> Seq<Seq<char>>
    decreases s.len(),
{
    if s.len() == 0 {
        seq![Seq::empty()]
    } else {
        let left = split(s.drop_last(), seps);
        if seps.contains(s.last()) {
            left.push(Seq::empty())
        } else {
            left.drop_last().push(left.last().push(s.last()))
        }
    }
}

/// The longest runs of `s` without white space.
pub open spec fn words(s: Seq<char>) -> Seq<Seq<char>>
    decreases s.len(),
{
    if s.len() == 0 {
        Seq::empty()
    } else {
        let left = words(s.drop_last());
        if is_space(s.last()) {
            left
        } else if s.len() == 1 || is_space(s[s.len() - 2]) {
            left.push(seq![s.last()])
        } else {
            left.drop_last().push(left.last().push(s.last()))
        }
    }
}

/// The contents of some strings.
pub open spec fn string_views(v: Seq<String>) -> Seq<Seq<char>> {
    Seq::new(v.len(), |i: int| v[i]@)
}

/// The contents of some vectors of characters.
pub open spec fn views(v: Seq<Vec<char>>) -> Seq<Seq<char>> {
    Seq::new(v.len(), |i: int| v[i]@)
}

pub proof fn lemma_split_nonempty(s: Seq<char>, seps: Seq<char>)
    ensures
        split(s, seps).len() > 0,
    decreases s.len(),
{
    if s.len() > 0 {
        lemma_split_nonempty(s.drop_last(), seps);
    }
}

/// There are no more pieces than characters, and one.
pub proof fn lemma_split_len(s: Seq<char>, seps: Seq<char>)
    ensures
        1 <= split(s, seps).len() <= s.len() + 1,
    decreases s.len(),
{
    if s.len() > 0 {
        lemma_split_len(s.drop_last(), seps);
    }
}

/// Whether `c` is among `set`.
pub fn is_one_of(c: char, set: &[char]) -> (yes: bool)
    ensures
        yes == set@.contains(c),
{
    let mut i: usize = 0;
    while i < set.len()
        invariant
            i <= set.len(),
            forall|j: int| 0 <= j < i ==> set@[j] != c,
        decreases set.len() - i,
    {
        if set[i] == c {
            return true;
        }
        i = i + 1;
    }
    false
}

pub fn split_at(s: &[char], seps: &[char]) -> (out: Vec<Vec<char>>)
    ensures
        views(out@) == split(s@, seps@),
        out@.len() > 0,
{
    let mut out: Vec<Vec<char>> = Vec::new();
    let mut current: Vec<char> = Vec::new();
    let mut i: usize = 0;
    assert(s@.take(0) =~= Seq::empty());
    assert(views(out@).push(current@) =~= split(s@.take(0), seps@));
    while i < s.len()
        invariant
            i <= s.len(),
            views(out@).push(current@) == split(s@.take(i as int), seps@),
        decreases s.len() - i,
    {
        let ghost left = split(s@.take(i as int), seps@);
        assert(s@.take(i + 1).drop_last() =~= s@.take(i as int));
        assert(left.drop_last() =~= views(out@) && left.last() == current@);
        if is_one_of(s[i], seps) {
            out.push(current);
            current = Vec::new();
            assert(views(out@) =~= left);
            assert(current@ =~= Seq::empty());
        } else {
            current.push(s[i]);
        }
        i = i + 1;
    }
    assert(s@.take(i as int) =~= s@);
    let ghost before = views(out@).push(current@);
    out.push(current);
    assert(views(out@) =~= before);
    out
}

pub fn split_words(s: &[char]) -> (out: Vec<Vec<char>>)
    ensures
        views(out@) == words(s@),
{
    let mut out: Vec<Vec<char>> = Vec::new();
    let mut current: Vec<char> = Vec::new();
    let mut i: usize = 0;
    assert(views(out@) =~= words(s@.take(0)));
    while i < s.len()
        invariant
            i <= s.len(),
            current@.len() == 0 ==> views(out@) == words(s@.take(i as int)),
            current@.len() > 0 ==> views(out@).push(current@) == words(s@.take(i as int)),
            current@.len() == 0 <==> (i == 0 || is_space(s@[i - 1])),
        decreases s.len() - i,
    {
        let ghost left = words(s@.take(i as int));
        assert(s@.take(i + 1).drop_last() =~= s@.take(i as int));
        assert(s@.take(i + 1).last() == s@[i as int]);
        assert(i > 0 ==> s@.take(i + 1)[i - 1] == s@[i - 1]);
        if char_is_space(s[i]) {
            if current.len() > 0 {
                out.push(current);
                current = Vec::new();
                assert(views(out@) =~= left);
            }
        } else {
            if current.len() > 0 {
                assert(left.drop_last() =~= views(out@) && left.last() == current@);
            }
            let ghost prior = current@;
            current.push(s[i]);
            proof {
                if prior.len() == 0 {
                    assert(current@ =~= seq![s@[i as int]]);
                }
            }
        }
        i = i + 1;
    }
    assert(s@.take(i as int) =~= s@);
    if current.len() > 0 {
        let ghost before = views(out@).push(current@);
        out.push(current);
        assert(views(out@) =~= before);
    }
    out
}

// ---------------------------------------------------------------------------
// Numbers
// ---------------------------------------------------------------------------

/// The number that decimal digits spell.
pub open spec fn digits_value(s: Seq<char>) -> nat
    decreases s.len(),
{
    if s.len() == 0 {
        0
    } else {
        digits_value(s.drop_last()) * 10 + (s.last() as u32 - '0' as u32) as nat
    }
}

pub open spec fn all_digits(s: Seq<char>) -> bool {
    forall|i: int| 0 <= i < s.len() ==> is_digit(#[trigger] s[i])
}

/// An optional `+` and at least one digit, worth at most `max`.
pub open spec fn number(s: Seq<char>, max: nat) -> Option<nat> {
    let digits = if s.len() > 0 && s[0] == '+' {
        s.skip(1)
    } else {
        s
    };
    if digits.len() > 0 && all_digits(digits) && digits_value(digits) <= max {
        Some(digits_value(digits))
    } else {
        None
    }
}

pub fn parse_number(s: &[char], max: u64) -> (value: Option<u64>)
    ensures
        match value {
            Some(v) => number(s@, max as nat) == Some(v as nat),
            None => number(s@, max as nat) is None,
        },
{
    let digits = if s.len() > 0 && s[0] == '+' {
        after(s, 1)
    } else {
        s
    };
    if digits.len() == 0 {
        return None;
    }
    let mut value: u64 = 0;
    let mut over: bool = false;
    let mut i: usize = 0;
    while i < digits.len()
        invariant
            i <= digits.len(),
            digits@.len() > 0,
            digits@ == (if s@.len() > 0 && s@[0] == '+' {
                s@.skip(1)
            } else {
                s@
            }),
            forall|j: int| 0 <= j < i ==> is_digit(#[trigger] digits@[j]),
            !over ==> value == digits_value(digits@.take(i as int)) && value <= max,
            over ==> digits_value(digits@.take(i as int)) > max,
        decreases digits.len() - i,
    {
        let c = digits[i];
        if !('0' <= c && c <= '9') {
            assert(!is_digit(digits@[i as int]));
            return None;
        }
        let digit: u64 = (c as u8 - 48) as u64;
        proof {
            assert(digits@.take(i + 1).drop_last() =~= digits@.take(i as int));
            assert(digits@.take(i + 1).last() == c);
        }
        if !over {
            if value > (max - if digit > max { max } else { digit }) / 10 {
                over = true;
            } else if digit > max {
                over = true;
            } else {
                value = value * 10 + digit;
            }
        }
        i = i + 1;
    }
    assert(digits@.take(i as int) =~= digits@);
    if over {
        None
    } else {
        Some(value)
    }
}

/// `n` written in decimal.
pub open spec fn decimal(n: nat) -> Seq<char>
    decreases n,
{
    if n < 10 {
        seq![((48 + n) as u32) as char]
    } else {
        decimal(n / 10).push(((48 + n % 10) as u32) as char)
    }
}

pub fn decimal_chars(n: u64) -> (out: Vec<char>)
    ensures
        out@ == decimal(n as nat),
    decreases n,
{
    if n < 10 {
        let mut out: Vec<char> = Vec::new();
        out.push((48 + n as u8) as char);
        assert(out@ =~= decimal(n as nat));
        out
    } else {
        let mut out = decimal_chars(n / 10);
        out.push((48 + (n % 10) as u8) as char);
        out
    }
}

// ---------------------------------------------------------------------------
// Hexadecimal
// ---------------------------------------------------------------------------

pub open spec fn all_hex(s: Seq<char>) -> bool {
    forall|i: int| 0 <= i < s.len() ==> hex_value(#[trigger] s[i]) is Some
}

/// The bytes that pairs of hexadecimal digits spell.
pub open spec fn hex_bytes(s: Seq<char>) -> Seq<u8> {
    Seq::new(
        (s.len() / 2) as nat,
        |i: int| (hex_value(s[2 * i])->0 * 16 + hex_value(s[2 * i + 1])->0) as u8,
    )
}

/// Two small hexadecimal digits for each byte.
pub open spec fn hex_text(bytes: Seq<u8>) -> Seq<char> {
    Seq::new(
        bytes.len() * 2,
        |i: int|
            if i % 2 == 0 {
                hex_digit((bytes[i / 2] / 16) as nat)
            } else {
                hex_digit((bytes[i / 2] % 16) as nat)
            },
    )
}

pub fn is_all_hex(s: &[char]) -> (yes: bool)
    ensures
        yes == all_hex(s@),
{
    let mut i: usize = 0;
    while i < s.len()
        invariant
            i <= s.len(),
            forall|j: int| 0 <= j < i ==> hex_value(#[trigger] s@[j]) is Some,
        decreases s.len() - i,
    {
        if char_hex_value(s[i]).is_none() {
            assert(hex_value(s@[i as int]) is None);
            return false;
        }
        i = i + 1;
    }
    true
}

pub fn parse_hex(s: &[char]) -> (out: Vec<u8>)
    requires
        s@.len() % 2 == 0,
        all_hex(s@),
    ensures
        out@ == hex_bytes(s@),
{
    let mut out: Vec<u8> = Vec::new();
    let mut i: usize = 0;
    while i < s.len()
        invariant
            i <= s.len(),
            i % 2 == 0,
            s@.len() % 2 == 0,
            all_hex(s@),
            out@.len() == i / 2,
            forall|j: int| 0 <= j < out@.len() ==> #[trigger] out@[j] == hex_bytes(s@)[j],
        decreases s.len() - i,
    {
        assert(hex_value(s@[i as int]) is Some && hex_value(s@[i + 1]) is Some);
        let high: u8 = char_hex_value(s[i]).unwrap();
        let low: u8 = char_hex_value(s[i + 1]).unwrap();
        assert(hex_bytes(s@)[(i / 2) as int] == (high * 16 + low) as u8) by {
            assert(2 * ((i / 2) as int) == i);
        }
        out.push(high * 16 + low);
        i = i + 2;
    }
    assert(out@ =~= hex_bytes(s@));
    out
}

pub fn hex_chars(bytes: &[u8]) -> (out: Vec<char>)
    ensures
        out@ == hex_text(bytes@),
{
    let mut out: Vec<char> = Vec::new();
    let mut i: usize = 0;
    while i < bytes.len()
        invariant
            i <= bytes.len(),
            out@ == hex_text(bytes@.take(i as int)),
        decreases bytes.len() - i,
    {
        out.push(char_hex_digit(bytes[i] / 16));
        out.push(char_hex_digit(bytes[i] % 16));
        i = i + 1;
        assert(out@ =~= hex_text(bytes@.take(i as int)));
    }
    assert(bytes@.take(i as int) =~= bytes@);
    out
}

/// Hexadecimal text reads back as the bytes that it was made of.
pub proof fn law_hex_roundtrip(bytes: Seq<u8>)
    ensures
        hex_text(bytes).len() == 2 * bytes.len(),
        all_hex(hex_text(bytes)),
        hex_bytes(hex_text(bytes)) == bytes,
{
    let t = hex_text(bytes);
    assert forall|i: int| 0 <= i < bytes.len() implies hex_bytes(t)[i] == bytes[i] by {
        assert((2 * i) / 2 == i && (2 * i) % 2 == 0 && (2 * i + 1) / 2 == i && (2 * i + 1) % 2 == 1);
        assert(t[2 * i] == hex_digit((bytes[i] / 16) as nat));
        assert(t[2 * i + 1] == hex_digit((bytes[i] % 16) as nat));
    }
    assert(hex_bytes(t) =~= bytes);
}

/// Whether `p` stands somewhere in `s`.
pub open spec fn holds(s: Seq<char>, p: Seq<char>) -> bool {
    exists|i: int| 0 <= i && i + p.len() <= s.len() && #[trigger] s.subrange(i, i + p.len()) == p
}

pub fn holds_text(s: &[char], p: &[char]) -> (yes: bool)
    ensures
        yes == holds(s@, p@),
{
    if p.len() > s.len() {
        return false;
    }
    let mut i: usize = 0;
    while i <= s.len() - p.len()
        invariant
            p@.len() <= s.len(),
            i <= s.len() - p@.len() + 1,
            forall|j: int| 0 <= j < i ==> #[trigger] s@.subrange(j, j + p@.len()) != p@,
        decreases s.len() + 1 - i,
    {
        let piece = before(after(s, i), p.len());
        assert(piece@ =~= s@.subrange(i as int, i + p@.len()));
        if same(piece, p) {
            return true;
        }
        if i == s.len() - p.len() {
            return false;
        }
        i = i + 1;
    }
    false
}

} // verus!
