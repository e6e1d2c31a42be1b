//! What the functions on text keep of it.

use vstd::prelude::*;

use crate::net::{octet_text, parse_ipv4, v4_octets};
use crate::text::{
    all_digits, all_hex, char_hex_digit, char_hex_value, char_is_space, char_lower, decimal, decimal_chars,
    digits_value, find_first, find_last, first_place, hex_chars, holds_text, is_digit, is_space, last_place,
    lemma_split_nonempty, lower, lower_all, lowered, parse_hex, parse_number, same_ignoring_case, split, split_at,
    trim_back, trim_front, trimmed, views, words,
};

verus! {

/// Blanks, tabs and the ends of lines are white space; so are a few other
/// characters of Unicode, and none that can be seen.
pub proof fn law_white_space(c: char, yes: bool)
    requires
        call_ensures(char_is_space, (c,), yes),
    ensures
        c == ' ' || c == '\t' || c == '\n' || c == '\r' || c == '\u{b}' || c == '\u{c}' ==> yes,
        c == '\u{85}' || c == '\u{a0}' || c == '\u{3000}' || c == '\u{2028}' || c == '\u{2029}' ==> yes,
        '!' <= c <= '~' ==> !yes,
        yes ==> c < '!' || c >= '\u{85}',
{
}

/// Capital letters of ASCII are made small, and nothing else changes.
pub proof fn law_small_letters(c: char, out: char, s: &[char], all: Vec<char>, i: int)
    requires
        call_ensures(char_lower, (c,), out),
        call_ensures(lowered, (s,), all),
    ensures
        'A' <= c <= 'Z' ==> out as int == c as int + 32,
        !('A' <= c <= 'Z') ==> out == c,
        all@.len() == s@.len(),
        0 <= i < s@.len() && !('A' <= s@[i] <= 'Z') ==> all@[i] == s@[i],
        0 <= i < s@.len() && 'A' <= s@[i] <= 'Z' ==> all@[i] as int == s@[i] as int + 32,
        lower_all(lower_all(s@)) == lower_all(s@),
{
    assert(lower_all(lower_all(s@)) =~= lower_all(s@));
}

/// Names are compared without regard to capital letters: small letters make
/// no difference, anything else does.
pub proof fn law_same_ignoring_case(a: &[char], b: &[char], yes: bool)
    requires
        call_ensures(same_ignoring_case, (a, b), yes),
    ensures
        a@ == b@ ==> yes,
        yes <==> a@.len() == b@.len() && forall|i: int| 0 <= i < a@.len() ==> lower(#[trigger] a@[i]) == lower(b@[i]),
{
    if yes {
        assert forall|i: int| 0 <= i < a@.len() implies lower(#[trigger] a@[i]) == lower(b@[i]) by {
            assert(lower_all(a@)[i] == lower_all(b@)[i]);
        }
        assert(lower_all(a@).len() == lower_all(b@).len());
    } else if a@.len() == b@.len() && forall|i: int|
        0 <= i < a@.len() ==> lower(#[trigger] a@[i]) == lower(b@[i]) {
        assert(lower_all(a@) =~= lower_all(b@));
    }
}

proof fn lemma_trim_front(s: Seq<char>) -> (from: int)
    ensures
        0 <= from <= s.len(),
        trim_front(s) == s.skip(from),
        forall|i: int| 0 <= i < from ==> is_space(#[trigger] s[i]),
        from < s.len() ==> !is_space(s[from]),
    decreases s.len(),
{
    if s.len() > 0 && is_space(s[0]) {
        let rest = s.skip(1);
        let from = lemma_trim_front(rest);
        assert(rest.skip(from) =~= s.skip(from + 1));
        assert forall|i: int| 0 <= i < from + 1 implies is_space(#[trigger] s[i]) by {
            if i > 0 {
                assert(rest[i - 1] == s[i]);
            }
        }
        from + 1
    } else {
        assert(s.skip(0) =~= s);
        0
    }
}

proof fn lemma_trim_back(s: Seq<char>) -> (to: int)
    ensures
        0 <= to <= s.len(),
        trim_back(s) == s.take(to),
        forall|i: int| to <= i < s.len() ==> is_space(#[trigger] s[i]),
        to > 0 ==> !is_space(s[to - 1]),
    decreases s.len(),
{
    if s.len() > 0 && is_space(s.last()) {
        let rest = s.drop_last();
        let to = lemma_trim_back(rest);
        assert(rest.take(to) =~= s.take(to));
        assert forall|i: int| to <= i < s.len() implies is_space(#[trigger] s[i]) by {
            if i < rest.len() {
                assert(rest[i] == s[i]);
            }
        }
        to
    } else {
        assert(s.take(s.len() as int) =~= s);
        s.len() as int
    }
}

/// Trimming takes white space from both ends, and nothing else: what is left
/// stood in the text, and neither begins nor ends with white space.
pub proof fn law_trimming(s: &[char], out: &[char])
    requires
        call_ensures(trimmed, (s,), out),
    ensures
        exists|from: int, to: int|
            #![trigger s@.subrange(from, to)]
            {
                &&& 0 <= from <= to <= s@.len()
                &&& out@ == s@.subrange(from, to)
                &&& forall|i: int| 0 <= i < from ==> is_space(#[trigger] s@[i])
                &&& forall|i: int| to <= i < s@.len() ==> is_space(#[trigger] s@[i])
            },
        out@.len() > 0 ==> !is_space(out@[0]) && !is_space(out@.last()),
{
    let from = lemma_trim_front(s@);
    let rest = s@.skip(from);
    let len = lemma_trim_back(rest);
    let to = from + len;
    assert(rest.take(len) =~= s@.subrange(from, to));
    assert forall|i: int| to <= i < s@.len() implies is_space(#[trigger] s@[i]) by {
        assert(rest[i - from] == s@[i]);
    }
    if len > 0 {
        assert(rest[0] == s@[from]);
    }
}

/// Text without a separator is one piece, and text with one between is the
/// pieces of what stands before it and of what stands behind it.
pub proof fn lemma_split_around(a: Seq<char>, c: char, b: Seq<char>, seps: Seq<char>)
    requires
        seps.contains(c),
    ensures
        split(a.push(c) + b, seps) == split(a, seps) + split(b, seps),
    decreases b.len(),
{
    let s = a.push(c) + b;
    if b.len() == 0 {
        assert(s =~= a.push(c));
        assert(s.drop_last() =~= a);
        assert(split(b, seps) =~= seq![Seq::<char>::empty()]);
        assert(split(s, seps) =~= split(a, seps) + split(b, seps));
    } else {
        let b0 = b.drop_last();
        lemma_split_around(a, c, b0, seps);
        assert(s.drop_last() =~= a.push(c) + b0);
        assert(s.last() == b.last());
        lemma_split_nonempty(b0, seps);
        let left = split(a.push(c) + b0, seps);
        assert(left.last() == split(b0, seps).last());
        assert(split(s, seps) =~= split(a, seps) + split(b, seps));
    }
}

pub proof fn lemma_split_whole(s: Seq<char>, seps: Seq<char>)
    requires
        forall|i: int| 0 <= i < s.len() ==> !seps.contains(#[trigger] s[i]),
    ensures
        split(s, seps) == seq![s],
    decreases s.len(),
{
    if s.len() > 0 {
        let t = s.drop_last();
        assert forall|i: int| 0 <= i < t.len() implies !seps.contains(#[trigger] t[i]) by {
            assert(t[i] == s[i]);
        }
        lemma_split_whole(t, seps);
        assert(!seps.contains(s[s.len() - 1]));
        assert(t.push(s.last()) =~= s);
        assert(split(s, seps) =~= seq![s]);
    } else {
        assert(s =~= Seq::<char>::empty());
    }
}

/// Splitting gives the pieces between the separators, all of them and in
/// their order.
pub proof fn law_splitting(
    s: &[char],
    seps: &[char],
    pieces: Vec<Vec<char>>,
    a: Seq<char>,
    c: char,
    b: Seq<char>,
)
    requires
        call_ensures(split_at, (s, seps), pieces),
    ensures
        (forall|i: int| 0 <= i < s@.len() ==> !seps@.contains(#[trigger] s@[i])) ==> views(pieces@) == seq![s@],
        seps@.contains(c) && s@ == a.push(c) + b ==> views(pieces@) == split(a, seps@) + split(b, seps@),
        forall|i: int, k: int|
            0 <= i < pieces@.len() && 0 <= k < pieces@[i]@.len() ==> !seps@.contains(#[trigger] pieces@[i]@[k]),
{
    if forall|i: int| 0 <= i < s@.len() ==> !seps@.contains(#[trigger] s@[i]) {
        lemma_split_whole(s@, seps@);
    }
    if seps@.contains(c) && s@ == a.push(c) + b {
        lemma_split_around(a, c, b, seps@);
    }
    lemma_split_clean(s@, seps@);
    assert forall|i: int, k: int| 0 <= i < pieces@.len() && 0 <= k < pieces@[i]@.len() implies !seps@.contains(
        #[trigger] pieces@[i]@[k],
    ) by {
        assert(views(pieces@)[i] == pieces@[i]@);
        assert(!seps@.contains(split(s@, seps@)[i][k]));
    }
}

proof fn lemma_split_clean(s: Seq<char>, seps: Seq<char>)
    ensures
        forall|i: int, k: int|
            0 <= i < split(s, seps).len() && 0 <= k < split(s, seps)[i].len() ==> !seps.contains(
                #[trigger] split(s, seps)[i][k],
            ),
    decreases s.len(),
{
    if s.len() > 0 {
        let left = split(s.drop_last(), seps);
        lemma_split_clean(s.drop_last(), seps);
        lemma_split_nonempty(s.drop_last(), seps);
        let all = split(s, seps);
        assert forall|i: int, k: int| 0 <= i < all.len() && 0 <= k < all[i].len() implies !seps.contains(
            #[trigger] all[i][k],
        ) by {
            if seps.contains(s.last()) {
                if i < left.len() {
                    assert(all[i][k] == left[i][k]);
                }
            } else if i < left.len() - 1 {
                assert(all[i][k] == left[i][k]);
            } else if k < left.last().len() {
                assert(all[i][k] == left[i][k]);
            }
        }
    }
}

/// A character is found where it stands first, or last, or nowhere.
pub proof fn law_finding(s: &[char], c: char, first: Option<usize>, last: Option<usize>)
    requires
        call_ensures(find_first, (s, c), first),
        call_ensures(find_last, (s, c), last),
    ensures
        match first {
            Some(at) => at < s@.len() && s@[at as int] == c && forall|i: int| 0 <= i < at ==> #[trigger] s@[i] != c,
            None => forall|i: int| 0 <= i < s@.len() ==> #[trigger] s@[i] != c,
        },
        match last {
            Some(at) => at < s@.len() && s@[at as int] == c && forall|i: int|
                at < i < s@.len() ==> #[trigger] s@[i] != c,
            None => forall|i: int| 0 <= i < s@.len() ==> #[trigger] s@[i] != c,
        },
{
    lemma_first_place(s@, c);
    lemma_last_place(s@, c);
}

pub proof fn lemma_first_place(s: Seq<char>, c: char)
    ensures
        match first_place(s, c) {
            Some(at) => 0 <= at < s.len() && s[at] == c && forall|i: int| 0 <= i < at ==> #[trigger] s[i] != c,
            None => forall|i: int| 0 <= i < s.len() ==> #[trigger] s[i] != c,
        },
    decreases s.len(),
{
    if s.len() > 0 && s[0] != c {
        let t = s.skip(1);
        lemma_first_place(t, c);
        match first_place(t, c) {
            Some(at) => {
                assert forall|i: int| 0 <= i < at + 1 implies #[trigger] s[i] != c by {
                    if i > 0 {
                        assert(t[i - 1] == s[i]);
                    }
                }
            },
            None => {
                assert forall|i: int| 0 <= i < s.len() implies #[trigger] s[i] != c by {
                    if i > 0 {
                        assert(t[i - 1] == s[i]);
                    }
                }
            },
        }
    }
}

pub proof fn lemma_last_place(s: Seq<char>, c: char)
    ensures
        match last_place(s, c) {
            Some(at) => 0 <= at < s.len() && s[at] == c && forall|i: int| at < i < s.len() ==> #[trigger] s[i] != c,
            None => forall|i: int| 0 <= i < s.len() ==> #[trigger] s[i] != c,
        },
    decreases s.len(),
{
    if s.len() > 0 && s.last() != c {
        let t = s.drop_last();
        lemma_last_place(t, c);
        match last_place(t, c) {
            Some(at) => {
                assert forall|i: int| at < i < s.len() implies #[trigger] s[i] != c by {
                    if i < t.len() {
                        assert(t[i] == s[i]);
                    }
                }
            },
            None => {
                assert forall|i: int| 0 <= i < s.len() implies #[trigger] s[i] != c by {
                    if i < t.len() {
                        assert(t[i] == s[i]);
                    }
                }
            },
        }
    }
}

proof fn lemma_decimal(n: nat)
    ensures
        decimal(n).len() > 0,
        all_digits(decimal(n)),
        digits_value(decimal(n)) == n,
        n > 0 ==> decimal(n)[0] != '0',
        n < 10 ==> decimal(n).len() == 1,
        10 <= n < 100 ==> decimal(n).len() == 2,
        100 <= n < 1000 ==> decimal(n).len() == 3,
    decreases n,
{
    let d = decimal(n);
    if n < 10 {
        assert(d.drop_last() =~= Seq::<char>::empty());
        reveal_with_fuel(digits_value, 2);
    } else {
        lemma_decimal(n / 10);
        assert(d.drop_last() =~= decimal(n / 10));
        assert(d[0] == decimal(n / 10)[0]);
        assert forall|i: int| 0 <= i < d.len() implies is_digit(#[trigger] d[i]) by {
            if i < d.len() - 1 {
                assert(decimal(n / 10)[i] == d[i]);
            }
        }
    }
}

/// A number is read as it is written: digits from 0 to 9, the highest first,
/// no zero before them, a plus sign or none.
pub proof fn law_numbers(n: u64, out: Vec<char>, s: &[char], max: u64, value: Option<u64>)
    requires
        call_ensures(decimal_chars, (n,), out),
        call_ensures(parse_number, (s, max), value),
    ensures
        out@.len() > 0,
        forall|i: int| 0 <= i < out@.len() ==> '0' <= #[trigger] out@[i] <= '9',
        n > 0 ==> out@[0] != '0',
        n < 10 ==> out@.len() == 1 && out@[0] as int == 48 + n,
        s@ == out@ && n <= max ==> value == Some(n),
        s@ == seq!['+'] + out@ && n <= max ==> value == Some(n),
        (s@ == out@ || s@ == seq!['+'] + out@) && n > max ==> value is None,
        s@.len() == 0 ==> value is None,
        value matches Some(value) ==> value <= max,
        (exists|i: int| 0 < i < s@.len() && !('0' <= #[trigger] s@[i] <= '9')) ==> value is None,
{
    lemma_decimal(n as nat);
    let d = out@;
    assert forall|i: int| 0 <= i < d.len() implies '0' <= #[trigger] d[i] <= '9' by {
        assert(is_digit(d[i]));
    }
    if s@ == seq!['+'] + d {
        assert(s@.skip(1) =~= d);
    }
    if s@ == d {
        assert(is_digit(d[0]));
    }
    if exists|i: int| 0 < i < s@.len() && !('0' <= #[trigger] s@[i] <= '9') {
        let i = choose|i: int| 0 < i < s@.len() && !('0' <= #[trigger] s@[i] <= '9');
        let digits = if s@[0] == '+' {
            s@.skip(1)
        } else {
            s@
        };
        if s@[0] == '+' {
            assert(digits[i - 1] == s@[i]);
        }
        assert(!all_digits(digits));
    }
}

/// Bytes are written as two digits each, the higher half first, from 0 to 9
/// and a to f; capital letters are read too.
pub proof fn law_hex_digits(c: char, value: Option<u8>, v: u8, digit: char, bytes: &[u8], out: Vec<char>, i: int)
    requires
        call_ensures(char_hex_value, (c,), value),
        v < 16,
        call_ensures(char_hex_digit, (v,), digit),
        call_ensures(hex_chars, (bytes,), out),
    ensures
        '0' <= c <= '9' ==> value == Some((c as u32 - 48) as u8),
        'a' <= c <= 'f' ==> value == Some((c as u32 - 87) as u8),
        'A' <= c <= 'F' ==> value == Some((c as u32 - 55) as u8),
        value is Some ==> '0' <= c <= '9' || 'a' <= c <= 'f' || 'A' <= c <= 'F',
        v < 10 ==> digit as int == 48 + v,
        v >= 10 ==> digit as int == 87 + v,
        out@.len() == 2 * bytes@.len(),
        0 <= i < bytes@.len() ==> {
            let high = bytes@[i] as int / 16;
            let low = bytes@[i] as int % 16;
            &&& out@[2 * i] as int == if high < 10 {
                48 + high
            } else {
                87 + high
            }
            &&& out@[2 * i + 1] as int == if low < 10 {
                48 + low
            } else {
                87 + low
            }
        },
{
    if 0 <= i < bytes@.len() {
        assert((2 * i) / 2 == i && (2 * i) % 2 == 0 && (2 * i + 1) / 2 == i && (2 * i + 1) % 2 == 1);
    }
}

/// What was written in hexadecimal is read back.
pub proof fn law_hex_is_read(bytes: &[u8], out: Vec<char>, s: &[char], read: Vec<u8>)
    requires
        call_ensures(hex_chars, (bytes,), out),
        s@ == out@,
        call_ensures(parse_hex, (s,), read),
    ensures
        read@ == bytes@,
        all_hex(s@),
{
    crate::text::law_hex_roundtrip(bytes@);
}

/// Text is found in text where it stands there whole.
pub proof fn law_holding(s: &[char], p: &[char], yes: bool, a: Seq<char>, b: Seq<char>)
    requires
        call_ensures(holds_text, (s, p), yes),
    ensures
        s@ == a + p@ + b ==> yes,
        p@.len() > s@.len() ==> !yes,
{
    if s@ == a + p@ + b {
        let at = a.len() as int;
        assert(s@.subrange(at, at + p@.len()) =~= p@);
    }
}

/// A word is what stands between white space.
pub proof fn law_one_word(w: Seq<char>)
    requires
        w.len() > 0,
        forall|i: int| 0 <= i < w.len() ==> !is_space(#[trigger] w[i]),
    ensures
        words(w) == seq![w],
    decreases w.len(),
{
    let t = w.drop_last();
    assert(!is_space(w[w.len() - 1]));
    if w.len() == 1 {
        assert(words(t) =~= Seq::<Seq<char>>::empty());
        assert(seq![w.last()] =~= w);
        assert(words(w) =~= seq![w]);
    } else {
        assert forall|i: int| 0 <= i < t.len() implies !is_space(#[trigger] t[i]) by {
            assert(t[i] == w[i]);
        }
        law_one_word(t);
        assert(!is_space(w[w.len() - 2]));
        assert(t.push(w.last()) =~= w);
        assert(words(w) =~= seq![w]);
    }
}

/// Four numbers from 0 to 255 with dots between them are an IPv4 address, and
/// are read as these numbers.
pub proof fn law_ipv4_is_read(a: u8, b: u8, c: u8, d: u8, s: &[char], read: Option<[u8; 4]>)
    requires
        call_ensures(parse_ipv4, (s,), read),
        s@ == decimal(a as nat).push('.') + (decimal(b as nat).push('.') + (decimal(c as nat).push('.') + decimal(
            d as nat,
        ))),
    ensures
        read == Some([a, b, c, d]),
{
    let dot = seq!['.'];
    assert(dot.contains('.')) by {
        assert(dot[0] == '.');
    }
    let (w, x, y, z) = (decimal(a as nat), decimal(b as nat), decimal(c as nat), decimal(d as nat));
    lemma_octet(a);
    lemma_octet(b);
    lemma_octet(c);
    lemma_octet(d);
    lemma_split_around(w, '.', x.push('.') + (y.push('.') + z), dot);
    lemma_split_around(x, '.', y.push('.') + z, dot);
    lemma_split_around(y, '.', z, dot);
    lemma_split_whole(w, dot);
    lemma_split_whole(x, dot);
    lemma_split_whole(y, dot);
    lemma_split_whole(z, dot);
    let pieces = split(s@, dot);
    assert(pieces =~= seq![w, x, y, z]);
    let octets = v4_octets(s@)->0;
    assert(octets =~= seq![a, b, c, d]);
    assert([a, b, c, d]@ =~= seq![a, b, c, d]);
    assert(read->0 =~= [a, b, c, d]);
}

proof fn lemma_octet(n: u8)
    ensures
        octet_text(decimal(n as nat)),
        digits_value(decimal(n as nat)) == n,
        forall|i: int| 0 <= i < decimal(n as nat).len() ==> !seq!['.'].contains(#[trigger] decimal(n as nat)[i]),
{
    let d = decimal(n as nat);
    lemma_decimal(n as nat);
    assert forall|i: int| 0 <= i < d.len() implies !seq!['.'].contains(#[trigger] d[i]) by {
        assert(is_digit(d[i]));
    }
}

/// An address whose parts are not four, or one of which is no number up to
/// 255, is none.
pub proof fn law_ipv4_is_refused(s: &[char], read: Option<[u8; 4]>)
    requires
        call_ensures(parse_ipv4, (s,), read),
    ensures
        read is Some ==> {
            let parts = split(s@, seq!['.']);
            parts.len() == 4 && forall|i: int|
                0 <= i < 4 ==> 1 <= (#[trigger] parts[i]).len() <= 3 && all_digits(parts[i]) && digits_value(parts[i])
                    <= 255
        },
{
}

} // verus!
