use vstd::prelude::*;
use vstd::string::*;

verus! {

/// The pieces of `s` between occurrences of `sep`, in order; an empty string
/// yields one empty piece, and each separator ends a piece, as `str::split`
/// does.
pub open spec fn split_on(s: Seq<char>, sep: char) -> Seq<Seq<char>>
    decreases s.len(),
{
    if s.len() == 0 {
        seq![Seq::<char>::empty()]
    } else if s[0] == sep {
        seq![Seq::<char>::empty()] + split_on(s.skip(1), sep)
    } else {
        let rest = split_on(s.skip(1), sep);
        seq![seq![s[0]] + rest[0]] + rest.skip(1)
    }
}

pub proof fn lemma_split_on_len(s: Seq<char>, sep: char)
    ensures
        split_on(s, sep).len() >= 1,
    decreases s.len(),
{
    if s.len() > 0 {
        lemma_split_on_len(s.skip(1), sep);
    }
}

/// If no separator stands in `[a, b)` and `b` is the string's end or a
/// separator, the split of the suffix from `a` starts with the piece `[a, b)`.
proof fn lemma_split_segment(s: Seq<char>, sep: char, a: int, b: int)
    requires
        0 <= a <= b <= s.len(),
        forall|k: int| a <= k < b ==> s[k] != sep,
        b == s.len() || s[b] == sep,
    ensures
        b == s.len() ==> split_on(s.skip(a), sep) =~~= seq![s.subrange(a, b)],
        b < s.len() ==> split_on(s.skip(a), sep) =~~= seq![s.subrange(a, b)] + split_on(
            s.skip(b + 1),
            sep,
        ),
    decreases b - a,
{
    if a == b {
        if b == s.len() {
            assert(s.skip(a) =~= Seq::<char>::empty());
            assert(s.subrange(a, b) =~= Seq::<char>::empty());
        } else {
            assert(s.skip(a).len() > 0);
            assert(s.skip(a)[0] == s[b]);
            assert(s.skip(a).skip(1) =~= s.skip(b + 1));
            assert(s.subrange(a, b) =~= Seq::<char>::empty());
        }
    } else {
        lemma_split_segment(s, sep, a + 1, b);
        assert(s.skip(a)[0] == s[a]);
        assert(s.skip(a).skip(1) =~= s.skip(a + 1));
        lemma_split_on_len(s.skip(a + 1), sep);
        let rest = split_on(s.skip(a + 1), sep);
        assert(seq![s[a]] + rest[0] =~= s.subrange(a, b)) by {
            if b == s.len() {
                assert(rest[0] == s.subrange(a + 1, b));
            } else {
                assert(rest[0] == (seq![s.subrange(a + 1, b)] + split_on(s.skip(b + 1), sep))[0]);
            }
        }
        if b < s.len() {
            assert(rest.skip(1) =~~= split_on(s.skip(b + 1), sep));
        }
    }
}

/// The views of a vector of strings.
pub open spec fn views_of(parts: Seq<String>) -> Seq<Seq<char>> {
    parts.map_values(|p: String| p@)
}

/// Splits a string on a separator character, as `str::split` does.
pub fn split_str(s: &str, sep: char) -> (parts: Vec<String>)
    ensures
        views_of(parts@) == split_on(s@, sep),
{
    let n = s.unicode_len();
    let mut parts: Vec<String> = Vec::new();
    let mut start: usize = 0;
    let mut i: usize = 0;
    proof {
        assert(s@.skip(0) =~= s@);
        assert(views_of(parts@) =~= Seq::<Seq<char>>::empty());
    }
    while i < n
        invariant
            start <= i <= n,
            n == s@.len(),
            forall|k: int| start <= k < i ==> s@[k] != sep,
            split_on(s@, sep) =~~= views_of(parts@) + split_on(s@.skip(start as int), sep),
        decreases n - i,
    {
        let c = s.get_char(i);
        if c == sep {
            let ghost pre = parts@;
            let piece = s.substring_char(start, i).to_owned();
            parts.push(piece);
            proof {
                lemma_split_segment(s@, sep, start as int, i as int);
                assert(views_of(parts@) =~= views_of(pre).push(s@.subrange(
                    start as int,
                    i as int,
                )));
            }
            start = i + 1;
        }
        i = i + 1;
    }
    let ghost pre = parts@;
    let piece = s.substring_char(start, n).to_owned();
    parts.push(piece);
    proof {
        lemma_split_segment(s@, sep, start as int, n as int);
        assert(views_of(parts@) =~= views_of(pre).push(s@.subrange(start as int, n as int)));
        assert(views_of(parts@) =~~= split_on(s@, sep));
    }
    parts
}

/// Whether a character is a decimal digit.
pub open spec fn is_dec_digit(c: char) -> bool {
    48 <= c as u32 <= 57
}

/// The value of a decimal digit character.
pub open spec fn dec_digit_val(c: char) -> nat {
    (c as u32 - 48) as nat
}

/// Whether a string is one or more decimal digits.
pub open spec fn all_dec_digits(s: Seq<char>) -> bool {
    s.len() > 0 && forall|i: int| 0 <= i < s.len() ==> is_dec_digit(#[trigger] s[i])
}

/// The number that a string of decimal digits denotes.
pub open spec fn dec_val(s: Seq<char>) -> nat
    decreases s.len(),
{
    if s.len() == 0 {
        0
    } else {
        dec_val(s.take(s.len() - 1)) * 10 + dec_digit_val(s[s.len() - 1])
    }
}

/// Whether a character is a hexadecimal digit, of either case.
pub open spec fn is_hex_digit(c: char) -> bool {
    48 <= c as u32 <= 57 || 97 <= c as u32 <= 102 || 65 <= c as u32 <= 70
}

/// The value of a hexadecimal digit character.
pub open spec fn hex_digit_val(c: char) -> nat {
    if 48 <= c as u32 <= 57 {
        (c as u32 - 48) as nat
    } else if 97 <= c as u32 <= 102 {
        (c as u32 - 87) as nat
    } else {
        (c as u32 - 55) as nat
    }
}

/// Whether a string is one or more hexadecimal digits.
pub open spec fn all_hex_digits(s: Seq<char>) -> bool {
    s.len() > 0 && forall|i: int| 0 <= i < s.len() ==> is_hex_digit(#[trigger] s[i])
}

/// The number that a string of hexadecimal digits denotes.
pub open spec fn hex_val(s: Seq<char>) -> nat
    decreases s.len(),
{
    if s.len() == 0 {
        0
    } else {
        hex_val(s.take(s.len() - 1)) * 16 + hex_digit_val(s[s.len() - 1])
    }
}

proof fn lemma_dec_val_prefix_bound(s: Seq<char>, k: int)
    requires
        0 <= k <= s.len(),
    ensures
        dec_val(s) >= dec_val(s.take(k)),
    decreases s.len() - k,
{
    if k < s.len() {
        lemma_dec_val_prefix_bound(s, k + 1);
        assert(s.take(k + 1).take(k) =~= s.take(k));
        assert(dec_val(s.take(k + 1)) == dec_val(s.take(k)) * 10 + dec_digit_val(s.take(k + 1)[k]));
    } else {
        assert(s.take(k) =~= s);
    }
}

proof fn lemma_hex_val_prefix_bound(s: Seq<char>, k: int)
    requires
        0 <= k <= s.len(),
    ensures
        hex_val(s) >= hex_val(s.take(k)),
    decreases s.len() - k,
{
    if k < s.len() {
        lemma_hex_val_prefix_bound(s, k + 1);
        assert(s.take(k + 1).take(k) =~= s.take(k));
        assert(hex_val(s.take(k + 1)) == hex_val(s.take(k)) * 16 + hex_digit_val(s.take(k + 1)[k]));
    } else {
        assert(s.take(k) =~= s);
    }
}

/// Parses a string of decimal digits as a number no greater than 255, as
/// parsing a `u8` does.
pub fn parse_dec_u8(s: &str) -> (r: Option<u8>)
    ensures
        r is Some <==> all_dec_digits(s@) && dec_val(s@) <= 255,
        r is Some ==> r->0 as nat == dec_val(s@),
{
    let n = s.unicode_len();
    if n == 0 {
        return None;
    }
    let mut acc: u32 = 0;
    let mut i: usize = 0;
    proof {
        assert(s@.take(0) =~= Seq::<char>::empty());
    }
    while i < n
        invariant
            0 < n == s@.len(),
            i <= n,
            acc as nat == dec_val(s@.take(i as int)),
            acc <= 255,
            forall|k: int| 0 <= k < i ==> is_dec_digit(#[trigger] s@[k]),
        decreases n - i,
    {
        let c = s.get_char(i);
        let u = c as u32;
        if u < 48 || u > 57 {
            return None;
        }
        let d = u - 48;
        acc = acc * 10 + d;
        proof {
            assert(s@.take(i + 1).take(i as int) =~= s@.take(i as int));
            assert(s@.take(i + 1)[i as int] == s@[i as int]);
        }
        if acc > 255 {
            proof {
                lemma_dec_val_prefix_bound(s@, i + 1);
            }
            return None;
        }
        i = i + 1;
    }
    proof {
        assert(s@.take(n as int) =~= s@);
    }
    Some(acc as u8)
}

/// Parses a string of hexadecimal digits as a number no greater than `bound`,
/// as `from_str_radix` with radix 16 does for a type with that maximum.
pub fn parse_hex_bounded(s: &str, bound: u32) -> (r: Option<u32>)
    requires
        bound <= 0xFFFF,
    ensures
        r is Some <==> all_hex_digits(s@) && hex_val(s@) <= bound as nat,
        r is Some ==> r->0 as nat == hex_val(s@),
{
    let n = s.unicode_len();
    if n == 0 {
        return None;
    }
    let mut acc: u32 = 0;
    let mut i: usize = 0;
    proof {
        assert(s@.take(0) =~= Seq::<char>::empty());
    }
    while i < n
        invariant
            0 < n == s@.len(),
            i <= n,
            bound <= 0xFFFF,
            acc as nat == hex_val(s@.take(i as int)),
            acc <= bound,
            forall|k: int| 0 <= k < i ==> is_hex_digit(#[trigger] s@[k]),
        decreases n - i,
    {
        let c = s.get_char(i);
        let u = c as u32;
        let d: u32 = if 48 <= u && u <= 57 {
            u - 48
        } else if 97 <= u && u <= 102 {
            u - 87
        } else if 65 <= u && u <= 70 {
            u - 55
        } else {
            return None;
        };
        acc = acc * 16 + d;
        proof {
            assert(s@.take(i + 1).take(i as int) =~= s@.take(i as int));
            assert(s@.take(i + 1)[i as int] == s@[i as int]);
        }
        if acc > bound {
            proof {
                lemma_hex_val_prefix_bound(s@, i + 1);
            }
            return None;
        }
        i = i + 1;
    }
    proof {
        assert(s@.take(n as int) =~= s@);
    }
    Some(acc)
}

/// Whether a string holds a given character.
pub fn str_contains_char(s: &str, c: char) -> (r: bool)
    ensures
        r == s@.contains(c),
{
    let n = s.unicode_len();
    let mut i: usize = 0;
    while i < n
        invariant
            i <= n,
            n == s@.len(),
            forall|k: int| 0 <= k < i ==> s@[k] != c,
        decreases n - i,
    {
        if s.get_char(i) == c {
            return true;
        }
        i = i + 1;
    }
    false
}

/// Whether each character of `s` is the corresponding character of the
/// lower-case ASCII string `t`, up to ASCII case.
pub open spec fn matches_ci(s: Seq<char>, t: Seq<char>) -> bool {
    s.len() == t.len() && forall|i: int|
        0 <= i < s.len() ==> (#[trigger] s[i]) == t[i] || s[i] as u32 + 32 == t[i] as u32
}

/// Compares a string against a lower-case ASCII-letter string, ignoring ASCII
/// case.
pub fn eq_ignore_case(s: &str, t: &str) -> (r: bool)
    requires
        forall|i: int| 0 <= i < t@.len() ==> 97 <= (#[trigger] t@[i]) as u32 <= 122,
    ensures
        r == matches_ci(s@, t@),
{
    let n = s.unicode_len();
    let m = t.unicode_len();
    if n != m {
        return false;
    }
    let mut i: usize = 0;
    while i < n
        invariant
            i <= n,
            n == s@.len() == t@.len(),
            forall|k: int| 0 <= k < t@.len() ==> 97 <= (#[trigger] t@[k]) as u32 <= 122,
            forall|k: int|
                0 <= k < i ==> (#[trigger] s@[k]) == t@[k] || s@[k] as u32 + 32 == t@[k] as u32,
        decreases n - i,
    {
        let a = s.get_char(i) as u32;
        let b = t.get_char(i) as u32;
        proof {
            assert(97 <= t@[i as int] as u32 <= 122);
        }
        if !(a == b || a == b - 32) {
            return false;
        }
        i = i + 1;
    }
    true
}

} // verus!
