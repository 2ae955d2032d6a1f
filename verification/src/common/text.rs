//! Text building blocks: decimal and hexadecimal rendering, and character
//! level comparison of string slices.

use vstd::prelude::*;
use vstd::string::*;

verus! {

/// The sixteen hexadecimal digit characters in lower case.
pub open spec fn hex_digits() -> Seq<char> {
    seq!['0', '1', '2', '3', '4', '5', '6', '7', '8', '9', 'a', 'b', 'c', 'd', 'e', 'f']
}

/// Decimal notation of a natural number, without sign or leading zeros.
pub open spec fn decimal(n: nat) -> Seq<char>
    decreases n,
{
    if n < 10 {
        seq![hex_digits()[n as int]]
    } else {
        decimal(n / 10).push(hex_digits()[(n % 10) as int])
    }
}

/// Decimal notation is never empty.
pub proof fn lemma_decimal_nonempty(n: nat)
    ensures
        decimal(n).len() >= 1,
    decreases n,
{
    if n >= 10 {
        lemma_decimal_nonempty(n / 10);
    }
}

/// Different numbers have different decimal notations.
pub proof fn lemma_decimal_injective(a: nat, b: nat)
    requires
        decimal(a) == decimal(b),
    ensures
        a == b,
    decreases a,
{
    let d = hex_digits();
    if a < 10 && b < 10 {
        assert(decimal(a)[0] == d[a as int]);
        assert(decimal(b)[0] == d[b as int]);
        assert(d[a as int] == d[b as int]);
    } else if a < 10 {
        lemma_decimal_nonempty(b / 10);
        assert(decimal(b).len() >= 2);
    } else if b < 10 {
        lemma_decimal_nonempty(a / 10);
        assert(decimal(a).len() >= 2);
    } else {
        assert(decimal(a).drop_last() =~= decimal(a / 10));
        assert(decimal(b).drop_last() =~= decimal(b / 10));
        lemma_decimal_injective(a / 10, b / 10);
        let last = decimal(a).len() - 1;
        assert(decimal(a)[last] == d[(a % 10) as int]);
        assert(decimal(b)[last] == d[(b % 10) as int]);
        lemma_digits_distinct(a % 10, b % 10);
    }
}

proof fn lemma_digits_distinct(x: nat, y: nat)
    requires
        x < 16,
        y < 16,
        hex_digits()[x as int] == hex_digits()[y as int],
    ensures
        x == y,
{
}

/// Decimal notation of a byte value.
pub open spec fn decimal_u8(b: u8) -> Seq<char> {
    decimal(b as nat)
}

/// Lower-case hexadecimal notation of a byte sequence, two digits per byte.
pub open spec fn hex_lower(bytes: Seq<u8>) -> Seq<char>
    decreases bytes.len(),
{
    if bytes.len() == 0 {
        Seq::empty()
    } else {
        hex_lower(bytes.drop_last()) + seq![
            hex_digits()[(bytes.last() / 16) as int],
            hex_digits()[(bytes.last() % 16) as int],
        ]
    }
}

/// Hexadecimal notation has two digits per byte, each a hexadecimal digit.
pub proof fn lemma_hex_lower_shape(bytes: Seq<u8>)
    ensures
        hex_lower(bytes).len() == 2 * bytes.len(),
        forall|i: int|
            0 <= i < hex_lower(bytes).len() ==> hex_digits().contains(#[trigger] hex_lower(bytes)[i]),
    decreases bytes.len(),
{
    if bytes.len() > 0 {
        let pre = bytes.drop_last();
        lemma_hex_lower_shape(pre);
        let hi = hex_digits()[(bytes.last() / 16) as int];
        let lo = hex_digits()[(bytes.last() % 16) as int];
        assert(hex_digits().contains(hi));
        assert(hex_digits().contains(lo));
        let h = hex_lower(bytes);
        assert forall|i: int| 0 <= i < h.len() implies hex_digits().contains(#[trigger] h[i]) by {
            if i < hex_lower(pre).len() {
                assert(h[i] == hex_lower(pre)[i]);
            }
        }
    }
}

/// `needle` occurs as a contiguous run of characters inside `hay`.
pub open spec fn occurs_in(hay: Seq<char>, needle: Seq<char>) -> bool {
    exists|i: int|
        0 <= i && i + needle.len() <= hay.len() && #[trigger] hay.subrange(i, i + needle.len())
            == needle
}

/// The one-character string literal of a hexadecimal digit value.
pub fn digit_str(d: u64) -> (s: &'static str)
    requires
        d < 16,
    ensures
        s@ == seq![hex_digits()[d as int]],
{
    match d {
        0 => { proof { reveal_strlit("0"); } "0" },
        1 => { proof { reveal_strlit("1"); } "1" },
        2 => { proof { reveal_strlit("2"); } "2" },
        3 => { proof { reveal_strlit("3"); } "3" },
        4 => { proof { reveal_strlit("4"); } "4" },
        5 => { proof { reveal_strlit("5"); } "5" },
        6 => { proof { reveal_strlit("6"); } "6" },
        7 => { proof { reveal_strlit("7"); } "7" },
        8 => { proof { reveal_strlit("8"); } "8" },
        9 => { proof { reveal_strlit("9"); } "9" },
        10 => { proof { reveal_strlit("a"); } "a" },
        11 => { proof { reveal_strlit("b"); } "b" },
        12 => { proof { reveal_strlit("c"); } "c" },
        13 => { proof { reveal_strlit("d"); } "d" },
        14 => { proof { reveal_strlit("e"); } "e" },
        _ => { proof { reveal_strlit("f"); } "f" },
    }
}

/// Appends the decimal notation of `n` to `out`.
pub fn push_decimal(out: &mut String, n: u64)
    ensures
        final(out)@ == old(out)@ + decimal(n as nat),
    decreases n,
{
    if n < 10 {
        out.append(digit_str(n));
    } else {
        push_decimal(out, n / 10);
        out.append(digit_str(n % 10));
        assert(decimal(n as nat) == decimal((n / 10) as nat).push(hex_digits()[(n % 10) as int]));
    }
}

/// Appends the decimal notation of the byte value `b` to `out`.
pub fn push_decimal_u8(out: &mut String, b: u8)
    ensures
        final(out)@ == old(out)@ + decimal_u8(b),
{
    push_decimal(out, b as u64);
}

/// The decimal notation of `n` as a new string.
pub fn decimal_string(n: u64) -> (s: String)
    ensures
        s@ == decimal(n as nat),
{
    let mut s = String::new();
    push_decimal(&mut s, n);
    s
}

/// The lower-case hexadecimal notation of `bytes`.
pub fn hex_string(bytes: &[u8]) -> (s: String)
    ensures
        s@ == hex_lower(bytes@),
{
    let mut s = String::new();
    let mut i: usize = 0;
    while i < bytes.len()
        invariant
            i <= bytes@.len(),
            s@ == hex_lower(bytes@.subrange(0, i as int)),
        decreases bytes@.len() - i,
    {
        let b = bytes[i];
        s.append(digit_str((b / 16) as u64));
        s.append(digit_str((b % 16) as u64));
        proof {
            let pre = bytes@.subrange(0, i as int + 1);
            assert(pre.drop_last() =~= bytes@.subrange(0, i as int));
            assert(pre.last() == b);
        }
        i = i + 1;
    }
    proof {
        assert(bytes@.subrange(0, bytes@.len() as int) =~= bytes@);
    }
    s
}

/// Whether two string slices hold the same characters.
pub fn str_eq(a: &str, b: &str) -> (res: bool)
    ensures
        res == (a@ == b@),
{
    let n = a.unicode_len();
    if n != b.unicode_len() {
        return false;
    }
    let mut i: usize = 0;
    while i < n
        invariant
            n == a@.len(),
            n == b@.len(),
            i <= n,
            forall|j: int| 0 <= j < i ==> a@[j] == b@[j],
        decreases n - i,
    {
        if a.get_char(i) != b.get_char(i) {
            return false;
        }
        i = i + 1;
    }
    assert(a@ =~= b@);
    true
}

/// Whether `needle` occurs inside `hay`, as `str::contains` with a string
/// pattern answers it.
pub fn str_contains(hay: &str, needle: &str) -> (res: bool)
    ensures
        res == occurs_in(hay@, needle@),
{
    let h = hay.unicode_len();
    let n = needle.unicode_len();
    if n > h {
        return false;
    }
    let mut start: usize = 0;
    while start <= h - n
        invariant
            h == hay@.len(),
            n == needle@.len(),
            n <= h,
            start <= h - n + 1,
            forall|k: int| 0 <= k < start ==> #[trigger] hay@.subrange(k, k + n) != needle@,
        decreases h - n + 1 - start,
    {
        let mut j: usize = 0;
        let mut same = true;
        while j < n
            invariant
                h == hay@.len(),
                n == needle@.len(),
                start + n <= h,
                j <= n,
                same == (forall|m: int| 0 <= m < j ==> hay@[start + m] == needle@[m]),
            decreases n - j,
        {
            if hay.get_char(start + j) != needle.get_char(j) {
                same = false;
            }
            j = j + 1;
        }
        if same {
            assert(hay@.subrange(start as int, start + n) =~= needle@);
            return true;
        }
        proof {
            if hay@.subrange(start as int, start + n) == needle@ {
                assert forall|m: int| 0 <= m < n implies hay@[start + m] == needle@[m] by {
                    assert(hay@.subrange(start as int, start + n)[m] == hay@[start + m]);
                }
            }
        }
        start = start + 1;
    }
    proof {
        assert forall|i: int|
            0 <= i && i + needle@.len() <= hay@.len() implies #[trigger] hay@.subrange(
            i,
            i + needle@.len(),
        ) != needle@ by {}
    }
    false
}

} // verus!
