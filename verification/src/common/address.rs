//! The text form of IP addresses: dotted decimal for IPv4, and for IPv6
//! the canonical form of RFC 5952 (lower-case hexadecimal groups without
//! leading zeros, the first longest run of two or more zero groups written
//! `::`, IPv4-mapped addresses as `::ffff:a.b.c.d`).

use vstd::prelude::*;
use vstd::string::*;
use crate::common::text::{decimal, hex_digits, push_decimal, digit_str};
use crate::common::types::IpAddr;

verus! {

/// Lower-case hexadecimal notation of a number, without leading zeros.
pub open spec fn hex_number(n: nat) -> Seq<char>
    decreases n,
{
    if n < 16 {
        seq![hex_digits()[n as int]]
    } else {
        hex_number(n / 16).push(hex_digits()[(n % 16) as int])
    }
}

/// The four octets of an IPv4 address, most significant first, in dotted
/// decimal.
pub open spec fn ipv4_text(a: u32) -> Seq<char> {
    decimal((a / 16777216) as nat) + "."@ + decimal(((a / 65536) % 256) as nat) + "."@ + decimal(
        ((a / 256) % 256) as nat,
    ) + "."@ + decimal((a % 256) as nat)
}

/// The last `n` 16-bit groups of `a`, most significant first.
pub open spec fn groups_of(a: nat, n: nat) -> Seq<u16>
    decreases n,
{
    if n == 0 {
        Seq::empty()
    } else {
        groups_of(a / 65536, (n - 1) as nat).push((a % 65536) as u16)
    }
}

proof fn lemma_groups_len(a: nat, n: nat)
    ensures
        groups_of(a, n).len() == n,
    decreases n,
{
    if n > 0 {
        lemma_groups_len(a / 65536, (n - 1) as nat);
    }
}

/// The eight 16-bit groups of an IPv6 address.
pub open spec fn groups(a: u128) -> Seq<u16> {
    groups_of(a as nat, 8)
}

/// The groups `s .. s + l` are all zero.
pub open spec fn is_zero_run(g: Seq<u16>, s: int, l: int) -> bool {
    &&& 0 <= s
    &&& 0 <= l
    &&& s + l <= g.len()
    &&& forall|k: int| s <= k < s + l ==> g[k] == 0
}

/// `(s, l)` is the first of the longest runs of zero groups; `(0, 0)` where
/// no group is zero.
pub open spec fn is_first_longest_zero_run(g: Seq<u16>, s: int, l: int) -> bool {
    &&& is_zero_run(g, s, l)
    &&& l == 0 ==> s == 0
    &&& forall|s2: int, l2: int|
        #[trigger] is_zero_run(g, s2, l2) ==> l2 <= l && (l2 == l && l > 0 ==> s <= s2)
}

/// The first longest run of zero groups.
pub open spec fn zero_run_of(g: Seq<u16>) -> (int, int) {
    choose|p: (int, int)| is_first_longest_zero_run(g, p.0, p.1)
}

/// The groups in hexadecimal, separated by colons.
pub open spec fn colon_joined(g: Seq<u16>) -> Seq<char>
    decreases g.len(),
{
    if g.len() == 0 {
        Seq::empty()
    } else if g.len() == 1 {
        hex_number(g[0] as nat)
    } else {
        colon_joined(g.drop_last()) + ":"@ + hex_number(g.last() as nat)
    }
}

/// Whether an IPv6 address is IPv4-mapped (`::ffff:0:0/96`).
pub open spec fn is_ipv4_mapped(a: u128) -> bool {
    a / 4294967296 == 0xffff
}

/// The canonical text of an IPv6 address.
pub open spec fn ipv6_text(a: u128) -> Seq<char> {
    let g = groups(a);
    if is_ipv4_mapped(a) {
        "::ffff:"@ + ipv4_text((a % 4294967296) as u32)
    } else {
        let r = zero_run_of(g);
        if r.1 > 1 {
            colon_joined(g.subrange(0, r.0)) + "::"@ + colon_joined(g.subrange(r.0 + r.1, 8))
        } else {
            colon_joined(g)
        }
    }
}

/// The text of an IP address.
pub open spec fn ip_text(a: IpAddr) -> Seq<char> {
    match a {
        IpAddr::V4(v) => ipv4_text(v),
        IpAddr::V6(v) => ipv6_text(v),
    }
}

/// There is exactly one first longest run of zero groups.
pub proof fn lemma_zero_run_unique(g: Seq<u16>, s1: int, l1: int, s2: int, l2: int)
    requires
        is_first_longest_zero_run(g, s1, l1),
        is_first_longest_zero_run(g, s2, l2),
    ensures
        s1 == s2 && l1 == l2,
{
    assert(is_zero_run(g, s2, l2));
    assert(is_zero_run(g, s1, l1));
}

/// Appends the hexadecimal notation of `n` to `out`.
fn push_hex(out: &mut String, n: u64)
    ensures
        final(out)@ == old(out)@ + hex_number(n as nat),
    decreases n,
{
    if n < 16 {
        out.append(digit_str(n));
    } else {
        push_hex(out, n / 16);
        out.append(digit_str(n % 16));
        assert(hex_number(n as nat) == hex_number((n / 16) as nat).push(
            hex_digits()[(n % 16) as int],
        ));
    }
}

/// Appends the dotted decimal form of an IPv4 address to `out`.
fn push_ipv4(out: &mut String, a: u32)
    ensures
        final(out)@ == old(out)@ + ipv4_text(a),
{
    let ghost start = out@;
    push_decimal(out, (a / 16777216) as u64);
    out.append(".");
    push_decimal(out, ((a / 65536) % 256) as u64);
    out.append(".");
    push_decimal(out, ((a / 256) % 256) as u64);
    out.append(".");
    push_decimal(out, (a % 256) as u64);
    assert(out@ =~= start + ipv4_text(a));
}

/// The last `n` groups of `a`.
fn groups_vec(a: u128, n: usize) -> (v: Vec<u16>)
    requires
        n <= 8,
    ensures
        v@ == groups_of(a as nat, n as nat),
    decreases n,
{
    if n == 0 {
        Vec::new()
    } else {
        let mut v = groups_vec(a / 65536, n - 1);
        v.push((a % 65536) as u16);
        v
    }
}

/// Appends the colon-joined hexadecimal groups `g[from .. to]` to `out`.
fn push_colon_joined(out: &mut String, g: &Vec<u16>, from: usize, to: usize)
    requires
        from <= to <= g@.len(),
    ensures
        final(out)@ == old(out)@ + colon_joined(g@.subrange(from as int, to as int)),
{
    let ghost start = out@;
    let mut i: usize = from;
    while i < to
        invariant
            from <= i <= to <= g@.len(),
            out@ == start + colon_joined(g@.subrange(from as int, i as int)),
        decreases to - i,
    {
        let ghost before = g@.subrange(from as int, i as int);
        let ghost after = g@.subrange(from as int, i + 1);
        assert(after.drop_last() =~= before);
        if i > from {
            out.append(":");
        }
        push_hex(out, g[i] as u64);
        proof {
            if i == from {
                assert(before.len() == 0);
                assert(colon_joined(before) =~= Seq::<char>::empty());
            }
            assert(out@ =~= start + colon_joined(after));
        }
        i = i + 1;
    }
}

/// Finds the first longest run of zero groups.
fn find_zero_run(g: &Vec<u16>) -> (r: (usize, usize))
    ensures
        is_first_longest_zero_run(g@, r.0 as int, r.1 as int),
{
    let n = g.len();
    let mut best_s: usize = 0;
    let mut best_l: usize = 0;
    let mut cur_s: usize = 0;
    let mut cur_l: usize = 0;
    let mut i: usize = 0;
    while i < n
        invariant
            n == g@.len(),
            i <= n,
            cur_s + cur_l == i,
            is_zero_run(g@, cur_s as int, cur_l as int),
            cur_s == 0 || g@[cur_s - 1] != 0,
            cur_l <= best_l,
            is_zero_run(g@, best_s as int, best_l as int),
            best_s + best_l <= i,
            best_l == 0 ==> best_s == 0,
            forall|s2: int, l2: int|
                #[trigger] is_zero_run(g@, s2, l2) && s2 + l2 <= i ==> l2 <= best_l && (l2
                    == best_l && best_l > 0 ==> best_s <= s2),
        decreases n - i,
    {
        let ghost old_cur_s = cur_s;
        let ghost old_cur_l = cur_l;
        let ghost old_best_s = best_s;
        let ghost old_best_l = best_l;
        if g[i] == 0 {
            cur_l = cur_l + 1;
            if cur_l > best_l {
                best_s = cur_s;
                best_l = cur_l;
            }
            proof {
                assert forall|s2: int, l2: int|
                    #[trigger] is_zero_run(g@, s2, l2) && s2 + l2 <= i + 1 implies l2 <= best_l
                    && (l2 == best_l && best_l > 0 ==> best_s <= s2) by {
                    if s2 + l2 == i + 1 && l2 > 0 {
                        if s2 < cur_s {
                            assert(g@[cur_s - 1] == 0);
                        }
                    }
                }
            }
        } else {
            cur_s = i + 1;
            cur_l = 0;
            proof {
                assert forall|s2: int, l2: int|
                    #[trigger] is_zero_run(g@, s2, l2) && s2 + l2 <= i + 1 implies l2 <= best_l
                    && (l2 == best_l && best_l > 0 ==> best_s <= s2) by {
                    if s2 + l2 == i + 1 && l2 > 0 {
                        assert(g@[i as int] == 0);
                    }
                }
            }
        }
        i = i + 1;
    }
    (best_s, best_l)
}

/// The text of an IP address, as `ip_text` gives it.
pub fn ip_to_string(a: &IpAddr) -> (s: String)
    ensures
        s@ == ip_text(*a),
{
    let mut s = String::new();
    match a {
        IpAddr::V4(v) => {
            push_ipv4(&mut s, *v);
        },
        IpAddr::V6(v) => {
            let v = *v;
            if v / 4294967296 == 0xffff {
                s.append("::ffff:");
                push_ipv4(&mut s, (v % 4294967296) as u32);
            } else {
                let g = groups_vec(v, 8);
                proof {
                    lemma_groups_len(v as nat, 8);
                }
                let (zs, zl) = find_zero_run(&g);
                proof {
                    let r = zero_run_of(g@);
                    lemma_zero_run_unique(g@, zs as int, zl as int, r.0, r.1);
                }
                if zl > 1 {
                    push_colon_joined(&mut s, &g, 0, zs);
                    s.append("::");
                    push_colon_joined(&mut s, &g, zs + zl, 8);
                } else {
                    push_colon_joined(&mut s, &g, 0, 8);
                    assert(g@.subrange(0, 8) =~= g@);
                }
            }
        },
    }
    s
}

} // verus!
