//! Size-based rotation of the log file: when the live file would outgrow
//! its size limit, each kept file moves one place back (`base` becomes
//! `base.1`, `base.1` becomes `base.2`, ...), the oldest kept one is
//! replaced, and writing goes on in a new live file.

use vstd::prelude::*;
use vstd::string::*;
use crate::common::text::{decimal, lemma_decimal_injective, push_decimal};

verus! {

/// The name of the file at place `index` of a rotated log: the live file at
/// place 0, then `base.1`, `base.2`, ..., newest first.
pub open spec fn rotated_name(base: Seq<char>, index: nat) -> Seq<char> {
    if index == 0 {
        base
    } else {
        base + "."@ + decimal(index)
    }
}

/// The name of the file at place `index` of the log `base`.
pub fn rotated_log_name(base: &str, index: u32) -> (s: String)
    ensures
        s@ == rotated_name(base@, index as nat),
{
    let mut s = String::from_str(base);
    if index > 0 {
        s.append(".");
        push_decimal(&mut s, index as u64);
    }
    s
}

/// Whether a write of `incoming` bytes onto a live file of `current` bytes
/// first rotates the log: when the file would outgrow `max_mb` megabytes.
/// An empty file takes any write.
pub open spec fn rotates_before(current: nat, incoming: nat, max_mb: nat) -> bool {
    current > 0 && current + incoming > max_mb * 1_048_576
}

/// Whether the log rotates before a write of `incoming` bytes onto a live
/// file of `current` bytes, the limit being `max_mb` megabytes.
pub fn must_rotate(current: u64, incoming: u64, max_mb: u64) -> (b: bool)
    ensures
        b == rotates_before(current as nat, incoming as nat, max_mb as nat),
{
    current > 0 && (current as u128) + (incoming as u128) > (max_mb as u128) * 1_048_576
}

/// The renames of one rotation that moves the files at places `0 .. k` one
/// place back, in the order they are made: the file at `k - 1` first (onto
/// `k`), the live file last (onto place 1).
pub open spec fn shift_plan(base: Seq<char>, k: nat) -> Seq<(Seq<char>, Seq<char>)>
    decreases k,
{
    if k == 0 {
        Seq::empty()
    } else {
        seq![(rotated_name(base, (k - 1) as nat), rotated_name(base, k))] + shift_plan(
            base,
            (k - 1) as nat,
        )
    }
}

/// The renames of one rotation of a log that keeps `keep` files, the live
/// one included: the files at places `0 .. keep - 1` move one place back
/// and the one at `keep - 1` is replaced.
pub open spec fn rotation_plan(base: Seq<char>, keep: nat) -> Seq<(Seq<char>, Seq<char>)> {
    shift_plan(base, if keep >= 1 { (keep - 1) as nat } else { 0 })
}

proof fn lemma_shift_plan_entries(base: Seq<char>, k: nat)
    ensures
        shift_plan(base, k).len() == k,
        forall|i: int|
            0 <= i < k ==> #[trigger] shift_plan(base, k)[i] == (
                rotated_name(base, (k - 1 - i) as nat),
                rotated_name(base, (k - i) as nat),
            ),
    decreases k,
{
    if k > 0 {
        lemma_shift_plan_entries(base, (k - 1) as nat);
        let head = seq![(rotated_name(base, (k - 1) as nat), rotated_name(base, k))];
        assert forall|i: int| 0 <= i < k implies #[trigger] shift_plan(base, k)[i] == (
            rotated_name(base, (k - 1 - i) as nat),
            rotated_name(base, (k - i) as nat),
        ) by {
            if i > 0 {
                assert(shift_plan(base, k)[i] == shift_plan(base, (k - 1) as nat)[i - 1]);
            }
        }
    }
}

/// The renames that rotate the log `base` when `keep` files are kept, in
/// the order they are to be made, as (from, to) pairs.
pub fn rotation_renames(base: &str, keep: u32) -> (r: Vec<(String, String)>)
    ensures
        r@.len() == rotation_plan(base@, keep as nat).len(),
        forall|i: int|
            0 <= i < r@.len() ==> (#[trigger] r@[i]).0@ == rotation_plan(base@, keep as nat)[i].0
                && r@[i].1@ == rotation_plan(base@, keep as nat)[i].1,
{
    let k: u32 = if keep >= 1 {
        keep - 1
    } else {
        0
    };
    proof {
        lemma_shift_plan_entries(base@, k as nat);
    }
    let mut r: Vec<(String, String)> = Vec::new();
    let mut t: u32 = k;
    while t > 0
        invariant
            t <= k,
            k == (if keep >= 1 {
                (keep - 1) as u32
            } else {
                0u32
            }),
            r@.len() == k - t,
            shift_plan(base@, k as nat).len() == k,
            forall|i: int|
                0 <= i < k ==> #[trigger] shift_plan(base@, k as nat)[i] == (
                    rotated_name(base@, (k - 1 - i) as nat),
                    rotated_name(base@, (k - i) as nat),
                ),
            forall|i: int|
                0 <= i < r@.len() ==> (#[trigger] r@[i]).0@ == shift_plan(base@, k as nat)[i].0
                    && r@[i].1@ == shift_plan(base@, k as nat)[i].1,
        decreases t,
    {
        let from = rotated_log_name(base, t - 1);
        let to = rotated_log_name(base, t);
        let ghost i = r@.len() as int;
        assert(shift_plan(base@, k as nat)[i] == (
            rotated_name(base@, (k - 1 - i) as nat),
            rotated_name(base@, (k - i) as nat),
        ));
        r.push((from, to));
        t = t - 1;
    }
    r
}

/// A file table after renaming `from` to `to`, as a file system does it:
/// the file takes the new name, replacing any file of that name; renaming a
/// missing file changes nothing.
pub open spec fn renamed<T>(files: Map<Seq<char>, T>, from: Seq<char>, to: Seq<char>) -> Map<
    Seq<char>,
    T,
> {
    if files.contains_key(from) {
        files.remove(from).insert(to, files[from])
    } else {
        files
    }
}

/// A file table after the renames of `plan`, made in order.
pub open spec fn apply_renames<T>(files: Map<Seq<char>, T>, plan: Seq<(Seq<char>, Seq<char>)>) -> Map<
    Seq<char>,
    T,
>
    decreases plan.len(),
{
    if plan.len() == 0 {
        files
    } else {
        apply_renames(renamed(files, plan[0].0, plan[0].1), plan.drop_first())
    }
}

/// The file of a table under a name, if there is one.
pub open spec fn file_named<T>(files: Map<Seq<char>, T>, name: Seq<char>) -> Option<T> {
    if files.contains_key(name) {
        Some(files[name])
    } else {
        None
    }
}

/// Different places of a log have different names.
pub proof fn lemma_rotated_names_distinct(base: Seq<char>, i: nat, j: nat)
    requires
        i != j,
    ensures
        rotated_name(base, i) != rotated_name(base, j),
{
    reveal_strlit(".");
    if i > 0 && j > 0 {
        if rotated_name(base, i) == rotated_name(base, j) {
            let n = base.len() + 1;
            let a = rotated_name(base, i);
            let b = rotated_name(base, j);
            assert(a.subrange(n as int, a.len() as int) =~= decimal(i));
            assert(b.subrange(n as int, b.len() as int) =~= decimal(j));
            lemma_decimal_injective(i, j);
        }
    } else if i > 0 {
        assert(rotated_name(base, i).len() > base.len());
    } else {
        assert(rotated_name(base, j).len() > base.len());
    }
}

proof fn lemma_shift(files: Map<Seq<char>, Seq<u8>>, base: Seq<char>, k: nat)
    ensures
        ({
            let after = apply_renames(files, shift_plan(base, k));
            &&& forall|j: nat|
                1 <= j <= k ==> file_named(files, rotated_name(base, (j - 1) as nat)) is Some
                    ==> #[trigger] file_named(after, rotated_name(base, j)) == file_named(
                    files,
                    rotated_name(base, (j - 1) as nat),
                )
            &&& k >= 1 ==> file_named(after, rotated_name(base, 0)) is None
            &&& forall|n: Seq<char>|
                (forall|j: nat| j <= k ==> n != #[trigger] rotated_name(base, j)) ==> #[trigger] file_named(
                    after,
                    n,
                ) == file_named(files, n)
        }),
    decreases k,
{
    if k > 0 {
        let from = rotated_name(base, (k - 1) as nat);
        let to = rotated_name(base, k);
        let f1 = renamed(files, from, to);
        let rest = shift_plan(base, (k - 1) as nat);
        assert(shift_plan(base, k).drop_first() =~= rest);
        assert(apply_renames(files, shift_plan(base, k)) == apply_renames(f1, rest));
        lemma_shift(f1, base, (k - 1) as nat);
        let after = apply_renames(f1, rest);
        lemma_rotated_names_distinct(base, (k - 1) as nat, k);
        assert forall|j: nat|
            1 <= j <= k && file_named(files, rotated_name(base, (j - 1) as nat)) is Some implies #[trigger] file_named(
            after,
            rotated_name(base, j),
        ) == file_named(files, rotated_name(base, (j - 1) as nat)) by {
            if j == k {
                assert forall|m: nat| m <= (k - 1) as nat implies rotated_name(base, k)
                    != #[trigger] rotated_name(base, m) by {
                    lemma_rotated_names_distinct(base, k, m);
                }
                assert(file_named(after, to) == file_named(f1, to));
            } else {
                let p = rotated_name(base, (j - 1) as nat);
                lemma_rotated_names_distinct(base, (j - 1) as nat, (k - 1) as nat);
                lemma_rotated_names_distinct(base, (j - 1) as nat, k);
                assert(file_named(f1, p) == file_named(files, p));
            }
        }
        if k == 1 {
            assert(file_named(f1, rotated_name(base, 0)) is None);
        }
        assert forall|n: Seq<char>|
            (forall|j: nat| j <= k ==> n != #[trigger] rotated_name(base, j)) implies #[trigger] file_named(
            after,
            n,
        ) == file_named(files, n) by {
            assert(n != rotated_name(base, k));
            assert(n != rotated_name(base, (k - 1) as nat));
            assert(forall|j: nat| j <= (k - 1) as nat ==> n != #[trigger] rotated_name(base, j));
        }
    }
}

/// Rotation keeps every kept file: with `keep` files kept (at least two),
/// the file at each place `j - 1` below `keep - 1` is found at place `j`
/// afterwards, no live file remains, and files of other names are left as
/// they were.
pub proof fn lemma_rotation_shifts_files(files: Map<Seq<char>, Seq<u8>>, base: Seq<char>, keep: nat)
    requires
        keep >= 2,
    ensures
        ({
            let after = apply_renames(files, rotation_plan(base, keep));
            &&& forall|j: nat|
                1 <= j < keep ==> file_named(files, rotated_name(base, (j - 1) as nat)) is Some
                    ==> #[trigger] file_named(after, rotated_name(base, j)) == file_named(
                    files,
                    rotated_name(base, (j - 1) as nat),
                )
            &&& file_named(after, rotated_name(base, 0)) is None
            &&& forall|n: Seq<char>|
                (forall|j: nat| j < keep ==> n != #[trigger] rotated_name(base, j)) ==> #[trigger] file_named(
                    after,
                    n,
                ) == file_named(files, n)
        }),
{
    lemma_shift(files, base, (keep - 1) as nat);
    let after = apply_renames(files, rotation_plan(base, keep));
    assert forall|n: Seq<char>|
        (forall|j: nat| j < keep ==> n != #[trigger] rotated_name(base, j)) implies #[trigger] file_named(
        after,
        n,
    ) == file_named(files, n) by {
        assert(forall|j: nat| j <= (keep - 1) as nat ==> n != #[trigger] rotated_name(base, j));
    }
}

/// The size of the live file after a write of `incoming` bytes onto a live
/// file of `current` bytes, the log rotating first where it must.
pub open spec fn live_size_after(current: nat, incoming: nat, max_mb: nat) -> nat {
    if rotates_before(current, incoming, max_mb) {
        incoming
    } else {
        current + incoming
    }
}

/// The size of the live file after the writes of `writes`, in order.
pub open spec fn live_size_after_writes(current: nat, writes: Seq<nat>, max_mb: nat) -> nat
    decreases writes.len(),
{
    if writes.len() == 0 {
        current
    } else {
        live_size_after(
            live_size_after_writes(current, writes.drop_last(), max_mb),
            writes.last(),
            max_mb,
        )
    }
}

/// The size limit holds over any run of writes: a live file within
/// `max_mb` megabytes stays within it, as long as no single write is larger
/// than the limit.
pub proof fn lemma_live_file_within_limit(start: nat, writes: Seq<nat>, max_mb: nat)
    requires
        start <= max_mb * 1_048_576,
        forall|i: int| 0 <= i < writes.len() ==> #[trigger] writes[i] <= max_mb * 1_048_576,
    ensures
        live_size_after_writes(start, writes, max_mb) <= max_mb * 1_048_576,
    decreases writes.len(),
{
    if writes.len() > 0 {
        let pre = writes.drop_last();
        assert forall|i: int| 0 <= i < pre.len() implies #[trigger] pre[i] <= max_mb * 1_048_576 by {
            assert(pre[i] == writes[i]);
        }
        lemma_live_file_within_limit(start, pre, max_mb);
        assert(writes.last() == writes[writes.len() - 1]);
    }
}

} // verus!
