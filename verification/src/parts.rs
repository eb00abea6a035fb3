//! How a large file is cut into parts for a multipart upload.

use vstd::arithmetic::div_mod::{lemma_div_is_ordered, lemma_fundamental_div_mod};
use vstd::prelude::*;

verus! {

/// One mebibyte.
pub const MIB: u64 = 1048576;

/// Up to this size (64 MiB) a file goes up in one request.
pub const DIRECT_LIMIT: u64 = 67108864;

/// No part but the last is smaller than this (16 MiB).
pub const MIN_PART: u64 = 16777216;

/// Parts are made large enough for a file to need no more than this many.
pub const PART_GOAL: u64 = 9500;

/// The number of parts that S3 accepts.
pub const S3_PART_LIMIT: u64 = 10000;

/// The smallest multiple of `unit` that is not below `n`.
pub open spec fn round_up(n: nat, unit: nat) -> nat {
    ((n + unit - 1) as nat / unit) * unit
}

/// The size of the parts of a file of `size` bytes: large enough for
/// [`PART_GOAL`] parts, at least [`MIN_PART`], in whole mebibytes.
pub open spec fn part_size_of(size: nat) -> nat {
    let needed = size / (PART_GOAL as nat) + 1;
    round_up(
        if needed < MIN_PART {
            MIN_PART as nat
        } else {
            needed
        },
        MIB as nat,
    )
}

/// How many parts of `part_size` bytes hold `size` bytes.
pub open spec fn part_count(size: nat, part_size: nat) -> nat {
    (size + part_size - 1) as nat / part_size
}

/// Where part `number` begins in the file. Parts are counted from one.
pub open spec fn part_offset(part_size: nat, number: int) -> int {
    (number - 1) * part_size
}

/// How many bytes part `number` holds: all of `part_size`, or what is left.
pub open spec fn part_len(size: nat, part_size: nat, number: int) -> int {
    let left = size - part_offset(part_size, number);
    if left < part_size {
        left
    } else {
        part_size as int
    }
}

/// The bytes of those of the first `upto` parts that `held` names.
pub open spec fn bytes_held(held: Set<i32>, size: nat, part_size: nat, upto: nat) -> int
    decreases upto,
{
    if upto == 0 {
        0
    } else {
        bytes_held(held, size, part_size, (upto - 1) as nat) + if held.contains(upto as i32) {
            part_len(size, part_size, upto as int)
        } else {
            0
        }
    }
}

/// Whether a part of that number begins within the file or at its end.
pub open spec fn part_begins(size: nat, part_size: nat, number: int) -> bool {
    1 <= number && part_offset(part_size, number) <= size
}

/// A part of a file: its number, where it begins and how long it is.
#[derive(Debug, Clone, Copy)]
pub struct PartSpan {
    pub number: i32,
    pub offset: u64,
    pub len: u64,
}

/// A part that storage has confirmed, with the tag that it gave.
#[derive(Debug)]
pub struct CompletedPart {
    pub number: i32,
    pub etag: String,
}

/// What confirmed parts say, in order.
pub open spec fn completed_views(parts: Seq<CompletedPart>) -> Seq<(i32, Seq<char>)> {
    parts.map_values(|p: CompletedPart| (p.number, p.etag@))
}

/// What a map from part numbers to tags says.
pub open spec fn etag_views(parts: Map<i32, String>) -> Map<i32, Seq<char>> {
    parts.map_values(|t: String| t@)
}

/// Part `number` of a file.
pub open spec fn span_of(size: nat, part_size: nat, number: int) -> PartSpan {
    PartSpan {
        number: number as i32,
        offset: part_offset(part_size, number) as u64,
        len: part_len(size, part_size, number) as u64,
    }
}

/// Those of the first `upto` parts that `held` does not name, in ascending
/// order.
pub open spec fn missing_spans(held: Set<i32>, size: nat, part_size: nat, upto: nat) -> Seq<
    PartSpan,
>
    decreases upto,
{
    if upto == 0 {
        Seq::empty()
    } else {
        let front = missing_spans(held, size, part_size, (upto - 1) as nat);
        if held.contains(upto as i32) {
            front
        } else {
            front.push(span_of(size, part_size, upto as int))
        }
    }
}

/// Those of the parts numbered up to `upto` that `parts` holds, in ascending
/// order.
pub open spec fn ascending(parts: Map<i32, Seq<char>>, upto: nat) -> Seq<(i32, Seq<char>)>
    decreases upto,
{
    if upto == 0 {
        Seq::empty()
    } else {
        let front = ascending(parts, (upto - 1) as nat);
        if parts.contains_key(upto as i32) {
            front.push((upto as i32, parts[upto as i32]))
        } else {
            front
        }
    }
}

// ---------------------------------------------------------------------------
// Laws of the cut
// ---------------------------------------------------------------------------

proof fn round_up_bounds(n: nat, unit: nat)
    requires
        unit > 0,
    ensures
        n <= round_up(n, unit) < n + unit,
        round_up(n, unit) % unit == 0,
{
    let m = (n + unit - 1) as nat;
    lemma_fundamental_div_mod(m as int, unit as int);
    assert(m == unit * (m / unit) + m % unit);
    assert((m / unit) * unit == unit * (m / unit)) by (nonlinear_arith);
    vstd::arithmetic::div_mod::lemma_mod_multiples_basic((m / unit) as int, unit as int);
}

/// A part is a whole number of mebibytes and no smaller than sixteen of them.
pub proof fn law_part_size(size: nat)
    ensures
        part_size_of(size) >= MIN_PART,
        part_size_of(size) % (MIB as nat) == 0,
        part_size_of(size) > size / (PART_GOAL as nat),
        part_size_of(size) < size / (PART_GOAL as nat) + 1 + MIN_PART + MIB,
{
    let needed = size / (PART_GOAL as nat) + 1;
    round_up_bounds(
        if needed < MIN_PART {
            MIN_PART as nat
        } else {
            needed
        },
        MIB as nat,
    );
}

/// No file needs more than [`PART_GOAL`] parts, which S3 accepts.
pub proof fn law_part_count(size: nat)
    ensures
        part_count(size, part_size_of(size)) <= PART_GOAL < S3_PART_LIMIT,
        size > 0 ==> part_count(size, part_size_of(size)) >= 1,
{
    law_part_size(size);
    let ps = part_size_of(size);
    let goal = PART_GOAL as nat;
    lemma_fundamental_div_mod(size as int, goal as int);
    assert(size < goal * (size / goal + 1));
    assert(goal * (size / goal + 1) <= goal * ps) by (nonlinear_arith)
        requires
            size / goal + 1 <= ps,
    ;
    let m = (size + ps - 1) as nat;
    assert(m < (goal + 1) * ps) by (nonlinear_arith)
        requires
            size < goal * ps,
            m == size + ps - 1,
    ;
    assert(m / ps < goal + 1) by (nonlinear_arith)
        requires
            m < (goal + 1) * ps,
            ps > 0,
    ;
    if size > 0 {
        lemma_div_is_ordered(ps as int, m as int, ps as int);
        assert(ps / ps == 1) by (nonlinear_arith)
            requires
                ps > 0,
        ;
    }
}

/// The last part reaches the end of the file, and no earlier one does.
pub proof fn law_last_part(size: nat, part_size: nat)
    requires
        part_size > 0,
    ensures
        part_count(size, part_size) * part_size >= size,
        size > 0 ==> (part_count(size, part_size) - 1) * part_size < size,
        size == 0 ==> part_count(size, part_size) == 0,
{
    let m = (size + part_size - 1) as nat;
    let n = part_count(size, part_size);
    lemma_fundamental_div_mod(m as int, part_size as int);
    assert(m == part_size * n + m % part_size);
    assert(part_size * n == n * part_size) by (nonlinear_arith);
    assert((n - 1) * part_size == n * part_size - part_size) by (nonlinear_arith);
    if size == 0 {
        vstd::arithmetic::div_mod::lemma_basic_div(m as int, part_size as int);
    }
}

/// Every part holds something, at most `part_size` bytes, and lies within the
/// file.
pub proof fn law_part_within(size: nat, part_size: nat, number: int)
    requires
        part_size > 0,
        1 <= number <= part_count(size, part_size),
    ensures
        0 <= part_offset(part_size, number) < size,
        1 <= part_len(size, part_size, number) <= part_size,
        part_offset(part_size, number) + part_len(size, part_size, number) <= size,
{
    law_last_part(size, part_size);
    let n = part_count(size, part_size);
    assert((number - 1) * part_size <= (n - 1) * part_size) by (nonlinear_arith)
        requires
            number <= n,
            part_size > 0,
    ;
    assert((number - 1) * part_size >= 0) by (nonlinear_arith)
        requires
            number >= 1,
            part_size > 0,
    ;
}

/// Each part begins where the one before it ends; the first begins at the
/// start of the file and the last ends at its end.
pub proof fn law_parts_adjoin(size: nat, part_size: nat, number: int)
    requires
        part_size > 0,
        1 <= number <= part_count(size, part_size),
    ensures
        part_offset(part_size, 1) == 0,
        number < part_count(size, part_size) ==> part_offset(part_size, number + 1) == part_offset(
            part_size,
            number,
        ) + part_len(size, part_size, number),
        number == part_count(size, part_size) ==> part_offset(part_size, number) + part_len(
            size,
            part_size,
            number,
        ) == size,
{
    law_last_part(size, part_size);
    let n = part_count(size, part_size);
    assert(number * part_size == (number - 1) * part_size + part_size) by (nonlinear_arith);
    if number < n {
        assert(number * part_size <= (n - 1) * part_size) by (nonlinear_arith)
            requires
                number <= n - 1,
                part_size > 0,
        ;
    }
}

/// A file of which every part is held is held whole.
pub proof fn law_all_parts_make_the_file(held: Set<i32>, size: nat, part_size: nat)
    requires
        part_size > 0,
        part_count(size, part_size) <= i32::MAX,
        forall|n: int| 1 <= n <= part_count(size, part_size) ==> held.contains(#[trigger] (n as i32)),
    ensures
        bytes_held(held, size, part_size, part_count(size, part_size)) == size,
{
    let n = part_count(size, part_size);
    law_last_part(size, part_size);
    if n > 0 {
        all_held_upto(held, size, part_size, n);
        law_parts_adjoin(size, part_size, n as int);
    } else {
        assert(n * part_size == 0) by (nonlinear_arith)
            requires
                n == 0,
        ;
    }
}

proof fn all_held_upto(held: Set<i32>, size: nat, part_size: nat, upto: nat)
    requires
        part_size > 0,
        1 <= upto <= part_count(size, part_size) <= i32::MAX,
        forall|n: int| 1 <= n <= part_count(size, part_size) ==> held.contains(#[trigger] (n as i32)),
    ensures
        bytes_held(held, size, part_size, upto) == part_offset(part_size, upto as int) + part_len(
            size,
            part_size,
            upto as int,
        ),
    decreases upto,
{
    assert(held.contains((upto as int) as i32));
    if upto > 1 {
        all_held_upto(held, size, part_size, (upto - 1) as nat);
        law_parts_adjoin(size, part_size, upto - 1);
    } else {
        assert(bytes_held(held, size, part_size, 0) == 0);
        law_parts_adjoin(size, part_size, 1);
    }
}

/// What is held never exceeds the file.
pub proof fn law_held_within_file(held: Set<i32>, size: nat, part_size: nat, upto: nat)
    requires
        part_size > 0,
        upto <= part_count(size, part_size) <= i32::MAX,
    ensures
        0 <= bytes_held(held, size, part_size, upto) <= size,
        upto > 0 ==> bytes_held(held, size, part_size, upto) <= part_offset(part_size, upto as int)
            + part_len(size, part_size, upto as int),
    decreases upto,
{
    if upto > 0 {
        law_held_within_file(held, size, part_size, (upto - 1) as nat);
        law_part_within(size, part_size, upto as int);
        law_parts_adjoin(size, part_size, upto as int);
        if upto > 1 {
            law_parts_adjoin(size, part_size, upto - 1);
        } else {
            assert(bytes_held(held, size, part_size, 0) == 0);
        }
    }
}

/// One more part adds its bytes, once.
pub proof fn law_held_part_adds(
    held: Set<i32>,
    size: nat,
    part_size: nat,
    upto: nat,
    number: i32,
)
    requires
        !held.contains(number),
        upto <= i32::MAX,
    ensures
        bytes_held(held.insert(number), size, part_size, upto) == bytes_held(
            held,
            size,
            part_size,
            upto,
        ) + if 1 <= number <= upto {
            part_len(size, part_size, number as int)
        } else {
            0
        },
    decreases upto,
{
    if upto > 0 {
        law_held_part_adds(held, size, part_size, (upto - 1) as nat, number);
    }
}

/// What is held and what is missing together are the file.
pub proof fn law_missing_completes(held: Set<i32>, size: nat, part_size: nat)
    requires
        0 < part_size,
        size <= u64::MAX,
        part_count(size, part_size) <= i32::MAX,
    ensures
        bytes_held(held, size, part_size, part_count(size, part_size)) + span_bytes(
            missing_spans(held, size, part_size, part_count(size, part_size)),
        ) == size,
{
    let n = part_count(size, part_size);
    missing_complement(held, size, part_size, n);
    let all = Set::new(|m: i32| true);
    assert(forall|m: int| 1 <= m <= n ==> all.contains(#[trigger] (m as i32)));
    law_all_parts_make_the_file(all, size, part_size);
}

/// The bytes of a sequence of parts.
pub open spec fn span_bytes(spans: Seq<PartSpan>) -> int
    decreases spans.len(),
{
    if spans.len() == 0 {
        0
    } else {
        span_bytes(spans.drop_last()) + spans.last().len
    }
}

proof fn missing_complement(held: Set<i32>, size: nat, part_size: nat, upto: nat)
    requires
        0 < part_size,
        size <= u64::MAX,
        upto <= part_count(size, part_size) <= i32::MAX,
    ensures
        bytes_held(held, size, part_size, upto) + span_bytes(
            missing_spans(held, size, part_size, upto),
        ) == bytes_held(Set::new(|m: i32| true), size, part_size, upto),
    decreases upto,
{
    if upto > 0 {
        missing_complement(held, size, part_size, (upto - 1) as nat);
        law_part_within(size, part_size, upto as int);
        let front = missing_spans(held, size, part_size, (upto - 1) as nat);
        let span = span_of(size, part_size, upto as int);
        assert(front.push(span).drop_last() == front);
        assert(Set::new(|m: i32| true).contains(upto as i32));
    }
}

/// A missing part is one that is not held, and each is listed: the list names,
/// in ascending order, exactly the parts that are still to be sent.
pub proof fn law_missing_exact(held: Set<i32>, size: nat, part_size: nat, upto: nat)
    requires
        upto <= i32::MAX,
    ensures
        forall|i: int|
            0 <= i < missing_spans(held, size, part_size, upto).len() ==> {
                let span = #[trigger] missing_spans(held, size, part_size, upto)[i];
                &&& 1 <= span.number <= upto
                &&& !held.contains(span.number)
                &&& span == span_of(size, part_size, span.number as int)
            },
        forall|i: int, j: int|
            0 <= i < j < missing_spans(held, size, part_size, upto).len() ==> (
            #[trigger] missing_spans(held, size, part_size, upto)[i]).number < (
            #[trigger] missing_spans(held, size, part_size, upto)[j]).number,
        forall|n: i32|
            1 <= n <= upto && !held.contains(n) ==> #[trigger] missing_spans(
                held,
                size,
                part_size,
                upto,
            ).contains(span_of(size, part_size, n as int)),
    decreases upto,
{
    if upto > 0 {
        let front = missing_spans(held, size, part_size, (upto - 1) as nat);
        let all = missing_spans(held, size, part_size, upto);
        law_missing_exact(held, size, part_size, (upto - 1) as nat);
        assert forall|n: i32| 1 <= n <= upto && !held.contains(n) implies #[trigger] all.contains(
            span_of(size, part_size, n as int),
        ) by {
            let span = span_of(size, part_size, n as int);
            if n == upto {
                assert(all[all.len() - 1] == span);
            } else {
                assert(front.contains(span));
                let k = choose|k: int| 0 <= k < front.len() && front[k] == span;
                assert(all[k] == span);
            }
        }
    }
}

/// The confirmed parts of a whole file come one by one in ascending order.
pub proof fn law_ascending_whole(parts: Map<i32, Seq<char>>, upto: nat)
    requires
        upto <= i32::MAX,
        forall|n: int| 1 <= n <= upto ==> parts.contains_key(#[trigger] (n as i32)),
    ensures
        ascending(parts, upto).len() == upto,
        forall|i: int|
            0 <= i < upto ==> #[trigger] ascending(parts, upto)[i] == (
                (i + 1) as i32,
                parts[(i + 1) as i32],
            ),
    decreases upto,
{
    if upto > 0 {
        assert(parts.contains_key((upto as int) as i32));
        law_ascending_whole(parts, (upto - 1) as nat);
    }
}

/// The ascending list holds every confirmed part once, with its own tag.
pub proof fn law_ascending_exact(parts: Map<i32, Seq<char>>, upto: nat)
    requires
        upto <= i32::MAX,
    ensures
        forall|i: int|
            0 <= i < ascending(parts, upto).len() ==> {
                let p = #[trigger] ascending(parts, upto)[i];
                &&& 1 <= p.0 <= upto
                &&& parts.contains_key(p.0)
                &&& parts[p.0] == p.1
            },
        forall|i: int, j: int|
            0 <= i < j < ascending(parts, upto).len() ==> (#[trigger] ascending(parts, upto)[i]).0 < (
            #[trigger] ascending(parts, upto)[j]).0,
        forall|n: i32|
            1 <= n <= upto && parts.contains_key(n) ==> #[trigger] ascending(parts, upto).contains(
                (n, parts[n]),
            ),
    decreases upto,
{
    if upto > 0 {
        let front = ascending(parts, (upto - 1) as nat);
        let all = ascending(parts, upto);
        law_ascending_exact(parts, (upto - 1) as nat);
        assert forall|n: i32| 1 <= n <= upto && parts.contains_key(n) implies #[trigger] all.contains(
            (n, parts[n]),
        ) by {
            if n == upto {
                assert(all[all.len() - 1] == (n, parts[n]));
            } else {
                assert(front.contains((n, parts[n])));
                let k = choose|k: int| 0 <= k < front.len() && front[k] == (n, parts[n]);
                assert(all[k] == (n, parts[n]));
            }
        }
    }
}

proof fn round_up_least(n: nat, unit: nat, m: nat)
    requires
        unit > 0,
        m % unit == 0,
        m >= n,
    ensures
        round_up(n, unit) <= m,
{
    round_up_bounds(n, unit);
    let r = round_up(n, unit);
    lemma_fundamental_div_mod(m as int, unit as int);
    lemma_fundamental_div_mod(r as int, unit as int);
    let (a, b) = (m / unit, r / unit);
    assert(b <= a) by (nonlinear_arith)
        requires
            unit * b < unit * a + unit,
            unit > 0,
    ;
    assert(unit * b <= unit * a) by (nonlinear_arith)
        requires
            b <= a,
    ;
}

/// The parts of a file are of the least size that is a whole number of mebibytes,
/// no smaller than sixteen of them, and large enough for fewer than 9501 parts.
pub proof fn law_part_size_is_least(size: nat, m: nat)
    ensures
        part_size_of(size) % 1048576 == 0,
        part_size_of(size) >= 16777216,
        part_size_of(size) * 9500 > size,
        m % 1048576 == 0 && m >= 16777216 && m * 9500 > size ==> part_size_of(size) <= m,
{
    law_part_size(size);
    let needed = size / (PART_GOAL as nat) + 1;
    let wanted = if needed < MIN_PART {
        MIN_PART as nat
    } else {
        needed
    };
    if m % 1048576 == 0 && m >= 16777216 && m * 9500 > size {
        round_up_least(wanted, MIB as nat, m);
    }
}

/// Part `number` begins behind those before it, each of which is full, and holds
/// as many bytes as fit, or those that are left.
pub proof fn law_part_place(size: nat, part_size: nat, number: int)
    ensures
        part_offset(part_size, number) == (number - 1) * part_size,
        size - (number - 1) * part_size >= part_size ==> part_len(size, part_size, number)
            == part_size,
        size - (number - 1) * part_size < part_size ==> part_len(size, part_size, number) == size
            - (number - 1) * part_size,
        part_begins(size, part_size, number) <==> number >= 1 && (number - 1) * part_size <= size,
        part_size > 0 && 1 <= number <= part_count(size, part_size) <= i32::MAX && size <= u64::MAX
            ==> {
            &&& span_of(size, part_size, number).number == number
            &&& span_of(size, part_size, number).offset == (number - 1) * part_size
            &&& span_of(size, part_size, number).len == part_len(size, part_size, number)
        },
{
    if part_size > 0 && 1 <= number <= part_count(size, part_size) {
        law_part_within(size, part_size, number);
    }
}

/// Where no part is held, no byte is.
pub proof fn law_nothing_held(size: nat, part_size: nat, upto: nat)
    ensures
        bytes_held(Set::empty(), size, part_size, upto) == 0,
    decreases upto,
{
    if upto > 0 {
        law_nothing_held(size, part_size, (upto - 1) as nat);
    }
}

/// Files of up to 64 MiB go up in one request; others in parts, at most 9500 of
/// them.
pub proof fn law_limits()
    ensures
        DIRECT_LIMIT == 64 * 1024 * 1024,
        MIN_PART == 16 * 1024 * 1024,
        MIB == 1024 * 1024,
        PART_GOAL == 9500,
        S3_PART_LIMIT == 10000,
{
}

// ---------------------------------------------------------------------------
// The cut, computed
// ---------------------------------------------------------------------------

/// The size of the parts of a file of `size` bytes.
pub fn part_size_for(size: u64) -> (part_size: u64)
    ensures
        part_size == part_size_of(size as nat),
{
    proof {
        law_part_size(size as nat);
    }
    let needed: u64 = size / PART_GOAL + 1;
    let wanted: u64 = if needed < MIN_PART {
        MIN_PART
    } else {
        needed
    };
    (wanted + (MIB - 1)) / MIB * MIB
}

/// How many parts a file of `size` bytes is sent in.
pub fn part_count_for(size: u64) -> (count: i32)
    ensures
        count == part_count(size as nat, part_size_of(size as nat)),
        0 <= count <= PART_GOAL,
{
    proof {
        law_part_size(size as nat);
        law_part_count(size as nat);
    }
    let part_size: u64 = part_size_for(size);
    let whole: u64 = size / part_size;
    let rest: u64 = size % part_size;
    proof {
        let s = size as int;
        let ps = part_size as int;
        lemma_fundamental_div_mod(s, ps);
        let q = s / ps;
        let r = s % ps;
        assert(s + ps - 1 == ps * q + (r + ps - 1));
        if r == 0 {
            assert((s + ps - 1) / ps == q) by {
                vstd::arithmetic::div_mod::lemma_fundamental_div_mod_converse(
                    s + ps - 1,
                    ps,
                    q,
                    ps - 1,
                );
            }
        } else {
            assert(ps * (q + 1) == ps * q + ps) by (nonlinear_arith);
            assert((s + ps - 1) / ps == q + 1) by {
                vstd::arithmetic::div_mod::lemma_fundamental_div_mod_converse(
                    s + ps - 1,
                    ps,
                    q + 1,
                    r - 1,
                );
            }
        }
    }
    if rest == 0 {
        whole as i32
    } else {
        (whole + 1) as i32
    }
}

} // verus!
