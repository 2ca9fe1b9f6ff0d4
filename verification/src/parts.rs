//! Cutting a file into the parts of a multipart upload.

use vstd::prelude::*;

verus! {

/// Nominal size of one part: 50 MiB.
pub const PART_SIZE: u64 = 52_428_800;

/// The most parts one upload may have.
pub const MAX_PARTS: u32 = 10_000;

/// The most part uploads that may be in flight at once.
pub const MAX_IN_FLIGHT: usize = 32;

/// One part of a multipart upload: its 1-based number, the byte range of the
/// source file that it covers, and the entity tag that the service returned
/// for it (empty until the part has been uploaded).
#[derive(Debug)]
pub struct PartDescriptor {
    pub part_number: u32,
    pub offset: u64,
    pub length: u64,
    pub etag: String,
}

/// Mathematical value of a `PartDescriptor`.
pub struct PartDescriptorView {
    pub part_number: nat,
    pub offset: nat,
    pub length: nat,
    pub etag: Seq<char>,
}

impl View for PartDescriptor {
    type V = PartDescriptorView;

    open spec fn view(&self) -> PartDescriptorView {
        PartDescriptorView {
            part_number: self.part_number as nat,
            offset: self.offset as nat,
            length: self.length as nat,
            etag: self.etag@,
        }
    }
}

/// Why a file cannot be cut into parts.
#[derive(Debug, Clone, Copy, PartialEq, Eq, Structural)]
pub enum PlanError {
    /// The file needs more parts than the ceiling allows.
    TooManyParts,
    /// The part size is zero and the file is not empty.
    ZeroPartSize,
}

/// Number of parts of at most `part_size` bytes that cover `total_size` bytes:
/// none for an empty file, else the quotient rounded up.
pub open spec fn part_count(total_size: nat, part_size: nat) -> nat
    recommends
        total_size == 0 || part_size > 0,
{
    if total_size == 0 {
        0
    } else {
        ((total_size + part_size - 1) / (part_size as int)) as nat
    }
}

/// Length of the part at 0-based position `index`.
pub open spec fn part_length(total_size: nat, part_size: nat, index: nat) -> nat {
    if (index + 1) * part_size <= total_size {
        part_size
    } else {
        (total_size - index * part_size) as nat
    }
}

/// The part at 0-based position `index` of the plan, before it is uploaded.
pub open spec fn planned_part(total_size: nat, part_size: nat, index: nat) -> PartDescriptorView {
    PartDescriptorView {
        part_number: index + 1,
        offset: index * part_size,
        length: part_length(total_size, part_size, index),
        etag: Seq::empty(),
    }
}

/// The whole plan: one part for each position below `part_count`.
pub open spec fn planned_parts(total_size: nat, part_size: nat) -> Seq<PartDescriptorView> {
    Seq::new(part_count(total_size, part_size), |i: int| planned_part(total_size, part_size, i as nat))
}

/// Views of the parts of a vector, in order.
pub open spec fn part_views(parts: Seq<PartDescriptor>) -> Seq<PartDescriptorView> {
    Seq::new(parts.len(), |i: int| parts[i]@)
}

/// Sum of the lengths of `parts`.
pub open spec fn total_length(parts: Seq<PartDescriptorView>) -> nat
    decreases parts.len(),
{
    if parts.len() == 0 {
        0
    } else {
        total_length(parts.drop_last()) + parts.last().length
    }
}

/// `part_count` is the least number of parts whose nominal sizes reach
/// `total_size`.
pub proof fn lemma_part_count_bounds(total_size: nat, part_size: nat)
    requires
        part_size > 0,
    ensures
        total_size <= part_count(total_size, part_size) * part_size,
        part_count(total_size, part_size) > 0 ==> (part_count(total_size, part_size) - 1)
            * part_size < total_size,
        total_size == 0 <==> part_count(total_size, part_size) == 0,
{
    if total_size > 0 {
        let x = (total_size + part_size - 1) as int;
        let d = part_size as int;
        vstd::arithmetic::div_mod::lemma_fundamental_div_mod(x, d);
        vstd::arithmetic::div_mod::lemma_div_pos_is_pos(x, d);
        let n = x / d;
        assert(x == d * n + x % d);
        assert(0 <= x % d < d);
        assert(d * n == n * d) by (nonlinear_arith);
        assert((n - 1) * d == n * d - d) by (nonlinear_arith);
    }
}

/// A position lies below `part_count` exactly when the parts before it do not
/// yet reach the end of the file.
pub proof fn lemma_part_count_position(total_size: nat, part_size: nat, index: nat)
    requires
        part_size > 0,
    ensures
        index < part_count(total_size, part_size) <==> index * part_size < total_size,
{
    lemma_part_count_bounds(total_size, part_size);
    let n = part_count(total_size, part_size);
    if index < n {
        assert(index * part_size <= (n - 1) * part_size) by (nonlinear_arith)
            requires
                index <= n - 1,
                part_size > 0,
        ;
    } else {
        assert(n * part_size <= index * part_size) by (nonlinear_arith)
            requires
                n <= index,
                part_size > 0,
        ;
    }
}

/// Cuts `[0, total_size)` into consecutive parts of `part_size` bytes, the last
/// one holding what is left, numbered from 1.
///
/// Fails with `TooManyParts` when more than `max_parts` parts would be needed,
/// which is found out before any part is laid out, and with `ZeroPartSize`
/// when `part_size` is zero although there are bytes to cover (an empty file
/// needs no part, whatever the part size).
pub fn plan_parts(total_size: u64, part_size: u64, max_parts: u32) -> (r: Result<
    Vec<PartDescriptor>,
    PlanError,
>)
    ensures
        match r {
            Ok(parts) => {
                &&& total_size == 0 || part_size > 0
                &&& part_count(total_size as nat, part_size as nat) <= max_parts
                &&& part_views(parts@) == planned_parts(total_size as nat, part_size as nat)
            },
            Err(PlanError::ZeroPartSize) => total_size > 0 && part_size == 0,
            Err(PlanError::TooManyParts) => part_size > 0 && part_count(
                total_size as nat,
                part_size as nat,
            ) > max_parts,
        },
{
    let mut parts: Vec<PartDescriptor> = Vec::new();
    if total_size == 0 {
        proof {
            assert(part_views(parts@) =~= planned_parts(0, part_size as nat));
        }
        return Ok(parts);
    }
    if part_size == 0 {
        return Err(PlanError::ZeroPartSize);
    }
    let ghost total = total_size as nat;
    let ghost size = part_size as nat;
    let full = total_size / part_size;
    let rest = total_size % part_size;
    proof {
        vstd::arithmetic::div_mod::lemma_fundamental_div_mod(total_size as int, part_size as int);
        assert(total_size == part_size * full + rest);
        assert(part_size * full == full * part_size) by (nonlinear_arith);
        if rest > 0 && full == u64::MAX {
            assert(full * part_size >= full) by (nonlinear_arith)
                requires
                    part_size >= 1,
                    full >= 0,
            ;
        }
    }
    let count: u64 = if rest > 0 {
        full + 1
    } else {
        full
    };
    proof {
        assert((full + 1) * part_size == full * part_size + part_size) by (nonlinear_arith);
        assert((full - 1) * part_size == full * part_size - part_size) by (nonlinear_arith);
        assert((count - 1) * size < total);
        assert(count * size >= total);
        lemma_part_count_position(total, size, (count - 1) as nat);
        lemma_part_count_position(total, size, count as nat);
        assert(count == part_count(total, size));
    }
    if count > max_parts as u64 {
        return Err(PlanError::TooManyParts);
    }
    let mut done: u64 = 0;
    while done < count
        invariant
            part_size > 0,
            total == total_size as nat,
            size == part_size as nat,
            count == part_count(total, size),
            count <= max_parts,
            done <= count,
            parts.len() == done,
            forall|i: int|
                0 <= i < parts.len() ==> (#[trigger] parts[i])@ == planned_part(total, size, i as nat),
        decreases count - done,
    {
        proof {
            lemma_part_count_position(total, size, done as nat);
            assert((done + 1) * size == done * size + size) by (nonlinear_arith);
        }
        let offset = done * part_size;
        let remaining = total_size - offset;
        let length = if remaining < part_size {
            remaining
        } else {
            part_size
        };
        let part = PartDescriptor {
            part_number: (done + 1) as u32,
            offset,
            length,
            etag: String::new(),
        };
        proof {
            assert(part@ == planned_part(total, size, done as nat));
        }
        parts.push(part);
        done = done + 1;
    }
    proof {
        assert(part_views(parts@) =~= planned_parts(total, size));
    }
    Ok(parts)
}

/// An empty file has no parts.
pub proof fn lemma_empty_file_has_no_parts(part_size: nat)
    ensures
        planned_parts(0, part_size).len() == 0,
{
}

/// Part numbers run from 1 to the number of parts without a gap, in plan order.
pub proof fn lemma_part_numbers_contiguous(total_size: nat, part_size: nat)
    requires
        part_size > 0,
    ensures
        forall|i: int|
            0 <= i < planned_parts(total_size, part_size).len() ==> (#[trigger] planned_parts(
                total_size,
                part_size,
            )[i]).part_number == i + 1,
{
}

/// The parts lie end to end: the first starts at byte 0, each next one starts
/// where the one before it stops, and the last one stops at the end of the
/// file.
pub proof fn lemma_parts_lie_end_to_end(total_size: nat, part_size: nat)
    requires
        part_size > 0,
    ensures
        ({
            let plan = planned_parts(total_size, part_size);
            &&& plan.len() > 0 ==> plan[0].offset == 0
            &&& forall|i: int|
                0 <= i < plan.len() - 1 ==> (#[trigger] plan[i + 1]).offset == plan[i].offset
                    + plan[i].length
            &&& plan.len() > 0 ==> plan.last().offset + plan.last().length == total_size
        }),
{
    let plan = planned_parts(total_size, part_size);
    let n = part_count(total_size, part_size);
    lemma_part_count_bounds(total_size, part_size);
    assert forall|i: int| 0 <= i < plan.len() - 1 implies (#[trigger] plan[i + 1]).offset
        == plan[i].offset + plan[i].length by {
        lemma_part_count_position(total_size, part_size, (i + 1) as nat);
        assert((i + 1) * part_size == i * part_size + part_size) by (nonlinear_arith);
    }
    if n > 0 {
        assert(((n - 1) + 1) * part_size == n * part_size);
        assert((n - 1) * part_size == n * part_size - part_size) by (nonlinear_arith);
    }
}

/// No part is empty or longer than the part size, and every part but the last
/// has exactly the part size.
pub proof fn lemma_part_lengths(total_size: nat, part_size: nat)
    requires
        part_size > 0,
    ensures
        ({
            let plan = planned_parts(total_size, part_size);
            &&& forall|i: int| 0 <= i < plan.len() ==> 0 < (#[trigger] plan[i]).length <= part_size
            &&& forall|i: int| 0 <= i < plan.len() - 1 ==> (#[trigger] plan[i]).length == part_size
        }),
{
    let plan = planned_parts(total_size, part_size);
    assert forall|i: int| 0 <= i < plan.len() implies 0 < (#[trigger] plan[i]).length
        <= part_size by {
        lemma_part_count_position(total_size, part_size, i as nat);
        assert((i + 1) * part_size == i * part_size + part_size) by (nonlinear_arith);
    }
    assert forall|i: int| 0 <= i < plan.len() - 1 implies (#[trigger] plan[i]).length
        == part_size by {
        lemma_part_count_position(total_size, part_size, (i + 1) as nat);
    }
}

/// Where the part size divides the file size, every part has the part size;
/// otherwise the last part alone is shorter, and holds the remainder.
pub proof fn lemma_last_part_length(total_size: nat, part_size: nat)
    requires
        part_size > 0,
        total_size > 0,
    ensures
        ({
            let plan = planned_parts(total_size, part_size);
            &&& plan.len() > 0
            &&& total_size % part_size == 0 ==> plan.last().length == part_size
            &&& total_size % part_size != 0 ==> plan.last().length == total_size % part_size
            &&& total_size % part_size != 0 ==> plan.last().length < part_size
        }),
{
    let n = part_count(total_size, part_size) as int;
    let d = part_size as int;
    let t = total_size as int;
    lemma_part_count_bounds(total_size, part_size);
    vstd::arithmetic::div_mod::lemma_fundamental_div_mod(t, d);
    let q = t / d;
    let r = t % d;
    assert(t == d * q + r);
    let last = (n - 1) as nat;
    assert(planned_parts(total_size, part_size).last() == planned_part(
        total_size,
        part_size,
        last,
    ));
    assert((last + 1) * part_size == n * d);
    assert(last * part_size == (n - 1) * d);
    if r == 0 {
        assert(q == n) by (nonlinear_arith)
            requires
                (n - 1) * d < d * q,
                d * q <= n * d,
                d > 0,
        ;
        assert((n - 1) * d == n * d - d) by (nonlinear_arith);
        assert(d * q == n * d) by (nonlinear_arith)
            requires
                q == n,
        ;
    } else {
        assert(q == n - 1) by (nonlinear_arith)
            requires
                (n - 1) * d < d * q + r,
                d * q + r <= n * d,
                0 < r < d,
                d > 0,
        ;
        assert(d * q == (n - 1) * d) by (nonlinear_arith)
            requires
                q == n - 1,
        ;
        assert(n * d == (n - 1) * d + d) by (nonlinear_arith);
    }
}

/// The first `count` parts of the plan together hold `count` part sizes, or
/// the whole file once the plan is complete.
proof fn lemma_prefix_length(total_size: nat, part_size: nat, count: nat)
    requires
        part_size > 0,
        count <= part_count(total_size, part_size),
    ensures
        total_length(planned_parts(total_size, part_size).take(count as int)) == if count
            == part_count(total_size, part_size) {
            total_size
        } else {
            count * part_size
        },
    decreases count,
{
    let plan = planned_parts(total_size, part_size);
    let n = part_count(total_size, part_size);
    lemma_part_count_bounds(total_size, part_size);
    if count == 0 {
        assert(plan.take(0).len() == 0);
        assert(0 * part_size == 0);
    } else {
        let before = (count - 1) as nat;
        lemma_prefix_length(total_size, part_size, before);
        assert(plan.take(count as int).drop_last() =~= plan.take(before as int));
        assert(plan.take(count as int).last() == plan[before as int]);
        assert(total_length(plan.take(before as int)) == before * part_size);
        assert((before + 1) * part_size == before * part_size + part_size) by (nonlinear_arith);
        lemma_part_count_position(total_size, part_size, count);
    }
}

/// The lengths of the parts add up to the size of the file.
pub proof fn lemma_parts_cover_file(total_size: nat, part_size: nat)
    requires
        part_size > 0,
    ensures
        total_length(planned_parts(total_size, part_size)) == total_size,
{
    let plan = planned_parts(total_size, part_size);
    lemma_prefix_length(total_size, part_size, part_count(total_size, part_size));
    assert(plan.take(plan.len() as int) =~= plan);
}

} // verus!
