use vstd::prelude::*;

use crate::errors::{Error, InvalidReason};

verus! {

/// The provider accepts fewer parts than this in one multipart upload.
pub const MAX_PARTS: u64 = 10000;

/// One byte range of a file, uploaded as one part.
#[derive(Clone, Copy, Debug, PartialEq, Eq, Structural)]
pub struct FileChunk {
    /// Sequence number, counted from 1.
    pub number: u64,
    pub offset: u64,
    pub size: u64,
}

/// How many parts a file of `file_size` bytes takes with parts of `chunk_size` bytes.
pub open spec fn chunk_count(file_size: nat, chunk_size: nat) -> nat
    recommends
        chunk_size > 0,
{
    file_size / chunk_size + if file_size % chunk_size > 0 {
        1nat
    } else {
        0nat
    }
}

/// The `i`-th chunk (from 0) of the plan: full-size chunks first, then the remainder.
pub open spec fn planned_chunk(file_size: nat, chunk_size: nat, i: nat) -> FileChunk
    recommends
        chunk_size > 0,
{
    FileChunk {
        number: (i + 1) as u64,
        offset: (i * chunk_size) as u64,
        size: if i < file_size / chunk_size {
            chunk_size as u64
        } else {
            (file_size % chunk_size) as u64
        },
    }
}

/// `chunks` is exactly the plan for the given sizes.
pub open spec fn is_plan(chunks: Seq<FileChunk>, file_size: nat, chunk_size: nat) -> bool {
    &&& chunk_size > 0
    &&& chunks.len() == chunk_count(file_size, chunk_size)
    &&& forall|i: int|
        0 <= i < chunks.len() ==> #[trigger] chunks[i] == planned_chunk(file_size, chunk_size, i as nat)
}

/// Total of the sizes of `chunks`.
pub open spec fn total_size(chunks: Seq<FileChunk>) -> nat
    decreases chunks.len(),
{
    if chunks.len() == 0 {
        0
    } else {
        total_size(chunks.drop_last()) + chunks.last().size as nat
    }
}

/// Splits a file of `file_size` bytes into parts of `chunk_size` bytes, the last one
/// holding what remains.
pub fn split_file_by_part_size(file_size: u64, chunk_size: u64) -> (r: Result<Vec<FileChunk>, Error>)
    ensures
        chunk_size == 0 ==> r == Err::<Vec<FileChunk>, Error>(
            Error::InvalidInput(InvalidReason::ZeroChunkSize),
        ),
        chunk_size > 0 && chunk_count(file_size as nat, chunk_size as nat) >= MAX_PARTS ==> r
            == Err::<Vec<FileChunk>, Error>(Error::TooManyParts),
        chunk_size > 0 && chunk_count(file_size as nat, chunk_size as nat) < MAX_PARTS ==> r is Ok
            && is_plan(r->Ok_0@, file_size as nat, chunk_size as nat),
{
    if chunk_size == 0 {
        return Err(Error::InvalidInput(InvalidReason::ZeroChunkSize));
    }
    let chunk_n: u64 = file_size / chunk_size;
    let rest: u64 = file_size % chunk_size;
    if chunk_n >= MAX_PARTS || (chunk_n == MAX_PARTS - 1 && rest > 0) {
        return Err(Error::TooManyParts);
    }
    let mut chunks: Vec<FileChunk> = Vec::new();
    let mut i: u64 = 0;
    while i < chunk_n
        invariant
            chunk_size > 0,
            chunk_n == file_size / chunk_size,
            i <= chunk_n,
            chunks@.len() == i,
            forall|j: int|
                0 <= j < i ==> #[trigger] chunks@[j] == planned_chunk(
                    file_size as nat,
                    chunk_size as nat,
                    j as nat,
                ),
        decreases chunk_n - i,
    {
        proof {
            lemma_offset_fits(file_size as nat, chunk_size as nat, i as nat);
        }
        chunks.push(FileChunk { number: i + 1, offset: i * chunk_size, size: chunk_size });
        i = i + 1;
    }
    if rest > 0 {
        proof {
            lemma_offset_fits(file_size as nat, chunk_size as nat, chunk_n as nat);
        }
        chunks.push(FileChunk { number: chunk_n + 1, offset: chunk_n * chunk_size, size: rest });
    }
    Ok(chunks)
}

proof fn lemma_offset_fits(file_size: nat, chunk_size: nat, i: nat)
    requires
        chunk_size > 0,
        i <= file_size / chunk_size,
    ensures
        i * chunk_size <= file_size,
        i * chunk_size + file_size % chunk_size <= file_size,
        i < file_size / chunk_size ==> i * chunk_size + chunk_size <= file_size,
{
    let q = file_size / chunk_size;
    let m = file_size % chunk_size;
    assert(file_size == q * chunk_size + m) by (nonlinear_arith)
        requires
            chunk_size > 0,
            q == file_size / chunk_size,
            m == file_size % chunk_size,
    ;
    assert(i * chunk_size <= q * chunk_size) by (nonlinear_arith)
        requires
            i <= q,
    ;
    assert(i < q ==> i * chunk_size + chunk_size <= q * chunk_size) by (nonlinear_arith);
}

/// A plan numbers its chunks 1, 2, 3, ... in order, each chunk is non-empty and starts
/// where the one before it ends, the first starts at offset 0, and the sizes add up to
/// the file size.
pub proof fn lemma_plan_is_contiguous(chunks: Seq<FileChunk>, file_size: nat, chunk_size: nat)
    requires
        is_plan(chunks, file_size, chunk_size),
        file_size <= u64::MAX,
    ensures
        forall|i: int| 0 <= i < chunks.len() ==> #[trigger] chunks[i].number == i + 1,
        forall|i: int| 0 <= i < chunks.len() ==> #[trigger] chunks[i].size > 0,
        chunks.len() > 0 ==> chunks[0].offset == 0,
        forall|i: int|
            0 <= i < chunks.len() - 1 ==> #[trigger] chunks[i].offset + chunks[i].size
                == chunks[i + 1].offset,
        total_size(chunks) == file_size,
{
    let n = file_size / chunk_size;
    let m = file_size % chunk_size;
    assert(file_size == n * chunk_size + m) by (nonlinear_arith)
        requires
            chunk_size > 0,
            n == file_size / chunk_size,
            m == file_size % chunk_size,
    ;
    assert(n <= n * chunk_size) by (nonlinear_arith)
        requires
            chunk_size >= 1,
    ;
    assert(chunks.len() <= file_size);
    assert forall|i: int| #![trigger chunks[i]] 0 <= i < chunks.len() implies chunks[i].number == i + 1
        && chunks[i].offset == i * chunk_size && chunks[i].size > 0 && (i < n ==> chunks[i].size
        == chunk_size) && (i >= n ==> chunks[i].size == m) by {
        assert(chunks[i] == planned_chunk(file_size, chunk_size, i as nat));
        assert(i <= n);
        assert(i * chunk_size <= n * chunk_size) by (nonlinear_arith)
            requires
                i <= n,
        ;
        assert(i + 1 <= file_size);
        if i < n {
            assert(chunk_size <= n * chunk_size) by (nonlinear_arith)
                requires
                    n >= 1,
            ;
        }
        if i >= n {
            assert(m > 0);
            assert(m < chunk_size);
        }
        assert(chunks[i].number == i + 1);
        assert(chunks[i].offset == i * chunk_size);
    }
    assert forall|i: int| 0 <= i < chunks.len() - 1 implies #[trigger] chunks[i].offset
        + chunks[i].size == chunks[i + 1].offset by {
        assert(chunks[i].number == i + 1);
        assert(chunks[i + 1].number == i + 2);
        assert(i < n);
        assert(i * chunk_size + chunk_size == (i + 1) * chunk_size) by (nonlinear_arith);
    }
    lemma_prefix_total(chunks, file_size, chunk_size, chunks.len() as nat);
    assert(chunks.subrange(0, chunks.len() as int) =~= chunks);
    if m > 0 {
        assert(chunks.len() == n + 1);
    } else {
        assert(chunks.len() == n);
    }
}

proof fn lemma_prefix_total(chunks: Seq<FileChunk>, file_size: nat, chunk_size: nat, k: nat)
    requires
        is_plan(chunks, file_size, chunk_size),
        k <= chunks.len(),
        forall|i: int|
            0 <= i < chunks.len() ==> (i < file_size / chunk_size ==> #[trigger] chunks[i].size
                == chunk_size) && (i >= file_size / chunk_size ==> chunks[i].size == file_size
                % chunk_size),
    ensures
        k <= file_size / chunk_size ==> total_size(chunks.subrange(0, k as int)) == k
            * chunk_size,
        k > file_size / chunk_size ==> total_size(chunks.subrange(0, k as int)) == (file_size
            / chunk_size) * chunk_size + file_size % chunk_size,
    decreases k,
{
    let n = file_size / chunk_size;
    if k > 0 {
        lemma_prefix_total(chunks, file_size, chunk_size, (k - 1) as nat);
        let pre = chunks.subrange(0, k as int);
        assert(pre.drop_last() =~= chunks.subrange(0, k - 1));
        assert(pre.last() == chunks[k - 1]);
        if k <= n {
            assert((k - 1) * chunk_size + chunk_size == k * chunk_size) by (nonlinear_arith);
        } else {
            assert(k - 1 == n);
        }
    } else {
        assert(chunks.subrange(0, 0) =~= Seq::<FileChunk>::empty());
    }
}

/// An empty file plans to no chunk at all.
pub proof fn lemma_empty_file_plans_nothing(chunks: Seq<FileChunk>, chunk_size: nat)
    requires
        is_plan(chunks, 0, chunk_size),
    ensures
        chunks.len() == 0,
{
    assert(0nat / chunk_size == 0 && 0nat % chunk_size == 0) by (nonlinear_arith)
        requires
            chunk_size > 0,
    ;
}

/// When the full-size chunks alone reach the provider's limit, the plan is refused.
pub proof fn lemma_too_many_full_chunks(file_size: nat, chunk_size: nat)
    requires
        chunk_size > 0,
        file_size / chunk_size >= MAX_PARTS,
    ensures
        chunk_count(file_size, chunk_size) >= MAX_PARTS,
{
}

} // verus!
