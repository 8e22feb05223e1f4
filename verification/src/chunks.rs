//! Cutting a file into chunks, and putting it together again.

use crate::task::ChunkInfo;
use crate::text;
use vstd::prelude::*;
use vstd::string::*;

verus! {

/// How many chunks of `chunk_size` bytes hold `total` bytes.
pub open spec fn chunk_count(total: u64, chunk_size: u64) -> nat {
    if total == 0 {
        0
    } else {
        ((total + chunk_size - 1) / (chunk_size as int)) as nat
    }
}

/// The smaller of two numbers.
pub open spec fn min(a: int, b: int) -> int {
    if a <= b {
        a
    } else {
        b
    }
}

/// The chunk at position `i` of a file of `total` bytes, with nothing transferred yet.
pub open spec fn chunk_at(total: u64, chunk_size: u64, i: int) -> ChunkInfo {
    ChunkInfo {
        index: i as usize,
        start: (i * chunk_size) as u64,
        end: min((i + 1) * chunk_size, total as int) as u64,
        downloaded: 0,
        completed: false,
    }
}

/// A file of `total` bytes in chunks of `chunk_size` bytes; the last one may be shorter.
pub open spec fn planned(total: u64, chunk_size: u64) -> Seq<ChunkInfo> {
    Seq::new(chunk_count(total, chunk_size), |i: int| chunk_at(total, chunk_size, i))
}

/// Whether a file can be cut: the chunk size is not zero, and the chunks' bounds and positions
/// are within the machine's numbers. An empty file always can: it has no chunks.
pub open spec fn can_cut(total: u64, chunk_size: u64) -> bool {
    total == 0 || {
        &&& chunk_size > 0
        &&& chunk_count(total, chunk_size) * chunk_size <= u64::MAX
        &&& chunk_count(total, chunk_size) <= usize::MAX
    }
}

/// `chunk_count` is the least number of chunks that reaches the end of the file.
pub proof fn chunk_count_is_least(total: u64, chunk_size: u64)
    requires
        total == 0 || chunk_size > 0,
    ensures
        total <= chunk_count(total, chunk_size) * chunk_size,
        chunk_count(total, chunk_size) > 0 ==> (chunk_count(total, chunk_size) - 1) * chunk_size
            < total,
        chunk_count(total, chunk_size) == 0 <==> total == 0,
{
    if total > 0 {
        let n = total + chunk_size - 1;
        let d = chunk_size as int;
        let q = n / d;
        vstd::arithmetic::div_mod::lemma_fundamental_div_mod(n, d);
        assert(q >= 1) by (nonlinear_arith)
            requires
                n >= d,
                d > 0,
                q == n / d,
        ;
        assert(d * q == q * d) by (nonlinear_arith);
        assert((q - 1) * d == q * d - d) by (nonlinear_arith);
    }
}

/// Whether a file can be cut: the chunk size is not zero, and the chunks' bounds and positions
/// are within the machine's numbers. An empty file always can: it has no chunks.
pub fn chunkable(total: u64, chunk_size: u64) -> (r: bool)
    ensures
        r == can_cut(total, chunk_size),
{
    if total == 0 {
        return true;
    }
    if chunk_size == 0 {
        return false;
    }
    let n: u128 = total as u128 + (chunk_size - 1) as u128;
    let count: u128 = n / (chunk_size as u128);
    if count > u64::MAX as u128 || count > usize::MAX as u128 {
        assert(count * chunk_size > u64::MAX || count > usize::MAX) by (nonlinear_arith)
            requires
                chunk_size >= 1,
                count > u64::MAX || count > usize::MAX,
        ;
        return false;
    }
    proof {
        assert(count * chunk_size <= 0xffff_ffff_ffff_ffff * 0xffff_ffff_ffff_ffff)
            by (nonlinear_arith)
            requires
                count <= 0xffff_ffff_ffff_ffff,
                chunk_size <= 0xffff_ffff_ffff_ffff,
        ;
    }
    count * (chunk_size as u128) <= u64::MAX as u128
}

/// Cuts a file of `total_size` bytes into chunks of `chunk_size` bytes.
pub fn create_chunks(total_size: u64, chunk_size: u64) -> (r: Vec<ChunkInfo>)
    requires
        can_cut(total_size, chunk_size),
    ensures
        r@ == planned(total_size, chunk_size),
{
    let ghost count = chunk_count(total_size, chunk_size);
    let mut chunks: Vec<ChunkInfo> = Vec::new();
    let mut start: u64 = 0;
    let mut index: usize = 0;
    proof {
        chunk_count_is_least(total_size, chunk_size);
    }
    while start < total_size
        invariant
            can_cut(total_size, chunk_size),
            count == chunk_count(total_size, chunk_size),
            total_size <= count * chunk_size,
            count > 0 ==> (count - 1) * chunk_size < total_size,
            count == 0 <==> total_size == 0,
            index <= count,
            start == min(index * chunk_size, total_size as int),
            index < count ==> start == index * chunk_size,
            chunks@ == planned(total_size, chunk_size).take(index as int),
        decreases total_size - start,
    {
        proof {
            if index >= count {
                assert(index * chunk_size == count * chunk_size);
                assert(false);
            }
            assert((index + 1) * chunk_size == index * chunk_size + chunk_size)
                by (nonlinear_arith);
            assert((index + 1) * chunk_size <= count * chunk_size) by (nonlinear_arith)
                requires
                    index + 1 <= count,
                    chunk_size > 0,
            ;
            if index + 1 < count {
                assert((index + 1) * chunk_size <= (count - 1) * chunk_size) by (nonlinear_arith)
                    requires
                        index + 1 <= count - 1,
                        chunk_size > 0,
                ;
            }
        }
        let next: u64 = start + chunk_size;
        let end: u64 = if next < total_size {
            next
        } else {
            total_size
        };
        chunks.push(ChunkInfo { index, start, end, downloaded: 0, completed: false });
        start = end;
        index += 1;
        assert(chunks@ =~= planned(total_size, chunk_size).take(index as int));
    }
    proof {
        if index < count {
            assert(index * chunk_size <= (count - 1) * chunk_size) by (nonlinear_arith)
                requires
                    index <= count - 1,
                    chunk_size > 0,
            ;
            assert(false);
        }
        assert(planned(total_size, chunk_size).take(count as int) =~= planned(
            total_size,
            chunk_size,
        ));
    }
    chunks
}

/// The name of the file that keeps a chunk until the chunks are merged.
pub open spec fn chunk_file(index: nat) -> Seq<char> {
    "chunk_"@ + text::padded(index, 4)
}

/// The name of the file that keeps a chunk until the chunks are merged.
pub fn chunk_file_name(index: usize) -> (r: String)
    ensures
        r@ == chunk_file(index as nat),
{
    let mut out = "chunk_".to_owned();
    text::push_padded(&mut out, index as u64, 4);
    out
}

/// The first and the last byte of a chunk that are still missing; `None` where nothing is.
pub open spec fn missing_range(chunk: ChunkInfo) -> Option<(u64, u64)> {
    if chunk.start + chunk.downloaded >= chunk.end {
        None
    } else {
        Some(((chunk.start + chunk.downloaded) as u64, (chunk.end - 1) as u64))
    }
}

/// The value of an HTTP `Range` header for the bytes from `first` to `last`, both included.
pub open spec fn range_text(first: u64, last: u64) -> Seq<char> {
    "bytes="@ + text::decimal(first as nat) + "-"@ + text::decimal(last as nat)
}

/// The value of an HTTP `Range` header for the bytes from `first` to `last`, both included.
pub fn range_header(first: u64, last: u64) -> (r: String)
    ensures
        r@ == range_text(first, last),
{
    let mut out = "bytes=".to_owned();
    text::push_decimal(&mut out, first);
    out.append("-");
    text::push_decimal(&mut out, last);
    out
}

/// A request for the missing bytes of a chunk: the `Range` header to send, and the name of the
/// file that the answer is appended to.
pub struct ChunkRequest {
    pub range: String,
    pub file: String,
}

/// What to ask the server for to complete a chunk; `None` where nothing is missing.
pub fn download_chunk(chunk: &ChunkInfo) -> (r: Option<ChunkRequest>)
    requires
        chunk.start + chunk.downloaded <= u64::MAX,
    ensures
        match (r, missing_range(*chunk)) {
            (Some(request), Some((first, last))) => request.range@ == range_text(first, last)
                && request.file@ == chunk_file(chunk.index as nat),
            (None, None) => true,
            _ => false,
        },
{
    let start: u64 = chunk.start + chunk.downloaded;
    let end: u64 = chunk.end;
    if start >= end {
        return None;
    }
    Some(ChunkRequest { range: range_header(start, end - 1), file: chunk_file_name(chunk.index) })
}

/// The names of the chunk files of a file, in the order in which they are merged.
pub fn merge_chunks(total_size: u64, chunk_size: u64) -> (r: Vec<String>)
    requires
        chunk_size > 0,
        total_size + chunk_size - 1 <= u64::MAX,
        chunk_count(total_size, chunk_size) <= usize::MAX,
    ensures
        r@.len() == chunk_count(total_size, chunk_size),
        forall|i: int| 0 <= i < r@.len() ==> (#[trigger] r@[i])@ == chunk_file(i as nat),
{
    assert((chunk_size - 1) / (chunk_size as int) == 0) by (nonlinear_arith)
        requires
            chunk_size > 0,
    ;
    let count: usize = ((total_size + (chunk_size - 1)) / chunk_size) as usize;
    let mut names: Vec<String> = Vec::new();
    let mut i: usize = 0;
    while i < count
        invariant
            i <= count,
            names@.len() == i,
            forall|j: int| 0 <= j < i ==> (#[trigger] names@[j])@ == chunk_file(j as nat),
        decreases count - i,
    {
        names.push(chunk_file_name(i));
        i += 1;
    }
    names
}

/// What a chunk file adds to the merged file; a chunk file that is not there adds nothing.
pub open spec fn part_bytes(part: Option<Seq<u8>>) -> Seq<u8> {
    match part {
        Some(bytes) => bytes,
        None => Seq::empty(),
    }
}

/// The merged file: what the chunk files add, one behind the other.
pub open spec fn merged(parts: Seq<Option<Seq<u8>>>) -> Seq<u8>
    decreases parts.len(),
{
    if parts.len() == 0 {
        Seq::empty()
    } else {
        merged(parts.drop_last()) + part_bytes(parts.last())
    }
}

/// What a chunk file adds to the merged file; a chunk file that is not there adds nothing.
pub fn part_content(part: Option<Vec<u8>>) -> (r: Vec<u8>)
    ensures
        r@ == part_bytes(
            match part {
                Some(v) => Some(v@),
                None => None,
            },
        ),
{
    match part {
        Some(bytes) => bytes,
        None => Vec::new(),
    }
}

/// The bounds of planned chunks follow one another from the first byte to the last.
pub proof fn chunk_bounds(total: u64, chunk_size: u64, i: int)
    requires
        can_cut(total, chunk_size),
        0 <= i < chunk_count(total, chunk_size),
    ensures
        planned(total, chunk_size)[i].start == i * chunk_size,
        planned(total, chunk_size)[i].start < planned(total, chunk_size)[i].end,
        planned(total, chunk_size)[i].end - planned(total, chunk_size)[i].start <= chunk_size,
        i + 1 < chunk_count(total, chunk_size) ==> planned(total, chunk_size)[i].end == (i + 1)
            * chunk_size,
        i + 1 == chunk_count(total, chunk_size) ==> planned(total, chunk_size)[i].end == total,
{
    let count = chunk_count(total, chunk_size);
    chunk_count_is_least(total, chunk_size);
    assert(0 <= i * chunk_size) by (nonlinear_arith)
        requires
            0 <= i,
            chunk_size > 0,
    ;
    assert(i * chunk_size <= (count - 1) * chunk_size) by (nonlinear_arith)
        requires
            i <= count - 1,
            chunk_size > 0,
    ;
    assert((i + 1) * chunk_size == i * chunk_size + chunk_size) by (nonlinear_arith);
    if i + 1 < count {
        assert((i + 1) * chunk_size <= (count - 1) * chunk_size) by (nonlinear_arith)
            requires
                i + 1 <= count - 1,
                chunk_size > 0,
        ;
    }
}

/// The chunks cover a file without gap or overlap: each byte belongs to exactly one chunk.
pub proof fn each_byte_in_one_chunk(total: u64, chunk_size: u64, byte: int)
    requires
        can_cut(total, chunk_size),
        0 <= byte < total,
    ensures
        exists|i: int|
            0 <= i < planned(total, chunk_size).len() && (#[trigger] planned(
                total,
                chunk_size,
            )[i]).start <= byte < planned(total, chunk_size)[i].end,
        forall|i: int, j: int|
            0 <= i < planned(total, chunk_size).len() && 0 <= j < planned(total, chunk_size).len()
                && (#[trigger] planned(total, chunk_size)[i]).start <= byte < planned(
                total,
                chunk_size,
            )[i].end && (#[trigger] planned(total, chunk_size)[j]).start <= byte < planned(
                total,
                chunk_size,
            )[j].end ==> i == j,
{
    let plan = planned(total, chunk_size);
    let count = chunk_count(total, chunk_size);
    let d = chunk_size as int;
    let q = byte / d;
    chunk_count_is_least(total, chunk_size);
    vstd::arithmetic::div_mod::lemma_fundamental_div_mod(byte, d);
    assert(0 <= q) by (nonlinear_arith)
        requires
            q == byte / d,
            0 <= byte,
            0 < d,
    ;
    assert(q * d == d * q) by (nonlinear_arith);
    assert((q + 1) * d == q * d + d) by (nonlinear_arith);
    if q >= count {
        assert(q * d >= count * d) by (nonlinear_arith)
            requires
                q >= count,
                d > 0,
        ;
        assert(false);
    }
    chunk_bounds(total, chunk_size, q);
    assert(plan[q].start <= byte < plan[q].end);
    assert forall|i: int, j: int|
        0 <= i < plan.len() && 0 <= j < plan.len() && (#[trigger] plan[i]).start <= byte
            < plan[i].end && (#[trigger] plan[j]).start <= byte < plan[j].end implies i == j by {
        chunk_bounds(total, chunk_size, i);
        chunk_bounds(total, chunk_size, j);
        if i < j {
            assert((i + 1) * d <= j * d) by (nonlinear_arith)
                requires
                    i + 1 <= j,
                    d > 0,
            ;
        } else if j < i {
            assert((j + 1) * d <= i * d) by (nonlinear_arith)
                requires
                    j + 1 <= i,
                    d > 0,
            ;
        }
    }
}

/// The sizes of a list of chunks together.
pub open spec fn sum_sizes(list: Seq<ChunkInfo>) -> int
    decreases list.len(),
{
    if list.len() == 0 {
        0
    } else {
        sum_sizes(list.drop_last()) + list.last().end - list.last().start
    }
}

/// The chunks of a file are together as large as the file.
pub proof fn chunk_sizes_add_up(total: u64, chunk_size: u64)
    requires
        can_cut(total, chunk_size),
    ensures
        sum_sizes(planned(total, chunk_size)) == total,
{
    let plan = planned(total, chunk_size);
    chunk_count_is_least(total, chunk_size);
    sizes_of_prefix(total, chunk_size, plan.len() as int);
    assert(plan.take(plan.len() as int) =~= plan);
    if plan.len() > 0 {
        chunk_bounds(total, chunk_size, plan.len() - 1);
    }
}

proof fn sizes_of_prefix(total: u64, chunk_size: u64, n: int)
    requires
        can_cut(total, chunk_size),
        0 <= n <= planned(total, chunk_size).len(),
    ensures
        sum_sizes(planned(total, chunk_size).take(n)) == (if n == 0 {
            0
        } else {
            planned(total, chunk_size)[n - 1].end as int
        }),
    decreases n,
{
    let plan = planned(total, chunk_size);
    if n > 0 {
        sizes_of_prefix(total, chunk_size, n - 1);
        assert(plan.take(n).drop_last() =~= plan.take(n - 1));
        chunk_bounds(total, chunk_size, n - 1);
        if n > 1 {
            chunk_bounds(total, chunk_size, n - 2);
        }
    }
}

/// Merging the chunk files of a file that was transferred completely gives the file back.
pub proof fn merge_restores_file(data: Seq<u8>, chunk_size: u64, parts: Seq<Option<Seq<u8>>>)
    requires
        data.len() <= u64::MAX,
        can_cut(data.len() as u64, chunk_size),
        parts.len() == planned(data.len() as u64, chunk_size).len(),
        forall|i: int|
            0 <= i < parts.len() ==> #[trigger] parts[i] == Some(
                data.subrange(
                    planned(data.len() as u64, chunk_size)[i].start as int,
                    planned(data.len() as u64, chunk_size)[i].end as int,
                ),
            ),
    ensures
        merged(parts) == data,
{
    let total = data.len() as u64;
    chunk_count_is_least(total, chunk_size);
    merge_prefix(data, chunk_size, parts, parts.len() as int);
    assert(parts.take(parts.len() as int) =~= parts);
    if parts.len() == 0 {
        assert(data.take(0) =~= data);
    } else {
        assert(data.take(total as int) =~= data);
    }
}

proof fn merge_prefix(data: Seq<u8>, chunk_size: u64, parts: Seq<Option<Seq<u8>>>, n: int)
    requires
        data.len() <= u64::MAX,
        can_cut(data.len() as u64, chunk_size),
        parts.len() == planned(data.len() as u64, chunk_size).len(),
        forall|i: int|
            0 <= i < parts.len() ==> #[trigger] parts[i] == Some(
                data.subrange(
                    planned(data.len() as u64, chunk_size)[i].start as int,
                    planned(data.len() as u64, chunk_size)[i].end as int,
                ),
            ),
        0 <= n <= parts.len(),
    ensures
        merged(parts.take(n)) == data.take(
            if n == 0 {
                0
            } else {
                planned(data.len() as u64, chunk_size)[n - 1].end as int
            },
        ),
    decreases n,
{
    let total = data.len() as u64;
    let plan = planned(total, chunk_size);
    if n == 0 {
        assert(data.take(0) =~= Seq::<u8>::empty());
    } else {
        merge_prefix(data, chunk_size, parts, n - 1);
        chunk_bounds(total, chunk_size, n - 1);
        if n >= 2 {
            chunk_bounds(total, chunk_size, n - 2);
        }
        assert(parts.take(n).drop_last() =~= parts.take(n - 1));
        assert(parts.take(n).last() == parts[n - 1]);
        let from = plan[n - 1].start as int;
        let to = plan[n - 1].end as int;
        assert(data.take(from) + data.subrange(from, to) =~= data.take(to));
    }
}

/// What a server sends of a file when it is asked for the missing bytes of a chunk.
pub open spec fn answered(data: Seq<u8>, chunk: ChunkInfo) -> Option<Seq<u8>> {
    match missing_range(chunk) {
        Some((first, last)) => Some(data.subrange(first as int, last + 1)),
        None => None,
    }
}

/// A download in chunks gives the file: what is asked for of the planned chunks, merged in order,
/// is the file that the server has.
pub proof fn download_gives_the_file(data: Seq<u8>, chunk_size: u64)
    requires
        data.len() <= u64::MAX,
        can_cut(data.len() as u64, chunk_size),
    ensures
        merged(
            planned(data.len() as u64, chunk_size).map_values(|c: ChunkInfo| answered(data, c)),
        ) == data,
{
    let total = data.len() as u64;
    let plan = planned(total, chunk_size);
    let parts = plan.map_values(|c: ChunkInfo| answered(data, c));
    assert forall|i: int| 0 <= i < parts.len() implies #[trigger] parts[i] == Some(
        data.subrange(plan[i].start as int, plan[i].end as int),
    ) by {
        chunk_bounds(total, chunk_size, i);
    }
    merge_restores_file(data, chunk_size, parts);
}

/// A chunk that is resumed is complete: what was kept of it and what is asked for are all of it.
pub proof fn resumed_chunk_is_complete(data: Seq<u8>, chunk: ChunkInfo)
    requires
        chunk.start + chunk.downloaded <= chunk.end <= data.len(),
    ensures
        data.subrange(chunk.start as int, chunk.start + chunk.downloaded) + part_bytes(
            answered(data, chunk),
        ) == data.subrange(chunk.start as int, chunk.end as int),
{
    let mid = chunk.start + chunk.downloaded;
    let kept = data.subrange(chunk.start as int, mid);
    let rest = data.subrange(mid, chunk.end as int);
    assert(kept + rest =~= data.subrange(chunk.start as int, chunk.end as int));
    assert(kept + Seq::<u8>::empty() =~= kept);
}

/// Different chunks are kept in different files.
pub proof fn chunk_files_differ(i: nat, j: nat)
    requires
        i != j,
    ensures
        chunk_file(i) != chunk_file(j),
{
    text::padding_keeps_value(i, 4);
    text::padding_keeps_value(j, 4);
    if chunk_file(i) == chunk_file(j) {
        let k = "chunk_"@.len() as int;
        assert(chunk_file(i).skip(k) =~= text::padded(i, 4));
        assert(chunk_file(j).skip(k) =~= text::padded(j, 4));
    }
}

/// A planned chunk stands at the position that it names, and nothing of it has been transferred.
pub proof fn planned_chunks_are_fresh(total: u64, chunk_size: u64, i: int)
    requires
        can_cut(total, chunk_size),
        0 <= i < planned(total, chunk_size).len(),
    ensures
        planned(total, chunk_size)[i].index == i,
        planned(total, chunk_size)[i].downloaded == 0,
        !planned(total, chunk_size)[i].completed,
{
}

/// A file that `n` chunks reach the end of, and fewer do not, can be cut exactly where these chunks
/// in full size are within the machine's numbers. Chunks of size zero cut only an empty file.
pub proof fn files_can_be_cut(total: u64, chunk_size: u64, n: int)
    ensures
        total > 0 && (n - 1) * chunk_size < total <= n * chunk_size ==> (can_cut(
            total,
            chunk_size,
        ) <==> n * chunk_size <= u64::MAX && n <= usize::MAX),
        chunk_size == 0 ==> (can_cut(total, chunk_size) <==> total == 0),
        can_cut(0, chunk_size),
{
    if total > 0 && (n - 1) * chunk_size < total <= n * chunk_size {
        let count = chunk_count(total, chunk_size) as int;
        assert(chunk_size > 0) by (nonlinear_arith)
            requires
                (n - 1) * chunk_size < n * chunk_size,
                chunk_size >= 0,
        ;
        chunk_count_is_least(total, chunk_size);
        assert(count == n) by (nonlinear_arith)
            requires
                (n - 1) * chunk_size < total <= n * chunk_size,
                (count - 1) * chunk_size < total <= count * chunk_size,
                chunk_size > 0,
        ;
    }
}

/// A chunk is kept in a file whose name is `chunk_` and its position in four digits or more.
pub proof fn chunk_file_names_the_position(index: nat)
    ensures
        exists|digits: Seq<char>|
            {
                &&& chunk_file(index) == "chunk_"@ + digits
                &&& text::all_digits(digits) && digits.len() >= 4
                &&& text::digits_value(digits) == index
            },
        index < 1000 ==> chunk_file(index).len() == 10,
{
    let digits = text::padded(index, 4);
    text::padding_keeps_value(index, 4);
    text::padding_fills_up(index, 4);
    assert(chunk_file(index) == "chunk_"@ + digits);
    reveal_strlit("chunk_");
    if index < 1000 {
        text::decimal_has_no_leading_zero(index);
        text::decimal_has_no_leading_zero(index / 10);
        text::decimal_has_no_leading_zero(index / 10 / 10);
        assert(index / 10 / 10 < 10);
    }
}

/// Bytes are missing of a chunk exactly where what it has does not reach its end, and then they run
/// from the first one that it does not have to its last one.
pub proof fn missing_bytes_are_the_rest(chunk: ChunkInfo)
    ensures
        missing_range(chunk) is Some <==> chunk.downloaded < chunk.end - chunk.start,
        missing_range(chunk) matches Some((first, last)) ==> first - chunk.start
            == chunk.downloaded && last + 1 == chunk.end,
{
}

/// A request names the first and the last byte, in that order, in decimal.
pub proof fn request_names_both_ends(first: u64, last: u64)
    ensures
        exists|a: Seq<char>, b: Seq<char>|
            {
                &&& range_text(first, last) == #[trigger] ("bytes="@ + a + "-"@ + b)
                &&& text::unsigned(a) == Some(first)
                &&& text::unsigned(b) == Some(last)
                &&& text::all_digits(a) && text::all_digits(b)
            },
{
    let a = text::decimal(first as nat);
    let b = text::decimal(last as nat);
    text::decimal_reads_back(first);
    text::decimal_reads_back(last);
    text::decimal_is_digits(first as nat);
    text::decimal_is_digits(last as nat);
    assert(range_text(first, last) == "bytes="@ + a + "-"@ + b);
}

/// Merging puts parts behind one another as they come: two runs of parts give what the one gives
/// and then what the other does, a part gives its bytes, one that is not there gives none.
pub proof fn parts_come_behind_one_another(
    a: Seq<Option<Seq<u8>>>,
    b: Seq<Option<Seq<u8>>>,
    bytes: Seq<u8>,
)
    ensures
        merged(a + b) == merged(a) + merged(b),
        merged(seq![Some(bytes)]) == bytes,
        merged(seq![None::<Seq<u8>>]).len() == 0,
    decreases b.len(),
{
    assert(seq![Some(bytes)].drop_last() =~= Seq::<Option<Seq<u8>>>::empty());
    assert(seq![None::<Seq<u8>>].drop_last() =~= Seq::<Option<Seq<u8>>>::empty());
    assert(merged(Seq::empty()) =~= Seq::<u8>::empty());
    assert(merged(seq![Some(bytes)]) =~= bytes);
    if b.len() == 0 {
        assert(a + b =~= a);
        assert(merged(a) + merged(b) =~= merged(a));
    } else {
        parts_come_behind_one_another(a, b.drop_last(), bytes);
        assert((a + b).drop_last() =~= a + b.drop_last());
        assert(merged(a + b) =~= merged(a) + merged(b));
    }
}

} // verus!
