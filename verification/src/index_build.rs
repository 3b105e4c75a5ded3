//! Building the index from a directory's files: which files count, how the
//! work is split, and how the parts come together again.

use crate::error::{KanbusError, KanbusErrorView};
use crate::index::{build_index, index_of_records, IssueIndex};
use crate::models::{IssueData, IssueView};
use crate::order::strictly_ascending;
use crate::text::{chars_of, ends_with, ends_with_chars};
use crate::text_map::TextMap;
use vstd::prelude::*;

verus! {

/// The extension that marks an issue file.
pub const ISSUE_FILE_SUFFIX: &'static str = ".json";

/// Whether a file name carries the `json` extension: it ends in `.json` and
/// has a stem before it.
pub open spec fn is_issue_file(name: Seq<char>) -> bool {
    name.len() > ISSUE_FILE_SUFFIX@.len() && ends_with(name, ISSUE_FILE_SUFFIX@)
}

/// Executable form of [`is_issue_file`].
pub fn is_issue_file_name(name: &str) -> (r: bool)
    ensures
        r == is_issue_file(name@),
{
    let text = chars_of(name);
    let suffix = chars_of(ISSUE_FILE_SUFFIX);
    text.len() > suffix.len() && ends_with_chars(&text, &suffix)
}

/// The issue files among `names`, each once, in ascending order of name.
pub fn select_issue_files(names: &Vec<String>) -> (out: Vec<String>)
    ensures
        strictly_ascending(out.deep_view()),
        forall|name: Seq<char>| #[trigger]
            out.deep_view().contains(name) <==> names.deep_view().contains(name) && is_issue_file(
                name,
            ),
{
    let mut chosen: TextMap<()> = TextMap::new();
    let mut i: usize = 0;
    while i < names.len()
        invariant
            i <= names.len(),
            forall|name: Seq<char>| #[trigger]
                chosen@.dom().contains(name) <==> names.deep_view().take(i as int).contains(name)
                    && is_issue_file(name),
        decreases names.len() - i,
    {
        let ghost seen = names.deep_view().take(i as int);
        let ghost next = names.deep_view().take(i + 1);
        proof {
            assert(next == seen.push(names@[i as int]@));
            assert forall|name: Seq<char>| #[trigger]
                next.contains(name) <==> seen.contains(name) || name == names@[i as int]@ by {
                if seen.contains(name) {
                    let at = seen.index_of(name);
                    assert(next[at] == name);
                }
                if next.contains(name) && name != names@[i as int]@ {
                    let at = next.index_of(name);
                    assert(seen[at] == name);
                }
                assert(next[i as int] == names@[i as int]@);
            }
        }
        if is_issue_file_name(names[i].as_str()) {
            chosen.insert(names[i].clone(), ());
        }
        i += 1;
    }
    proof {
        assert(names.deep_view().take(names.len() as int) == names.deep_view());
    }
    let mut out: Vec<String> = Vec::new();
    let count = chosen.len();
    let mut k: usize = 0;
    while k < count
        invariant
            k <= count,
            count == chosen.entries().len(),
            out.deep_view() == chosen.keys().take(k as int),
        decreases count - k,
    {
        let ghost before = out.deep_view();
        let key = chosen.key_at(k);
        out.push(key.clone());
        proof {
            assert(out.deep_view() =~= before.push(key@));
            assert(chosen.keys().take(k + 1) =~= before.push(key@));
        }
        k += 1;
    }
    proof {
        assert(chosen.keys().take(count as int) == chosen.keys());
        assert forall|name: Seq<char>| #[trigger]
            out.deep_view().contains(name) <==> names.deep_view().contains(name) && is_issue_file(
                name,
            ) by {
            assert(chosen@.dom().contains(name) <==> chosen.keys().contains(name));
        }
    }
    out
}

/// A run of consecutive files handed to one worker: the files at indices
/// `start..end` of the sorted list.
#[derive(Debug, Clone, Copy, PartialEq, Eq, Structural)]
pub struct Chunk {
    pub start: usize,
    pub end: usize,
}

/// The number of workers put to `files` files when `available` can run at
/// once: no more than there are files, and at least one.
pub open spec fn worker_count(files: nat, available: nat) -> nat {
    if available <= 1 || files <= 1 {
        1
    } else if available < files {
        available
    } else {
        files
    }
}

/// The number of files in each chunk but the last: the files divided by the
/// workers, rounded up.
pub open spec fn chunk_size(files: nat, available: nat) -> nat {
    let workers = worker_count(files, available) as int;
    ((files + workers - 1) / workers) as nat
}

/// What the plan for `files` files holds at index `i`.
pub open spec fn planned_chunk(files: nat, available: nat, i: int) -> Chunk {
    let size = chunk_size(files, available);
    Chunk {
        start: (i * size) as usize,
        end: if (i + 1) * size < files {
            ((i + 1) * size) as usize
        } else {
            files as usize
        },
    }
}

/// Whether `chunks` cut `0..total` into consecutive nonempty runs.
pub open spec fn chunks_cover(chunks: Seq<Chunk>, total: nat) -> bool {
    &&& total == 0 ==> chunks.len() == 0
    &&& total > 0 ==> chunks.len() > 0 && chunks[0].start == 0 && chunks.last().end == total
    &&& forall|i: int| 0 <= i < chunks.len() ==> (#[trigger] chunks[i]).start < chunks[i].end
    &&& forall|i: int|
        0 <= i < chunks.len() - 1 ==> (#[trigger] chunks[i]).end == chunks[i + 1].start
}

/// Splits `file_count` sorted files among at most `available_workers`
/// workers: consecutive chunks of `chunk_size` files each, the last one
/// holding what is left. One worker or one file gives a single chunk.
pub fn plan_chunks(file_count: usize, available_workers: usize) -> (out: Vec<Chunk>)
    ensures
        chunks_cover(out@, file_count as nat),
        out.len() <= worker_count(file_count as nat, available_workers as nat),
        forall|i: int|
            0 <= i < out.len() ==> #[trigger] out[i] == planned_chunk(
                file_count as nat,
                available_workers as nat,
                i,
            ),
{
    let mut out: Vec<Chunk> = Vec::new();
    if file_count == 0 {
        return out;
    }
    let workers: usize = if available_workers <= 1 || file_count <= 1 {
        1
    } else if available_workers < file_count {
        available_workers
    } else {
        file_count
    };
    let size: usize = (file_count - 1) / workers + 1;
    proof {
        assert(size == chunk_size(file_count as nat, available_workers as nat)) by (nonlinear_arith)
            requires
                workers >= 1,
                file_count >= 1,
                size == (file_count - 1) / (workers as int) + 1,
                chunk_size(file_count as nat, available_workers as nat) == (file_count + workers
                    - 1) / (workers as int),
        ;
        assert(size * workers >= file_count) by (nonlinear_arith)
            requires
                workers >= 1,
                file_count >= 1,
                size == (file_count - 1) / (workers as int) + 1,
        ;
    }
    let mut start: usize = 0;
    proof {
        assert(0 * size == 0) by (nonlinear_arith);
    }
    while start < file_count
        invariant
            size >= 1,
            workers >= 1,
            size * workers >= file_count,
            size == chunk_size(file_count as nat, available_workers as nat),
            start <= file_count,
            start < file_count ==> start == out.len() * size,
            start == file_count ==> out.len() > 0 && out[out.len() - 1].end == file_count,
            out.len() > 0 ==> out[0].start == 0,
            out.len() > 0 && start < file_count ==> out[out.len() - 1].end == start,
            forall|i: int| 0 <= i < out.len() ==> (#[trigger] out[i]).start < out[i].end,
            forall|i: int| 0 <= i < out.len() - 1 ==> (#[trigger] out[i]).end == out[i + 1].start,
            forall|i: int|
                0 <= i < out.len() ==> #[trigger] out[i] == planned_chunk(
                    file_count as nat,
                    available_workers as nat,
                    i,
                ),
            out.len() <= workers,
            start < file_count ==> out.len() < workers,
        decreases file_count - start,
    {
        let end: usize = if file_count - start > size {
            start + size
        } else {
            file_count
        };
        let ghost at = out.len() as int;
        proof {
            assert((at + 1) * size == start + size) by (nonlinear_arith)
                requires
                    start == at * size,
            ;
            if at == 0 {
                assert(0 * size == 0) by (nonlinear_arith);
            }
            if end < file_count {
                assert(at + 1 < workers) by (nonlinear_arith)
                    requires
                        (at + 1) * size < file_count,
                        size * workers >= file_count,
                        size >= 1,
                        workers >= 1,
                        at >= 0,
                ;
            }
        }
        out.push(Chunk { start, end });
        start = end;
    }
    out
}

/// The parts of `s` that `chunks` cut out, put together in order.
pub open spec fn pieces<T>(s: Seq<T>, chunks: Seq<Chunk>) -> Seq<T>
    decreases chunks.len(),
{
    if chunks.len() == 0 {
        Seq::empty()
    } else {
        pieces(s, chunks.drop_last()) + s.subrange(
            chunks.last().start as int,
            chunks.last().end as int,
        )
    }
}

/// Chunks that cover a sequence, put together in order, give the sequence
/// back.
pub proof fn lemma_pieces_restore<T>(s: Seq<T>, chunks: Seq<Chunk>)
    requires
        chunks_cover(chunks, s.len()),
    ensures
        pieces(s, chunks) == s,
{
    if chunks.len() > 0 {
        lemma_pieces_prefix(s, chunks, chunks.len() as int);
        assert(chunks.take(chunks.len() as int) == chunks);
        assert(s.take(s.len() as int) == s);
    } else {
        assert(s =~= Seq::<T>::empty());
    }
}

/// The first `n` of a run of consecutive chunks give the sequence up to where
/// the last of them ends.
proof fn lemma_pieces_prefix<T>(s: Seq<T>, chunks: Seq<Chunk>, n: int)
    requires
        chunks_cover(chunks, s.len()),
        1 <= n <= chunks.len(),
    ensures
        chunks[n - 1].end <= s.len(),
        pieces(s, chunks.take(n)) == s.take(chunks[n - 1].end as int),
    decreases n,
{
    lemma_chunk_bounds(chunks, s.len(), n - 1);
    let head = chunks.take(n);
    assert(head.last() == chunks[n - 1]);
    if n == 1 {
        assert(head.drop_last() =~= Seq::<Chunk>::empty());
        assert(pieces(s, head.drop_last()) =~= Seq::<T>::empty());
        assert(pieces(s, head) =~= s.take(chunks[0].end as int));
    } else {
        lemma_pieces_prefix(s, chunks, n - 1);
        assert(head.drop_last() == chunks.take(n - 1));
        assert(chunks[n - 2].end == chunks[n - 1].start);
        assert(s.take(chunks[n - 2].end as int) + s.subrange(
            chunks[n - 1].start as int,
            chunks[n - 1].end as int,
        ) =~= s.take(chunks[n - 1].end as int));
    }
}

/// Every chunk of a cover ends within the total.
proof fn lemma_chunk_bounds(chunks: Seq<Chunk>, total: nat, i: int)
    requires
        chunks_cover(chunks, total),
        0 <= i < chunks.len(),
    ensures
        chunks[i].end <= total,
    decreases chunks.len() - i,
{
    if i < chunks.len() - 1 {
        lemma_chunk_bounds(chunks, total, i + 1);
        assert(chunks[i].end == chunks[i + 1].start);
    }
}

/// Mathematical content of what one worker hands back.
pub open spec fn outcome_view(outcome: Result<Vec<IssueData>, KanbusError>) -> Result<
    Seq<IssueView>,
    KanbusErrorView,
> {
    match outcome {
        Ok(batch) => Ok(batch.deep_view()),
        Err(error) => Err(error@),
    }
}

/// The outcomes of all workers, in chunk order.
pub open spec fn outcome_views(outcomes: Seq<Result<Vec<IssueData>, KanbusError>>) -> Seq<
    Result<Seq<IssueView>, KanbusErrorView>,
> {
    Seq::new(outcomes.len(), |i: int| outcome_view(outcomes[i]))
}

/// What the workers' outcomes come to: the first failure in chunk order if
/// any worker failed, else all records in chunk order.
pub open spec fn merged(outcomes: Seq<Result<Seq<IssueView>, KanbusErrorView>>) -> Result<
    Seq<IssueView>,
    KanbusErrorView,
>
    decreases outcomes.len(),
{
    if outcomes.len() == 0 {
        Ok(Seq::empty())
    } else {
        match merged(outcomes.drop_last()) {
            Err(error) => Err(error),
            Ok(records) => match outcomes.last() {
                Err(error) => Err(error),
                Ok(batch) => Ok(records + batch),
            },
        }
    }
}

/// Puts the workers' batches together in chunk order. A failure of any
/// worker fails the whole: no part of the records is handed back.
pub fn merge_batches(outcomes: Vec<Result<Vec<IssueData>, KanbusError>>) -> (out: Result<
    Vec<IssueData>,
    KanbusError,
>)
    ensures
        match merged(outcome_views(outcomes@)) {
            Ok(records) => out matches Ok(all) && all.deep_view() == records,
            Err(error) => out matches Err(e) && e@ == error,
        },
{
    broadcast use vstd::std_specs::vec::axiom_spec_into_iter;

    let ghost views = outcome_views(outcomes@);
    let ghost raw = outcomes@;
    let mut all: Vec<IssueData> = Vec::new();
    proof {
        assert(views.take(0) == Seq::<Result<Seq<IssueView>, KanbusErrorView>>::empty());
        assert(all.deep_view() =~= Seq::<IssueView>::empty());
    }
    for outcome in it: outcomes.into_iter()
        invariant
            it.seq() == raw,
            views == outcome_views(raw),
            merged(views.take(it.index() as int)) == Ok::<Seq<IssueView>, KanbusErrorView>(
                all.deep_view(),
            ),
    {
        proof {
            let upto = views.take(it.index() + 1);
            assert(upto.drop_last() == views.take(it.index() as int));
            assert(upto.last() == outcome_view(outcome));
        }
        match outcome {
            Err(error) => {
                proof {
                    lemma_merged_failure(views, it.index() + 1);
                }
                return Err(error);
            },
            Ok(batch) => {
                append_records(&mut all, batch);
            },
        }
    }
    proof {
        assert(views.take(views.len() as int) == views);
    }
    Ok(all)
}

/// Once a prefix of the outcomes has failed, the whole has failed the same
/// way.
proof fn lemma_merged_failure(outcomes: Seq<Result<Seq<IssueView>, KanbusErrorView>>, n: int)
    requires
        0 <= n <= outcomes.len(),
        merged(outcomes.take(n)) is Err,
    ensures
        merged(outcomes) == merged(outcomes.take(n)),
    decreases outcomes.len() - n,
{
    if n == outcomes.len() {
        assert(outcomes.take(n) == outcomes);
    } else {
        assert(outcomes.drop_last().take(n) == outcomes.take(n));
        lemma_merged_failure(outcomes.drop_last(), n);
    }
}

/// Moves the records of `batch` to the end of `all`.
fn append_records(all: &mut Vec<IssueData>, batch: Vec<IssueData>)
    ensures
        final(all).deep_view() == old(all).deep_view() + batch.deep_view(),
{
    broadcast use vstd::std_specs::vec::axiom_spec_into_iter;

    let ghost raw = batch@;
    let ghost views = batch.deep_view();
    proof {
        assert(views.take(0) == Seq::<IssueView>::empty());
        assert(all.deep_view() + Seq::<IssueView>::empty() == all.deep_view());
    }
    for record in it: batch.into_iter()
        invariant
            it.seq() == raw,
            views.len() == raw.len(),
            forall|k: int| 0 <= k < raw.len() ==> #[trigger] views[k] == raw[k]@,
            all.deep_view() == old(all).deep_view() + views.take(it.index() as int),
    {
        let ghost before = all.deep_view();
        all.push(record);
        proof {
            assert(all.deep_view() =~= before.push(record@));
            assert(views.take(it.index() + 1) =~= views.take(it.index() as int).push(record@));
            assert(old(all).deep_view() + views.take(it.index() as int).push(record@)
                =~= before.push(record@));
        }
    }
    proof {
        assert(views.take(views.len() as int) == views);
    }
}

/// Builds the index from what the workers read: the records of all files
/// in file order if every file was read, else the first failure.
pub fn build_index_from_directory(outcomes: Vec<Result<Vec<IssueData>, KanbusError>>) -> (out:
    Result<IssueIndex, KanbusError>)
    ensures
        match merged(outcome_views(outcomes@)) {
            Ok(records) => out matches Ok(index) && index@ == index_of_records(records),
            Err(error) => out matches Err(e) && e@ == error,
        },
{
    match merge_batches(outcomes) {
        Ok(records) => Ok(build_index(records)),
        Err(error) => Err(error),
    }
}

/// What the workers hand back when each reads the records of its chunk
/// without failure.
pub open spec fn chunk_outcomes(records: Seq<IssueView>, chunks: Seq<Chunk>) -> Seq<
    Result<Seq<IssueView>, KanbusErrorView>,
> {
    Seq::new(
        chunks.len(),
        |i: int| Ok(records.subrange(chunks[i].start as int, chunks[i].end as int)),
    )
}

/// Putting together what the workers of the first `n` chunks read gives the
/// pieces that these chunks cut out.
proof fn lemma_merged_pieces(records: Seq<IssueView>, chunks: Seq<Chunk>, n: int)
    requires
        0 <= n <= chunks.len(),
    ensures
        merged(chunk_outcomes(records, chunks).take(n)) == Ok::<Seq<IssueView>, KanbusErrorView>(
            pieces(records, chunks.take(n)),
        ),
    decreases n,
{
    let outcomes = chunk_outcomes(records, chunks);
    if n == 0 {
        assert(pieces(records, chunks.take(0)) =~= Seq::<IssueView>::empty());
    } else {
        lemma_merged_pieces(records, chunks, n - 1);
        assert(outcomes.take(n).drop_last() == outcomes.take(n - 1));
        assert(chunks.take(n).drop_last() == chunks.take(n - 1));
        assert(outcomes.take(n).last() == outcomes[n - 1]);
        assert(chunks.take(n).last() == chunks[n - 1]);
    }
}

/// Reading the files chunk by chunk and putting the chunks together gives
/// the records, and so the index, that reading them one after another gives:
/// one worker and many come to the same.
pub proof fn law_chunked_build_is_sequential(records: Seq<IssueView>, chunks: Seq<Chunk>)
    requires
        chunks_cover(chunks, records.len()),
    ensures
        merged(chunk_outcomes(records, chunks)) == Ok::<Seq<IssueView>, KanbusErrorView>(records),
        pieces(records, chunks) == records,
{
    lemma_pieces_restore(records, chunks);
    lemma_merged_pieces(records, chunks, chunks.len() as int);
    assert(chunk_outcomes(records, chunks).take(chunks.len() as int) == chunk_outcomes(
        records,
        chunks,
    ));
    assert(chunks.take(chunks.len() as int) == chunks);
}

/// A worker that failed fails the whole build: where any outcome is a
/// failure, no records come out.
pub proof fn law_failure_aborts(outcomes: Seq<Result<Seq<IssueView>, KanbusErrorView>>, at: int)
    requires
        0 <= at < outcomes.len(),
        outcomes[at] is Err,
    ensures
        merged(outcomes) is Err,
    decreases outcomes.len(),
{
    if at < outcomes.len() - 1 {
        law_failure_aborts(outcomes.drop_last(), at);
    }
}

} // verus!
