//! Finding, in a document that matched a query, the passage that matches
//! best: how a tokenized document is cut into chunks, which chunk wins, and
//! which text it stands for.
//!
//! Scores are 32-bit IEEE 754 numbers, held as their bit patterns.

use vstd::prelude::*;
use vstd::string::*;
use crate::search::rank;
use crate::search::score_rank;

verus! {

/// The number of tokens of a chunk, where none is configured.
pub const DEFAULT_CHUNK_SIZE: usize = 20;

/// The number of tokens that consecutive chunks share, where none is
/// configured.
pub const DEFAULT_CHUNK_OVERLAP: usize = 4;

/// The configured sizes, each with its default where it is not configured.
pub fn chunk_sizes(chunk_size: Option<usize>, chunk_overlap: Option<usize>) -> (r: (usize, usize))
    ensures
        r.0 == match chunk_size {
            Some(n) => n,
            None => DEFAULT_CHUNK_SIZE,
        },
        r.1 == match chunk_overlap {
            Some(n) => n,
            None => DEFAULT_CHUNK_OVERLAP,
        },
{
    (
        match chunk_size {
            Some(n) => n,
            None => DEFAULT_CHUNK_SIZE,
        },
        match chunk_overlap {
            Some(n) => n,
            None => DEFAULT_CHUNK_OVERLAP,
        },
    )
}

/// What the search for the longest run of ordinary tokens knows after some
/// tokens of a window: the longest run so far and the run under way, each by
/// where it is counted from and by its length.
pub struct Runs {
    pub longest_start: int,
    pub longest_length: int,
    pub current_start: int,
    pub current_length: int,
}

/// The knowledge after one more token, at `index` of the window. An
/// ordinary token lengthens the run under way. A special token ends it: the
/// run becomes the longest where it is longer than the longest so far, and
/// the next run is counted from the special token.
pub open spec fn runs_step(runs: Runs, index: int, special: bool) -> Runs {
    if !special {
        Runs { current_length: runs.current_length + 1, ..runs }
    } else if runs.current_length > runs.longest_length {
        Runs {
            longest_start: runs.current_start,
            longest_length: runs.current_length,
            current_start: index,
            current_length: 0,
        }
    } else {
        Runs { current_start: index, current_length: 0, ..runs }
    }
}

/// The knowledge after the first `n` tokens of a window whose mask of
/// special tokens is `mask`.
pub open spec fn runs_after(mask: Seq<i8>, n: int) -> Runs
    decreases n,
{
    if n <= 0 {
        Runs { longest_start: 0, longest_length: 0, current_start: 0, current_length: 0 }
    } else {
        runs_step(runs_after(mask, n - 1), n - 1, mask[n - 1] != 0)
    }
}

/// Start and length of the longest run of ordinary tokens in a window, the
/// first of the longest where there are several. A run behind a special
/// token is counted from that token.
pub open spec fn longest_run(mask: Seq<i8>) -> (int, int) {
    let runs = runs_after(mask, mask.len() as int);
    if runs.current_length > runs.longest_length {
        (runs.current_start, runs.current_length)
    } else {
        (runs.longest_start, runs.longest_length)
    }
}

/// A chunk of a document: the tokens from `start` up to `end`.
#[derive(Debug, Clone, Copy, PartialEq, Eq, Structural)]
pub struct Chunk {
    pub start: usize,
    pub end: usize,
}

/// The end of the window that begins at token `at`.
pub open spec fn window_end(tokens: int, chunk_size: int, at: int) -> int {
    if at + chunk_size < tokens {
        at + chunk_size
    } else {
        tokens
    }
}

/// The chunk that the window at token `at` gives: the longest run of
/// ordinary tokens in it, cut at the window's end, provided it is at least
/// half a chunk long.
pub open spec fn window_chunk(mask: Seq<i8>, chunk_size: int, at: int) -> Option<Chunk> {
    let end = window_end(mask.len() as int, chunk_size, at);
    let run = longest_run(mask.subrange(at, end));
    let start = at + run.0;
    let stop = if start + run.1 < end {
        start + run.1
    } else {
        end
    };
    if stop - start >= chunk_size / 2 {
        Some(Chunk { start: start as usize, end: stop as usize })
    } else {
        None
    }
}

/// The chunks of a document from the window at token `at` on. Windows
/// follow each other at a distance of the chunk size less the overlap, as
/// long as more tokens than the overlap lie behind their start.
pub open spec fn chunks_from(mask: Seq<i8>, chunk_size: int, chunk_overlap: int, at: int) -> Seq<
    Chunk,
>
    decreases
            (if at < mask.len() {
                mask.len() - at
            } else {
                0
            }),
{
    if chunk_overlap < 0 || chunk_size <= chunk_overlap || at < 0 || at + chunk_overlap
        >= mask.len() {
        Seq::empty()
    } else {
        let rest = chunks_from(mask, chunk_size, chunk_overlap, at + chunk_size - chunk_overlap);
        match window_chunk(mask, chunk_size, at) {
            Some(chunk) => seq![chunk] + rest,
            None => rest,
        }
    }
}

pub proof fn lemma_runs_bounded(mask: Seq<i8>, n: int)
    requires
        0 <= n <= mask.len(),
    ensures
        ({
            let runs = runs_after(mask, n);
            &&& 0 <= runs.longest_start
            &&& 0 <= runs.longest_length
            &&& runs.longest_start + runs.longest_length <= n
            &&& 0 <= runs.current_start
            &&& 0 <= runs.current_length
            &&& runs.current_start + runs.current_length <= n
        }),
    decreases n,
{
    if n > 0 {
        lemma_runs_bounded(mask, n - 1);
    }
}

/// Finds the chunk of the window that begins at token `at`.
fn chunk_of_window(special_tokens_mask: &[i8], chunk_size: usize, at: usize) -> (r: Option<Chunk>)
    requires
        at < special_tokens_mask@.len(),
        special_tokens_mask@.len() + chunk_size <= usize::MAX,
    ensures
        r == window_chunk(special_tokens_mask@, chunk_size as int, at as int),
        r matches Some(chunk) ==> chunk.start <= chunk.end <= special_tokens_mask@.len(),
{
    let tokens = special_tokens_mask.len();
    let end = if at + chunk_size < tokens {
        at + chunk_size
    } else {
        tokens
    };
    let ghost window = special_tokens_mask@.subrange(at as int, end as int);
    let mut longest_start: usize = 0;
    let mut longest_length: usize = 0;
    let mut current_start: usize = 0;
    let mut current_length: usize = 0;
    let mut index: usize = 0;
    while at + index < end
        invariant
            at <= end <= tokens,
            tokens == special_tokens_mask@.len(),
            at + index <= end,
            window == special_tokens_mask@.subrange(at as int, end as int),
            runs_after(window, index as int) == (Runs {
                longest_start: longest_start as int,
                longest_length: longest_length as int,
                current_start: current_start as int,
                current_length: current_length as int,
            }),
        decreases end - at - index,
    {
        proof {
            lemma_runs_bounded(window, index as int);
            assert(window[index as int] == special_tokens_mask@[at + index]);
        }
        if special_tokens_mask[at + index] == 0 {
            current_length = current_length + 1;
        } else {
            if current_length > longest_length {
                longest_start = current_start;
                longest_length = current_length;
            }
            current_start = index;
            current_length = 0;
        }
        index = index + 1;
    }
    proof {
        lemma_runs_bounded(window, index as int);
    }
    if current_length > longest_length {
        longest_start = current_start;
        longest_length = current_length;
    }
    let start = at + longest_start;
    let stop = if start + longest_length < end {
        start + longest_length
    } else {
        end
    };
    if stop - start >= chunk_size / 2 {
        Some(Chunk { start, end: stop })
    } else {
        None
    }
}

/// Cuts a tokenized document into chunks. `special_tokens_mask` has one
/// entry per token, which is zero for an ordinary token.
pub fn document_chunks(special_tokens_mask: &[i8], chunk_size: usize, chunk_overlap: usize) -> (r:
    Vec<Chunk>)
    requires
        chunk_overlap < chunk_size,
        special_tokens_mask@.len() + chunk_size <= usize::MAX,
    ensures
        r@ == chunks_from(special_tokens_mask@, chunk_size as int, chunk_overlap as int, 0),
        forall|i: int|
            0 <= i < r@.len() ==> (#[trigger] r@[i]).start <= r@[i].end
                <= special_tokens_mask@.len(),
{
    let tokens = special_tokens_mask.len();
    let step = chunk_size - chunk_overlap;
    let mut out: Vec<Chunk> = Vec::new();
    let mut at: usize = 0;
    proof {
        assert(out@ + chunks_from(special_tokens_mask@, chunk_size as int, chunk_overlap as int, 0)
            == chunks_from(special_tokens_mask@, chunk_size as int, chunk_overlap as int, 0));
    }
    while at + chunk_overlap < tokens
        invariant
            tokens == special_tokens_mask@.len(),
            chunk_overlap < chunk_size,
            step == chunk_size - chunk_overlap,
            tokens + chunk_size <= usize::MAX,
            at + chunk_overlap <= tokens + chunk_size,
            out@ + chunks_from(
                special_tokens_mask@,
                chunk_size as int,
                chunk_overlap as int,
                at as int,
            ) == chunks_from(special_tokens_mask@, chunk_size as int, chunk_overlap as int, 0),
            forall|i: int|
                0 <= i < out@.len() ==> (#[trigger] out@[i]).start <= out@[i].end <= tokens,
        decreases tokens + chunk_size - at,
    {
        let ghost rest = chunks_from(
            special_tokens_mask@,
            chunk_size as int,
            chunk_overlap as int,
            at + step,
        );
        match chunk_of_window(special_tokens_mask, chunk_size, at) {
            Some(chunk) => {
                proof {
                    assert(out@.push(chunk) + rest == out@ + (seq![chunk] + rest));
                }
                out.push(chunk);
            },
            None => {},
        }
        at = at + step;
    }
    proof {
        assert(out@ + Seq::<Chunk>::empty() == out@);
    }
    out
}

/// Whether `at` is the place of the best of `scores`: none is better, and
/// none behind it is as good.
pub open spec fn is_best(scores: Seq<u32>, at: int) -> bool {
    &&& 0 <= at < scores.len()
    &&& forall|i: int| 0 <= i < scores.len() ==> rank(#[trigger] scores[i]) <= rank(scores[at])
    &&& forall|i: int| at < i < scores.len() ==> rank(#[trigger] scores[i]) < rank(scores[at])
}

/// The place of the best score, the last of the best where several are
/// equal; none where there are no scores.
pub fn best_chunk(scores: &[u32]) -> (r: Option<usize>)
    ensures
        match r {
            Some(at) => is_best(scores@, at as int),
            None => scores@.len() == 0,
        },
{
    if scores.len() == 0 {
        return None;
    }
    let mut best: usize = 0;
    let mut i: usize = 1;
    while i < scores.len()
        invariant
            1 <= i <= scores.len(),
            best < i,
            forall|k: int| 0 <= k < i ==> rank(#[trigger] scores@[k]) <= rank(scores@[best as int]),
            forall|k: int|
                best < k < i ==> rank(#[trigger] scores@[k]) < rank(scores@[best as int]),
        decreases scores.len() - i,
    {
        if score_rank(scores[i]) >= score_rank(scores[best]) {
            best = i;
        }
        i = i + 1;
    }
    Some(best)
}

/// Where in the text a token stands: from character `begin` up to `end`.
#[derive(Debug, Clone, Copy, PartialEq, Eq, Structural)]
pub struct Offset {
    pub begin: u32,
    pub end: u32,
}

/// The stretch of text that the tokens with the first `n` of `offsets`
/// cover: from the least beginning to the greatest end of those that have
/// an offset. A stretch from zero to zero counts as none yet.
pub open spec fn covered(offsets: Seq<Option<Offset>>, n: int) -> (u32, u32)
    decreases n,
{
    if n <= 0 {
        (0, 0)
    } else {
        let before = covered(offsets, n - 1);
        match offsets[n - 1] {
            None => before,
            Some(offset) => if before.0 == 0 && before.1 == 0 {
                (offset.begin, offset.end)
            } else {
                (
                    if before.0 < offset.begin {
                        before.0
                    } else {
                        offset.begin
                    },
                    if before.1 > offset.end {
                        before.1
                    } else {
                        offset.end
                    },
                )
            },
        }
    }
}

/// The stretch of text that the tokens of a chunk cover.
pub fn text_span(offsets: &[Option<Offset>]) -> (r: (u32, u32))
    ensures
        r == covered(offsets@, offsets@.len() as int),
{
    let mut begin: u32 = 0;
    let mut end: u32 = 0;
    let mut i: usize = 0;
    while i < offsets.len()
        invariant
            i <= offsets.len(),
            (begin, end) == covered(offsets@, i as int),
        decreases offsets.len() - i,
    {
        match offsets[i] {
            None => {},
            Some(offset) => {
                if begin == 0 && end == 0 {
                    begin = offset.begin;
                    end = offset.end;
                } else {
                    if offset.begin < begin {
                        begin = offset.begin;
                    }
                    if offset.end > end {
                        end = offset.end;
                    }
                }
            },
        }
        i = i + 1;
    }
    (begin, end)
}

/// The text of a stretch: the characters of `doc` from `begin` up to and
/// with `end`; nothing where `doc` ends before.
pub open spec fn stretch(doc: Seq<char>, begin: u32, end: u32) -> Seq<char> {
    if end + 1 < doc.len() {
        doc.subrange(begin as int, end + 1)
    } else {
        Seq::empty()
    }
}

/// The text that is shown for a stretch of a document.
pub fn highlight_text(doc: &str, begin: u32, end: u32) -> (r: &str)
    requires
        begin <= end,
    ensures
        r@ == stretch(doc@, begin, end),
{
    let n = doc.unicode_len();
    let last: u64 = end as u64 + 1;
    if last < n as u64 {
        doc.substring_char(begin as usize, last as usize)
    } else {
        doc.substring_char(0, 0)
    }
}

} // verus!
