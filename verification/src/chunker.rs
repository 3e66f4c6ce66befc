//! Splitting a document's raw text into overlapping chunks that prefer to end
//! at a blank line.

use vstd::prelude::*;
use vstd::string::*;
use vstd::utf8::*;

verus! {

/// One chunk of a text: its characters and its byte range in the source.
#[derive(Debug, Clone)]
pub struct Chunk {
    pub text: String,
    pub start_char: usize,
    pub end_char: usize,
}

/// Start of the last `"\n\n"` lying wholly inside the byte range `[lo, hi)`
/// (`str::rfind` of a blank line, as an absolute position).
pub open spec fn rfind_blank(b: Seq<u8>, lo: int, hi: int) -> Option<int>
    decreases hi - lo,
{
    if hi - lo < 2 {
        None
    } else if b[hi - 2] == 10 && b[hi - 1] == 10 {
        Some(hi - 2)
    } else {
        rfind_blank(b, lo, hi - 1)
    }
}

/// End of the window that a chunk starting at `start` may cover.
pub open spec fn window_end(len: int, start: int, max: int) -> int {
    if start + max < len {
        start + max
    } else {
        len
    }
}

/// End of the chunk starting at `start`: just after the last blank line in
/// the window, or the window's end when it holds none.
pub open spec fn cut_end(b: Seq<u8>, start: int, max: int) -> int {
    let end = window_end(b.len() as int, start, max);
    match rfind_blank(b, start, end) {
        Some(p) => p + 2,
        None => end,
    }
}

/// Start of the next chunk: the previous end moved back by the overlap, when
/// that is past the previous start; otherwise the previous end, so that every
/// chunk starts after the one before.
pub open spec fn next_start(start: int, end: int, overlap: int) -> int {
    if end - overlap > start {
        end - overlap
    } else {
        end
    }
}

/// The step from `start` can be taken: the window end does not overflow and
/// every cut lands on a character boundary.
pub open spec fn step_valid(b: Seq<u8>, start: int, max: int) -> bool {
    &&& start + max <= usize::MAX
    &&& is_char_boundary(b, start)
    &&& is_char_boundary(b, window_end(b.len() as int, start, max))
    &&& is_char_boundary(b, cut_end(b, start, max))
}

pub proof fn lemma_rfind_bounds(b: Seq<u8>, lo: int, hi: int)
    ensures
        rfind_blank(b, lo, hi) matches Some(p) ==> lo <= p && p + 2 <= hi,
    decreases hi - lo,
{
    if hi - lo >= 2 && !(b[hi - 2] == 10 && b[hi - 1] == 10) {
        lemma_rfind_bounds(b, lo, hi - 1);
    }
}

pub proof fn lemma_cut_advances(b: Seq<u8>, start: int, max: int)
    requires
        0 <= start < b.len(),
        max > 0,
    ensures
        start < cut_end(b, start, max) <= window_end(b.len() as int, start, max) <= b.len(),
{
    lemma_rfind_bounds(b, start, window_end(b.len() as int, start, max));
}

/// The byte ranges of the chunks from `start` to the end of the text, or
/// `None` when some cut falls inside a character or the window size is zero.
pub open spec fn chunk_trace(b: Seq<u8>, max: int, overlap: int, start: int) -> Option<Seq<(int, int)>>
    decreases b.len() - start,
{
    if start < 0 || start >= b.len() {
        Some(seq![])
    } else if max <= 0 || overlap < 0 || !step_valid(b, start, max) {
        None
    } else {
        let e = cut_end(b, start, max);
        proof {
            lemma_cut_advances(b, start, max);
            assert(start < next_start(start, e, overlap));
        }
        if e >= b.len() {
            Some(seq![(start, e)])
        } else {
            match chunk_trace(b, max, overlap, next_start(start, e, overlap)) {
                Some(t) => Some(seq![(start, e)] + t),
                None => None,
            }
        }
    }
}

/// Every cut of the text's chunking lands on a character boundary, with a
/// non-empty window.
pub open spec fn chunking_valid(b: Seq<u8>, max: int, overlap: int) -> bool {
    chunk_trace(b, max, overlap, 0) is Some
}

/// The byte ranges of all chunks of a text.
pub open spec fn chunk_spans(b: Seq<u8>, max: int, overlap: int) -> Seq<(int, int)> {
    chunk_trace(b, max, overlap, 0)->0
}

/// `chunks` are the chunks of the byte ranges `spans` of the text `b`.
pub open spec fn chunks_cover(chunks: Seq<Chunk>, b: Seq<u8>, spans: Seq<(int, int)>) -> bool {
    &&& chunks.len() == spans.len()
    &&& forall|i: int|
        0 <= i < spans.len() ==> {
            &&& #[trigger] chunks[i].start_char == spans[i].0
            &&& chunks[i].end_char == spans[i].1
            &&& encode_utf8(chunks[i].text@) == b.subrange(spans[i].0, spans[i].1)
        }
}

/// Bytes `[from, to)` of a string, as `&s[from..to]` slices it; both ends must
/// be character boundaries (the indexing panics otherwise).
#[verifier::external_body]
fn str_slice(s: &str, from: usize, to: usize) -> (r: &str)
    requires
        from <= to <= s.spec_bytes().len(),
        is_char_boundary(s.spec_bytes(), from as int),
        is_char_boundary(s.spec_bytes(), to as int),
    ensures
        r.spec_bytes() == s.spec_bytes().subrange(from as int, to as int),
{
    &s[from..to]
}

fn rfind_blank_exec(b: &[u8], lo: usize, hi: usize) -> (r: Option<usize>)
    requires
        lo <= hi <= b.len(),
    ensures
        match r {
            Some(p) => rfind_blank(b@, lo as int, hi as int) == Some(p as int) && lo <= p && p + 2
                <= hi,
            None => rfind_blank(b@, lo as int, hi as int) is None,
        },
{
    let mut h = hi;
    while h - lo >= 2
        invariant
            lo <= h <= hi <= b.len(),
            rfind_blank(b@, lo as int, hi as int) == rfind_blank(b@, lo as int, h as int),
        decreases h,
    {
        if b[h - 2] == 10 && b[h - 1] == 10 {
            return Some(h - 2);
        }
        h = h - 1;
    }
    None
}

/// Splits `raw_text` into chunks of at most `max_chars` bytes. Each chunk ends
/// just after the last blank line (`"\n\n"`) inside its window, or at the
/// window's end when there is none; the chunk that reaches the end of the
/// text is the last. The next chunk starts `overlap` bytes before the previous
/// chunk's end, or at that end when this would not move past the previous start.
pub fn chunk_text(raw_text: &str, max_chars: usize, overlap: usize) -> (chunks: Vec<Chunk>)
    requires
        chunking_valid(raw_text.spec_bytes(), max_chars as int, overlap as int),
    ensures
        chunks_cover(
            chunks@,
            raw_text.spec_bytes(),
            chunk_spans(raw_text.spec_bytes(), max_chars as int, overlap as int),
        ),
{
    let ghost b = raw_text.spec_bytes();
    let ghost whole = chunk_trace(b, max_chars as int, overlap as int, 0)->0;
    let bytes = raw_text.as_bytes();
    let len = bytes.len();
    let mut chunks: Vec<Chunk> = Vec::new();
    let mut start: usize = 0;
    let mut done = false;
    assert(whole =~= seq![] + whole);
    assert(whole.subrange(0, 0) =~= seq![]);
    while start < len && !done
        invariant
            b == raw_text.spec_bytes(),
            bytes@ == b,
            len == b.len(),
            whole == chunk_trace(b, max_chars as int, overlap as int, 0)->0,
            chunks_cover(chunks@, b, whole.subrange(0, chunks@.len() as int)),
            chunks@.len() <= whole.len(),
            done ==> chunks@.len() == whole.len(),
            !done ==> chunk_trace(b, max_chars as int, overlap as int, start as int) is Some,
            !done ==> whole.subrange(chunks@.len() as int, whole.len() as int) == chunk_trace(
                b,
                max_chars as int,
                overlap as int,
                start as int,
            )->0,
        decreases len - start + (if done { 0int } else { 1int }),
    {
        let ghost rest = chunk_trace(b, max_chars as int, overlap as int, start as int)->0;
        let ghost k = chunks@.len() as int;
        let ghost e = cut_end(b, start as int, max_chars as int);
        proof {
            lemma_cut_advances(b, start as int, max_chars as int);
        }
        assert(step_valid(b, start as int, max_chars as int));
        assert(rest.len() >= 1);
        assert(k < whole.len());
        let end = if start + max_chars < len {
            start + max_chars
        } else {
            len
        };
        let break_point = match rfind_blank_exec(bytes, start, end) {
            Some(p) => p + 2,
            None => end,
        };
        let final_end = if break_point < end {
            break_point
        } else {
            end
        };
        assert(final_end == e);
        let piece = str_slice(raw_text, start, final_end);
        let text = piece.to_owned();
        let ghost tv = text@;
        assert(encode_utf8(tv) == b.subrange(start as int, final_end as int));
        proof {
            assert(rest[0] == (start as int, final_end as int));
            assert(whole[k] == rest[0]) by {
                assert(whole.subrange(k, whole.len() as int)[0] == whole[k]);
            }
        }
        let ghost old_chunks = chunks@;
        chunks.push(Chunk { text, start_char: start, end_char: final_end });
        proof {
            assert forall|i: int| 0 <= i < k + 1 implies {
                &&& #[trigger] chunks@[i].start_char == whole.subrange(0, k + 1)[i].0
                &&& chunks@[i].end_char == whole.subrange(0, k + 1)[i].1
                &&& encode_utf8(chunks@[i].text@) == b.subrange(
                    whole.subrange(0, k + 1)[i].0,
                    whole.subrange(0, k + 1)[i].1,
                )
            } by {
                if i < k {
                    assert(whole.subrange(0, k + 1)[i] == whole.subrange(0, k)[i]);
                    assert(chunks@[i] == old_chunks[i]);
                    assert(old_chunks[i].start_char == whole.subrange(0, k)[i].0);
                    assert(encode_utf8(old_chunks[i].text@) == b.subrange(
                        whole.subrange(0, k)[i].0,
                        whole.subrange(0, k)[i].1,
                    ));
                } else {
                    assert(chunks@[i].text@ == tv);
                    assert(whole.subrange(0, k + 1)[i] == whole[k]);
                }
            }
            assert(chunks_cover(chunks@, b, whole.subrange(0, k + 1)));
        }
        if final_end >= len {
            done = true;
            proof {
                assert(rest =~= seq![(start as int, e)]);
                assert(whole.subrange(k, whole.len() as int).len() == 1);
            }
        } else {
            let next = if final_end >= overlap && final_end - overlap > start {
                final_end - overlap
            } else {
                final_end
            };
            proof {
                let rest2 = chunk_trace(b, max_chars as int, overlap as int, next as int)->0;
                assert(next as int == next_start(start as int, e, overlap as int));
                assert(rest == seq![(start as int, e)] + rest2);
                assert(rest.drop_first() =~= rest2);
                assert(whole.subrange(k + 1, whole.len() as int) =~= rest2);
            }
            start = next;
        }
    }
    proof {
        if !done {
            assert(chunk_trace(b, max_chars as int, overlap as int, start as int)->0 =~= seq![]);
        }
        assert(whole.subrange(0, chunks@.len() as int) =~= whole);
    }
    chunks
}

/// The spans are well placed: each is a non-empty range of at most `max`
/// bytes inside the text, each starts after the one before and no later than
/// its end (so there is no gap), and the last one ends at the end of the text.
pub open spec fn spans_tile(spans: Seq<(int, int)>, len: int, max: int) -> bool {
    &&& forall|i: int|
        0 <= i < spans.len() ==> 0 <= (#[trigger] spans[i]).0 < spans[i].1 <= len && spans[i].1
            - spans[i].0 <= max
    &&& forall|i: int|
        0 < i < spans.len() ==> spans[i - 1].0 < (#[trigger] spans[i]).0 <= spans[i - 1].1
    &&& spans.len() > 0 ==> spans.last().1 == len
}

proof fn lemma_trace_tiles(b: Seq<u8>, max: int, overlap: int, start: int)
    requires
        0 <= start,
        chunk_trace(b, max, overlap, start) is Some,
    ensures
        spans_tile(chunk_trace(b, max, overlap, start)->0, b.len() as int, max),
        start < b.len() ==> (chunk_trace(b, max, overlap, start)->0).len() > 0 && (chunk_trace(
            b,
            max,
            overlap,
            start,
        )->0)[0].0 == start,
        start >= b.len() ==> (chunk_trace(b, max, overlap, start)->0).len() == 0,
    decreases b.len() - start,
{
    if start < b.len() {
        lemma_cut_advances(b, start, max);
        let e = cut_end(b, start, max);
        let t = chunk_trace(b, max, overlap, start)->0;
        if e < b.len() {
            let n = next_start(start, e, overlap);
            lemma_trace_tiles(b, max, overlap, n);
            let r = chunk_trace(b, max, overlap, n)->0;
            assert(t == seq![(start, e)] + r);
            assert forall|i: int| 0 < i < t.len() implies t[i - 1].0 < (#[trigger] t[i]).0 <= t[i - 1].1 by {
                if i >= 2 {
                    assert(t[i - 1] == r[i - 2] && t[i] == r[i - 1]);
                } else {
                    assert(t[1] == r[0]);
                }
            }
            assert forall|i: int| 0 <= i < t.len() implies 0 <= (#[trigger] t[i]).0 < t[i].1 <= b.len()
                && t[i].1 - t[i].0 <= max by {
                if i >= 1 {
                    assert(t[i] == r[i - 1]);
                }
            }
            assert(t.last() == r.last());
        }
    }
}

/// Chunking tiles the text: every chunk is a non-empty byte range of at most
/// `max_chars` bytes, each chunk starts after the previous one and no later
/// than its end, the first starts at 0 and the last ends at the end of the
/// text; an empty text has no chunks.
pub proof fn chunks_tile_the_text(b: Seq<u8>, max: int, overlap: int)
    requires
        chunking_valid(b, max, overlap),
    ensures
        spans_tile(chunk_spans(b, max, overlap), b.len() as int, max),
        b.len() == 0 <==> chunk_spans(b, max, overlap).len() == 0,
        b.len() > 0 ==> chunk_spans(b, max, overlap)[0].0 == 0,
{
    lemma_trace_tiles(b, max, overlap, 0);
}

/// Whether every cut of the text's chunking lands on a character boundary
/// with a non-empty window (see `chunking_valid`): the inputs on which
/// slicing the chunks cannot panic.
pub fn chunking_ok(raw_text: &str, max_chars: usize, overlap: usize) -> (r: bool)
    ensures
        r == chunking_valid(raw_text.spec_bytes(), max_chars as int, overlap as int),
{
    let ghost b = raw_text.spec_bytes();
    let bytes = raw_text.as_bytes();
    let len = bytes.len();
    if max_chars == 0 {
        return len == 0;
    }
    let mut start: usize = 0;
    while start < len
        invariant
            b == raw_text.spec_bytes(),
            bytes@ == b,
            len == b.len(),
            max_chars > 0,
            chunking_valid(b, max_chars as int, overlap as int) == (chunk_trace(
                b,
                max_chars as int,
                overlap as int,
                start as int,
            ) is Some),
        decreases len - start,
    {
        if start > usize::MAX - max_chars {
            return false;
        }
        let end = if start + max_chars < len {
            start + max_chars
        } else {
            len
        };
        let final_end = match rfind_blank_exec(bytes, start, end) {
            Some(p) => p + 2,
            None => end,
        };
        if !raw_text.is_char_boundary(start) || !raw_text.is_char_boundary(end) || !raw_text.is_char_boundary(
            final_end,
        ) {
            return false;
        }
        let ghost e = cut_end(b, start as int, max_chars as int);
        assert(final_end == e);
        proof {
            lemma_cut_advances(b, start as int, max_chars as int);
        }
        if final_end >= len {
            return true;
        }
        let next = if final_end >= overlap && final_end - overlap > start {
            final_end - overlap
        } else {
            final_end
        };
        assert(next as int == next_start(start as int, e, overlap as int));
        start = next;
    }
    true
}

/// Chunks the text when its chunking is valid, `None` otherwise (where
/// slicing a chunk would cut a character, or `max_chars` is zero for a
/// non-empty text).
pub fn try_chunk_text(raw_text: &str, max_chars: usize, overlap: usize) -> (r: Option<Vec<Chunk>>)
    ensures
        r is Some <==> chunking_valid(raw_text.spec_bytes(), max_chars as int, overlap as int),
        r matches Some(chunks) ==> chunks_cover(
            chunks@,
            raw_text.spec_bytes(),
            chunk_spans(raw_text.spec_bytes(), max_chars as int, overlap as int),
        ),
{
    if chunking_ok(raw_text, max_chars, overlap) {
        Some(chunk_text(raw_text, max_chars, overlap))
    } else {
        None
    }
}

} // verus!
