use perceive::highlight::best_chunk;
use perceive::highlight::chunk_sizes;
use perceive::highlight::document_chunks;
use perceive::highlight::highlight_text;
use perceive::highlight::text_span;
use perceive::highlight::Chunk;
use perceive::highlight::Offset;
use perceive::highlight::DEFAULT_CHUNK_OVERLAP;
use perceive::highlight::DEFAULT_CHUNK_SIZE;

/// The cutting of a document into chunks, written out once more in the
/// plainest way, to hold the library against.
fn highlight_reference(mask: &[i8], chunk_size: usize, chunk_overlap: usize) -> Vec<Chunk> {
    let mut out = Vec::new();
    let mut i = 0;
    while i + chunk_overlap < mask.len() {
        let start_index = i;
        let end_index = std::cmp::min(i + chunk_size, mask.len());
        let window = &mask[start_index..end_index];
        let mut longest_start = 0;
        let mut longest_length = 0;
        let mut current_start = 0;
        let mut current_length = 0;
        for (index, &is_special) in window.iter().enumerate() {
            if is_special == 0 {
                current_length += 1;
            } else {
                if current_length > longest_length {
                    longest_start = current_start;
                    longest_length = current_length;
                }
                current_start = index;
                current_length = 0;
            }
        }
        if current_length > longest_length {
            longest_start = current_start;
            longest_length = current_length;
        }
        let start_index = start_index + longest_start;
        let end_index = std::cmp::min(start_index + longest_length, end_index);
        if end_index - start_index >= chunk_size / 2 {
            out.push(Chunk { start: start_index, end: end_index });
        }
        i += chunk_size - chunk_overlap;
    }
    out
}

#[test]
fn chunk_sizes_default_to_twenty_and_four() {
    assert_eq!(DEFAULT_CHUNK_SIZE, 20);
    assert_eq!(DEFAULT_CHUNK_OVERLAP, 4);
    assert_eq!(chunk_sizes(None, None), (20, 4));
    assert_eq!(chunk_sizes(Some(10), None), (10, 4));
    assert_eq!(chunk_sizes(None, Some(2)), (20, 2));
    assert_eq!(chunk_sizes(Some(8), Some(3)), (8, 3));
}

#[test]
fn a_document_of_ordinary_tokens_is_cut_into_overlapping_chunks() {
    let mask = vec![0i8; 26];
    assert_eq!(
        document_chunks(&mask, 10, 2),
        vec![
            Chunk { start: 0, end: 10 },
            Chunk { start: 8, end: 18 },
            Chunk { start: 16, end: 26 },
        ]
    );
}

#[test]
fn special_tokens_bound_the_chunks() {
    let mut mask = vec![0i8; 12];
    mask[0] = 1;
    mask[11] = 1;
    assert_eq!(document_chunks(&mask, 20, 4), vec![Chunk { start: 0, end: 10 }]);
}

#[test]
fn short_runs_give_no_chunk() {
    assert_eq!(document_chunks(&[], 20, 4), Vec::<Chunk>::new());
    assert_eq!(document_chunks(&[0, 0, 0, 0], 20, 4), Vec::<Chunk>::new());
    assert_eq!(document_chunks(&[0, 0, 0, 0, 0], 20, 4), Vec::<Chunk>::new());
    assert_eq!(document_chunks(&[0; 10], 20, 4), vec![Chunk { start: 0, end: 10 }]);
    assert_eq!(document_chunks(&[1; 30], 20, 4), Vec::<Chunk>::new());
}

#[test]
fn chunks_agree_with_the_plain_cutting() {
    let mut state: u32 = 7;
    for round in 0..300 {
        state = state.wrapping_mul(1664525).wrapping_add(1013904223);
        let len = (state >> 16) as usize % 70;
        let mut mask = Vec::new();
        for _ in 0..len {
            state = state.wrapping_mul(1664525).wrapping_add(1013904223);
            mask.push(if (state >> 24) % 5 == 0 { 1i8 } else { 0i8 });
        }
        let chunk_size = 1 + round % 23;
        let chunk_overlap = (round / 3) % chunk_size;
        assert_eq!(
            document_chunks(&mask, chunk_size, chunk_overlap),
            highlight_reference(&mask, chunk_size, chunk_overlap),
            "{:?} {} {}",
            mask,
            chunk_size,
            chunk_overlap
        );
    }
}

#[test]
fn the_best_chunk_is_the_last_of_the_best() {
    let scores: Vec<u32> = [0.1f32, 0.9, -0.5, 0.9, 0.3].iter().map(|s| s.to_bits()).collect();
    assert_eq!(best_chunk(&scores), Some(3));
    let scores: Vec<u32> = [-0.1f32, -0.9].iter().map(|s| s.to_bits()).collect();
    assert_eq!(best_chunk(&scores), Some(0));
    assert_eq!(best_chunk(&[7]), Some(0));
    assert_eq!(best_chunk(&[]), None);
}

#[test]
fn a_stretch_covers_the_offsets() {
    let offsets = vec![
        None,
        Some(Offset { begin: 12, end: 15 }),
        Some(Offset { begin: 5, end: 9 }),
        None,
        Some(Offset { begin: 16, end: 22 }),
    ];
    assert_eq!(text_span(&offsets), (5, 22));
    assert_eq!(text_span(&[None, None]), (0, 0));
    assert_eq!(text_span(&[]), (0, 0));
    assert_eq!(
        text_span(&[Some(Offset { begin: 0, end: 0 }), Some(Offset { begin: 4, end: 6 })]),
        (4, 6)
    );
}

#[test]
fn the_highlight_is_the_text_of_the_stretch() {
    assert_eq!(highlight_text("hello world, hello", 6, 10), "world");
    assert_eq!(highlight_text("héllo wörld!", 6, 10), "wörld");
    assert_eq!(highlight_text("hello", 1, 3), "ell");
    assert_eq!(highlight_text("hello", 1, 4), "");
    assert_eq!(highlight_text("hello", 7, 9), "");
    assert_eq!(highlight_text("", 0, 0), "");
    assert_eq!(highlight_text("ab", 0, 0), "a");
}
