use scholarpress::chunker::{chunk_text, try_chunk_text};

#[test]
fn test_chunk_text_empty() {
    let chunks = chunk_text("", 100, 20);
    assert!(chunks.is_empty());
}

#[test]
fn test_chunk_text_smaller_than_chunk_size() {
    let chunks = chunk_text("hello world", 100, 20);
    assert_eq!(chunks.len(), 1);
    assert_eq!(chunks[0].text, "hello world");
}

#[test]
fn test_chunk_text_larger_with_overlap() {
    let text = "a".repeat(500);
    let chunks = chunk_text(&text, 100, 20);
    assert!(chunks.len() >= 4, "should produce multiple chunks, got {}", chunks.len());
    assert!(chunks[0].text.len() <= 100);
    assert!(chunks[1].start_char < chunks[0].end_char);
}

#[test]
fn test_chunk_text_paragraph_boundary() {
    let para1 = "First paragraph with some text. And another sentence.";
    let para2 = "Second paragraph here. More text.";
    let text = format!("{}\n\n{}", para1, para2);
    let chunks = chunk_text(&text, 40, 10);
    for chunk in &chunks {
        assert!(!chunk.text.ends_with('w'), "should not break mid-word: {:?}", chunk);
    }
}

#[test]
fn chunks_overlap_and_tile_a_long_text() {
    let text = "a".repeat(500);
    let chunks = chunk_text(&text, 100, 20);
    let ranges: Vec<(usize, usize)> = chunks.iter().map(|c| (c.start_char, c.end_char)).collect();
    assert_eq!(
        ranges,
        vec![(0, 100), (80, 180), (160, 260), (240, 340), (320, 420), (400, 500)]
    );
    assert_eq!(chunks.last().unwrap().end_char, 500);
}

#[test]
fn chunk_ends_after_blank_line() {
    let text = "First paragraph with some text. And another sentence.\n\nSecond paragraph here. More text.";
    let chunks = chunk_text(text, 40, 10);
    let ranges: Vec<(usize, usize)> = chunks.iter().map(|c| (c.start_char, c.end_char)).collect();
    assert_eq!(ranges, vec![(0, 40), (30, 55), (45, 55), (55, 88)]);
    assert_eq!(chunks[1].text, ". And another sentence.\n\n");
    assert_eq!(chunks[3].text, "Second paragraph here. More text.");
}

#[test]
fn chunk_without_overlap_is_a_partition() {
    let chunks = chunk_text("abcdefghij", 4, 0);
    let texts: Vec<&str> = chunks.iter().map(|c| c.text.as_str()).collect();
    assert_eq!(texts, vec!["abcd", "efgh", "ij"]);
}

#[test]
fn test_chunk_paragraph_boundaries() {
    let text = "Para 1 first sentence. Para 1 second sentence. Para 1 third sentence.\n\nPara 2 first sentence. Para 2 second sentence.\n\nPara 3 first sentence.";
    let chunks = chunk_text(text, 60, 10);
    assert!(chunks.len() >= 2);
    assert!(chunks[0].text.contains("Para 1"));
    assert!(chunks[1].start_char < chunks[0].end_char);
}

#[test]
fn test_chunk_short_text() {
    let chunks = chunk_text("Short.", 1000, 200);
    assert_eq!(chunks.len(), 1);
}

#[test]
fn test_chunk_respects_max() {
    let text = "x".repeat(100);
    let chunks = chunk_text(&text, 50, 10);
    assert!(chunks.len() >= 2);
    for c in &chunks {
        assert!(c.text.len() <= 50);
    }
}

#[test]
fn checked_chunking_accepts_valid_text() {
    let chunks = try_chunk_text("hello world", 100, 20).unwrap();
    assert_eq!(chunks.len(), 1);
    assert_eq!((chunks[0].start_char, chunks[0].end_char), (0, 11));
}

#[test]
fn checked_chunking_refuses_a_cut_inside_a_character() {
    assert!(try_chunk_text("h\u{e9}llo", 2, 0).is_none());
    assert!(try_chunk_text("h\u{e9}llo", 3, 0).is_some());
}

#[test]
fn checked_chunking_refuses_zero_width_windows() {
    assert!(try_chunk_text("abc", 0, 0).is_none());
    assert_eq!(try_chunk_text("", 0, 0).unwrap().len(), 0);
}
