use mcp_hybrid_search::chunker::{chunk_text, extract_title};

#[test]
fn test_chunk_empty_text() {
    let chunks = chunk_text("", 100, 20);
    assert!(chunks.is_empty());
}

#[test]
fn test_chunk_short_text() {
    let chunks = chunk_text("hello world", 100, 20);
    assert_eq!(chunks.len(), 1);
    assert_eq!(chunks[0], "hello world");
}

#[test]
fn test_chunk_exact_size() {
    let text = "a".repeat(100);
    let chunks = chunk_text(&text, 100, 20);
    assert_eq!(chunks.len(), 1);
}

#[test]
fn test_chunk_with_overlap() {
    let text = "a".repeat(300);
    let chunks = chunk_text(&text, 100, 20);
    assert!(chunks.len() >= 3);
    for chunk in &chunks {
        assert!(chunk.chars().count() <= 100);
    }
}

#[test]
fn test_chunk_overlap_larger_than_size() {
    let text = "a".repeat(300);
    let chunks = chunk_text(&text, 100, 150);
    assert!(!chunks.is_empty());
}

#[test]
fn test_chunk_japanese_text() {
    let text = "あ".repeat(300);
    let chunks = chunk_text(&text, 100, 20);
    assert!(chunks.len() >= 3);
    for chunk in &chunks {
        assert!(chunk.chars().count() <= 100);
    }
}

#[test]
fn test_extract_title_heading() {
    let text = "# My Title\n\nSome content";
    assert_eq!(extract_title(text, "file.md"), "My Title");
}

#[test]
fn test_extract_title_h2() {
    let text = "## Section Title\n\nContent";
    assert_eq!(extract_title(text, "file.md"), "Section Title");
}

#[test]
fn test_extract_title_first_line() {
    let text = "First line content\n\nMore content";
    assert_eq!(extract_title(text, "file.md"), "First line content");
}

#[test]
fn test_extract_title_empty_lines_before_content() {
    let text = "\n\n\nActual content";
    assert_eq!(extract_title(text, "file.md"), "Actual content");
}

#[test]
fn test_extract_title_empty_text() {
    assert_eq!(extract_title("", "fallback.md"), "fallback.md");
}

#[test]
fn test_extract_title_long_line_truncated() {
    let long_line = "あ".repeat(200);
    let title = extract_title(&long_line, "file.md");
    assert!(title.chars().count() <= 104);
}

#[test]
fn chunk_windows_step_by_size_minus_overlap() {
    let chunks = chunk_text("abcdefghij", 4, 1);
    assert_eq!(chunks, vec!["abcd", "defg", "ghij"]);
}

#[test]
fn chunk_last_window_is_shorter() {
    let chunks = chunk_text("abcdefghijk", 4, 0);
    assert_eq!(chunks, vec!["abcd", "efgh", "ijk"]);
}

#[test]
fn chunk_overlap_not_below_size_steps_by_size() {
    let chunks = chunk_text("abcdefgh", 3, 3);
    assert_eq!(chunks, vec!["abc", "def", "gh"]);
    let chunks = chunk_text("abcdefgh", 3, 7);
    assert_eq!(chunks, vec!["abc", "def", "gh"]);
}

#[test]
fn chunk_trims_windows_and_drops_blank_ones() {
    let chunks = chunk_text("ab    cd", 2, 0);
    assert_eq!(chunks, vec!["ab", "cd"]);
    let chunks = chunk_text(" a b c ", 3, 0);
    assert_eq!(chunks, vec!["a", "b c"]);
}

#[test]
fn chunk_whole_text_is_not_trimmed() {
    let chunks = chunk_text("  hi  ", 10, 2);
    assert_eq!(chunks, vec!["  hi  "]);
}

#[test]
fn chunk_counts_scalar_values_not_bytes() {
    let chunks = chunk_text("あいうえお", 2, 0);
    assert_eq!(chunks, vec!["あい", "うえ", "お"]);
}

#[test]
fn chunks_without_overlap_recover_text() {
    let text = "The quick brown fox jumps over the lazy dog";
    let overlap = 3;
    let chunks = chunk_text("abcdefghijklmnopqrstuvwxyz", 7, overlap);
    let mut joined = String::new();
    for (i, c) in chunks.iter().enumerate() {
        if i == 0 {
            joined.push_str(c);
        } else {
            joined.extend(c.chars().skip(overlap));
        }
    }
    assert_eq!(joined, "abcdefghijklmnopqrstuvwxyz");
    assert!(chunk_text(text, 10, 2).iter().all(|c| c.chars().count() <= 10));
}

#[test]
fn chunks_match_sliding_window_of_std() {
    let text = "line one\nline two  \t and more   text here, with 日本語 too.";
    for size in 1..12usize {
        for overlap in 0..14usize {
            let chars: Vec<char> = text.chars().collect();
            let step = if size > overlap { size - overlap } else { size };
            let mut expected: Vec<String> = Vec::new();
            let mut start = 0;
            while start < chars.len() {
                let end = (start + size).min(chars.len());
                let w: String = chars[start..end].iter().collect();
                if !w.trim().is_empty() {
                    expected.push(w.trim().to_string());
                }
                if end >= chars.len() {
                    break;
                }
                start += step;
            }
            assert_eq!(chunk_text(text, size, overlap), expected);
        }
    }
}

#[test]
fn title_heading_without_text_is_empty() {
    assert_eq!(extract_title("###\nbody", "f.md"), "");
}

#[test]
fn title_heading_loses_every_leading_hash() {
    assert_eq!(extract_title("# #x", "f.md"), "x");
    assert_eq!(extract_title("## # ## \t # Title # \nbody", "f.md"), "Title #");
    assert_eq!(extract_title("#\u{3000}#", "f.md"), "");
    assert_eq!(extract_title("#a#b", "f.md"), "a#b");
}

#[test]
fn title_skips_blank_lines_with_carriage_returns() {
    assert_eq!(extract_title("\r\n  \r\n  Title here \r\nrest", "f.md"), "Title here");
}

#[test]
fn title_long_line_gets_exactly_103_chars() {
    let line = "x".repeat(150);
    let title = extract_title(&line, "f.md");
    assert_eq!(title, format!("{}...", "x".repeat(100)));
}

#[test]
fn title_all_blank_gives_fallback() {
    assert_eq!(extract_title("  \n\t\n \n", "name.txt"), "name.txt");
}

#[test]
fn title_matches_std_lines() {
    let docs = [
        "a\r\nb",
        "\u{a0}\n# T \r\n",
        "   ##  Heading  ##  \nx",
        "no newline",
        "\n",
        "#",
        "x\n",
        "\r",
        "# # x #",
        "#\t##\t",
    ];
    for doc in docs {
        let mut expected = "fb".to_string();
        for line in doc.lines() {
            let t = line.trim();
            if t.starts_with('#') {
                expected = t
                    .trim_start_matches(|c: char| c == '#' || c.is_whitespace())
                    .trim_end()
                    .to_string();
                break;
            }
            if !t.is_empty() {
                expected = t.to_string();
                break;
            }
        }
        assert_eq!(extract_title(doc, "fb"), expected);
    }
}
