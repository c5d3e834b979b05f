use llmstream::render::Color;
use llmstream::render::MarkdownStreamRenderer;

fn text_of(out: &[(char, Color)]) -> String {
    out.iter().map(|p| p.0).collect()
}

#[test]
fn split_bold_marker_renders_like_whole() {
    let mut split = MarkdownStreamRenderer::new();
    let mut split_out = split.process("**bo");
    split_out.extend(split.process("ld**"));

    let mut whole = MarkdownStreamRenderer::new();
    let whole_out = whole.process("**bold**");

    assert_eq!(split_out, whole_out);
    assert_eq!(text_of(&whole_out), "**bold**");
    // the word itself is styled as bold text
    for &(c, col) in whole_out.iter() {
        if c != '*' {
            assert_eq!(col, Color::Yellow);
        }
    }
}

#[test]
fn heading_closes_at_newline() {
    let mut r = MarkdownStreamRenderer::new();
    let out = r.process("# Title\nplain");
    assert_eq!(text_of(&out), "# Title\nplain");
    for (i, &(_, col)) in out.iter().enumerate() {
        if i < 8 {
            assert_eq!(col, Color::Magenta, "char {}", i);
        } else {
            assert_eq!(col, Color::Reset, "char {}", i);
        }
    }
}

#[test]
fn heading_levels_pick_their_colors() {
    let mut r = MarkdownStreamRenderer::new();
    let out = r.process("## x");
    assert_eq!(out[0], ('#', Color::DarkMagenta));
    assert_eq!(out[1], ('#', Color::DarkMagenta));
    assert_eq!(out[3], ('x', Color::DarkMagenta));

    let mut r = MarkdownStreamRenderer::new();
    let out = r.process("#### x");
    assert_eq!(out[0].1, Color::White);
}

#[test]
fn italic_toggles_with_single_star() {
    let mut r = MarkdownStreamRenderer::new();
    let out = r.process("a *it* b");
    let stars: Vec<&(char, Color)> = out.iter().filter(|p| p.0 == '*').collect();
    assert_eq!(stars.len(), 2);
    assert_eq!(stars[0].1, Color::Blue);
    let i = out.iter().position(|p| p.0 == 'i').unwrap();
    assert_eq!(out[i].1, Color::Blue);
    let b = out.iter().position(|p| p.0 == 'b').unwrap();
    assert_eq!(out[b].1, Color::Reset);
}

#[test]
fn unordered_list_marker_is_green() {
    let mut r = MarkdownStreamRenderer::new();
    let out = r.process("* item\n");
    assert_eq!(out[0], ('*', Color::Green));
    let i = out.iter().position(|p| p.0 == 'i').unwrap();
    assert_eq!(out[i].1, Color::Green);
}

#[test]
fn ordered_list_marker_is_green() {
    let mut r = MarkdownStreamRenderer::new();
    let out = r.process("1. x\n2) y");
    assert_eq!(out[0], ('1', Color::Green));
    assert_eq!(out[1], ('.', Color::Green));
    // "2)" is not a list marker: the digit falls back to plain style
    let two = out.iter().position(|p| p.0 == '2').unwrap();
    assert_eq!(out[two].1, Color::Reset);
}

#[test]
fn code_block_fence_toggles() {
    let mut r = MarkdownStreamRenderer::new();
    let out = r.process("```rs``` d");
    for &(c, col) in out.iter() {
        if c == '`' || c == 'r' || c == 's' {
            assert_eq!(col, Color::Yellow);
        }
        if c == 'd' {
            assert_eq!(col, Color::Reset);
        }
    }
}

#[test]
fn inline_code_toggles() {
    let mut r = MarkdownStreamRenderer::new();
    let out = r.process("`x` y");
    let x = out.iter().position(|p| p.0 == 'x').unwrap();
    assert_eq!(out[x].1, Color::Yellow);
    let y = out.iter().position(|p| p.0 == 'y').unwrap();
    assert_eq!(out[y].1, Color::Reset);
}

#[test]
fn link_text_and_url_are_styled() {
    let mut r = MarkdownStreamRenderer::new();
    let out = r.process("[t](u) v");
    assert_eq!(out[0], ('[', Color::Blue));
    assert_eq!(out[1], ('t', Color::Blue));
    assert_eq!(out[2], (']', Color::Blue));
    assert_eq!(out[3], ('(', Color::DarkBlue));
    assert_eq!(out[4], ('u', Color::DarkBlue));
    assert_eq!(out[5], (')', Color::DarkBlue));
    let v = out.iter().position(|p| p.0 == 'v').unwrap();
    assert_eq!(out[v].1, Color::Reset);
}

#[test]
fn blockquote_line_is_cyan() {
    let mut r = MarkdownStreamRenderer::new();
    let out = r.process("> q\nx");
    assert_eq!(out[0], ('>', Color::Cyan));
    let q = out.iter().position(|p| p.0 == 'q').unwrap();
    assert_eq!(out[q].1, Color::Cyan);
    let x = out.iter().position(|p| p.0 == 'x').unwrap();
    assert_eq!(out[x].1, Color::Reset);
}

#[test]
fn chunked_delivery_matches_single_delivery() {
    let text = "# h\n**b** *i* `c` [l](u)\n* li\n> q\nplain";
    let mut whole = MarkdownStreamRenderer::new();
    let expected = whole.process(text);
    for cut in 0..text.len() {
        if !text.is_char_boundary(cut) {
            continue;
        }
        let mut r = MarkdownStreamRenderer::new();
        let mut out = r.process(&text[..cut]);
        out.extend(r.process(&text[cut..]));
        assert_eq!(out, expected, "cut at {}", cut);
    }
}

#[test]
fn process_chunk_extracts_and_renders_the_response_value() {
    let doc = "{\"response\": \"He said \\\"hi\\\"\"}";
    let mut r = MarkdownStreamRenderer::new();
    let mut out = r.process_chunk(&doc[..19]);
    out.extend(r.process_chunk(&doc[19..]));
    assert_eq!(text_of(&out), "He said \"hi\"");
}

#[test]
fn finish_flushes_a_trailing_marker() {
    // a session ending in a lone star: the flush resolves it as an italic
    // toggle, so the star is still emitted exactly once
    let mut r = MarkdownStreamRenderer::new();
    let mut out = r.process("a *b");
    out.extend(r.finish());
    assert_eq!(text_of(&out), "a *b");
    let star = out.iter().position(|p| p.0 == '*').unwrap();
    assert_eq!(out[star].1, Color::Blue);
}

#[test]
fn finish_flushes_a_trailing_heading_run() {
    let mut r = MarkdownStreamRenderer::new();
    let mut out = r.process("x\n##");
    out.extend(r.finish());
    assert_eq!(text_of(&out), "x\n##");
    assert_eq!(out[2], ('#', Color::DarkMagenta));
    assert_eq!(out[3], ('#', Color::DarkMagenta));
}

#[test]
fn finish_on_a_clean_session_emits_nothing_and_resets() {
    let mut r = MarkdownStreamRenderer::new();
    let _ = r.process("**b**");
    assert!(r.finish().is_empty());
    // the renderer is fresh again: a new session starts at the base context
    let out = r.process("x");
    assert_eq!(out, vec![('x', Color::Reset)]);
}

#[test]
fn process_chunk_resolves_newline_escapes() {
    let mut r = MarkdownStreamRenderer::new();
    let out = r.process_chunk("{\"response\":\"a\\nb\"}");
    assert_eq!(text_of(&out), "a\nb");
}
