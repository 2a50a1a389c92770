//! The lines of text that the viewer shows.

use termpdf::backend::DocumentBackend;
use termpdf::cache::RenderImage;
use termpdf::document::DocumentInstance;
use termpdf::labels::{
    find_ascii_match_range, fit_chars, format_document_status, format_toc_line,
    highlight_search_segment, push_digits, push_repeated, push_str, split_keywords,
    toc_line_length,
    truncate_with_ellipsis,
};
use termpdf::links::{LinkAction, LinkDefinition};
use termpdf::geometry::NormalizedRect;
use termpdf::model::{
    DocumentInfo, DocumentMetadata, EngineError, OutlineItem, PersistedDocumentState, RenderRequest,
};
use termpdf::search::SearchMatch;

fn entry(title: &str, page_index: usize, depth: usize) -> OutlineItem {
    OutlineItem { title: title.to_string(), page_index, depth }
}

#[test]
fn lines_are_cut_or_filled_to_the_width() {
    assert_eq!(truncate_with_ellipsis("hello".to_string(), 8), "hello   ");
    assert_eq!(truncate_with_ellipsis("hello".to_string(), 5), "hello");
    assert_eq!(truncate_with_ellipsis("hello world".to_string(), 8), "hello...");
    assert_eq!(truncate_with_ellipsis("hello".to_string(), 4), "h...");
    assert_eq!(truncate_with_ellipsis("hello".to_string(), 3), "hel");
    assert_eq!(truncate_with_ellipsis("hello".to_string(), 1), "h");
    assert_eq!(truncate_with_ellipsis("hello".to_string(), 0), "");
    assert_eq!(truncate_with_ellipsis(String::new(), 3), "   ");
    assert_eq!(truncate_with_ellipsis(String::new(), 0), "");
}

#[test]
fn widths_count_bytes() {
    assert_eq!(truncate_with_ellipsis("héllo".to_string(), 7), "héllo ");
    assert_eq!(truncate_with_ellipsis("héllo".to_string(), 6), "héllo");
    assert_eq!(truncate_with_ellipsis("héllo".to_string(), 3), "hé");
    assert_eq!(truncate_with_ellipsis("éé".to_string(), 3), "é ");
    assert_eq!(truncate_with_ellipsis("éé".to_string(), 1), " ");
    assert_eq!(truncate_with_ellipsis("héllo wörld".to_string(), 8), "héllo...");
    assert_eq!(truncate_with_ellipsis("漢字漢字".to_string(), 10), "漢字漢字...");
    assert_eq!(fit_chars(vec!['a', 'b'], 4), vec!['a', 'b', ' ', ' ']);
}

#[test]
fn ascii_matches_ignore_case() {
    assert_eq!(find_ascii_match_range("Chapter One", "one"), Some((8, 11)));
    assert_eq!(find_ascii_match_range("Chapter One", "CHAPTER ONE"), Some((0, 11)));
    assert_eq!(find_ascii_match_range("aXbxB", "XB"), Some((1, 3)));
    assert_eq!(find_ascii_match_range("abcabc", "c"), Some((2, 3)));
    assert_eq!(find_ascii_match_range("abc", ""), None);
    assert_eq!(find_ascii_match_range("abc", "abcd"), None);
    assert_eq!(find_ascii_match_range("abc", "x"), None);
    assert_eq!(find_ascii_match_range("ábc", "b"), None);
    assert_eq!(find_ascii_match_range("abc", "é"), None);
    assert_eq!(find_ascii_match_range("", "a"), None);
    assert_eq!(find_ascii_match_range("[`", "{@"), None);
    assert_eq!(find_ascii_match_range("a_z", "A_Z"), Some((0, 3)));
}

#[test]
fn the_match_is_set_in_brackets() {
    assert_eq!(highlight_search_segment("Chapter One", Some("chap")), "[Chap]ter One");
    assert_eq!(highlight_search_segment("Chapter One", Some("one")), "Chapter [One]");
    assert_eq!(highlight_search_segment("Chapter One", Some("r o")), "Chapte[r O]ne");
    assert_eq!(highlight_search_segment("aaa", Some("a")), "[a]aa");
    assert_eq!(highlight_search_segment("Chapter One", Some("two")), "Chapter One");
    assert_eq!(highlight_search_segment("Chapter One", Some("")), "Chapter One");
    assert_eq!(highlight_search_segment("Chapter One", None), "Chapter One");
    assert_eq!(highlight_search_segment("Übung one", Some("one")), "Übung one");
    assert_eq!(highlight_search_segment("", Some("x")), "");
}

#[test]
fn toc_lines_show_markers_indent_title_and_page() {
    let one = entry("Chapter One", 1, 0);
    assert_eq!(
        format_toc_line(&one, true, false, true, Some("one"), 30),
        "> + Chapter [One] (p2)        "
    );
    assert_eq!(
        format_toc_line(&one, false, true, false, Some("one"), 22),
        " *  Chapter One (p2)  "
    );
    assert_eq!(format_toc_line(&one, false, false, true, None, 12), "  + Chapt...");
    let deep = entry("x", 41, 3);
    assert_eq!(format_toc_line(&deep, true, true, true, Some("y"), 17), ">*+       x (p42)");
    let deeper = entry("x", 0, 50);
    assert_eq!(
        format_toc_line(&deeper, false, false, false, None, 0),
        ""
    );
    assert_eq!(
        format_toc_line(&deeper, false, false, false, None, 26),
        "                    x (p1)"
    );
}

#[test]
fn toc_line_lengths_count_what_a_line_takes() {
    assert_eq!(toc_line_length(&entry("Intro", 0, 1)), 16);
    assert_eq!(toc_line_length(&entry("", 0, 0)), 9);
    assert_eq!(toc_line_length(&entry("x", 8, 20)), 26);
    assert_eq!(toc_line_length(&entry("x", 9, 0)), 11);
    assert_eq!(toc_line_length(&entry("é", 99, 0)), 13);
    assert_eq!(toc_line_length(&entry("", usize::MAX, 0)), 8 + usize::MAX.to_string().len());
}

#[test]
fn digits_and_fillers_are_appended() {
    let mut line = vec!['#'];
    push_digits(&mut line, 0);
    push_str(&mut line, "-é-");
    push_digits(&mut line, 1234567890);
    push_repeated(&mut line, '.', 3);
    push_repeated(&mut line, '!', 0);
    push_digits(&mut line, u128::MAX);
    let text: String = line.into_iter().collect();
    assert_eq!(text, format!("#0-é-1234567890...{}", u128::MAX));
}

struct Bare {
    info: DocumentInfo,
}

impl DocumentBackend for Bare {
    fn info(&self) -> &DocumentInfo {
        &self.info
    }

    fn render_page(&self, _request: RenderRequest) -> Result<RenderImage, EngineError> {
        Err(EngineError::Unsupported)
    }

    fn page_links(&self, page_index: usize) -> Result<Vec<LinkDefinition>, EngineError> {
        if page_index == 2 {
            Ok(vec![LinkDefinition {
                rects: vec![NormalizedRect { left: 0, top: 0, right: 9, bottom: 9 }],
                action: LinkAction::Unsupported,
            }])
        } else {
            Ok(Vec::new())
        }
    }
}

fn bare(page_count: usize) -> DocumentInstance<Bare> {
    let info = DocumentInfo {
        id: 5,
        path: "/tmp/a.pdf".to_string(),
        page_count,
        metadata: DocumentMetadata::default(),
    };
    DocumentInstance::new(
        info.clone(),
        Bare { info },
        PersistedDocumentState::default(),
        Vec::new(),
    )
}

#[test]
fn the_status_tells_page_and_zoom() {
    let mut doc = bare(5);
    assert_eq!(format_document_status("a.pdf", &doc), "a.pdf — page 1/5 — 100%");
    doc.goto_page(4);
    doc.scale_by(1500);
    assert_eq!(format_document_status("a.pdf", &doc), "a.pdf — page 5/5 — 150%");
    doc.state.scale = 1234;
    assert_eq!(format_document_status("", &doc), " — page 5/5 — 123%");
    doc.state.scale = 1235;
    assert_eq!(format_document_status("<unknown>", &doc), "<unknown> — page 5/5 — 124%");
    assert_eq!(format_document_status("e", &bare(0)), "e — page 1/0 — 100%");
}

#[test]
fn the_status_tells_search_and_links() {
    let mut doc = bare(5);
    doc.apply_search_results("kw".to_string(), Vec::new(), 0);
    assert_eq!(format_document_status("a", &doc), "a — page 1/5 — 100% — /kw (no matches)");
    let matches = vec![
        SearchMatch { page: 0, rects: Vec::new() },
        SearchMatch { page: 3, rects: Vec::new() },
        SearchMatch { page: 3, rects: Vec::new() },
    ];
    doc.apply_search_results("kw".to_string(), matches, 2);
    assert_eq!(format_document_status("a", &doc), "a — page 4/5 — 100% — /kw (2/3)");
    doc.apply_search_index(9);
    assert_eq!(format_document_status("a", &doc), "a — page 4/5 — 100% — /kw (0/3)");
    doc.start_link_mode().unwrap();
    assert_eq!(
        format_document_status("a", &doc),
        "a — page 4/5 — 100% — /kw (0/3) — link (0/1)"
    );
    doc.next_link(1);
    assert_eq!(
        format_document_status("a", &doc),
        "a — page 3/5 — 100% — /kw (0/3) — link (1/1)"
    );
    doc.apply_search_results(String::new(), Vec::new(), 0);
    let mut empty = bare(2);
    empty.start_link_mode().unwrap();
    assert_eq!(format_document_status("b", &empty), "b — page 1/2 — 100% — link (no links)");
}

#[test]
fn keywords_are_the_trimmed_parts_between_commas() {
    assert_eq!(split_keywords("pdf, viewer ,terminal"), vec!["pdf", "viewer", "terminal"]);
    assert_eq!(split_keywords("one"), vec!["one"]);
    assert_eq!(split_keywords(""), vec![""]);
    assert_eq!(split_keywords(","), vec!["", ""]);
    assert_eq!(split_keywords(" a b ,, c,"), vec!["a b", "", "c", ""]);
}
