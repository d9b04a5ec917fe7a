use ws_card_scraper::crawler::{crawl_step, crawl_views, CrawlEnd, CrawlStep, ViewFrame};
use ws_card_scraper::parser::{Cell, DetailView};
use ws_card_scraper::record::ParseFailure;

const ICON_BASE: &str = "/wordpress/wp-content/images/cardlist/_partimages/";

fn text_cell(text: &str) -> Cell {
    Cell { text: text.to_string(), icons: Vec::new() }
}

fn icon_cell(tokens: &[&str]) -> Cell {
    Cell {
        text: String::new(),
        icons: tokens.iter().map(|t| format!("{ICON_BASE}{t}")).collect(),
    }
}

/// A minimal well-formed detail view for record number `n` of the given
/// title.
fn view(title: &str, n: usize) -> DetailView {
    let mut cells = Vec::new();
    cells.push(text_cell("カード番号"));
    cells.push(text_cell(&format!("PHS/S23-{n:03}")));
    cells.push(text_cell("商品名"));
    cells.push(text_cell(title));
    cells.push(text_cell("サイド"));
    cells.push(icon_cell(&["w.gif"]));
    cells.push(text_cell("レベル"));
    cells.push(text_cell(&format!("{n}")));
    DetailView {
        cells,
        image_src: Some(format!("/images/cardlist/phs/{n:03}.png")),
        name_text: format!("名前{n}\nナマエ{n}"),
    }
}

/// A view whose side icon token is unrecognized: parsing it fails.
fn broken_view(title: &str, n: usize) -> DetailView {
    let mut v = view(title, n);
    v.cells[5] = icon_cell(&["mystery.gif"]);
    v
}

/// `n` records; every frame but the last reports a sibling.
fn frames(title: &str, n: usize) -> Vec<ViewFrame> {
    (1..=n)
        .map(|i| ViewFrame { view: view(title, i), has_sibling: i < n })
        .collect()
}

#[test]
fn crawl_emits_all_records_until_sentinel() {
    let result = crawl_views(&frames("幻影ヲ駆ケル太陽", 3), None);
    assert_eq!(result.end, CrawlEnd::Exhausted);
    assert_eq!(result.records.len(), 3);
    assert_eq!(result.records[0].card_no, "PHS/S23-001");
    assert_eq!(result.records[1].card_no, "PHS/S23-002");
    assert_eq!(result.records[2].card_no, "PHS/S23-003");
}

#[test]
fn crawl_bound_stops_without_consulting_sentinel() {
    // every frame reports a sibling: the bound alone ends the crawl
    let mut fs = frames("幻影ヲ駆ケル太陽", 5);
    for f in fs.iter_mut() {
        f.has_sibling = true;
    }
    let result = crawl_views(&fs, Some(2));
    assert_eq!(result.end, CrawlEnd::Exhausted);
    assert_eq!(result.records.len(), 2);
    assert_eq!(result.records[1].card_no, "PHS/S23-002");
}

#[test]
fn crawl_bound_zero_emits_nothing() {
    let result = crawl_views(&frames("幻影ヲ駆ケル太陽", 3), Some(0));
    assert_eq!(result.end, CrawlEnd::Exhausted);
    assert_eq!(result.records.len(), 0);
}

#[test]
fn crawl_failure_keeps_the_parsed_prefix() {
    let title = "幻影ヲ駆ケル太陽";
    let fs = vec![
        ViewFrame { view: view(title, 1), has_sibling: true },
        ViewFrame { view: view(title, 2), has_sibling: true },
        ViewFrame { view: broken_view(title, 3), has_sibling: true },
        ViewFrame { view: view(title, 4), has_sibling: false },
    ];
    let result = crawl_views(&fs, None);
    assert_eq!(result.end, CrawlEnd::Failed(ParseFailure::UnrecognizedIcon));
    // the partial count matches the traversal index of the failure
    assert_eq!(result.records.len(), 2);
    assert_eq!(result.records[0].card_no, "PHS/S23-001");
    assert_eq!(result.records[1].card_no, "PHS/S23-002");
}

#[test]
fn crawl_running_out_of_views_is_a_navigation_fault() {
    let result = crawl_views(&Vec::new(), None);
    assert_eq!(result.end, CrawlEnd::Failed(ParseFailure::NavigationFault));
    assert_eq!(result.records.len(), 0);

    // a frame that promises a sibling the sequence does not hold
    let fs = vec![ViewFrame { view: view("幻影ヲ駆ケル太陽", 1), has_sibling: true }];
    let result = crawl_views(&fs, None);
    assert_eq!(result.end, CrawlEnd::Failed(ParseFailure::NavigationFault));
    assert_eq!(result.records.len(), 1);
}

#[test]
fn crawl_scenario_bound_ten_sentinel_at_four() {
    // title 幻影ヲ駆ケル太陽, bound 10: the sentinel at record 4 wins
    let title = "幻影ヲ駆ケル太陽";
    let fs = frames(title, 4);
    let result = crawl_views(&fs, Some(10));
    assert_eq!(result.end, CrawlEnd::Exhausted);
    assert_eq!(result.records.len(), 4);
    // the first emitted record is the first opened detail view's
    assert_eq!(result.records[0].card_no, "PHS/S23-001");
    assert_eq!(result.records[0].product, title);
    assert_eq!(result.records[0].level, 1);

    // with more records than the bound, at most 10 are emitted
    let result = crawl_views(&frames(title, 12), Some(10));
    assert_eq!(result.end, CrawlEnd::Exhausted);
    assert_eq!(result.records.len(), 10);
}

#[test]
fn crawl_step_single_record_mode() {
    // a degenerate crawl of exactly one iteration: bound 1
    let v = view("幻影ヲ駆ケル太陽", 7);
    match crawl_step(&v, true, 0, Some(1)) {
        CrawlStep::Emit(card, advance) => {
            assert_eq!(card.card_no, "PHS/S23-007");
            assert!(!advance);
        }
        other => panic!("expected an emit, got {other:?}"),
    }
}

#[test]
fn crawl_step_stops_at_bound() {
    let v = view("幻影ヲ駆ケル太陽", 1);
    match crawl_step(&v, true, 3, Some(3)) {
        CrawlStep::Stop(end) => assert_eq!(end, CrawlEnd::Exhausted),
        other => panic!("expected a stop, got {other:?}"),
    }
}

#[test]
fn crawl_step_reports_parse_failure() {
    let v = broken_view("幻影ヲ駆ケル太陽", 1);
    match crawl_step(&v, true, 0, None) {
        CrawlStep::Stop(end) => assert_eq!(end, CrawlEnd::Failed(ParseFailure::UnrecognizedIcon)),
        other => panic!("expected a stop, got {other:?}"),
    }
}
