use ws_card_scraper::parser::{parse, Cell, DetailView};
use ws_card_scraper::record::{ParseFailure, WSCardColor, WSCardSide, WSCardTrigger, WSCardType};

const ICON_BASE: &str = "/wordpress/wp-content/images/cardlist/_partimages/";

fn text_cell(text: &str) -> Cell {
    Cell { text: text.to_string(), icons: Vec::new() }
}

fn icon_cell(tokens: &[&str]) -> Cell {
    Cell {
        text: String::new(),
        icons: tokens.iter().map(|t| format!("{ICON_BASE}{t}")).collect(),
    }
}

fn pair(cells: &mut Vec<Cell>, label: &str, value: Cell) {
    cells.push(text_cell(label));
    cells.push(value);
}

/// A complete, well-formed detail view.
fn full_view() -> DetailView {
    let mut cells = Vec::new();
    pair(&mut cells, "カード番号", text_cell(" PHS/S23-001 "));
    pair(&mut cells, "商品名", text_cell("幻影ヲ駆ケル太陽"));
    pair(&mut cells, "ネオスタンダード区分", text_cell("幻影ヲ駆ケル太陽"));
    pair(&mut cells, "作品番号", text_cell("PHS"));
    pair(&mut cells, "レアリティ", text_cell("RR"));
    pair(&mut cells, "サイド", icon_cell(&["s.gif"]));
    pair(&mut cells, "種類", text_cell("キャラ"));
    pair(&mut cells, "色", icon_cell(&["red.gif"]));
    pair(&mut cells, "レベル", text_cell("3"));
    pair(&mut cells, "コスト", text_cell("2"));
    pair(&mut cells, "パワー", text_cell("10000"));
    pair(&mut cells, "ソウル", icon_cell(&["soul.gif", "soul.gif"]));
    pair(&mut cells, "トリガー", icon_cell(&["soul.gif"]));
    pair(&mut cells, "特徴", text_cell("太陽・月"));
    pair(&mut cells, "テキスト", text_cell(" 【自】\u{3000}このカードが手札から舞台に置かれた時 "));
    pair(&mut cells, "フレーバー", text_cell("いくよ!"));
    pair(&mut cells, "イラストレーター", text_cell(" 某画家 "));
    DetailView {
        cells,
        image_src: Some("/images/cardlist/phs/001.png".to_string()),
        name_text: " あかり\u{3000}ちゃん \nアカリ\n".to_string(),
    }
}

#[test]
fn parse_fills_every_field() {
    let card = parse(&full_view()).expect("well-formed view parses");
    assert_eq!(card.image, "/images/cardlist/phs/001.png");
    assert_eq!(card.card_name, "あかり ちゃん");
    assert_eq!(card.card_name_kana, "アカリ");
    assert_eq!(card.card_no, "PHS/S23-001");
    assert_eq!(card.product, "幻影ヲ駆ケル太陽");
    assert_eq!(card.expansion, "幻影ヲ駆ケル太陽");
    assert_eq!(card.expansion_id, "PHS");
    assert_eq!(card.rarity, "RR");
    assert_eq!(card.side, WSCardSide::Schwarz);
    assert_eq!(card.card_type, WSCardType::Character);
    assert_eq!(card.color, WSCardColor::Red);
    assert_eq!(card.level, 3);
    assert_eq!(card.cost, 2);
    assert_eq!(card.power, 10000);
    assert_eq!(card.soul, 2);
    assert_eq!(card.trigger, WSCardTrigger::Soul);
    assert_eq!(card.special_attribute, vec!["太陽", "月"]);
    assert_eq!(card.text, "【自】 このカードが手札から舞台に置かれた時");
    assert_eq!(card.flavor_text, "いくよ!");
    assert_eq!(card.illustrator, "某画家");
}

#[test]
fn parse_is_idempotent() {
    let view = full_view();
    let first = parse(&view).expect("parses");
    let second = parse(&view).expect("parses");
    assert_eq!(first, second);
}

#[test]
fn parse_name_lines_verbatim_after_normalization() {
    let mut view = full_view();
    view.name_text = "  Sun\u{3000}Runner  \nサン・ランナー".to_string();
    let card = parse(&view).expect("parses");
    assert_eq!(card.card_name, "Sun Runner");
    assert_eq!(card.card_name_kana, "サン・ランナー");
}

#[test]
fn parse_applies_defaults_for_absent_labels() {
    let mut cells = Vec::new();
    pair(&mut cells, "カード番号", text_cell("PHS/S23-102"));
    let view = DetailView {
        cells,
        image_src: Some("/images/x.png".to_string()),
        name_text: "a\nb".to_string(),
    };
    let card = parse(&view).expect("parses");
    assert_eq!(card.card_no, "PHS/S23-102");
    assert_eq!(card.side, WSCardSide::Weiss);
    assert_eq!(card.card_type, WSCardType::Character);
    assert_eq!(card.color, WSCardColor::Colorless);
    assert_eq!(card.level, 0);
    assert_eq!(card.cost, 0);
    assert_eq!(card.power, 0);
    assert_eq!(card.soul, 0);
    assert_eq!(card.trigger, WSCardTrigger::NoTrigger);
    assert_eq!(card.special_attribute, Vec::<String>::new());
    assert_eq!(card.text, "");
    assert_eq!(card.flavor_text, "");
    assert_eq!(card.illustrator, "");
}

#[test]
fn parse_ignores_unrecognized_labels() {
    let mut view = full_view();
    view.cells.push(text_cell("新しい欄"));
    view.cells.push(text_cell("なにか"));
    let card = parse(&view).expect("unknown labels are ignored");
    assert_eq!(card.card_no, "PHS/S23-001");
}

#[test]
fn parse_tolerates_dangling_cell() {
    let mut view = full_view();
    view.cells.push(text_cell("パワー"));
    let card = parse(&view).expect("a dangling unpaired cell is tolerated");
    assert_eq!(card.power, 10000);
}

#[test]
fn parse_missing_image_fails() {
    let mut view = full_view();
    view.image_src = None;
    assert_eq!(parse(&view), Err(ParseFailure::MissingImage));
}

#[test]
fn parse_single_line_name_cell_fails() {
    let mut view = full_view();
    view.name_text = "あかり".to_string();
    assert_eq!(parse(&view), Err(ParseFailure::MalformedNameCell));
}

#[test]
fn parse_unrecognized_side_icon_fails() {
    let mut view = full_view();
    view.cells[11] = icon_cell(&["mystery.gif"]);
    assert_eq!(parse(&view), Err(ParseFailure::UnrecognizedIcon));
}

#[test]
fn parse_unrecognized_category_text_fails() {
    let mut view = full_view();
    view.cells[13] = text_cell("謎の種類");
    assert_eq!(parse(&view), Err(ParseFailure::UnrecognizedLabel));
}

#[test]
fn parse_numeric_placeholder_degrades_to_zero() {
    let mut view = full_view();
    view.cells[17] = text_cell("-");
    let card = parse(&view).expect("a numeric placeholder is lenient");
    assert_eq!(card.level, 0);
}
