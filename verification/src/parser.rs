//! The detail-table parser: one rendered detail view, given as plain data,
//! becomes one complete record or one hard failure.
//!
//! The view's label/value cells are taken two at a time in document order; a
//! dangling unpaired cell at the end is tolerated. Each recognized label
//! dispatches its value cell to the matching field and classifier;
//! unrecognized labels are ignored, so catalog schema growth does not break
//! parsing. The portrait image and the two-line name cell are read from
//! their fixed locations; a missing image or a name cell with fewer than two
//! lines is a hard failure.

use vstd::prelude::*;

use crate::classify::{
    classify_category, classify_category_spec, classify_color, classify_color_spec, classify_side,
    classify_side_spec, classify_trigger, classify_trigger_spec, count_icons, count_icons_spec,
    split_tags,
};
use crate::record::{default_card, Card, ParseFailure, SpecCard};
use crate::text::{norm_text, numeric_value, parse_numeric, split_spec, split_str, str_eq,
    trim_and_replace};

verus! {

/// One table cell as plain data: its visible text and the sources of the
/// icon images it holds, in document order.
#[derive(Debug, Clone, PartialEq, Eq)]
pub struct Cell {
    pub text: String,
    pub icons: Vec<String>,
}

/// The mathematical model of a [`Cell`].
#[verifier::ext_equal]
pub ghost struct SpecCell {
    pub text: Seq<char>,
    pub icons: Seq<Seq<char>>,
}

impl View for Cell {
    type V = SpecCell;

    open spec fn view(&self) -> SpecCell {
        SpecCell { text: self.text@, icons: self.icons.deep_view() }
    }
}

impl DeepView for Cell {
    type V = SpecCell;

    open spec fn deep_view(&self) -> SpecCell {
        self.view()
    }
}

/// One rendered detail view as plain data: the label and value cells of the
/// row table (header row excluded) flattened in document order, the portrait
/// image source if one was located, and the raw text of the two-line name
/// cell.
#[derive(Debug, Clone, PartialEq, Eq)]
pub struct DetailView {
    pub cells: Vec<Cell>,
    pub image_src: Option<String>,
    pub name_text: String,
}

/// The mathematical model of a [`DetailView`].
#[verifier::ext_equal]
pub ghost struct SpecDetailView {
    pub cells: Seq<SpecCell>,
    pub image_src: Option<Seq<char>>,
    pub name_text: Seq<char>,
}

impl View for DetailView {
    type V = SpecDetailView;

    open spec fn view(&self) -> SpecDetailView {
        SpecDetailView {
            cells: self.cells.deep_view(),
            image_src: match self.image_src {
                Option::Some(s) => Option::Some(s@),
                Option::None => Option::None,
            },
            name_text: self.name_text@,
        }
    }
}

impl DeepView for DetailView {
    type V = SpecDetailView;

    open spec fn deep_view(&self) -> SpecDetailView {
        self.view()
    }
}

/// What one (label, value) cell pair contributes to the record: the label's
/// exact raw text picks the field and its classifier; an unrecognized label
/// leaves the record unchanged.
pub open spec fn apply_pair(c: SpecCard, label: Seq<char>, value: SpecCell) -> Result<
    SpecCard,
    ParseFailure,
> {
    if label == "カード番号"@ {
        Ok(SpecCard { card_no: norm_text(value.text), ..c })
    } else if label == "商品名"@ {
        Ok(SpecCard { product: norm_text(value.text), ..c })
    } else if label == "ネオスタンダード区分"@ {
        Ok(SpecCard { expansion: norm_text(value.text), ..c })
    } else if label == "作品番号"@ {
        Ok(SpecCard { expansion_id: norm_text(value.text), ..c })
    } else if label == "レアリティ"@ {
        Ok(SpecCard { rarity: norm_text(value.text), ..c })
    } else if label == "サイド"@ {
        match classify_side_spec(value.icons) {
            Ok(s) => Ok(SpecCard { side: s, ..c }),
            Err(e) => Err(e),
        }
    } else if label == "種類"@ {
        match classify_category_spec(value.text) {
            Ok(t) => Ok(SpecCard { card_type: t, ..c }),
            Err(e) => Err(e),
        }
    } else if label == "色"@ {
        match classify_color_spec(value.icons) {
            Ok(col) => Ok(SpecCard { color: col, ..c }),
            Err(e) => Err(e),
        }
    } else if label == "レベル"@ {
        Ok(SpecCard { level: numeric_value(value.text), ..c })
    } else if label == "コスト"@ {
        Ok(SpecCard { cost: numeric_value(value.text), ..c })
    } else if label == "パワー"@ {
        Ok(SpecCard { power: numeric_value(value.text), ..c })
    } else if label == "ソウル"@ {
        Ok(SpecCard { soul: count_icons_spec(value.icons), ..c })
    } else if label == "トリガー"@ {
        Ok(SpecCard { trigger: classify_trigger_spec(value.icons), ..c })
    } else if label == "特徴"@ {
        Ok(SpecCard { special_attribute: split_spec(value.text, '・'), ..c })
    } else if label == "テキスト"@ {
        Ok(SpecCard { text: norm_text(value.text), ..c })
    } else if label == "フレーバー"@ {
        Ok(SpecCard { flavor_text: norm_text(value.text), ..c })
    } else if label == "イラストレーター"@ {
        Ok(SpecCard { illustrator: norm_text(value.text), ..c })
    } else {
        Ok(c)
    }
}

/// Folds the cell pairs of the row table over the record, two cells at a
/// time; a dangling unpaired cell at the end contributes nothing.
pub open spec fn parse_rows(c: SpecCard, cells: Seq<SpecCell>) -> Result<SpecCard, ParseFailure>
    decreases cells.len(),
{
    if cells.len() < 2 {
        Ok(c)
    } else {
        match apply_pair(c, cells[0].text, cells[1]) {
            Ok(c2) => parse_rows(c2, cells.skip(2)),
            Err(e) => Err(e),
        }
    }
}

/// The parse of one whole detail view: the row table folded over the default
/// record, then the portrait image (missing is a hard failure), then the
/// name cell, whose text must hold at least two lines — primary name and
/// phonetic name, each normalized.
pub open spec fn parse_spec(v: SpecDetailView) -> Result<SpecCard, ParseFailure> {
    match parse_rows(default_card(), v.cells) {
        Err(e) => Err(e),
        Ok(c0) => match v.image_src {
            Option::None => Err(ParseFailure::MissingImage),
            Option::Some(src) => {
                let lines = split_spec(v.name_text, '\n');
                if lines.len() < 2 {
                    Err(ParseFailure::MalformedNameCell)
                } else {
                    Ok(
                        SpecCard {
                            card_name: norm_text(lines[0]),
                            card_name_kana: norm_text(lines[1]),
                            ..SpecCard { image: src, ..c0 }
                        },
                    )
                }
            },
        },
    }
}

/// Applies one (label, value) cell pair to the record under construction.
fn apply_pair_row(card: &mut Card, th: &Cell, td: &Cell) -> (r: Result<(), ParseFailure>)
    ensures
        match r {
            Ok(_) => apply_pair(old(card)@, th@.text, td@) == Ok::<SpecCard, ParseFailure>(
                final(card)@,
            ),
            Err(e) => apply_pair(old(card)@, th@.text, td@) == Err::<SpecCard, ParseFailure>(e),
        },
{
    let label = th.text.as_str();
    if str_eq(label, "カード番号") {
        card.card_no = trim_and_replace(td.text.as_str());
        Ok(())
    } else if str_eq(label, "商品名") {
        card.product = trim_and_replace(td.text.as_str());
        Ok(())
    } else if str_eq(label, "ネオスタンダード区分") {
        card.expansion = trim_and_replace(td.text.as_str());
        Ok(())
    } else if str_eq(label, "作品番号") {
        card.expansion_id = trim_and_replace(td.text.as_str());
        Ok(())
    } else if str_eq(label, "レアリティ") {
        card.rarity = trim_and_replace(td.text.as_str());
        Ok(())
    } else if str_eq(label, "サイド") {
        match classify_side(&td.icons) {
            Ok(s) => {
                card.side = s;
                Ok(())
            },
            Err(e) => Err(e),
        }
    } else if str_eq(label, "種類") {
        match classify_category(td.text.as_str()) {
            Ok(t) => {
                card.card_type = t;
                Ok(())
            },
            Err(e) => Err(e),
        }
    } else if str_eq(label, "色") {
        match classify_color(&td.icons) {
            Ok(col) => {
                card.color = col;
                Ok(())
            },
            Err(e) => Err(e),
        }
    } else if str_eq(label, "レベル") {
        card.level = parse_numeric(td.text.as_str());
        Ok(())
    } else if str_eq(label, "コスト") {
        card.cost = parse_numeric(td.text.as_str());
        Ok(())
    } else if str_eq(label, "パワー") {
        card.power = parse_numeric(td.text.as_str());
        Ok(())
    } else if str_eq(label, "ソウル") {
        card.soul = count_icons(&td.icons);
        Ok(())
    } else if str_eq(label, "トリガー") {
        card.trigger = classify_trigger(&td.icons);
        Ok(())
    } else if str_eq(label, "特徴") {
        card.special_attribute = split_tags(td.text.as_str());
        Ok(())
    } else if str_eq(label, "テキスト") {
        card.text = trim_and_replace(td.text.as_str());
        Ok(())
    } else if str_eq(label, "フレーバー") {
        card.flavor_text = trim_and_replace(td.text.as_str());
        Ok(())
    } else if str_eq(label, "イラストレーター") {
        card.illustrator = trim_and_replace(td.text.as_str());
        Ok(())
    } else {
        Ok(())
    }
}

/// Parses one detail view into a complete record, or fails outright: no
/// partially populated record is ever returned.
pub fn parse(view: &DetailView) -> (r: Result<Card, ParseFailure>)
    ensures
        match r {
            Ok(c) => parse_spec(view@) == Ok::<SpecCard, ParseFailure>(c@),
            Err(e) => parse_spec(view@) == Err::<SpecCard, ParseFailure>(e),
        },
{
    let mut card = Card::default();
    let n = view.cells.len();
    let mut i: usize = 0;
    proof {
        assert(view@.cells.skip(0) =~= view@.cells);
    }
    while i < n && i + 1 < n
        invariant
            i <= n,
            n == view.cells@.len(),
            view@.cells.len() == n,
            parse_rows(default_card(), view@.cells) == parse_rows(
                card@,
                view@.cells.skip(i as int),
            ),
        decreases n - i,
    {
        proof {
            assert(view@.cells.skip(i as int)[0] == view@.cells[i as int]);
            assert(view@.cells.skip(i as int)[1] == view@.cells[i as int + 1]);
            assert(view@.cells[i as int] == view.cells@[i as int]@);
            assert(view@.cells[i as int + 1] == view.cells@[i as int + 1]@);
        }
        let th = &view.cells[i];
        let td = &view.cells[i + 1];
        let res = apply_pair_row(&mut card, th, td);
        match res {
            Ok(_) => {},
            Err(e) => {
                return Err(e);
            },
        }
        proof {
            assert(view@.cells.skip(i as int).skip(2) =~= view@.cells.skip(i as int + 2));
        }
        i += 2;
    }
    proof {
        assert(view@.cells.skip(i as int).len() < 2);
        assert(parse_rows(default_card(), view@.cells) == Ok::<SpecCard, ParseFailure>(card@));
    }
    match &view.image_src {
        Option::None => {
            return Err(ParseFailure::MissingImage);
        },
        Option::Some(s) => {
            card.image = s.clone();
        },
    }
    let lines = split_str(view.name_text.as_str(), '\n');
    if lines.len() < 2 {
        return Err(ParseFailure::MalformedNameCell);
    }
    proof {
        assert(lines.deep_view()[0] == lines@[0]@);
        assert(lines.deep_view()[1] == lines@[1]@);
    }
    card.card_name = trim_and_replace(lines[0].as_str());
    card.card_name_kana = trim_and_replace(lines[1].as_str());
    proof {
        let spec_r = parse_spec(view@);
        assert(spec_r is Ok);
        assert(spec_r->Ok_0 =~= card@);
    }
    Ok(card)
}

/// Law: on a view whose name cell holds at least two lines, a successful
/// parse returns the first line, normalized, as the name and the second
/// line, normalized, as the phonetic name.
/// Law: parsing is a pure function of the view — two parses of the same
/// view yield the identical record, or the identical failure. Together with
/// the contract of [`parse`], which pins every result to `parse_spec`,
/// re-parsing a fixed view twice yields bit-identical records.
pub proof fn lemma_parse_deterministic(
    v: SpecDetailView,
    r1: Result<SpecCard, ParseFailure>,
    r2: Result<SpecCard, ParseFailure>,
)
    requires
        r1 == parse_spec(v),
        r2 == parse_spec(v),
    ensures
        r1 == r2,
{
}

pub proof fn lemma_parse_name_lines(v: SpecDetailView)
    requires
        split_spec(v.name_text, '\n').len() >= 2,
        parse_spec(v) is Ok,
    ensures
        parse_spec(v)->Ok_0.card_name == norm_text(split_spec(v.name_text, '\n')[0]),
        parse_spec(v)->Ok_0.card_name_kana == norm_text(split_spec(v.name_text, '\n')[1]),
{
}

} // verus!
