//! Field classifiers: pure, total mappings from a raw cell signal (text or a
//! list of icon sources) to a typed value or an enumerated variant.
//!
//! The icon vocabulary of the catalog is closed: an unknown icon for `side`
//! or `color`, or an unknown text for the category, is a hard failure. The
//! trigger field alone degrades gracefully to "no trigger" on an unknown
//! token, a deliberate asymmetry.

use vstd::prelude::*;

use crate::record::{ParseFailure, WSCardColor, WSCardSide, WSCardTrigger, WSCardType};
use crate::text::{norm_text, split_spec, split_str, str_eq, trim_and_replace};

verus! {

/// The side a full icon source stands for, if recognized.
pub open spec fn side_of(src: Seq<char>) -> Option<WSCardSide> {
    if src == "/wordpress/wp-content/images/cardlist/_partimages/w.gif"@ {
        Option::Some(WSCardSide::Weiss)
    } else if src == "/wordpress/wp-content/images/cardlist/_partimages/s.gif"@ {
        Option::Some(WSCardSide::Schwarz)
    } else {
        Option::None
    }
}

/// Side classification over a cell's icon list: the first icon decides;
/// a missing or unrecognized icon is a hard failure.
pub open spec fn classify_side_spec(icons: Seq<Seq<char>>) -> Result<WSCardSide, ParseFailure> {
    if icons.len() == 0 {
        Err(ParseFailure::UnrecognizedIcon)
    } else {
        match side_of(icons[0]) {
            Option::Some(s) => Ok(s),
            Option::None => Err(ParseFailure::UnrecognizedIcon),
        }
    }
}

/// Classifies the side cell by its first icon source.
pub fn classify_side(icons: &Vec<String>) -> (r: Result<WSCardSide, ParseFailure>)
    ensures
        r == classify_side_spec(icons.deep_view()),
{
    if icons.len() == 0 {
        return Err(ParseFailure::UnrecognizedIcon);
    }
    proof {
        assert(icons.deep_view()[0] == icons@[0]@);
    }
    let src = icons[0].as_str();
    if str_eq(src, "/wordpress/wp-content/images/cardlist/_partimages/w.gif") {
        Ok(WSCardSide::Weiss)
    } else if str_eq(src, "/wordpress/wp-content/images/cardlist/_partimages/s.gif") {
        Ok(WSCardSide::Schwarz)
    } else {
        Err(ParseFailure::UnrecognizedIcon)
    }
}

/// The color a full icon source stands for, if recognized. No icon maps to
/// `Colorless`: that value only stands where the color label is absent.
pub open spec fn color_of(src: Seq<char>) -> Option<WSCardColor> {
    if src == "/wordpress/wp-content/images/cardlist/_partimages/red.gif"@ {
        Option::Some(WSCardColor::Red)
    } else if src == "/wordpress/wp-content/images/cardlist/_partimages/yellow.gif"@ {
        Option::Some(WSCardColor::Yellow)
    } else if src == "/wordpress/wp-content/images/cardlist/_partimages/blue.gif"@ {
        Option::Some(WSCardColor::Blue)
    } else if src == "/wordpress/wp-content/images/cardlist/_partimages/green.gif"@ {
        Option::Some(WSCardColor::Green)
    } else if src == "/wordpress/wp-content/images/cardlist/_partimages/purple.gif"@ {
        Option::Some(WSCardColor::Purple)
    } else {
        Option::None
    }
}

/// Color classification over a cell's icon list: the first icon decides;
/// a missing or unrecognized icon is a hard failure.
pub open spec fn classify_color_spec(icons: Seq<Seq<char>>) -> Result<WSCardColor, ParseFailure> {
    if icons.len() == 0 {
        Err(ParseFailure::UnrecognizedIcon)
    } else {
        match color_of(icons[0]) {
            Option::Some(c) => Ok(c),
            Option::None => Err(ParseFailure::UnrecognizedIcon),
        }
    }
}

/// Classifies the color cell by its first icon source.
pub fn classify_color(icons: &Vec<String>) -> (r: Result<WSCardColor, ParseFailure>)
    ensures
        r == classify_color_spec(icons.deep_view()),
{
    if icons.len() == 0 {
        return Err(ParseFailure::UnrecognizedIcon);
    }
    proof {
        assert(icons.deep_view()[0] == icons@[0]@);
    }
    let src = icons[0].as_str();
    if str_eq(src, "/wordpress/wp-content/images/cardlist/_partimages/red.gif") {
        Ok(WSCardColor::Red)
    } else if str_eq(src, "/wordpress/wp-content/images/cardlist/_partimages/yellow.gif") {
        Ok(WSCardColor::Yellow)
    } else if str_eq(src, "/wordpress/wp-content/images/cardlist/_partimages/blue.gif") {
        Ok(WSCardColor::Blue)
    } else if str_eq(src, "/wordpress/wp-content/images/cardlist/_partimages/green.gif") {
        Ok(WSCardColor::Green)
    } else if str_eq(src, "/wordpress/wp-content/images/cardlist/_partimages/purple.gif") {
        Ok(WSCardColor::Purple)
    } else {
        Err(ParseFailure::UnrecognizedIcon)
    }
}

/// The card kind a normalized localized token stands for, if recognized.
pub open spec fn category_of(t: Seq<char>) -> Option<WSCardType> {
    if t == "キャラ"@ {
        Option::Some(WSCardType::Character)
    } else if t == "イベント"@ {
        Option::Some(WSCardType::Event)
    } else if t == "クライマックス"@ {
        Option::Some(WSCardType::Climax)
    } else {
        Option::None
    }
}

/// Category classification over the raw cell text: the text is normalized
/// first; an unrecognized token is a hard failure.
pub open spec fn classify_category_spec(text: Seq<char>) -> Result<WSCardType, ParseFailure> {
    match category_of(norm_text(text)) {
        Option::Some(v) => Ok(v),
        Option::None => Err(ParseFailure::UnrecognizedLabel),
    }
}

/// Classifies the card-kind cell by its localized text.
pub fn classify_category(text: &str) -> (r: Result<WSCardType, ParseFailure>)
    ensures
        r == classify_category_spec(text@),
{
    let t = trim_and_replace(text);
    if str_eq(t.as_str(), "キャラ") {
        Ok(WSCardType::Character)
    } else if str_eq(t.as_str(), "イベント") {
        Ok(WSCardType::Event)
    } else if str_eq(t.as_str(), "クライマックス") {
        Ok(WSCardType::Climax)
    } else {
        Err(ParseFailure::UnrecognizedLabel)
    }
}

/// The soul value: the number of icons present, order-independent,
/// truncated like the field it fills.
pub open spec fn count_icons_spec(icons: Seq<Seq<char>>) -> u8 {
    (icons.len() % 256) as u8
}

/// Counts the icons of the soul cell.
pub fn count_icons(icons: &Vec<String>) -> (r: u8)
    ensures
        r == count_icons_spec(icons.deep_view()),
{
    (icons.len() % 256) as u8
}

/// The terminal path segment of an icon source: its stable identifying
/// token.
pub open spec fn last_segment(s: Seq<char>) -> Seq<char> {
    let parts = split_spec(s, '/');
    parts[parts.len() - 1]
}

/// The trigger variant a non-soul token stands for, if recognized.
pub open spec fn trigger_of(token: Seq<char>) -> Option<WSCardTrigger> {
    if token == "stock.gif"@ {
        Option::Some(WSCardTrigger::Pool)
    } else if token == "salvage.gif"@ {
        Option::Some(WSCardTrigger::Comeback)
    } else if token == "bounce.gif"@ {
        Option::Some(WSCardTrigger::Return)
    } else if token == "draw.gif"@ {
        Option::Some(WSCardTrigger::Draw)
    } else if token == "treasure.gif"@ {
        Option::Some(WSCardTrigger::Treasure)
    } else if token == "shot.gif"@ {
        Option::Some(WSCardTrigger::Shot)
    } else if token == "gate.gif"@ {
        Option::Some(WSCardTrigger::Gate)
    } else if token == "standby.gif"@ {
        Option::Some(WSCardTrigger::Standby)
    } else if token == "choice.gif"@ {
        Option::Some(WSCardTrigger::Choice)
    } else {
        Option::None
    }
}

/// Trigger classification over a cell's icon list: an empty list is "no
/// trigger"; otherwise the last icon's token decides, with two icons of the
/// soul kind read as a double soul; an unrecognized token degrades to "no
/// trigger".
pub open spec fn classify_trigger_spec(icons: Seq<Seq<char>>) -> WSCardTrigger {
    if icons.len() == 0 {
        WSCardTrigger::NoTrigger
    } else {
        let token = last_segment(icons.last());
        if token == "soul.gif"@ {
            if icons.len() == 2 && last_segment(icons[0]) == "soul.gif"@ {
                WSCardTrigger::DoubleSoul
            } else {
                WSCardTrigger::Soul
            }
        } else {
            match trigger_of(token) {
                Option::Some(t) => t,
                Option::None => WSCardTrigger::NoTrigger,
            }
        }
    }
}

/// Whether the first icon's token is the soul token.
fn first_is_soul(icons: &Vec<String>) -> (r: bool)
    requires
        icons@.len() >= 1,
    ensures
        r == (last_segment(icons.deep_view()[0]) == "soul.gif"@),
{
    let parts = split_str(icons[0].as_str(), '/');
    proof {
        assert(icons.deep_view()[0] == icons@[0]@);
        assert(parts.deep_view()[parts@.len() - 1] == parts@[parts@.len() - 1]@);
    }
    str_eq(parts[parts.len() - 1].as_str(), "soul.gif")
}

/// Classifies the trigger cell by its icon list.
pub fn classify_trigger(icons: &Vec<String>) -> (r: WSCardTrigger)
    ensures
        r == classify_trigger_spec(icons.deep_view()),
{
    if icons.len() == 0 {
        return WSCardTrigger::NoTrigger;
    }
    let last_src = &icons[icons.len() - 1];
    let parts = split_str(last_src.as_str(), '/');
    proof {
        assert(icons.deep_view().last() == icons@[icons@.len() - 1]@);
        assert(parts.deep_view()[parts@.len() - 1] == parts@[parts@.len() - 1]@);
    }
    let token = parts[parts.len() - 1].as_str();
    if str_eq(token, "soul.gif") {
        if icons.len() == 2 && first_is_soul(icons) {
            WSCardTrigger::DoubleSoul
        } else {
            WSCardTrigger::Soul
        }
    } else if str_eq(token, "stock.gif") {
        WSCardTrigger::Pool
    } else if str_eq(token, "salvage.gif") {
        WSCardTrigger::Comeback
    } else if str_eq(token, "bounce.gif") {
        WSCardTrigger::Return
    } else if str_eq(token, "draw.gif") {
        WSCardTrigger::Draw
    } else if str_eq(token, "treasure.gif") {
        WSCardTrigger::Treasure
    } else if str_eq(token, "shot.gif") {
        WSCardTrigger::Shot
    } else if str_eq(token, "gate.gif") {
        WSCardTrigger::Gate
    } else if str_eq(token, "standby.gif") {
        WSCardTrigger::Standby
    } else if str_eq(token, "choice.gif") {
        WSCardTrigger::Choice
    } else {
        WSCardTrigger::NoTrigger
    }
}

/// Splits the tag cell on the designated separator glyph, keeping empty
/// segments: source fidelity is preserved, callers filter if they choose.
pub fn split_tags(text: &str) -> (r: Vec<String>)
    ensures
        r.deep_view() == split_spec(text@, '・'),
        r@.len() >= 1,
{
    split_str(text, '・')
}

/// Law: an empty icon list is "no trigger"; a single soul token is one soul;
/// two icons of the soul kind are a double soul; on a two-icon list whose
/// first icon is not of the soul kind, only the last icon's token decides
/// the non-count branch, so a final soul token is one soul; an unrecognized
/// final token degrades to "no trigger".
pub proof fn lemma_classify_trigger_law(icons: Seq<Seq<char>>)
    ensures
        icons.len() == 0 ==> classify_trigger_spec(icons) == WSCardTrigger::NoTrigger,
        icons.len() == 1 && last_segment(icons[0]) == "soul.gif"@ ==> classify_trigger_spec(icons)
            == WSCardTrigger::Soul,
        icons.len() == 2 && last_segment(icons[0]) == "soul.gif"@ && last_segment(icons[1])
            == "soul.gif"@ ==> classify_trigger_spec(icons) == WSCardTrigger::DoubleSoul,
        icons.len() == 2 && last_segment(icons[0]) != "soul.gif"@ && last_segment(icons[1])
            == "soul.gif"@ ==> classify_trigger_spec(icons) == WSCardTrigger::Soul,
        icons.len() >= 1 && last_segment(icons.last()) != "soul.gif"@ && trigger_of(
            last_segment(icons.last()),
        ) is None ==> classify_trigger_spec(icons) == WSCardTrigger::NoTrigger,
{
}

} // verus!
