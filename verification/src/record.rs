//! The record schema: one typed catalog entry per detail view, and the
//! failure taxonomy of parsing and crawling.

use vstd::prelude::*;

verus! {

/// The kind of a card, derived from a localized text token.
#[derive(Debug, Clone, Copy, PartialEq, Eq, Structural)]
pub enum WSCardType {
    Character,
    Event,
    Climax,
}

impl Default for WSCardType {
    fn default() -> (r: Self)
        ensures
            r == WSCardType::Character,
    {
        WSCardType::Character
    }
}

/// The side of a card, derived from an icon rather than text.
#[derive(Debug, Clone, Copy, PartialEq, Eq, Structural)]
pub enum WSCardSide {
    Weiss,
    Schwarz,
}

impl Default for WSCardSide {
    fn default() -> (r: Self)
        ensures
            r == WSCardSide::Weiss,
    {
        WSCardSide::Weiss
    }
}

/// The color of a card, derived from an icon.
#[derive(Debug, Clone, Copy, PartialEq, Eq, Structural)]
pub enum WSCardColor {
    Red,
    Blue,
    Green,
    Yellow,
    Purple,
    Colorless,
}

impl Default for WSCardColor {
    fn default() -> (r: Self)
        ensures
            r == WSCardColor::Colorless,
    {
        WSCardColor::Colorless
    }
}

/// The trigger of a card, derived from the last icon of a possibly
/// multi-icon cell; two icons of the soul kind are a double soul. Absence of
/// a trigger is a valid state, not a failure.
#[derive(Debug, Clone, Copy, PartialEq, Eq, Structural)]
pub enum WSCardTrigger {
    NoTrigger,
    Soul,
    DoubleSoul,
    Pool,
    Comeback,
    Return,
    Draw,
    Treasure,
    Shot,
    Gate,
    Choice,
    Standby,
}

impl Default for WSCardTrigger {
    fn default() -> (r: Self)
        ensures
            r == WSCardTrigger::NoTrigger,
    {
        WSCardTrigger::NoTrigger
    }
}

/// Why a parse or a crawl stopped.
///
/// `MalformedNameCell`, `UnrecognizedIcon`, `UnrecognizedLabel` and
/// `MissingImage` come from the parser; `NotFound` and `NavigationFault`
/// report faults of the external navigation driver.
#[derive(Debug, Clone, Copy, PartialEq, Eq, Structural)]
pub enum ParseFailure {
    NotFound,
    MalformedNameCell,
    UnrecognizedIcon,
    UnrecognizedLabel,
    MissingImage,
    NavigationFault,
}

/// One parsed catalog entry. Immutable once constructed; every field holds
/// exactly one value, with documented defaults where a label is absent.
#[derive(Debug, Clone, PartialEq, Eq)]
pub struct Card {
    pub image: String,
    pub card_name: String,
    pub card_name_kana: String,
    pub card_no: String,
    pub product: String,
    pub expansion: String,
    pub expansion_id: String,
    pub rarity: String,
    pub side: WSCardSide,
    pub card_type: WSCardType,
    pub color: WSCardColor,
    pub level: u16,
    pub cost: u16,
    pub power: u16,
    pub soul: u8,
    pub trigger: WSCardTrigger,
    pub special_attribute: Vec<String>,
    pub text: String,
    pub flavor_text: String,
    pub illustrator: String,
}

/// The mathematical model of a [`Card`]: each text field a sequence of
/// characters.
#[verifier::ext_equal]
pub ghost struct SpecCard {
    pub image: Seq<char>,
    pub card_name: Seq<char>,
    pub card_name_kana: Seq<char>,
    pub card_no: Seq<char>,
    pub product: Seq<char>,
    pub expansion: Seq<char>,
    pub expansion_id: Seq<char>,
    pub rarity: Seq<char>,
    pub side: WSCardSide,
    pub card_type: WSCardType,
    pub color: WSCardColor,
    pub level: u16,
    pub cost: u16,
    pub power: u16,
    pub soul: u8,
    pub trigger: WSCardTrigger,
    pub special_attribute: Seq<Seq<char>>,
    pub text: Seq<char>,
    pub flavor_text: Seq<char>,
    pub illustrator: Seq<char>,
}

impl View for Card {
    type V = SpecCard;

    open spec fn view(&self) -> SpecCard {
        SpecCard {
            image: self.image@,
            card_name: self.card_name@,
            card_name_kana: self.card_name_kana@,
            card_no: self.card_no@,
            product: self.product@,
            expansion: self.expansion@,
            expansion_id: self.expansion_id@,
            rarity: self.rarity@,
            side: self.side,
            card_type: self.card_type,
            color: self.color,
            level: self.level,
            cost: self.cost,
            power: self.power,
            soul: self.soul,
            trigger: self.trigger,
            special_attribute: self.special_attribute.deep_view(),
            text: self.text@,
            flavor_text: self.flavor_text@,
            illustrator: self.illustrator@,
        }
    }
}

impl DeepView for Card {
    type V = SpecCard;

    open spec fn deep_view(&self) -> SpecCard {
        self.view()
    }
}

/// The record every parse starts from: empty texts, the documented default
/// for each classified field, 0 for each numeric field.
pub open spec fn default_card() -> SpecCard {
    SpecCard {
        image: Seq::empty(),
        card_name: Seq::empty(),
        card_name_kana: Seq::empty(),
        card_no: Seq::empty(),
        product: Seq::empty(),
        expansion: Seq::empty(),
        expansion_id: Seq::empty(),
        rarity: Seq::empty(),
        side: WSCardSide::Weiss,
        card_type: WSCardType::Character,
        color: WSCardColor::Colorless,
        level: 0,
        cost: 0,
        power: 0,
        soul: 0,
        trigger: WSCardTrigger::NoTrigger,
        special_attribute: Seq::empty(),
        text: Seq::empty(),
        flavor_text: Seq::empty(),
        illustrator: Seq::empty(),
    }
}

impl Default for Card {
    fn default() -> (c: Card)
        ensures
            c@ == default_card(),
    {
        let c = Card {
            image: String::new(),
            card_name: String::new(),
            card_name_kana: String::new(),
            card_no: String::new(),
            product: String::new(),
            expansion: String::new(),
            expansion_id: String::new(),
            rarity: String::new(),
            side: WSCardSide::Weiss,
            card_type: WSCardType::Character,
            color: WSCardColor::Colorless,
            level: 0,
            cost: 0,
            power: 0,
            soul: 0,
            trigger: WSCardTrigger::NoTrigger,
            special_attribute: Vec::new(),
            text: String::new(),
            flavor_text: String::new(),
            illustrator: String::new(),
        };
        proof {
            assert(c.special_attribute.deep_view() =~= Seq::<Seq<char>>::empty());
            assert(c@ =~= default_card());
        }
        c
    }
}

} // verus!
