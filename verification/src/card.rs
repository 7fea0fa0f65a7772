//! Card identities and the attributes derived from them.
//!
//! A card is a number: the deck it comes from times one hundred, plus its
//! position inside that deck. Rank, suit and score are never stored; they are
//! read off the position.

use vstd::prelude::*;

verus! {

/// Number of positions in one deck: four suits of thirteen, then two jokers.
pub const CARDS_PER_DECK: u8 = 54;

/// Number of decks in play.
pub const DECK_COUNT: u8 = 2;

/// Identity of one physical card.
#[derive(Debug, Clone, Copy, PartialEq, Eq, Structural, Hash)]
pub struct CardId(pub u16);

impl CardId {
    /// The deck a card belongs to, as a mathematical value.
    pub open spec fn spec_deck(self) -> int {
        (self.0 as int / 100) % 256
    }

    /// The position of a card inside its deck, as a mathematical value.
    pub open spec fn spec_base_card(self) -> int {
        self.0 as int % 100
    }

    /// True for the identities of the double deck: deck 1 or 2, position 1 to
    /// 54. The deck is read off the whole number, so that no larger number
    /// passes for a card of the first two decks.
    pub open spec fn is_playing_card(self) -> bool {
        &&& 1 <= self.0 as int / 100 <= DECK_COUNT
        &&& 1 <= self.spec_base_card() <= CARDS_PER_DECK
    }

    /// True when the position names a card, whatever the deck.
    pub open spec fn has_face(self) -> bool {
        1 <= self.spec_base_card() <= CARDS_PER_DECK
    }

    pub fn new(base_card: u8, deck: u8) -> (id: CardId)
        ensures
            id.0 == deck * 100 + base_card,
            base_card < 100 ==> id.spec_deck() == deck && id.spec_base_card() == base_card,
    {
        let wide_deck: u16 = deck as u16;
        let wide_base: u16 = base_card as u16;
        CardId(wide_deck * 100 + wide_base)
    }

    pub fn deck(&self) -> (d: u8)
        ensures
            d == self.spec_deck(),
    {
        ((self.0 / 100) % 256) as u8
    }

    pub fn base_card(&self) -> (b: u8)
        ensures
            b == self.spec_base_card(),
    {
        (self.0 % 100) as u8
    }

    /// Tells whether this identity belongs to the double deck.
    pub fn is_valid(&self) -> (ok: bool)
        ensures
            ok == self.is_playing_card(),
    {
        let decks: u16 = self.0 / 100;
        let b: u8 = self.base_card();
        1 <= decks && decks <= 2 && 1 <= b && b <= CARDS_PER_DECK
    }
}

#[derive(Debug, Clone, Copy, PartialEq, Eq, Structural, Hash)]
pub enum Rank {
    Ace,
    Two,
    Three,
    Four,
    Five,
    Six,
    Seven,
    Eight,
    Nine,
    Ten,
    Jack,
    Queen,
    King,
    Joker,
}

impl Rank {
    /// Ace is 1, the number cards their number, Jack 11, Queen 12, King 13, Joker 14.
    pub open spec fn spec_value(self) -> int {
        match self {
            Rank::Ace => 1,
            Rank::Two => 2,
            Rank::Three => 3,
            Rank::Four => 4,
            Rank::Five => 5,
            Rank::Six => 6,
            Rank::Seven => 7,
            Rank::Eight => 8,
            Rank::Nine => 9,
            Rank::Ten => 10,
            Rank::Jack => 11,
            Rank::Queen => 12,
            Rank::King => 13,
            Rank::Joker => 14,
        }
    }

    /// The rank that sits at a position inside a suit; anything outside 1..=13 is the joker.
    pub open spec fn spec_from_value(v: int) -> Rank {
        if v == 1 {
            Rank::Ace
        } else if v == 2 {
            Rank::Two
        } else if v == 3 {
            Rank::Three
        } else if v == 4 {
            Rank::Four
        } else if v == 5 {
            Rank::Five
        } else if v == 6 {
            Rank::Six
        } else if v == 7 {
            Rank::Seven
        } else if v == 8 {
            Rank::Eight
        } else if v == 9 {
            Rank::Nine
        } else if v == 10 {
            Rank::Ten
        } else if v == 11 {
            Rank::Jack
        } else if v == 12 {
            Rank::Queen
        } else if v == 13 {
            Rank::King
        } else {
            Rank::Joker
        }
    }

    pub fn value(self) -> (v: u8)
        ensures
            v == self.spec_value(),
            1 <= v <= 14,
    {
        match self {
            Rank::Ace => 1,
            Rank::Two => 2,
            Rank::Three => 3,
            Rank::Four => 4,
            Rank::Five => 5,
            Rank::Six => 6,
            Rank::Seven => 7,
            Rank::Eight => 8,
            Rank::Nine => 9,
            Rank::Ten => 10,
            Rank::Jack => 11,
            Rank::Queen => 12,
            Rank::King => 13,
            Rank::Joker => 14,
        }
    }

    pub fn from_value(v: u8) -> (r: Rank)
        ensures
            r == Rank::spec_from_value(v as int),
            1 <= v <= 14 ==> r.spec_value() == v,
    {
        match v {
            1 => Rank::Ace,
            2 => Rank::Two,
            3 => Rank::Three,
            4 => Rank::Four,
            5 => Rank::Five,
            6 => Rank::Six,
            7 => Rank::Seven,
            8 => Rank::Eight,
            9 => Rank::Nine,
            10 => Rank::Ten,
            11 => Rank::Jack,
            12 => Rank::Queen,
            13 => Rank::King,
            _ => Rank::Joker,
        }
    }
}

#[derive(Debug, Clone, Copy, PartialEq, Eq, Structural, Hash)]
pub enum Suit {
    Hearts,
    Diamonds,
    Clubs,
    Spades,
    /// The suit of a joker.
    NoSuit,
}

/// What a player sees of a card.
#[derive(Debug, Clone, Copy, PartialEq, Eq, Structural)]
pub struct CardView {
    pub id: CardId,
    pub rank: Rank,
    pub suit: Suit,
    pub score_value: u32,
}

/// Rank of a card: positions 1 to 52 run Ace to King through each suit in
/// turn, positions 53 and 54 are the jokers.
pub open spec fn rank_of(id: CardId) -> Rank {
    let base = id.spec_base_card();
    if base > 52 {
        Rank::Joker
    } else {
        Rank::spec_from_value((base - 1) % 13 + 1)
    }
}

/// Suit of a card: thirteen positions each of Hearts, Diamonds, Clubs and
/// Spades, then the jokers, which have none.
pub open spec fn suit_of(id: CardId) -> Suit {
    let base = id.spec_base_card();
    if base <= 13 {
        Suit::Hearts
    } else if base <= 26 {
        Suit::Diamonds
    } else if base <= 39 {
        Suit::Clubs
    } else if base <= 52 {
        Suit::Spades
    } else {
        Suit::NoSuit
    }
}

/// Penalty points of a rank: 20 for an Ace or a Two, 50 for a Joker, 10 for
/// Ten to King, the face number for Three to Nine.
pub open spec fn score_of_rank(rank: Rank) -> int {
    match rank {
        Rank::Ace | Rank::Two => 20,
        Rank::Joker => 50,
        Rank::Ten | Rank::Jack | Rank::Queen | Rank::King => 10,
        _ => rank.spec_value(),
    }
}

/// Penalty points of a card.
pub open spec fn score_of(id: CardId) -> int {
    score_of_rank(rank_of(id))
}

/// The view of a card: its identity with rank, suit and score filled in.
pub open spec fn view_of(id: CardId) -> CardView {
    CardView { id, rank: rank_of(id), suit: suit_of(id), score_value: score_of(id) as u32 }
}

pub fn card_id_to_rank(id: CardId) -> (rank: Rank)
    requires
        id.has_face(),
    ensures
        rank == rank_of(id),
{
    let base: u8 = id.base_card();
    if base > 52 {
        Rank::Joker
    } else {
        Rank::from_value((base - 1) % 13 + 1)
    }
}

pub fn card_id_to_suit(id: CardId) -> (suit: Suit)
    requires
        id.has_face(),
    ensures
        suit == suit_of(id),
{
    let base: u8 = id.base_card();
    if base <= 13 {
        Suit::Hearts
    } else if base <= 26 {
        Suit::Diamonds
    } else if base <= 39 {
        Suit::Clubs
    } else if base <= 52 {
        Suit::Spades
    } else {
        Suit::NoSuit
    }
}

pub fn card_id_to_score(id: CardId) -> (score: u32)
    requires
        id.has_face(),
    ensures
        score == score_of(id),
{
    let rank = card_id_to_rank(id);
    match rank {
        Rank::Ace | Rank::Two => 20,
        Rank::Joker => 50,
        Rank::Ten | Rank::Jack | Rank::Queen | Rank::King => 10,
        _ => rank.value() as u32,
    }
}

pub fn card_id_to_view(id: CardId) -> (view: CardView)
    requires
        id.has_face(),
    ensures
        view == view_of(id),
{
    CardView {
        id,
        rank: card_id_to_rank(id),
        suit: card_id_to_suit(id),
        score_value: card_id_to_score(id),
    }
}

} // verus!
