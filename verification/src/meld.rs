//! Groups and runs: what a set of cards must look like to count as a meld.
//!
//! A meld is judged by the ranks and suits that its cards show. Which ranks
//! are wild, and whether an ace may close a run after the king, is a choice of
//! the game variant; the joker is wild in every variant.

use crate::card::{CardView, Rank};
use vstd::prelude::*;

verus! {

/// Fewest cards in a group.
pub const MIN_GROUP_SIZE: usize = 3;

/// Fewest cards in a run.
pub const MIN_RUN_SIZE: usize = 4;

/// Most cards in a run: one for each rank of a suit.
pub const MAX_RUN_SIZE: usize = 13;

/// The choices of a game variant, as the meld rules read them.
pub struct Variant {
    /// The wild ranks.
    pub wild: Set<Rank>,
    /// Whether a run may count its ace after the king instead of before the two.
    pub ace_high: bool,
}

/// The usual variant: only the joker is wild, and the ace is low.
pub open spec fn standard_variant() -> Variant {
    Variant { wild: set![Rank::Joker], ace_high: false }
}

/// The choices of a game variant.
#[derive(Debug, Clone, PartialEq, Eq)]
pub struct MeldRules {
    /// Ranks that are wild besides the joker.
    pub wild_ranks: Vec<Rank>,
    /// Whether a run may count its ace after the king instead of before the two.
    pub ace_high: bool,
}

impl View for MeldRules {
    type V = Variant;

    open spec fn view(&self) -> Variant {
        Variant {
            wild: Set::new(|rank: Rank| rank == Rank::Joker || self.wild_ranks@.contains(rank)),
            ace_high: self.ace_high,
        }
    }
}

impl MeldRules {
    /// The usual variant: only the joker is wild, and the ace is low.
    pub fn standard() -> (rules: MeldRules)
        ensures
            rules@ == standard_variant(),
    {
        let rules = MeldRules { wild_ranks: Vec::new(), ace_high: false };
        proof {
            assert(rules@.wild =~= standard_variant().wild);
        }
        rules
    }

    /// Tells whether a rank is wild.
    pub fn is_wild(&self, rank: Rank) -> (wild: bool)
        ensures
            wild == self@.wild.contains(rank),
    {
        if rank == Rank::Joker {
            return true;
        }
        let mut i: usize = 0;
        while i < self.wild_ranks.len()
            invariant
                i <= self.wild_ranks@.len(),
                forall|j: int| 0 <= j < i ==> self.wild_ranks@[j] != rank,
            decreases self.wild_ranks@.len() - i,
        {
            if self.wild_ranks[i] == rank {
                return true;
            }
            i += 1;
        }
        false
    }
}

/// True when a card stands for itself under the variant.
pub open spec fn is_natural(card: CardView, variant: Variant) -> bool {
    !variant.wild.contains(card.rank)
}

/// A group has at least three cards; its natural cards all show one rank and
/// no two of them the same suit. Wild cards take the places that are left.
pub open spec fn group_valid(cards: Seq<CardView>, variant: Variant) -> bool {
    &&& cards.len() >= MIN_GROUP_SIZE
    &&& forall|i: int, j: int|
        0 <= i < j < cards.len() && is_natural(#[trigger] cards[i], variant) && is_natural(
            #[trigger] cards[j],
            variant,
        ) ==> cards[i].rank == cards[j].rank && cards[i].suit != cards[j].suit
}

/// The place of a card in the order of a run: its rank's number, with the ace
/// after the king where the run counts it high.
pub open spec fn run_slot(card: CardView, high: bool) -> int {
    if high && card.rank == Rank::Ace {
        14
    } else {
        card.rank.spec_value()
    }
}

/// The lowest place that a run may use: the ace's when it is low, the two's
/// when the ace is counted high.
pub open spec fn lowest_slot(high: bool) -> int {
    if high {
        2
    } else {
        1
    }
}

/// The highest place that a run may use.
pub open spec fn highest_slot(high: bool) -> int {
    lowest_slot(high) + MAX_RUN_SIZE - 1
}

/// True when the cards can be laid on consecutive places starting at
/// `start`, one card to a place: every natural card on the place of its rank,
/// the wild cards on the places that are left, nothing below the lowest place
/// or above the highest.
pub open spec fn run_laid_from(cards: Seq<CardView>, variant: Variant, high: bool, start: int) -> bool {
    &&& lowest_slot(high) <= start
    &&& start + cards.len() - 1 <= highest_slot(high)
    &&& forall|i: int|
        0 <= i < cards.len() && is_natural(#[trigger] cards[i], variant) ==> start <= run_slot(
            cards[i],
            high,
        ) < start + cards.len()
    &&& forall|i: int, j: int|
        0 <= i < j < cards.len() && is_natural(#[trigger] cards[i], variant) && is_natural(
            #[trigger] cards[j],
            variant,
        ) ==> run_slot(cards[i], high) != run_slot(cards[j], high)
}

/// True when the cards can be laid as a run with the ace counted low
/// (`high` false) or high (`high` true).
pub open spec fn run_laid(cards: Seq<CardView>, variant: Variant, high: bool) -> bool {
    exists|start: int| run_laid_from(cards, variant, high, start)
}

/// True when all natural cards show one suit.
pub open spec fn one_suit(cards: Seq<CardView>, variant: Variant) -> bool {
    forall|i: int, j: int|
        0 <= i < j < cards.len() && is_natural(#[trigger] cards[i], variant) && is_natural(
            #[trigger] cards[j],
            variant,
        ) ==> cards[i].suit == cards[j].suit
}

/// A run has at least four cards; its natural cards all show one suit, and the
/// cards can be laid on consecutive ranks without going round from king to
/// ace. The ace is low, or, where the variant allows it, high; never both in
/// one run.
pub open spec fn run_valid(cards: Seq<CardView>, variant: Variant) -> bool {
    &&& cards.len() >= MIN_RUN_SIZE
    &&& one_suit(cards, variant)
    &&& (run_laid(cards, variant, false) || (variant.ace_high && run_laid(cards, variant, true)))
}

/// The two kinds of meld.
#[derive(Debug, Clone, Copy, PartialEq, Eq, Structural)]
pub enum SetType {
    /// Same rank, different suits.
    Group,
    /// Consecutive ranks, same suit.
    Run,
}

impl SetType {
    /// Fewest cards in a meld of this kind.
    pub open spec fn spec_min_size(self) -> int {
        match self {
            SetType::Group => 3,
            SetType::Run => 4,
        }
    }

    pub fn min_size(&self) -> (n: usize)
        ensures
            n == self.spec_min_size(),
    {
        match self {
            SetType::Group => MIN_GROUP_SIZE,
            SetType::Run => MIN_RUN_SIZE,
        }
    }

    /// True when the cards form a meld of this kind under the variant.
    pub open spec fn accepts(self, cards: Seq<CardView>, variant: Variant) -> bool {
        match self {
            SetType::Group => group_valid(cards, variant),
            SetType::Run => run_valid(cards, variant),
        }
    }

    /// Tells whether a container forms a meld of this kind under the usual variant.
    pub fn validate(&self, container: &CardContainer) -> (ok: bool)
        ensures
            ok == self.accepts(container@, standard_variant()),
    {
        match self {
            SetType::Group => container.is_valid_group(),
            SetType::Run => container.is_valid_run(),
        }
    }

    /// Tells whether a container forms a meld of this kind under a variant.
    pub fn validate_with(&self, container: &CardContainer, rules: &MeldRules) -> (ok: bool)
        ensures
            ok == self.accepts(container@, rules@),
    {
        match self {
            SetType::Group => container.is_valid_group_with(rules),
            SetType::Run => container.is_valid_run_with(rules),
        }
    }
}

/// The cards of a container as a player sees them.
#[derive(Debug, Clone, PartialEq)]
pub struct CardContainer {
    pub cards: Vec<CardView>,
}

impl View for CardContainer {
    type V = Seq<CardView>;

    open spec fn view(&self) -> Seq<CardView> {
        self.cards@
    }
}

/// The extent of the natural cards of a run: how many there are, and the
/// lowest and the highest place among them.
struct Extent {
    naturals: usize,
    lowest: u8,
    highest: u8,
}

impl CardContainer {
    /// Tells whether the cards form a group under the usual variant.
    pub fn is_valid_group(&self) -> (ok: bool)
        ensures
            ok == group_valid(self@, standard_variant()),
    {
        let rules = MeldRules::standard();
        self.is_valid_group_with(&rules)
    }

    /// Tells whether the cards form a run under the usual variant.
    pub fn is_valid_run(&self) -> (ok: bool)
        ensures
            ok == run_valid(self@, standard_variant()),
    {
        let rules = MeldRules::standard();
        self.is_valid_run_with(&rules)
    }

    /// Tells whether the cards form a group under a variant.
    pub fn is_valid_group_with(&self, rules: &MeldRules) -> (ok: bool)
        ensures
            ok == group_valid(self@, rules@),
    {
        let total: usize = self.cards.len();
        if total < MIN_GROUP_SIZE {
            return false;
        }
        let mut i: usize = 0;
        while i < total
            invariant
                i <= total,
                total == self.cards@.len(),
                forall|a: int, b: int|
                    0 <= a < i && a < b < total && is_natural(#[trigger] self.cards@[a], rules@)
                        && is_natural(#[trigger] self.cards@[b], rules@) ==> self.cards@[a].rank
                        == self.cards@[b].rank && self.cards@[a].suit != self.cards@[b].suit,
            decreases total - i,
        {
            let first: CardView = self.cards[i];
            if !rules.is_wild(first.rank) {
                let mut j: usize = i + 1;
                while j < total
                    invariant
                        i < j <= total,
                        total == self.cards@.len(),
                        first == self.cards@[i as int],
                        is_natural(first, rules@),
                        forall|b: int|
                            i < b < j && is_natural(#[trigger] self.cards@[b], rules@) ==> first.rank
                                == self.cards@[b].rank && first.suit != self.cards@[b].suit,
                    decreases total - j,
                {
                    let second: CardView = self.cards[j];
                    if !rules.is_wild(second.rank) {
                        if !(first.rank == second.rank) || first.suit == second.suit {
                            return false;
                        }
                    }
                    j += 1;
                }
            }
            i += 1;
        }
        true
    }

    /// Tells whether the natural cards all show one suit and no rank twice.
    fn suits_and_ranks_agree(&self, rules: &MeldRules) -> (ok: bool)
        ensures
            ok == (one_suit(self@, rules@) && forall|a: int, b: int|
                0 <= a < b < self@.len() && is_natural(#[trigger] self@[a], rules@) && is_natural(
                    #[trigger] self@[b],
                    rules@,
                ) ==> self@[a].rank != self@[b].rank),
    {
        let total: usize = self.cards.len();
        let mut i: usize = 0;
        while i < total
            invariant
                i <= total,
                total == self.cards@.len(),
                forall|a: int, b: int|
                    0 <= a < i && a < b < total && is_natural(#[trigger] self.cards@[a], rules@)
                        && is_natural(#[trigger] self.cards@[b], rules@) ==> self.cards@[a].suit
                        == self.cards@[b].suit && self.cards@[a].rank != self.cards@[b].rank,
            decreases total - i,
        {
            let first: CardView = self.cards[i];
            if !rules.is_wild(first.rank) {
                let mut j: usize = i + 1;
                while j < total
                    invariant
                        i < j <= total,
                        total == self.cards@.len(),
                        first == self.cards@[i as int],
                        is_natural(first, rules@),
                        forall|b: int|
                            i < b < j && is_natural(#[trigger] self.cards@[b], rules@) ==> first.suit
                                == self.cards@[b].suit && first.rank != self.cards@[b].rank,
                    decreases total - j,
                {
                    let second: CardView = self.cards[j];
                    if !rules.is_wild(second.rank) {
                        if !(first.suit == second.suit) || first.rank == second.rank {
                            return false;
                        }
                    }
                    j += 1;
                }
            }
            i += 1;
        }
        true
    }

    /// Measures the natural cards: their number and the lowest and highest
    /// place among them, with the ace counted low or high.
    fn extent(&self, rules: &MeldRules, high: bool) -> (found: Extent)
        ensures
            found.naturals <= self@.len(),
            found.naturals == 0 <==> forall|i: int|
                0 <= i < self@.len() ==> !is_natural(#[trigger] self@[i], rules@),
            forall|i: int|
                0 <= i < self@.len() && is_natural(#[trigger] self@[i], rules@) ==> found.lowest
                    <= run_slot(self@[i], high) <= found.highest,
            found.naturals > 0 ==> exists|i: int|
                0 <= i < self@.len() && is_natural(#[trigger] self@[i], rules@) && run_slot(
                    self@[i],
                    high,
                ) == found.lowest,
            found.naturals > 0 ==> exists|i: int|
                0 <= i < self@.len() && is_natural(#[trigger] self@[i], rules@) && run_slot(
                    self@[i],
                    high,
                ) == found.highest,
            found.naturals > 0 ==> lowest_slot(high) <= found.lowest <= found.highest
                <= highest_slot(high),
    {
        let total: usize = self.cards.len();
        let mut naturals: usize = 0;
        let mut lowest: u8 = 14;
        let mut highest: u8 = 1;
        let ghost mut at_lowest: int = 0;
        let ghost mut at_highest: int = 0;
        let mut i: usize = 0;
        while i < total
            invariant
                i <= total,
                total == self.cards@.len(),
                naturals <= i,
                naturals == 0 <==> forall|k: int|
                    0 <= k < i ==> !is_natural(#[trigger] self.cards@[k], rules@),
                forall|k: int|
                    0 <= k < i && is_natural(#[trigger] self.cards@[k], rules@) ==> lowest
                        <= run_slot(self.cards@[k], high) <= highest,
                naturals > 0 ==> 0 <= at_lowest < i && is_natural(self.cards@[at_lowest], rules@)
                    && run_slot(self.cards@[at_lowest], high) == lowest,
                naturals > 0 ==> 0 <= at_highest < i && is_natural(self.cards@[at_highest], rules@)
                    && run_slot(self.cards@[at_highest], high) == highest,
                naturals > 0 ==> lowest_slot(high) <= lowest <= highest <= highest_slot(high),
                naturals == 0 ==> lowest == 14 && highest == 1,
            decreases total - i,
        {
            let card: CardView = self.cards[i];
            if !rules.is_wild(card.rank) {
                let slot: u8 = if high && card.rank == Rank::Ace {
                    14
                } else {
                    card.rank.value()
                };
                if naturals == 0 || slot < lowest {
                    lowest = slot;
                    proof {
                        at_lowest = i as int;
                    }
                }
                if naturals == 0 || slot > highest {
                    highest = slot;
                    proof {
                        at_highest = i as int;
                    }
                }
                naturals += 1;
            }
            i += 1;
        }
        Extent { naturals, lowest, highest }
    }

    /// Tells whether the cards, already known to show no rank twice among the
    /// natural ones, can be laid on consecutive places with the ace counted low
    /// or high.
    fn laid(&self, rules: &MeldRules, high: bool) -> (ok: bool)
        requires
            forall|a: int, b: int|
                0 <= a < b < self@.len() && is_natural(#[trigger] self@[a], rules@) && is_natural(
                    #[trigger] self@[b],
                    rules@,
                ) ==> self@[a].rank != self@[b].rank,
        ensures
            ok == run_laid(self@, rules@, high),
    {
        let total: usize = self.cards.len();
        let found = self.extent(rules, high);
        if total > MAX_RUN_SIZE {
            return false;
        }
        if found.naturals == 0 {
            proof {
                assert(run_laid_from(self@, rules@, high, lowest_slot(high)));
            }
            return true;
        }
        let span: usize = (found.highest - found.lowest) as usize + 1;
        if span <= total {
            proof {
                let from_top = found.highest as int - total as int + 1;
                let start = if from_top < lowest_slot(high) {
                    lowest_slot(high)
                } else {
                    from_top
                };
                assert(run_laid_from(self@, rules@, high, start));
            }
            true
        } else {
            false
        }
    }

    /// Tells whether the cards form a run under a variant.
    pub fn is_valid_run_with(&self, rules: &MeldRules) -> (ok: bool)
        ensures
            ok == run_valid(self@, rules@),
    {
        if self.cards.len() < MIN_RUN_SIZE {
            return false;
        }
        if !self.suits_and_ranks_agree(rules) {
            return false;
        }
        if self.laid(rules, false) {
            return true;
        }
        rules.ace_high && self.laid(rules, true)
    }
}

} // verus!
