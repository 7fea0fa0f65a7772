//! The contract of a hand: how many groups and runs a player must lay down.

use crate::card::CardView;
use crate::meld::{group_valid, run_valid, standard_variant, CardContainer};
use vstd::prelude::*;

verus! {

/// The contract of each of the seven hands of a game; `G` stands for a group,
/// `R` for a run.
#[derive(Debug, Clone, Copy, PartialEq, Eq, Structural)]
pub enum ContractOrder {
    GG,
    GR,
    RR,
    GGG,
    GGR,
    GRR,
    RRR,
}

/// The contract of a hand, by the hand's number from 1 to 7.
pub open spec fn contract_of_hand(hand_number: int) -> ContractOrder {
    if hand_number == 1 {
        ContractOrder::GG
    } else if hand_number == 2 {
        ContractOrder::GR
    } else if hand_number == 3 {
        ContractOrder::RR
    } else if hand_number == 4 {
        ContractOrder::GGG
    } else if hand_number == 5 {
        ContractOrder::GGR
    } else if hand_number == 6 {
        ContractOrder::GRR
    } else {
        ContractOrder::RRR
    }
}

impl ContractOrder {
    /// The number of the hand that carries this contract.
    pub open spec fn hand_number(self) -> int {
        match self {
            ContractOrder::GG => 1,
            ContractOrder::GR => 2,
            ContractOrder::RR => 3,
            ContractOrder::GGG => 4,
            ContractOrder::GGR => 5,
            ContractOrder::GRR => 6,
            ContractOrder::RRR => 7,
        }
    }

    /// Cards dealt to each player: ten in the first four hands, twelve after.
    pub open spec fn spec_hand_size(self) -> int {
        if self.hand_number() <= 4 {
            10
        } else {
            12
        }
    }

    /// Groups that the contract asks for.
    pub open spec fn spec_required_groups(self) -> int {
        match self {
            ContractOrder::GG => 2,
            ContractOrder::GR => 1,
            ContractOrder::RR => 0,
            ContractOrder::GGG => 3,
            ContractOrder::GGR => 2,
            ContractOrder::GRR => 1,
            ContractOrder::RRR => 0,
        }
    }

    /// Runs that the contract asks for.
    pub open spec fn spec_required_runs(self) -> int {
        match self {
            ContractOrder::GG => 0,
            ContractOrder::GR => 1,
            ContractOrder::RR => 2,
            ContractOrder::GGG => 0,
            ContractOrder::GGR => 1,
            ContractOrder::GRR => 2,
            ContractOrder::RRR => 3,
        }
    }

    pub fn from_hand_number(hand_number: usize) -> (contract: ContractOrder)
        requires
            1 <= hand_number <= 7,
        ensures
            contract == contract_of_hand(hand_number as int),
            contract.hand_number() == hand_number,
    {
        if hand_number == 1 {
            ContractOrder::GG
        } else if hand_number == 2 {
            ContractOrder::GR
        } else if hand_number == 3 {
            ContractOrder::RR
        } else if hand_number == 4 {
            ContractOrder::GGG
        } else if hand_number == 5 {
            ContractOrder::GGR
        } else if hand_number == 6 {
            ContractOrder::GRR
        } else {
            ContractOrder::RRR
        }
    }

    pub fn hand_size(&self) -> (size: usize)
        ensures
            size == self.spec_hand_size(),
    {
        match self {
            ContractOrder::GG | ContractOrder::GR | ContractOrder::RR | ContractOrder::GGG => 10,
            ContractOrder::GGR | ContractOrder::GRR | ContractOrder::RRR => 12,
        }
    }

    pub fn required_groups(&self) -> (count: usize)
        ensures
            count == self.spec_required_groups(),
    {
        match self {
            ContractOrder::GG => 2,
            ContractOrder::GR => 1,
            ContractOrder::RR => 0,
            ContractOrder::GGG => 3,
            ContractOrder::GGR => 2,
            ContractOrder::GRR => 1,
            ContractOrder::RRR => 0,
        }
    }

    pub fn required_runs(&self) -> (count: usize)
        ensures
            count == self.spec_required_runs(),
    {
        match self {
            ContractOrder::GG => 0,
            ContractOrder::GR => 1,
            ContractOrder::RR => 2,
            ContractOrder::GGG => 0,
            ContractOrder::GGR => 1,
            ContractOrder::GRR => 2,
            ContractOrder::RRR => 3,
        }
    }
}

/// The melds that a player offers to meet a contract.
#[derive(Debug, Clone, PartialEq)]
pub struct ContractBid {
    pub groups: Vec<CardContainer>,
    pub runs: Vec<CardContainer>,
}

/// The cards of each container of a list.
pub open spec fn contents(containers: Seq<CardContainer>) -> Seq<Seq<CardView>> {
    containers.map_values(|container: CardContainer| container@)
}

/// A bid meets a contract when it offers as many groups and as many runs as
/// the contract asks for, each of them a meld of its kind.
pub open spec fn bid_meets(
    groups: Seq<Seq<CardView>>,
    runs: Seq<Seq<CardView>>,
    contract: ContractOrder,
) -> bool {
    &&& groups.len() == contract.spec_required_groups()
    &&& runs.len() == contract.spec_required_runs()
    &&& forall|i: int| 0 <= i < groups.len() ==> group_valid(#[trigger] groups[i], standard_variant())
    &&& forall|i: int| 0 <= i < runs.len() ==> run_valid(#[trigger] runs[i], standard_variant())
}

impl ContractBid {
    pub fn new(groups: Vec<CardContainer>, runs: Vec<CardContainer>) -> (bid: ContractBid)
        ensures
            bid.groups == groups,
            bid.runs == runs,
    {
        ContractBid { groups, runs }
    }

    /// Tells whether this bid meets the contract.
    pub fn validate(&self, contract: &ContractOrder) -> (ok: bool)
        ensures
            ok == bid_meets(contents(self.groups@), contents(self.runs@), *contract),
    {
        if self.groups.len() != contract.required_groups() || self.runs.len()
            != contract.required_runs() {
            return false;
        }
        let mut i: usize = 0;
        while i < self.groups.len()
            invariant
                i <= self.groups@.len(),
                forall|k: int|
                    0 <= k < i ==> group_valid(
                        #[trigger] contents(self.groups@)[k],
                        standard_variant(),
                    ),
            decreases self.groups@.len() - i,
        {
            if !self.groups[i].is_valid_group() {
                proof {
                    assert(contents(self.groups@)[i as int] == self.groups@[i as int]@);
                }
                return false;
            }
            i += 1;
        }
        let mut j: usize = 0;
        while j < self.runs.len()
            invariant
                j <= self.runs@.len(),
                forall|k: int|
                    0 <= k < j ==> run_valid(#[trigger] contents(self.runs@)[k], standard_variant()),
            decreases self.runs@.len() - j,
        {
            if !self.runs[j].is_valid_run() {
                proof {
                    assert(contents(self.runs@)[j as int] == self.runs@[j as int]@);
                }
                return false;
            }
            j += 1;
        }
        true
    }
}

} // verus!
