use vstd::prelude::*;

use super::decisions::{decision_check, TradeAction, TradeDecision};
use super::error::DomainError;
use super::evidence::then_check;
use super::instrument::{valid_symbol, Instrument};
use crate::dec::{units, Dec};
use crate::ids::PositionId;
use crate::timestamp::{ts_le, Timestamp};

verus! {

#[derive(Debug, PartialEq, Eq)]
pub enum PositionState {
    Flat { instrument: Instrument, updated_at: Timestamp },
    Open {
        position_id: PositionId,
        instrument: Instrument,
        quantity: Dec,
        average_entry_price: Dec,
        opened_at: Timestamp,
        updated_at: Timestamp,
    },
}

/// All the checks of a position, in order.
pub open spec fn position_check(p: PositionState) -> Result<(), DomainError> {
    if !valid_symbol(p.spec_instrument()@) {
        Err(DomainError::InvalidInstrument)
    } else {
        match p {
            PositionState::Flat { .. } => Ok(()),
            PositionState::Open { quantity, average_entry_price, opened_at, updated_at, .. } => {
                if units(quantity@) <= 0 {
                    Err(DomainError::InvalidQuantity)
                } else if units(average_entry_price@) <= 0 {
                    Err(DomainError::InvalidPrice)
                } else if !ts_le(opened_at, updated_at) {
                    Err(DomainError::InvalidTimestampOrder)
                } else {
                    Ok(())
                }
            },
        }
    }
}

impl PositionState {
    pub open spec fn spec_instrument(&self) -> Instrument {
        match self {
            PositionState::Flat { instrument, .. } => *instrument,
            PositionState::Open { instrument, .. } => *instrument,
        }
    }

    pub open spec fn spec_is_open(&self) -> bool {
        self is Open
    }

    /// The quantity held, zero when flat.
    pub open spec fn spec_quantity(&self) -> Option<Dec> {
        match self {
            PositionState::Open { quantity, .. } => Some(*quantity),
            PositionState::Flat { .. } => None,
        }
    }

    pub fn flat(instrument: Instrument, updated_at: Timestamp) -> (p: PositionState)
        ensures
            p == (PositionState::Flat { instrument, updated_at }),
    {
        PositionState::Flat { instrument, updated_at }
    }

    pub fn open(
        position_id: PositionId,
        instrument: Instrument,
        quantity: Dec,
        average_entry_price: Dec,
        opened_at: Timestamp,
        updated_at: Timestamp,
    ) -> (r: Result<PositionState, DomainError>)
        ensures
            r is Ok <==> position_check(
                PositionState::Open { position_id, instrument, quantity, average_entry_price, opened_at, updated_at },
            ) is Ok,
            r matches Ok(p) ==> p == (PositionState::Open {
                position_id,
                instrument,
                quantity,
                average_entry_price,
                opened_at,
                updated_at,
            }),
            r matches Err(e) ==> Err::<(), DomainError>(e) == position_check(
                PositionState::Open { position_id, instrument, quantity, average_entry_price, opened_at, updated_at },
            ),
    {
        let position = PositionState::Open {
            position_id,
            instrument,
            quantity,
            average_entry_price,
            opened_at,
            updated_at,
        };
        match position.validate() {
            Ok(()) => Ok(position),
            Err(e) => Err(e),
        }
    }

    pub fn instrument(&self) -> (i: &Instrument)
        ensures
            *i == self.spec_instrument(),
    {
        match self {
            PositionState::Flat { instrument, .. } => instrument,
            PositionState::Open { instrument, .. } => instrument,
        }
    }

    pub fn is_open(&self) -> (b: bool)
        ensures
            b == self.spec_is_open(),
    {
        matches!(self, PositionState::Open { .. })
    }

    /// The quantity held by an open position.
    pub fn quantity(&self) -> (q: Option<Dec>)
        ensures
            q == self.spec_quantity(),
    {
        match self {
            PositionState::Open { quantity, .. } => Some(*quantity),
            PositionState::Flat { .. } => None,
        }
    }

    pub fn validate(&self) -> (r: Result<(), DomainError>)
        ensures
            r == position_check(*self),
    {
        self.instrument().validate()?;
        if let PositionState::Open { quantity, average_entry_price, opened_at, updated_at, .. } = self {
            if !quantity.is_positive() {
                return Err(DomainError::InvalidQuantity);
            }
            if !average_entry_price.is_positive() {
                return Err(DomainError::InvalidPrice);
            }
            if updated_at.lt(opened_at) {
                return Err(DomainError::InvalidTimestampOrder);
            }
        }
        Ok(())
    }

    pub fn validate_decision(&self, decision: &TradeDecision) -> (r: Result<(), DomainError>)
        ensures
            r == then_check(
                position_check(*self),
                then_check(
                    decision_check(*decision),
                    if decision.instrument@ != self.spec_instrument()@ {
                        Err(DomainError::InstrumentMismatch)
                    } else if decision.action == TradeAction::Sell && !self.spec_is_open() {
                        Err(DomainError::SellWithoutInventory)
                    } else {
                        Ok(())
                    },
                ),
            ),
    {
        self.validate()?;
        decision.validate()?;
        if !decision.instrument.same_as(self.instrument()) {
            return Err(DomainError::InstrumentMismatch);
        }
        if decision.action == TradeAction::Sell && !self.is_open() {
            return Err(DomainError::SellWithoutInventory);
        }
        Ok(())
    }
}

} // verus!
