//! Notifications recorded by the engine.  The host would publish these
//! fire-and-forget; here each successful operation appends one to a log so
//! that contracts can state exactly what was announced.

use vstd::prelude::*;
use crate::account::AccountId;

verus! {

/// A token was minted and bound to a chip.
#[derive(Debug, Copy, Clone, PartialEq, Eq, Structural)]
pub struct Mint {
    pub token_id: u32,
}

/// A minted token received its first owner.
#[derive(Debug)]
pub struct Claim {
    pub claimant: AccountId,
    pub token_id: u32,
}

/// A claimed token moved between owners.
#[derive(Debug)]
pub struct Transfer {
    pub from: AccountId,
    pub to: AccountId,
    pub token_id: u32,
}

/// A claimed token was quarantined away from its owner.
#[derive(Debug)]
pub struct Clawback {
    pub from: AccountId,
    pub token_id: u32,
}

/// One recorded notification.
#[derive(Debug)]
pub enum Event {
    Mint(Mint),
    Claim(Claim),
    Transfer(Transfer),
    Clawback(Clawback),
}

/// The mathematical form of a notification.
pub enum EventModel {
    Mint { token_id: u32 },
    Claim { claimant: Seq<u8>, token_id: u32 },
    Transfer { from: Seq<u8>, to: Seq<u8>, token_id: u32 },
    Clawback { from: Seq<u8>, token_id: u32 },
}

impl View for Event {
    type V = EventModel;

    open spec fn view(&self) -> EventModel {
        match self {
            Event::Mint(e) => EventModel::Mint { token_id: e.token_id },
            Event::Claim(e) => EventModel::Claim { claimant: e.claimant@, token_id: e.token_id },
            Event::Transfer(e) => EventModel::Transfer {
                from: e.from@,
                to: e.to@,
                token_id: e.token_id,
            },
            Event::Clawback(e) => EventModel::Clawback { from: e.from@, token_id: e.token_id },
        }
    }
}

/// The mathematical form of a notification log.
pub open spec fn events_view(s: Seq<Event>) -> Seq<EventModel> {
    s.map_values(|e: Event| e@)
}

} // verus!
