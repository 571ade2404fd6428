//! The cryptocurrency sources: listings, greed and fear, global figures and fees.
use vstd::prelude::*;

use crate::config::Timer;
use crate::scheduler::{clamped, ScheduleEntry, Source};

verus! {

/// One reading of the greed and fear index.
#[derive(Clone, Debug)]
pub struct GreedFearData {
    pub value: String,
    pub timestamp: String,
}

/// The latest readings of the greed and fear index.
#[derive(Clone, Debug)]
pub struct GreedFear {
    pub data: Vec<GreedFearData>,
}

/// Ethereum gas price and bitcoin fee tiers `(low, middle, high)`.
#[derive(Clone, Copy, Debug)]
pub struct GasFee {
    pub ethereum: u64,
    pub bitcoin: (u64, u64, u64),
}

/// Refresh intervals of the cryptocurrency sources, in ticks.
pub const GREED_FEAR_INTERVAL: u64 = 60;
pub const GAS_FEE_INTERVAL: u64 = 30;

pub open spec fn schedule_of(timer: Timer) -> Seq<ScheduleEntry> {
    seq![
        ScheduleEntry { source: Source::CryptoLatest, interval: clamped(timer.coinmarketcap_latest) },
        ScheduleEntry { source: Source::GreedFear, interval: GREED_FEAR_INTERVAL },
        ScheduleEntry { source: Source::Global, interval: GREED_FEAR_INTERVAL },
        ScheduleEntry { source: Source::EthereumGasFee, interval: GAS_FEE_INTERVAL },
        ScheduleEntry { source: Source::BitcoinGasFee, interval: GAS_FEE_INTERVAL },
    ]
}

/// The schedule of the cryptocurrency sources: listings at the configured
/// interval (at least the minimum), greed and fear and global figures every
/// minute, gas fees every half minute.
pub fn init(timer: &Timer) -> (r: Vec<ScheduleEntry>)
    ensures
        r@ == schedule_of(*timer),
{
    let r = vec![
        ScheduleEntry::new(Source::CryptoLatest, timer.coinmarketcap_latest),
        ScheduleEntry::new(Source::GreedFear, GREED_FEAR_INTERVAL),
        ScheduleEntry::new(Source::Global, GREED_FEAR_INTERVAL),
        ScheduleEntry::new(Source::EthereumGasFee, GAS_FEE_INTERVAL),
        ScheduleEntry::new(Source::BitcoinGasFee, GAS_FEE_INTERVAL),
    ];
    assert(r@ =~= schedule_of(*timer));
    r
}

} // verus!
