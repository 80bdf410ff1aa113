use vstd::prelude::*;

verus! {

/// Pool statistics returned by `get_pool_stats`.
#[derive(Clone, Copy, Debug, PartialEq, Eq, Structural)]
pub struct PoolStats {
    pub total_liquidity: i128,
    pub locked_liquidity: i128,
    pub available_liquidity: i128,
    pub total_shares: i128,
    /// Share price expressed in basis points (10000 = $1.00).
    pub share_price: i128,
}

/// Share of each fee that goes to liquidity providers (85%), in basis points.
pub const LP_FEE_BPS: i128 = 8500;

/// Share of each fee that goes to the protocol treasury (10%).
pub const PROTOCOL_FEE_BPS: i128 = 1000;

/// Share of each fee that goes to the merchant incentive fund (5%).
pub const MERCHANT_FEE_BPS: i128 = 500;

/// One whole, in basis points.
pub const TOTAL_BPS: i128 = 10000;

/// Precision used for share price calculation (10000 = 1.0).
pub const SHARE_PRICE_PRECISION: i128 = 10_000;

/// Minimum deposit / withdrawal, against rounding exploits.
pub const MIN_AMOUNT: i128 = 1;

/// Default cap on the fraction of available liquidity that `fund_loan` may
/// pay out within one ledger, in basis points: 100%, so the cap is off until
/// an admin sets a lower one.
pub const DEFAULT_MAX_OUTFLOW_BPS: u32 = 10000;

/// Default cap on the cumulative amount funded to one merchant; `0` means no
/// cap.
pub const DEFAULT_MAX_PER_MERCHANT: i128 = 0;

/// Rolling window of the per-ledger outflow cap. Once the ledger sequence
/// passes `start_ledger` the window has expired and the accumulated outflow
/// starts again from zero.
#[derive(Clone, Copy, Debug, PartialEq, Eq, Structural)]
pub struct LedgerOutflowWindow {
    /// Ledger sequence in which this window began.
    pub start_ledger: u32,
    /// Available liquidity when the window began; the per-ledger budget is
    /// `available × max_outflow_bps / 10000` for the whole window.
    pub available: i128,
    /// Cumulative `fund_loan` outflows within the current window.
    pub outflow: i128,
}

/// The three fee shares make up the whole fee.
pub proof fn lemma_fee_split_is_whole()
    ensures
        LP_FEE_BPS + PROTOCOL_FEE_BPS + MERCHANT_FEE_BPS == TOTAL_BPS,
        SHARE_PRICE_PRECISION == TOTAL_BPS,
{
}

} // verus!
