//! Market regimes of the background order flow.
use vstd::prelude::*;

verus! {

/// Market regime presets that control background order flow.
#[derive(Debug, Clone, Copy, PartialEq, Eq, Structural)]
pub enum MarketRegime {
    /// Low activity, stable sentiment.
    Calm,
    /// Moderate activity: normal conditions.
    Normal,
    /// High activity, wider swings.
    Volatile,
    /// Very high activity, extreme sentiment.
    Crisis,
}

impl Default for MarketRegime {
    fn default() -> (r: MarketRegime)
        ensures
            r == MarketRegime::Normal,
    {
        MarketRegime::Normal
    }
}

} // verus!
