//! Expiration bounds for offers: never, at a block height, or at a block
//! time, together with the block context they are judged against.

use vstd::prelude::*;

verus! {

/// The part of the host's block context that expiration depends on:
/// the current block height and the current block time in nanoseconds
/// since the UNIX epoch.
#[derive(Debug, Clone, Copy, PartialEq, Eq, Structural)]
pub struct BlockInfo {
    pub height: u64,
    pub time: u64,
}

/// When an offer stops being swappable and listable. The empty value is
/// `Never`: an offer created without an expiration never elapses.
#[derive(Debug, Clone, Copy, PartialEq, Eq, Structural)]
pub enum Expiration {
    /// Elapsed once the block height reaches the bound.
    AtHeight(u64),
    /// Elapsed once the block time (nanoseconds) reaches the bound.
    AtTime(u64),
    /// Never elapses.
    Never,
}

impl Expiration {
    /// Whether this bound has elapsed in the given block context.
    pub open spec fn spec_is_expired(self, block: BlockInfo) -> bool {
        match self {
            Expiration::AtHeight(height) => block.height >= height,
            Expiration::AtTime(time) => block.time >= time,
            Expiration::Never => false,
        }
    }

    /// Whether this bound has elapsed in the given block context.
    pub fn is_expired(&self, block: &BlockInfo) -> (r: bool)
        ensures
            r == self.spec_is_expired(*block),
    {
        match self {
            Expiration::AtHeight(height) => block.height >= *height,
            Expiration::AtTime(time) => block.time >= *time,
            Expiration::Never => false,
        }
    }
}

impl Default for Expiration {
    /// The default expiration is `Never`.
    fn default() -> (r: Self)
        ensures
            r == Expiration::Never,
    {
        Expiration::Never
    }
}

} // verus!
