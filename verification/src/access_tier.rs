//! The access-tier enumeration a share can be provisioned with, and its
//! free-text wire literals.

use vstd::prelude::*;
use crate::text::str_eq;

verus! {

/// The performance tier of a share.
#[derive(Clone, Copy, Debug, PartialEq, Eq, Structural)]
pub enum AccessTier {
    TransactionOptimized,
    Hot,
    Cool,
    Premium,
}

/// The wire literal of each tier.
pub open spec fn tier_str(t: AccessTier) -> Seq<char> {
    match t {
        AccessTier::TransactionOptimized => "TransactionOptimized"@,
        AccessTier::Hot => "Hot"@,
        AccessTier::Cool => "Cool"@,
        AccessTier::Premium => "Premium"@,
    }
}

/// Which tier, if any, a wire literal denotes: exactly the four literals are
/// recognized, case-sensitively.
pub open spec fn tier_of(s: Seq<char>) -> Option<AccessTier> {
    if s == "TransactionOptimized"@ {
        Some(AccessTier::TransactionOptimized)
    } else if s == "Hot"@ {
        Some(AccessTier::Hot)
    } else if s == "Cool"@ {
        Some(AccessTier::Cool)
    } else if s == "Premium"@ {
        Some(AccessTier::Premium)
    } else {
        None
    }
}

impl AccessTier {
    /// The canonical encoding of the tier.
    pub fn as_str(&self) -> (r: &'static str)
        ensures
            r@ == tier_str(*self),
    {
        match self {
            AccessTier::TransactionOptimized => "TransactionOptimized",
            AccessTier::Hot => "Hot",
            AccessTier::Cool => "Cool",
            AccessTier::Premium => "Premium",
        }
    }

    /// Reads a tier literal back; `None` on an unrecognized literal.
    pub fn parse(s: &str) -> (r: Option<AccessTier>)
        ensures
            r == tier_of(s@),
    {
        if str_eq(s, "TransactionOptimized") {
            Some(AccessTier::TransactionOptimized)
        } else if str_eq(s, "Hot") {
            Some(AccessTier::Hot)
        } else if str_eq(s, "Cool") {
            Some(AccessTier::Cool)
        } else if str_eq(s, "Premium") {
            Some(AccessTier::Premium)
        } else {
            None
        }
    }
}

/// Rendering a tier and reading the literal back returns the tier: the
/// enumeration codec round-trips on every tier.
pub proof fn lemma_tier_round_trip(t: AccessTier)
    ensures
        tier_of(tier_str(t)) == Some(t),
{
    reveal_strlit("TransactionOptimized");
    reveal_strlit("Hot");
    reveal_strlit("Cool");
    reveal_strlit("Premium");
    assert("TransactionOptimized"@.len() == 20);
    assert("Hot"@.len() == 3);
    assert("Cool"@.len() == 4);
    assert("Premium"@.len() == 7);
}

} // verus!
