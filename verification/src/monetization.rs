//! Paid feature tiers.

use vstd::prelude::*;

verus! {

/// A feature gated behind a paid plan.
#[derive(Debug, Clone, Copy, PartialEq, Eq, Structural)]
pub enum PaidFeature {
    EncryptedCloudSync,
    AdvancedAnalytics,
    PrioritySupport,
    MultiUser,
    CustomBranding,
    PolicyEngine,
    AuditLogs,
}

} // verus!
