//! Loyalty point shapes.

use vstd::prelude::*;

verus! {

/// Whether a transaction earned or spent points.
#[derive(Debug, Clone, Copy, PartialEq, Eq, Structural)]
pub enum Direction {
    Earn,
    Spend,
}

/// Filters and paging for a transaction history listing.
#[derive(Debug)]
pub struct TransactionHistoryQuery {
    pub limit: Option<i64>,
    pub offset: Option<i64>,
    pub source: Option<String>,
    pub direction: Option<Direction>,
}

/// Filters for a rewards listing.
#[derive(Debug)]
pub struct ListRewardsQuery {
    pub is_active: Option<bool>,
    pub reward_type: Option<String>,
    pub min_points: Option<i32>,
    pub max_points: Option<i32>,
}

} // verus!
