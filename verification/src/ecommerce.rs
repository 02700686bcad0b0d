//! Commerce import, pricing and supplier shapes.

use vstd::prelude::*;

verus! {

/// One row of a category taxonomy import.
#[derive(Debug)]
pub struct TaxonomyImport {
    pub category_id: String,
    pub category_name: String,
    pub subcategory_id: String,
    pub subcategory_name: String,
}

/// What triggered a pricing run.
#[derive(Debug, Clone, Copy, PartialEq, Eq, Structural)]
pub enum PricingRunType {
    Initial,
    CompetitorCheck,
    AutoAdjust,
    Manual,
}

/// How imported products are processed: which automatic steps run, in
/// what batch size, with what delay between batches.
#[derive(Debug, Clone, Copy, PartialEq, Eq, Structural)]
pub struct ScraperConfig {
    pub auto_categorize: bool,
    pub auto_pricing: bool,
    pub auto_promo: bool,
    pub batch_size: i32,
    pub processing_delay_seconds: i32,
}

impl Default for ScraperConfig {
    /// Everything automatic, ten products a batch, five seconds apart.
    fn default() -> (r: Self)
        ensures
            r == (ScraperConfig {
                auto_categorize: true,
                auto_pricing: true,
                auto_promo: true,
                batch_size: 10,
                processing_delay_seconds: 5,
            }),
    {
        ScraperConfig {
            auto_categorize: true,
            auto_pricing: true,
            auto_promo: true,
            batch_size: 10,
            processing_delay_seconds: 5,
        }
    }
}

/// A request to register a supplier.
#[derive(Debug)]
pub struct CreateSupplierRequest {
    pub name: String,
    pub alias: Option<String>,
    pub email: Option<String>,
    pub phone: Option<String>,
    pub website: Option<String>,
    pub company_type: String,
    pub main_categories: Vec<String>,
    pub payment_methods: Vec<String>,
}

} // verus!
