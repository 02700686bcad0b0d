//! External integration configuration shapes.

use vstd::prelude::*;

verus! {

/// How one external integration is reached. Header sets are carried as
/// name–value pairs.
#[derive(Debug)]
pub enum IntegrationConfig {
    N8N { webhook_url: String, api_key: Option<String>, workflow_id: Option<String> },
    Colab { notebook_url: String, api_key: Option<String>, runtime_type: String },
    Gradio { app_url: String, api_key: Option<String>, fn_index: i32 },
    Webhook { url: String, secret: Option<String>, headers: Vec<(String, String)> },
    API { base_url: String, api_key: Option<String>, headers: Vec<(String, String)> },
}

/// Filters for an integration listing.
#[derive(Debug)]
pub struct ListIntegrationsQuery {
    pub integration_type: Option<String>,
    pub is_active: Option<bool>,
}

} // verus!
