//! Discovered-API description shapes.

use vstd::prelude::*;

verus! {

/// The identity block of a generated API description.
#[derive(Debug)]
pub struct OpenApiInfo {
    pub title: String,
    pub version: String,
    pub description: Option<String>,
}

/// One server a described API is reachable at.
#[derive(Debug)]
pub struct OpenApiServer {
    pub url: String,
    pub description: Option<String>,
}

/// Filters and paging for a discovered-API listing.
#[derive(Debug)]
pub struct GetDiscoveredApisQuery {
    pub domain: Option<String>,
    pub processed: Option<bool>,
    pub limit: Option<i64>,
    pub offset: Option<i64>,
}

/// Which client languages to generate stubs for.
#[derive(Debug)]
pub struct GenerateClientStubsQuery {
    pub languages: Vec<String>,
}

/// Which generated stub to download.
#[derive(Debug)]
pub struct DownloadStubQuery {
    pub language: String,
}

} // verus!
