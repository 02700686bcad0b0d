//! The permission engine's vocabulary and service handle.

use vstd::prelude::*;

use crate::commands::DatabasePool;

verus! {

/// One grantable capability.
#[derive(Debug, Clone, Copy, PartialEq, Eq, Structural)]
pub enum PermissionType {
    FilesystemRead,
    FilesystemWrite,
    FilesystemDelete,
    BrowserNavigation,
    BrowserTabManagement,
    BrowserDownload,
    ProxyControl,
    ProxyNodeManagement,
    ProxySessionManagement,
    EcommerceView,
    EcommerceEdit,
    EcommercePricing,
    EcommerceOrders,
    VideoJobsCreate,
    VideoJobsExecute,
    VideoJobsDelete,
    SystemMonitor,
    SystemControl,
    DockerManagement,
    UserManagement,
    SecurityAdmin,
    AnalyticsView,
    MemoryRead,
    MemoryWrite,
    MemoryDelete,
    MemorySearch,
}

/// The permission engine: holds the database it reads and writes.
#[derive(Debug)]
pub struct JeanPermissionsEnhanced {
    pub db: DatabasePool,
}

impl JeanPermissionsEnhanced {
    /// A permission engine over this database.
    pub fn new(db: DatabasePool) -> (r: Self)
        ensures
            r.db == db,
    {
        JeanPermissionsEnhanced { db }
    }
}

} // verus!
