//! AppStream metadata and the desktop ratings client, at their data
//! boundary: the values handed to callers when no catalogue answer is
//! available. The HTTP fetching itself belongs to the caller.

use vstd::prelude::*;
use crate::models::{AppReview, ProviderError};

verus! {

/// Client for the desktop ratings service.
pub struct OdrsClient {
    pub api_url: String,
}

impl Default for OdrsClient {
    fn default() -> OdrsClient {
        OdrsClient::new()
    }
}

impl OdrsClient {
    pub fn new() -> (r: OdrsClient)
        ensures
            r.api_url@ == "https://odrs.gnome.org/1.0/reviews/api"@,
    {
        OdrsClient { api_url: String::from_str("https://odrs.gnome.org/1.0/reviews/api") }
    }

    /// The reviews known for an application; none while the catalogue is
    /// not wired up.
    pub fn get_reviews(&self, _app_id: &str) -> (r: Result<Vec<AppReview>, ProviderError>)
        ensures
            r matches Ok(v) && v@.len() == 0,
    {
        Ok(Vec::new())
    }
}

/// Who develops an application, as the catalogue reports it.
#[derive(Debug, Clone)]
pub struct DeveloperInfo {
    pub name: String,
    pub url: Option<String>,
    pub email: Option<String>,
}

/// The catalogue's description of one application.
#[derive(Debug, Clone)]
pub struct AppMetadata {
    pub id: String,
    pub name: String,
    pub summary: Option<String>,
    pub description: Option<String>,
    pub icon: Option<String>,
    pub categories: Vec<String>,
    pub screenshots: Vec<String>,
}

/// AppStream metadata manager.
pub struct AppStreamManager;

impl Default for AppStreamManager {
    fn default() -> AppStreamManager {
        AppStreamManager::new()
    }
}

impl AppStreamManager {
    pub fn new() -> AppStreamManager {
        AppStreamManager
    }

    /// The developer record for an application; a placeholder while the
    /// catalogue is not wired up.
    pub fn get_developer_info(&self, _app_id: &str) -> (r: Result<DeveloperInfo, ProviderError>)
        ensures
            r matches Ok(d) && d.name@ == "Unknown"@ && d.url is None && d.email is None,
    {
        Ok(DeveloperInfo { name: String::from_str("Unknown"), url: None, email: None })
    }

    /// The catalogue metadata for an application: identified and named by
    /// its identifier, with no further fields until the catalogue answers.
    pub fn get_app_metadata(&self, app_id: &str) -> (r: Result<AppMetadata, ProviderError>)
        ensures
            r matches Ok(m) && m.id@ == app_id@ && m.name@ == app_id@ && m.summary is None
                && m.description is None && m.icon is None && m.categories@.len() == 0
                && m.screenshots@.len() == 0,
    {
        Ok(
            AppMetadata {
                id: app_id.to_owned(),
                name: app_id.to_owned(),
                summary: None,
                description: None,
                icon: None,
                categories: Vec::new(),
                screenshots: Vec::new(),
            },
        )
    }
}

} // verus!
