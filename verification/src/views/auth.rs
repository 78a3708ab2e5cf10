//! The install and login pages.
use vstd::prelude::*;

use crate::models::settings::SiteSettings;

verus! {

/// The first-run install form.
pub struct InstallTemplate {
    pub error: Option<String>,
    pub site_title: String,
    pub site_tagline: String,
    pub author_name: String,
    pub username: String,
}

/// The login form.
pub struct LoginTemplate {
    pub settings: SiteSettings,
    pub login_path: String,
    pub error: Option<String>,
    pub username: String,
    pub next: String,
}

} // verus!
