use vstd::prelude::*;

verus! {

/// Credentials for the third-party album service.
#[derive(Debug, Clone)]
pub struct ImgurConfig {
    pub client_id: String,
}

/// Settings read once at start-up and shared by every request.
#[derive(Debug, Clone)]
pub struct Config {
    pub imgur: ImgurConfig,
    /// The hosts (lower case) that image URLs may point to.
    pub allowed_domains: Vec<String>,
}

} // verus!
