//! Defaults of the process configuration and the deployment mode.

use vstd::prelude::*;

verus! {

/// Whether the server runs for development or for production.
/// In production, error details are kept from the user.
#[derive(Debug, PartialEq, Eq, Structural, Clone, Copy)]
pub enum DevOrProd {
    Development,
    Production,
}

impl DevOrProd {
    /// True exactly for [`DevOrProd::Production`].
    pub fn is_prod(self) -> (r: bool)
        ensures
            r == (self == DevOrProd::Production),
    {
        self == DevOrProd::Production
    }
}

impl Default for DevOrProd {
    fn default() -> (r: Self)
        ensures
            r == DevOrProd::Development,
    {
        DevOrProd::Development
    }
}

/// How often the server tries again to reach the database when it starts:
/// six times, five seconds apart.
pub fn default_database_connection_retries() -> (r: u32)
    ensures
        r == 6,
{
    6
}

/// The largest upload that is accepted, in bytes: five mebibytes.
pub fn default_max_file_size() -> (r: usize)
    ensures
        r == 5 * 1024 * 1024,
{
    5 * 1024 * 1024
}

/// The ACME directory that certificates are requested from by default.
pub fn default_https_acme_directory_url() -> (r: String)
    ensures
        r@ == "https://acme-v02.api.letsencrypt.org/directory"@,
{
    "https://acme-v02.api.letsencrypt.org/directory".to_owned()
}

} // verus!
