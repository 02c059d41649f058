use vstd::prelude::*;
use crate::catalog::{int_decimal_of, int_to_string};

verus! {

/// The configuration of a run, built once at startup and passed to every component.
#[derive(Clone, Debug)]
pub struct Settings {
    /// Base address of the evaluation site, without a trailing `/`.
    pub base_url: String,
    /// Address of the session service that hands out cookies and proxies requests.
    pub service_url: String,
    pub proxy_username: Option<String>,
    pub proxy_password: Option<String>,
    /// Token that authorizes requests to the session service.
    pub cookies_token: String,
    pub database_url: String,
}

/// Builds the configuration of a run from its values.
pub fn settings(
    base_url: String,
    service_url: String,
    proxy_username: Option<String>,
    proxy_password: Option<String>,
    cookies_token: String,
    database_url: String,
) -> (r: Settings)
    ensures
        r.base_url == base_url,
        r.service_url == service_url,
        r.proxy_username == proxy_username,
        r.proxy_password == proxy_password,
        r.cookies_token == cookies_token,
        r.database_url == database_url,
{
    Settings {
        base_url,
        service_url,
        proxy_username,
        proxy_password,
        cookies_token,
        database_url,
    }
}

pub const SEARCH_PATH: &'static str = "/Modules/Evals/SET/Reports/Search.aspx";

pub const REPORT_PATH: &'static str = "/Modules/Evals/SET/Reports/SETSummary.aspx?sid=";

pub const PROXY_PORT_SUFFIX: &'static str = ":5000";

pub const COOKIES_PATH: &'static str = "/cookies";

impl Settings {
    /// Address of the search form.
    pub fn search_url(&self) -> (r: String)
        ensures
            r@ == self.base_url@ + SEARCH_PATH@,
    {
        let mut s = self.base_url.clone();
        s.append(SEARCH_PATH);
        s
    }

    /// Address of the report page of `sid`.
    pub fn report_url(&self, sid: i32) -> (r: String)
        ensures
            r@ == self.base_url@ + REPORT_PATH@ + int_decimal_of(sid as int),
    {
        let mut s = self.base_url.clone();
        s.append(REPORT_PATH);
        let n = int_to_string(sid);
        s.append(n.as_str());
        s
    }

    /// Address of the session service's cookie endpoint.
    pub fn cookies_url(&self) -> (r: String)
        ensures
            r@ == self.service_url@ + COOKIES_PATH@,
    {
        let mut s = self.service_url.clone();
        s.append(COOKIES_PATH);
        s
    }

    /// Address of the proxy: the session service on its proxy port.
    pub fn proxy_address(&self) -> (r: String)
        ensures
            r@ == self.service_url@ + PROXY_PORT_SUFFIX@,
    {
        let mut s = self.service_url.clone();
        s.append(PROXY_PORT_SUFFIX);
        s
    }

    /// The proxy credentials, when both the user name and the password are set.
    pub fn proxy_credentials(&self) -> (r: Option<(String, String)>)
        ensures
            match (self.proxy_username, self.proxy_password) {
                (Some(u), Some(p)) => r is Some && r->Some_0.0@ == u@ && r->Some_0.1@ == p@,
                _ => r is None,
            },
    {
        match (&self.proxy_username, &self.proxy_password) {
            (Some(u), Some(p)) => Some((u.clone(), p.clone())),
            _ => None,
        }
    }
}

} // verus!
