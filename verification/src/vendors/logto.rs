//! Records of the Logto authentication provider and the decisions taken on
//! what it returns.

use vstd::prelude::*;
use vstd::string::*;
use vstd::utf8::*;

use crate::util::dec_rep;
use crate::util::dec_string;
use crate::util::lemma_encode_utf8_concat;
use crate::util::str_eq;

verus! {

/// How to reach the provider's management API.
#[derive(Debug, Clone)]
pub struct LogtoManagementApiConfig {
    pub endpoint: String,
    pub api_key: String,
}

/// An application as the provider reports it.
#[derive(Debug, Clone)]
pub struct App {
    /// Client ID.
    pub id: String,
    pub name: String,
    /// Client secret.
    pub secret: String,
}

/// The first application carrying exactly the given name, if any.
pub fn find_app_by_name(apps: &Vec<App>, name: &str) -> (r: Option<usize>)
    ensures
        match r {
            Some(i) => 0 <= i < apps@.len() && (#[trigger] apps@[i as int]).name@ == name@
                && forall|j: int| 0 <= j < i ==> (#[trigger] apps@[j].name)@ != name@,
            None => forall|j: int|
                0 <= j < apps@.len() ==> (#[trigger] apps@[j].name)@ != name@,
        },
{
    let mut i: usize = 0;
    while i < apps.len()
        invariant
            i <= apps@.len(),
            forall|j: int| 0 <= j < i ==> (#[trigger] apps@[j].name)@ != name@,
        decreases apps@.len() - i,
    {
        if str_eq(apps[i].name.as_str(), name) {
            return Some(i);
        }
        i = i + 1;
    }
    None
}

/// Builds `https://<domain><path>`.
fn https_url(domain: &str, path: &str) -> (r: String)
    ensures
        r@ == "https://"@ + domain@ + path@,
{
    let mut url = String::from_str("https://");
    url.append(domain);
    url.append(path);
    url
}

/// Builds `http://localhost:<port><path>`.
fn localhost_url(port: u16, path: &str) -> (r: String)
    ensures
        encode_utf8(r@) == encode_utf8("http://localhost:"@) + dec_rep(port as nat)
            + encode_utf8(path@),
{
    let mut url = String::from_str("http://localhost:");
    let digits = dec_string(port as u64);
    url.append(digits.as_str());
    url.append(path);
    proof {
        lemma_encode_utf8_concat("http://localhost:"@ + digits@, path@);
        lemma_encode_utf8_concat("http://localhost:"@, digits@);
    }
    url
}

/// The callback URLs registered for an application: the production callback
/// on its domain and the development callback on the local port.
pub fn redirect_uris(domain: &str, dev_port: u16) -> (r: Vec<String>)
    ensures
        r@.len() == 2,
        r@[0]@ == "https://"@ + domain@ + "/api/auth/callback"@,
        encode_utf8(r@[1]@) == encode_utf8("http://localhost:"@) + dec_rep(dev_port as nat)
            + encode_utf8("/api/auth/callback"@),
{
    let mut v: Vec<String> = Vec::new();
    v.push(https_url(domain, "/api/auth/callback"));
    v.push(localhost_url(dev_port, "/api/auth/callback"));
    v
}

/// The post-logout URLs registered for an application: its domain and the
/// local development address.
pub fn post_logout_redirect_uris(domain: &str, dev_port: u16) -> (r: Vec<String>)
    ensures
        r@.len() == 2,
        r@[0]@ == "https://"@ + domain@ + ""@,
        encode_utf8(r@[1]@) == encode_utf8("http://localhost:"@) + dec_rep(dev_port as nat)
            + encode_utf8(""@),
{
    let mut v: Vec<String> = Vec::new();
    v.push(https_url(domain, ""));
    v.push(localhost_url(dev_port, ""));
    v
}

} // verus!
