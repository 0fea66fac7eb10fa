//! Gateway configuration and the bodies of the locally served endpoints.
//!
//! The configuration is fixed at process start and read-only afterwards: the
//! proxy prefix, the exact paths that are exempt from proxying, and the
//! upstream base URL. The strings the configuration is built from (a port, a
//! host) are opaque bytes to the gateway; it never looks them up itself.

use vstd::prelude::*;

use vstd::string::StrSliceExecFns;
use vstd::string::StringSliceAdditionalSpecFns;

verus! {

/// What a `GatewayConfig` means: its three read-only components.
pub struct ConfigModel {
    /// Paths beginning with this prefix are candidates for forwarding.
    pub proxy_prefix: Seq<u8>,
    /// Exact paths served locally even under the prefix.
    pub exemptions: Seq<Seq<u8>>,
    /// Scheme, host and port of the single upstream target.
    pub upstream_base: Seq<u8>,
}

/// The gateway's configuration, fixed for the life of the process.
pub struct GatewayConfig {
    pub proxy_prefix: Vec<u8>,
    pub exemptions: Vec<Vec<u8>>,
    pub upstream_base: Vec<u8>,
}

impl View for GatewayConfig {
    type V = ConfigModel;

    open spec fn view(&self) -> ConfigModel {
        ConfigModel {
            proxy_prefix: self.proxy_prefix@,
            exemptions: self.exemptions@.map_values(|e: Vec<u8>| e@),
            upstream_base: self.upstream_base@,
        }
    }
}

impl GatewayConfig {
    /// Bundles a proxy prefix, an exemption set and an upstream base URL
    /// into a configuration.
    pub fn new(proxy_prefix: Vec<u8>, exemptions: Vec<Vec<u8>>, upstream_base: Vec<u8>) -> (r:
        GatewayConfig)
        ensures
            r@.proxy_prefix == proxy_prefix@,
            r@.exemptions == exemptions@.map_values(|e: Vec<u8>| e@),
            r@.upstream_base == upstream_base@,
    {
        GatewayConfig { proxy_prefix, exemptions, upstream_base }
    }
}

/// The upstream base URL for a backend reached as `http://backend:<port>`.
pub open spec fn spec_backend_base_url(port: Seq<u8>) -> Seq<u8> {
    ("http://backend:").spec_bytes() + port
}

/// Builds the upstream base URL from a port given as opaque bytes.
pub fn backend_base_url(port: &Vec<u8>) -> (r: Vec<u8>)
    ensures
        r@ == spec_backend_base_url(port@),
{
    let mut r = ("http://backend:").as_bytes_vec();
    crate::bytes::append_bytes(&mut r, port);
    r
}

/// The body of the local health endpoint.
pub open spec fn spec_health_body() -> Seq<u8> {
    ("{\"status\": \"ok\", \"service\": \"frontend\"}").spec_bytes()
}

/// The fixed JSON body the local health endpoint answers with.
pub fn health_body() -> (r: Vec<u8>)
    ensures
        r@ == spec_health_body(),
{
    ("{\"status\": \"ok\", \"service\": \"frontend\"}").as_bytes_vec()
}

/// The body of the local JSON config endpoint for a given upstream base URL.
pub open spec fn spec_config_body(backend_url: Seq<u8>) -> Seq<u8> {
    ("{\"BACKEND_URL\": \"").spec_bytes() + backend_url + ("\"}").spec_bytes()
}

/// The JSON body of the local config endpoint: the upstream base URL under
/// the `BACKEND_URL` key.
pub fn config_body(backend_url: &Vec<u8>) -> (r: Vec<u8>)
    ensures
        r@ == spec_config_body(backend_url@),
{
    let mut r = ("{\"BACKEND_URL\": \"").as_bytes_vec();
    crate::bytes::append_bytes(&mut r, backend_url);
    let tail = ("\"}").as_bytes_vec();
    crate::bytes::append_bytes(&mut r, &tail);
    r
}

/// The script served to browsers so they learn the upstream base URL.
pub open spec fn spec_api_config_js(backend_url: Seq<u8>) -> Seq<u8> {
    ("window.BACKEND_URL = '").spec_bytes() + backend_url + ("';\n").spec_bytes()
}

/// Builds the one-line script that points browsers at the upstream base URL.
pub fn api_config_js(backend_url: &Vec<u8>) -> (r: Vec<u8>)
    ensures
        r@ == spec_api_config_js(backend_url@),
{
    let mut r = ("window.BACKEND_URL = '").as_bytes_vec();
    crate::bytes::append_bytes(&mut r, backend_url);
    let tail = ("';\n").as_bytes_vec();
    crate::bytes::append_bytes(&mut r, &tail);
    r
}

/// The default proxy prefix: `/api/`.
pub fn default_proxy_prefix() -> (r: Vec<u8>)
    ensures
        r@ == ("/api/").spec_bytes(),
{
    ("/api/").as_bytes_vec()
}

/// The exemption set of the reference deployment: health, config, logout and
/// metrics are answered locally.
pub fn default_exemptions() -> (r: Vec<Vec<u8>>)
    ensures
        r@.map_values(|e: Vec<u8>| e@) =~= seq![
            ("/api/health").spec_bytes(),
            ("/api/config").spec_bytes(),
            ("/api/logout").spec_bytes(),
            ("/api/metrics").spec_bytes(),
        ],
{
    let mut r: Vec<Vec<u8>> = Vec::new();
    r.push(("/api/health").as_bytes_vec());
    r.push(("/api/config").as_bytes_vec());
    r.push(("/api/logout").as_bytes_vec());
    r.push(("/api/metrics").as_bytes_vec());
    r
}

} // verus!
