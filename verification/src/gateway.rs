use vstd::prelude::*;

verus! {

/// The two payment processors a payment can be sent to.
#[derive(Clone, Copy, Debug, PartialEq, Eq, Structural)]
pub enum Gateway {
    Default,
    Fallback,
}

/// The label under which a payment handled by `g` is stored.
pub open spec fn gateway_label(g: Gateway) -> Seq<char> {
    match g {
        Gateway::Default => seq!['d', 'e', 'f', 'a', 'u', 'l', 't'],
        Gateway::Fallback => seq!['f', 'a', 'l', 'l', 'b', 'a', 'c', 'k'],
    }
}

/// Different gateways are stored under different labels, so a stored label
/// names the gateway that processed the payment.
pub proof fn lemma_gateway_labels_distinct(a: Gateway, b: Gateway)
    ensures
        gateway_label(a) == gateway_label(b) ==> a == b,
{
    if a != b {
        assert(gateway_label(a).len() != gateway_label(b).len());
    }
}

/// Base URLs of the two payment processors.
pub struct GatewayUrls {
    pub default_url: String,
    pub fallback_url: String,
}

impl Gateway {
    /// The label stored with a payment processed by this gateway.
    pub fn to_string(&self) -> (label: &'static str)
        ensures
            label@ == gateway_label(*self),
    {
        proof {
            reveal_strlit("default");
            reveal_strlit("fallback");
        }
        match self {
            Gateway::Default => "default",
            Gateway::Fallback => "fallback",
        }
    }

    /// The base URL of this gateway's payment processor.
    pub fn url<'a>(&self, urls: &'a GatewayUrls) -> (url: &'a str)
        ensures
            url@ == (match *self {
                Gateway::Default => urls.default_url@,
                Gateway::Fallback => urls.fallback_url@,
            }),
    {
        match self {
            Gateway::Default => urls.default_url.as_str(),
            Gateway::Fallback => urls.fallback_url.as_str(),
        }
    }
}

/// What a configured value, or else `fallback`, reads.
pub open spec fn configured_or(configured: Option<String>, fallback: Seq<char>) -> Seq<char> {
    match configured {
        Some(value) => value@,
        None => fallback,
    }
}

/// A configured value is used exactly as given, whatever it holds and however
/// long it is; the default stands in only when nothing is configured.
pub proof fn lemma_configured_value_used_as_given(value: String, fallback: Seq<char>)
    ensures
        configured_or(Some(value), fallback) == value@,
        configured_or(None, fallback) == fallback,
{
}

/// The default processor's base URL: the configured one, or else
/// `http://localhost:8001`.
pub fn get_default_payment_url(configured: Option<String>) -> (url: String)
    ensures
        url@ == configured_or(configured, "http://localhost:8001"@),
        configured matches Some(value) ==> url@ == value@,
        configured is None ==> url@ == "http://localhost:8001"@,
{
    match configured {
        Some(value) => value,
        None => String::from_str("http://localhost:8001"),
    }
}

/// The fallback processor's base URL: the configured one, or else
/// `http://localhost:8002`.
pub fn get_fallback_payment_url(configured: Option<String>) -> (url: String)
    ensures
        url@ == configured_or(configured, "http://localhost:8002"@),
        configured matches Some(value) ==> url@ == value@,
        configured is None ==> url@ == "http://localhost:8002"@,
{
    match configured {
        Some(value) => value,
        None => String::from_str("http://localhost:8002"),
    }
}

impl GatewayUrls {
    /// The processors' base URLs from their configured values, with the
    /// local defaults where none is configured.
    pub fn from_config(default_url: Option<String>, fallback_url: Option<String>) -> (urls: GatewayUrls)
        ensures
            urls.default_url@ == configured_or(default_url, "http://localhost:8001"@),
            urls.fallback_url@ == configured_or(fallback_url, "http://localhost:8002"@),
            default_url matches Some(value) ==> urls.default_url@ == value@,
            fallback_url matches Some(value) ==> urls.fallback_url@ == value@,
    {
        GatewayUrls {
            default_url: get_default_payment_url(default_url),
            fallback_url: get_fallback_payment_url(fallback_url),
        }
    }
}

/// The endpoint a payment is posted to at a processor with base URL `base`.
pub fn payments_endpoint(base: &str) -> (endpoint: String)
    ensures
        endpoint@ == base@ + "/payments"@,
{
    let mut endpoint = String::from_str(base);
    endpoint.append("/payments");
    endpoint
}

/// Whether a processor's HTTP status means it took the payment: any status
/// in the 2xx range.
pub fn payment_accepted(status: u16) -> (accepted: bool)
    ensures
        accepted == (200 <= status && status < 300),
{
    200 <= status && status < 300
}

} // verus!
