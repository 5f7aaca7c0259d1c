use vstd::prelude::*;

verus! {

#[verifier::external_type_specification]
#[verifier::external_body]
pub struct ExUri(hyper::Uri);

/// Requests made when the count is not given.
pub const DEFAULT_NUMBER: u32 = 100;

/// Requests in flight at once when the limit is not given.
pub const DEFAULT_CONCURRENCY: u16 = 10;

/// What a run is asked to do.
#[derive(Debug)]
pub struct Config {
    pub url: String,
    pub number: u32,
    pub concurrency: u16,
}

/// Why a run is refused before any request leaves.
#[derive(Clone, Copy, Debug, PartialEq, Eq, Structural)]
pub enum ConfigError {
    MissingUrl,
    InvalidUrl,
    ZeroConcurrency,
}

/// Whether hyper accepts the text as a URI.
pub uninterp spec fn uri_parses(s: Seq<char>) -> bool;

/// Relies on `<hyper::Uri as FromStr>::from_str`: its success depends on the
/// text alone, and the empty text is refused.
#[verifier::external_body]
pub(crate) fn parse_uri(s: &str) -> (r: Option<hyper::Uri>)
    ensures
        r is Some <==> uri_parses(s@),
        s@.len() == 0 ==> r is None,
{
    s.parse::<hyper::Uri>().ok()
}

impl Config {
    /// Builds the configuration from what the command line gave, filling in the
    /// defaults for a missing count or limit. The URL is required.
    pub fn from_args(url: Option<String>, number: Option<u32>, concurrency: Option<u16>) -> (r:
        Result<Config, ConfigError>)
        ensures
            url is None <==> r == Err::<Config, ConfigError>(ConfigError::MissingUrl),
            url is Some <==> r is Ok,
            r is Ok ==> ({
                let c = r->Ok_0;
                &&& c.url@ == url->Some_0@
                &&& c.number == (match number {
                    Some(n) => n,
                    None => DEFAULT_NUMBER,
                })
                &&& c.concurrency == (match concurrency {
                    Some(k) => k,
                    None => DEFAULT_CONCURRENCY,
                })
            }),
    {
        match url {
            None => Err(ConfigError::MissingUrl),
            Some(url) => {
                let number = match number {
                    Some(n) => n,
                    None => DEFAULT_NUMBER,
                };
                let concurrency = match concurrency {
                    Some(k) => k,
                    None => DEFAULT_CONCURRENCY,
                };
                Ok(Config { url, number, concurrency })
            },
        }
    }
}

} // verus!
