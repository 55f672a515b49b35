use vstd::prelude::*;
use vstd::string::*;

verus! {

/// Default base URL of the publishing API.
pub const DEFAULT_API_BASE_URL: &'static str = "https://turbo.ordinalswallet.com/";

/// Default slug of the collection.
pub const DEFAULT_SLUG: &'static str = "xiler-dns";

/// Default path of the checkpoint file.
pub const DEFAULT_CHECKPOINT_PATH: &'static str = "./last_update.timestamp";

/// Why a configuration value cannot be used.
#[derive(Debug, Clone, Copy, PartialEq, Eq, Structural)]
pub enum ConfigError {
    /// A required value is not set.
    Missing,
    /// A value is set but empty.
    Empty,
}

/// Accepts a configuration value only when it is not empty.
pub fn ensure_is_not_empty(value: String) -> (r: Result<String, ConfigError>)
    ensures
        value@.len() == 0 ==> r == Err::<String, ConfigError>(ConfigError::Empty),
        value@.len() > 0 ==> r == Ok::<String, ConfigError>(value),
{
    if value.as_str().is_empty() {
        Err(ConfigError::Empty)
    } else {
        Ok(value)
    }
}

/// A value that falls back to `default` when it is not set; it must not be
/// empty either way.
pub fn setting_or_default(found: Option<String>, default: &str) -> (r: Result<String, ConfigError>)
    ensures
        ({
            let v = match found {
                Some(s) => s@,
                None => default@,
            };
            &&& v.len() == 0 ==> r == Err::<String, ConfigError>(ConfigError::Empty)
            &&& v.len() > 0 ==> r is Ok && r->Ok_0@ == v
        }),
{
    match found {
        Some(s) => ensure_is_not_empty(s),
        None => ensure_is_not_empty(String::from_str(default)),
    }
}

/// A value that must be set and must not be empty.
pub fn required_setting(found: Option<String>) -> (r: Result<String, ConfigError>)
    ensures
        found is None ==> r == Err::<String, ConfigError>(ConfigError::Missing),
        found is Some ==> r == ensure_spec(found->Some_0),
{
    match found {
        Some(s) => ensure_is_not_empty(s),
        None => Err(ConfigError::Missing),
    }
}

/// The result of `ensure_is_not_empty`.
pub open spec fn ensure_spec(value: String) -> Result<String, ConfigError> {
    if value@.len() == 0 {
        Err(ConfigError::Empty)
    } else {
        Ok(value)
    }
}

/// The configuration of the synchronizer, built once at startup.
#[derive(Debug, Clone)]
pub struct Config {
    pub api_base_url: String,
    pub creator_address: String,
    pub creator_signature: String,
    pub slug: String,
    pub checkpoint_path: String,
}

impl Config {
    /// Builds the configuration from the values found for each setting:
    /// the creator's address and signature are required, the base URL and
    /// the slug have defaults, and none of these may be empty; the
    /// checkpoint path is taken as found, else its default. On failure the
    /// error is that of the first setting, in argument order, that fails.
    pub fn from_settings(
        api_base_url: Option<String>,
        creator_address: Option<String>,
        creator_signature: Option<String>,
        slug: Option<String>,
        checkpoint_path: Option<String>,
    ) -> (r: Result<Config, ConfigError>)
        ensures
            r is Err <==> first_config_error(api_base_url, creator_address, creator_signature, slug)
                is Some,
            r is Err ==> r->Err_0 == first_config_error(
                api_base_url,
                creator_address,
                creator_signature,
                slug,
            )->Some_0,
            r is Ok ==> ({
                let c = r->Ok_0;
                &&& c.api_base_url@ == setting_spec(api_base_url, DEFAULT_API_BASE_URL@)->Ok_0
                &&& c.creator_address@ == creator_address->Some_0@
                &&& c.creator_signature@ == creator_signature->Some_0@
                &&& c.slug@ == setting_spec(slug, DEFAULT_SLUG@)->Ok_0
                &&& c.checkpoint_path@ == match checkpoint_path {
                    Some(p) => p@,
                    None => DEFAULT_CHECKPOINT_PATH@,
                }
            }),
    {
        let api_base_url = match setting_or_default(api_base_url, DEFAULT_API_BASE_URL) {
            Ok(v) => v,
            Err(e) => return Err(e),
        };
        let creator_address = match required_setting(creator_address) {
            Ok(v) => v,
            Err(e) => return Err(e),
        };
        let creator_signature = match required_setting(creator_signature) {
            Ok(v) => v,
            Err(e) => return Err(e),
        };
        let slug = match setting_or_default(slug, DEFAULT_SLUG) {
            Ok(v) => v,
            Err(e) => return Err(e),
        };
        let checkpoint_path = match checkpoint_path {
            Some(p) => p,
            None => String::from_str(DEFAULT_CHECKPOINT_PATH),
        };
        Ok(Config { api_base_url, creator_address, creator_signature, slug, checkpoint_path })
    }

    /// The address that primary publish requests are sent to.
    pub fn publish_url(&self) -> (r: String)
        ensures
            r@ == self.api_base_url@ + "/collection/update"@,
    {
        let mut url = self.api_base_url.clone();
        url.append("/collection/update");
        url
    }
}

/// The text a setting resolves to: the value found, else the default; an
/// empty one is refused.
pub open spec fn setting_spec(found: Option<String>, default: Seq<char>) -> Result<Seq<char>, ConfigError> {
    let v = match found {
        Some(s) => s@,
        None => default,
    };
    if v.len() == 0 {
        Err(ConfigError::Empty)
    } else {
        Ok(v)
    }
}

/// Whether a required setting is set and not empty.
pub open spec fn ensure_required(found: Option<String>) -> Result<(), ConfigError> {
    match found {
        None => Err(ConfigError::Missing),
        Some(s) => if s@.len() == 0 {
            Err(ConfigError::Empty)
        } else {
            Ok(())
        },
    }
}

/// The error of the first setting, in argument order, that cannot be used,
/// if any.
pub open spec fn first_config_error(
    api_base_url: Option<String>,
    creator_address: Option<String>,
    creator_signature: Option<String>,
    slug: Option<String>,
) -> Option<ConfigError> {
    if setting_spec(api_base_url, DEFAULT_API_BASE_URL@) is Err {
        Some(setting_spec(api_base_url, DEFAULT_API_BASE_URL@)->Err_0)
    } else if ensure_required(creator_address) is Err {
        Some(ensure_required(creator_address)->Err_0)
    } else if ensure_required(creator_signature) is Err {
        Some(ensure_required(creator_signature)->Err_0)
    } else if setting_spec(slug, DEFAULT_SLUG@) is Err {
        Some(setting_spec(slug, DEFAULT_SLUG@)->Err_0)
    } else {
        None
    }
}

} // verus!
