//! The controller configuration and its validation before any network activity.
use vstd::prelude::*;

use crate::address::{is_mac_addr, parse_mac_addr};

verus! {

/// Settings of one run, as loaded from the configuration source.
pub struct UnifiConfig {
    pub base_url: String,
    pub site: String,
    pub accept_invalid_certs: bool,
    pub user: Option<String>,
    pub password: Option<String>,
    pub client_macs: Vec<String>,
}

/// A credential that the controller login needs.
#[derive(Debug, Clone, Copy, PartialEq, Eq, Structural)]
pub enum Credential {
    User,
    Password,
}

impl Credential {
    pub open spec fn spec_name(self) -> Seq<char> {
        match self {
            Credential::User => "user"@,
            Credential::Password => "password"@,
        }
    }

    /// The name of the credential as the configuration source spells it.
    pub fn name(&self) -> (r: &'static str)
        ensures
            r@ == self.spec_name(),
    {
        match self {
            Credential::User => {
                proof {
                    reveal_strlit("user");
                }
                "user"
            },
            Credential::Password => {
                proof {
                    reveal_strlit("password");
                }
                "password"
            },
        }
    }
}

/// Why a configuration cannot be used.
#[derive(Debug)]
pub enum ConfigError {
    /// The configuration source could not be read or parsed.
    Malformed(String),
    /// A target address is not a well-formed hardware address.
    BadAddress(String),
    /// A credential is absent from both the configuration and the override.
    MissingCredential(Credential),
}

impl PartialEq for ConfigError {
    fn eq(&self, o: &ConfigError) -> (r: bool) {
        match self {
            ConfigError::Malformed(a) => match o {
                ConfigError::Malformed(b) => a.eq(b),
                _ => false,
            },
            ConfigError::BadAddress(a) => match o {
                ConfigError::BadAddress(b) => a.eq(b),
                _ => false,
            },
            ConfigError::MissingCredential(a) => match o {
                ConfigError::MissingCredential(b) => *a == *b,
                _ => false,
            },
        }
    }
}

impl vstd::std_specs::cmp::PartialEqSpecImpl for ConfigError {
    open spec fn obeys_eq_spec() -> bool {
        true
    }

    open spec fn eq_spec(&self, o: &ConfigError) -> bool {
        match (*self, *o) {
            (ConfigError::Malformed(a), ConfigError::Malformed(b)) => a@ == b@,
            (ConfigError::BadAddress(a), ConfigError::BadAddress(b)) => a@ == b@,
            (ConfigError::MissingCredential(a), ConfigError::MissingCredential(b)) => a == b,
            _ => false,
        }
    }
}

pub open spec fn all_addresses_valid(macs: Seq<String>) -> bool {
    forall|i: int| 0 <= i < macs.len() ==> is_mac_addr(#[trigger] macs[i]@)
}

/// `i` is the position of the first address in `macs` that is not well formed.
pub open spec fn is_first_invalid(macs: Seq<String>, i: int) -> bool {
    &&& 0 <= i < macs.len()
    &&& !is_mac_addr(macs[i]@)
    &&& forall|j: int| 0 <= j < i ==> is_mac_addr(#[trigger] macs[j]@)
}

/// A configuration that a run can use: both credentials are present and every
/// target address is well formed.
pub open spec fn config_ready(c: UnifiConfig) -> bool {
    &&& c.user is Some
    &&& c.password is Some
    &&& all_addresses_valid(c.client_macs@)
}

/// The configured value where there is one, else the override.
pub open spec fn chosen(configured: Option<String>, given: Option<String>) -> Option<String> {
    if configured is Some {
        configured
    } else {
        given
    }
}

/// Checks every target address in order, then fills each absent credential
/// from `user` and `password`. The first failure is reported.
pub fn validate_config(config: UnifiConfig, user: Option<String>, password: Option<String>) -> (r:
    Result<UnifiConfig, ConfigError>)
    ensures
        !all_addresses_valid(config.client_macs@) ==> (r matches Err(ConfigError::BadAddress(m))
            && exists|i: int|
            is_first_invalid(config.client_macs@, i) && #[trigger] config.client_macs@[i]@ == m@),
        all_addresses_valid(config.client_macs@) && chosen(config.user, user) is None ==> r
            == Err::<UnifiConfig, ConfigError>(ConfigError::MissingCredential(Credential::User)),
        all_addresses_valid(config.client_macs@) && chosen(config.user, user) is Some && chosen(
            config.password,
            password,
        ) is None ==> r == Err::<UnifiConfig, ConfigError>(
            ConfigError::MissingCredential(Credential::Password),
        ),
        all_addresses_valid(config.client_macs@) && chosen(config.user, user) is Some && chosen(
            config.password,
            password,
        ) is Some ==> (r matches Ok(c) && c.base_url == config.base_url && c.site == config.site
            && c.accept_invalid_certs == config.accept_invalid_certs && c.client_macs
            == config.client_macs && c.user == chosen(config.user, user) && c.password == chosen(
            config.password,
            password,
        )),
        r matches Ok(c) ==> config_ready(c),
{
    let mut i: usize = 0;
    while i < config.client_macs.len()
        invariant
            i <= config.client_macs@.len(),
            forall|j: int| 0 <= j < i ==> is_mac_addr(#[trigger] config.client_macs@[j]@),
        decreases config.client_macs@.len() - i,
    {
        let mac = &config.client_macs[i];
        match parse_mac_addr(mac.as_str()) {
            Ok(()) => {},
            Err(_) => {
                let bad = mac.clone();
                assert(is_first_invalid(config.client_macs@, i as int));
                return Err(ConfigError::BadAddress(bad));
            },
        }
        i = i + 1;
    }
    let UnifiConfig { base_url, site, accept_invalid_certs, user: file_user, password: file_password, client_macs } = config;
    let user = match file_user {
        Some(u) => u,
        None => match user {
            Some(u) => u,
            None => {
                return Err(ConfigError::MissingCredential(Credential::User));
            },
        },
    };
    let password = match file_password {
        Some(p) => p,
        None => match password {
            Some(p) => p,
            None => {
                return Err(ConfigError::MissingCredential(Credential::Password));
            },
        },
    };
    Ok(UnifiConfig { base_url, site, accept_invalid_certs, user: Some(user), password: Some(password), client_macs })
}

} // verus!
