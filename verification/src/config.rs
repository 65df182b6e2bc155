//! The configuration of the proxy.
use vstd::prelude::*;

verus! {

/// The configuration: where to listen, and the accounts to use.
#[derive(Clone, Debug)]
pub struct Config {
    pub server: ServerConfig,
    pub accounts: Option<Vec<AccountConfig>>,
}

/// Where to listen.
#[derive(Clone, Debug)]
pub struct ServerConfig {
    pub listen: String,
}

/// An account with a provider.
#[derive(Clone, Debug)]
pub enum AccountConfig {
    Kiro {},
    DashScope { base_url: String, api_key: String },
}

/// The name of an account's provider.
pub open spec fn provider_name(account: AccountConfig) -> Seq<char> {
    match account {
        AccountConfig::Kiro {} => "kiro"@,
        AccountConfig::DashScope { .. } => "dashscope"@,
    }
}

/// The names of the accounts' providers, with commas between them.
pub open spec fn provider_names(accounts: Seq<AccountConfig>) -> Seq<char>
    decreases accounts.len(),
{
    if accounts.len() == 0 {
        Seq::empty()
    } else if accounts.len() == 1 {
        provider_name(accounts[0])
    } else {
        provider_names(accounts.drop_last()) + ","@ + provider_name(accounts.last())
    }
}

/// What is said of the configured providers.
pub open spec fn loaded_providers(config: Config) -> Seq<char> {
    match config.accounts {
        Some(accounts) => if accounts@.len() == 0 {
            "Not provider configed."@
        } else {
            provider_names(accounts@)
        },
        None => "Not provider configed."@,
    }
}

/// The path of the configuration file below the home directory.
pub open spec fn config_path() -> Seq<Seq<char>> {
    seq![".config"@, "yzz-llm-proxy"@, "config.toml"@]
}

impl AccountConfig {
    /// The name of the account's provider.
    pub fn provider(&self) -> (r: &'static str)
        ensures
            r@ == provider_name(*self),
            *self is Kiro ==> r@ == "kiro"@,
            *self is DashScope ==> r@ == "dashscope"@,
    {
        match self {
            AccountConfig::Kiro {} => "kiro",
            AccountConfig::DashScope { .. } => "dashscope",
        }
    }
}

impl Config {
    /// Says which providers are configured.
    pub fn print_load_providers(config: &Config) -> (r: String)
        ensures
            r@ == loaded_providers(*config),
    {
        match &config.accounts {
            Some(accounts) => {
                if accounts.len() == 0 {
                    return "Not provider configed.".to_string();
                }
                let ghost all = accounts@;
                let mut names = accounts[0].provider().to_string();
                let mut i: usize = 1;
                while i < accounts.len()
                    invariant
                        1 <= i <= accounts@.len(),
                        all == accounts@,
                        names@ == provider_names(all.take(i as int)),
                    decreases accounts@.len() - i,
                {
                    proof {
                        assert(all.take(i + 1).drop_last() =~= all.take(i as int));
                    }
                    names.append(",");
                    names.append(accounts[i].provider());
                    i += 1;
                }
                assert(all.take(all.len() as int) =~= all);
                names
            },
            None => "Not provider configed.".to_string(),
        }
    }

    /// The path of the configuration file below the home directory, part by part.
    pub fn get_config_path() -> (r: Vec<&'static str>)
        ensures
            r@.map_values(|p: &'static str| p@) == config_path(),
            r@.len() == 3,
            r@[0]@ == ".config"@,
            r@[1]@ == "yzz-llm-proxy"@,
            r@[2]@ == "config.toml"@,
    {
        let mut parts: Vec<&'static str> = Vec::new();
        parts.push(".config");
        parts.push("yzz-llm-proxy");
        parts.push("config.toml");
        assert(parts@.map_values(|p: &'static str| p@) =~= config_path());
        parts
    }
}

/// A configuration with an account never says that there is none.
pub proof fn lemma_accounts_are_named(accounts: Seq<AccountConfig>)
    requires
        accounts.len() > 0,
    ensures
        provider_names(accounts).len() > 0,
    decreases accounts.len(),
{
    reveal_strlit("kiro");
    reveal_strlit("dashscope");
    if accounts.len() > 1 {
        lemma_accounts_are_named(accounts.drop_last());
    }
}

/// Every account's provider is named, behind those before it and a comma.
pub proof fn lemma_every_provider_is_named(accounts: Seq<AccountConfig>, account: AccountConfig)
    ensures
        account is Kiro ==> provider_name(account) == "kiro"@,
        account is DashScope ==> provider_name(account) == "dashscope"@,
        accounts.len() == 0 ==> provider_names(accounts.push(account)) == provider_name(account),
        accounts.len() > 0 ==> provider_names(accounts.push(account)) == provider_names(accounts)
            + ","@ + provider_name(account),
{
    assert(accounts.push(account).drop_last() =~= accounts);
}

/// What is said of a configuration names the providers of its accounts, and says so where it has
/// none.
pub proof fn lemma_providers_are_said(config: Config)
    ensures
        config.accounts matches Some(accounts) && accounts@.len() > 0 ==> loaded_providers(config)
            == provider_names(config.accounts->0@),
        config.accounts is None || config.accounts->0@.len() == 0 ==> loaded_providers(config)
            == "Not provider configed."@,
{
}

} // verus!
