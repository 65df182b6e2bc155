//! What the proxy knows of its providers.
use vstd::prelude::*;

use crate::config::{AccountConfig, Config};
use crate::provider::kiro::credential::KiroToken;
use crate::text::join2;

verus! {

/// What is needed to call a provider.
#[derive(Clone, Debug)]
pub enum ProviderContext {
    Agnes { base_url: String, api_key: String },
    DashScope { base_url: String, api_key: String },
    Kiro { token: KiroToken, profile_arn: String, region: String },
}

/// The models that clients may use, such as `kiro/glm-5`, and the providers by their names.
pub struct AppState {
    pub models: Vec<String>,
    pub providers: vstd::hash_map::StringHashMap<ProviderContext>,
}

/// A model of Kiro as clients name it.
pub open spec fn kiro_model(model: Seq<char>) -> Seq<char> {
    "kiro/"@ + model
}

/// The models of Kiro as clients name them.
pub open spec fn kiro_models(models: Seq<String>) -> Seq<Seq<char>> {
    Seq::new(models.len(), |i: int| kiro_model(models[i]@))
}

/// Why the proxy cannot start.
#[derive(Debug, Clone, Copy, PartialEq, Eq, Structural)]
pub enum InitError {
    NoProvider,
}

/// What is to be done next to start the proxy.
#[derive(Debug, Clone, Copy, PartialEq, Eq, Structural)]
pub enum InitStep {
    LoadKiro,
    TakeDashScope,
    Refuse(InitError),
    Ready,
}

/// What is to be done next once the first `done` accounts have been taken in.
pub open spec fn next_step(config: Config, done: int) -> InitStep {
    match config.accounts {
        None => InitStep::Refuse(InitError::NoProvider),
        Some(accounts) => if done >= accounts@.len() {
            InitStep::Ready
        } else {
            match accounts@[done] {
                AccountConfig::Kiro {} => InitStep::LoadKiro,
                AccountConfig::DashScope { .. } => InitStep::TakeDashScope,
            }
        },
    }
}

/// What a DashScope account gives: all that is needed to call DashScope.
pub open spec fn dashscope_context(account: AccountConfig) -> ProviderContext
    recommends
        account is DashScope,
{
    ProviderContext::DashScope {
        base_url: account->DashScope_base_url,
        api_key: account->DashScope_api_key,
    }
}

/// Whether `name` is the name of a model of Kiro.
pub open spec fn is_kiro_model(name: Seq<char>) -> bool {
    exists|m: Seq<char>| name == #[trigger] kiro_model(m)
}

/// Whether every model that is listed can be used: it is one of Kiro, and Kiro is there.
pub open spec fn serves_its_models(state: AppState) -> bool {
    forall|i: int|
        0 <= i < state.models@.len() ==> {
            &&& is_kiro_model((#[trigger] state.models@[i])@)
            &&& state.providers@.contains_key("kiro"@)
            &&& state.providers@["kiro"@] is Kiro
        }
}

/// Models that could be used can still be used once DashScope is there.
pub proof fn lemma_dashscope_leaves_kiro(
    before: AppState,
    after: AppState,
    context: ProviderContext,
)
    requires
        after.models@ == before.models@,
        after.providers@ == before.providers@.insert("dashscope"@, context),
    ensures
        serves_its_models(before) ==> serves_its_models(after),
{
    reveal_strlit("kiro");
    reveal_strlit("dashscope");
    assert("kiro"@.len() != "dashscope"@.len());
    if serves_its_models(before) {
        assert forall|i: int| 0 <= i < after.models@.len() implies {
            &&& is_kiro_model((#[trigger] after.models@[i])@)
            &&& after.providers@.contains_key("kiro"@)
            &&& after.providers@["kiro"@] is Kiro
        } by {
            assert(is_kiro_model(before.models@[i]@));
        }
    }
}

/// The proxy as it starts: what it knows so far, and how many accounts it has taken in.
pub struct StateInit {
    pub state: AppState,
    pub done: usize,
}

impl AppState {
    /// The names of the models.
    pub open spec fn model_names(&self) -> Seq<Seq<char>> {
        self.models@.map_values(|m: String| m@)
    }

    /// Begins with no models and no providers.
    pub fn init() -> (r: StateInit)
        ensures
            r.state.model_names() == Seq::<Seq<char>>::empty(),
            r.state.providers@ == Map::<Seq<char>, ProviderContext>::empty(),
            r.done == 0,
            serves_its_models(r.state),
    {
        let state = AppState {
            models: Vec::new(),
            providers: vstd::hash_map::StringHashMap::new(),
        };
        assert(state.model_names() =~= Seq::<Seq<char>>::empty());
        StateInit { state, done: 0 }
    }
}

impl StateInit {
    /// What is to be done next.
    pub fn next(&self, config: &Config) -> (r: InitStep)
        ensures
            r == next_step(*config, self.done as int),
    {
        match &config.accounts {
            None => InitStep::Refuse(InitError::NoProvider),
            Some(accounts) => if self.done >= accounts.len() {
                InitStep::Ready
            } else {
                match &accounts[self.done] {
                    AccountConfig::Kiro {} => InitStep::LoadKiro,
                    AccountConfig::DashScope { .. } => InitStep::TakeDashScope,
                }
            },
        }
    }

    /// Takes in a Kiro account: its token, its profile and the models that Kiro named.
    pub fn kiro_loaded(
        &mut self,
        config: &Config,
        token: KiroToken,
        profile_arn: String,
        models: Vec<String>,
    )
        requires
            next_step(*config, old(self).done as int) == InitStep::LoadKiro,
        ensures
            final(self).done == old(self).done + 1,
            final(self).state.model_names() == old(self).state.model_names() + kiro_models(models@),
            final(self).state.providers@ == old(self).state.providers@.insert(
                "kiro"@,
                ProviderContext::Kiro { token, profile_arn, region: token.region },
            ),
            serves_its_models(old(self).state) ==> serves_its_models(final(self).state),
    {
        let ghost before = self.state.models@;
        let ghost names_before = self.state.model_names();
        let ghost providers_before = self.state.providers@;
        let mut i: usize = 0;
        assert(names_before + kiro_models(models@).take(0) =~= names_before);
        while i < models.len()
            invariant
                i <= models@.len(),
                self.done == old(self).done,
                self.state.providers@ == providers_before,
                names_before == before.map_values(|m: String| m@),
                self.state.model_names() == names_before + kiro_models(models@).take(i as int),
            decreases models@.len() - i,
        {
            let ghost here = self.state.models@;
            let name = join2("kiro/", models[i].as_str());
            self.state.models.push(name);
            proof {
                let all = kiro_models(models@);
                assert(self.state.model_names() =~= here.map_values(|m: String| m@).push(name@));
                assert(names_before + all.take(i + 1) =~= (names_before + all.take(i as int)).push(
                    all[i as int],
                ));
            }
            i += 1;
        }
        assert(kiro_models(models@).take(models@.len() as int) =~= kiro_models(models@));
        let region = token.region.clone();
        let context = ProviderContext::Kiro { token, profile_arn, region };
        self.state.providers.insert("kiro".to_string(), context);
        match &config.accounts {
            Some(accounts) => {
                let count = accounts.len();
                assert(self.done < count);
            },
            None => {},
        }
        self.done += 1;
        proof {
            if serves_its_models(old(self).state) {
                let after = self.state.models@;
                let names = self.state.model_names();
                assert forall|k: int| 0 <= k < after.len() implies is_kiro_model(
                    (#[trigger] after[k])@,
                ) by {
                    assert(names[k] == after[k]@);
                    if k < before.len() {
                        assert(names[k] == names_before[k]);
                        assert(before[k]@ == names_before[k]);
                    } else {
                        let j = k - before.len();
                        assert(names[k] == kiro_model(models@[j]@));
                    }
                }
            }
        }
    }

    /// Takes in a DashScope account. It names no models.
    pub fn dashscope_taken(&mut self, config: &Config)
        requires
            next_step(*config, old(self).done as int) == InitStep::TakeDashScope,
        ensures
            final(self).done == old(self).done + 1,
            final(self).state.model_names() == old(self).state.model_names(),
            final(self).state.providers@ == old(self).state.providers@.insert(
                "dashscope"@,
                dashscope_context(config.accounts->0@[old(self).done as int]),
            ),
            serves_its_models(old(self).state) ==> serves_its_models(final(self).state),
    {
        if let Some(accounts) = &config.accounts {
            let count = accounts.len();
            assert(self.done < count);
            if let AccountConfig::DashScope { base_url, api_key } = &accounts[self.done] {
                let context = ProviderContext::DashScope {
                    base_url: base_url.clone(),
                    api_key: api_key.clone(),
                };
                self.state.providers.insert("dashscope".to_string(), context);
                self.done += 1;
                proof {
                    lemma_dashscope_leaves_kiro(old(self).state, self.state, context);
                }
            }
        }
    }
}

/// Every model of Kiro is listed, in its place and with Kiro's name before its own.
pub proof fn lemma_every_model_is_named(models: Seq<String>, i: int)
    requires
        0 <= i < models.len(),
    ensures
        kiro_models(models).len() == models.len(),
        kiro_models(models)[i] == "kiro/"@ + models[i]@,
{
}

/// Every account is taken in, in its place and by its kind, and then the proxy is ready. It does
/// not start without a list of accounts.
pub proof fn lemma_every_account_is_taken(config: Config, done: int)
    requires
        0 <= done,
    ensures
        config.accounts is None ==> next_step(config, done) == InitStep::Refuse(
            InitError::NoProvider,
        ),
        config.accounts matches Some(accounts) ==> {
            &&& done >= accounts@.len() ==> next_step(config, done) == InitStep::Ready
            &&& done < accounts@.len() && accounts@[done] is Kiro ==> next_step(config, done)
                == InitStep::LoadKiro
            &&& done < accounts@.len() && accounts@[done] is DashScope ==> next_step(config, done)
                == InitStep::TakeDashScope
        },
{
}

/// A DashScope account is called at its own address and with its own key.
pub proof fn lemma_dashscope_context_is_the_accounts(base_url: String, api_key: String)
    ensures
        dashscope_context(AccountConfig::DashScope { base_url, api_key })
            == (ProviderContext::DashScope { base_url, api_key }),
{
}

/// Where models are listed that can be used, each has Kiro's name before its own, and Kiro is
/// there.
pub proof fn lemma_usable_models_are_kiros(state: AppState, i: int) -> (model: Seq<char>)
    requires
        serves_its_models(state),
        0 <= i < state.models@.len(),
    ensures
        state.models@[i]@ == "kiro/"@ + model,
        state.providers@.contains_key("kiro"@),
        state.providers@["kiro"@] is Kiro,
{
    assert(is_kiro_model(state.models@[i]@));
    choose|m: Seq<char>| state.models@[i]@ == #[trigger] kiro_model(m)
}

/// Every model is seen under its name, in its place.
pub proof fn lemma_models_are_seen(state: AppState, i: int)
    requires
        0 <= i < state.models@.len(),
    ensures
        state.model_names().len() == state.models@.len(),
        state.model_names()[i] == state.models@[i]@,
{
}

} // verus!
