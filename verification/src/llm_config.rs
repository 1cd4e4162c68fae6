//! The configuration of language models.

use vstd::prelude::*;

pub mod laws;

use crate::paths::{join_path, joined_path};
use crate::text::{
    is_blank, lowered, opt_text, same, strip_prefix, texts, to_lower, trim, trimmed,
};

verus! {

/// The configuration file: providers, models, and which model is used.
#[derive(Debug)]
pub struct LocalLlmConfig {
    pub active_model: String,
    pub agent: LocalLlmAgentConfig,
    pub providers: Vec<LocalLlmProviderConfig>,
    pub models: Vec<LocalLlmConfigModel>,
}

/// How the agent is set up, whatever model it uses.
#[derive(Debug)]
pub struct LocalLlmAgentConfig {
    pub system_prompt: Option<String>,
    pub system_prompt_file: Option<String>,
    pub enabled_tools: Vec<String>,
}

#[derive(Debug)]
pub struct LocalLlmProviderConfig {
    pub name: String,
    pub api_base: String,
    pub api_key_env_var: Option<String>,
    pub api_key: Option<String>,
    pub token: Option<String>,
    pub api_style: Option<String>,
    pub reasoning_field_name: Option<String>,
    pub description: Option<String>,
    pub headers: Vec<(String, String)>,
}

#[derive(Debug)]
pub struct LocalLlmConfigModel {
    pub name: String,
    pub provider: String,
    pub alias: Option<String>,
    pub id: Option<String>,
    pub display_name: Option<String>,
    pub description: Option<String>,
    pub thinking: Option<String>,
    pub thinking_budget: Option<u32>,
}

/// A model with everything that is needed to use it. Without `enabled_tools` all tools are enabled.
#[derive(Debug)]
pub struct ResolvedLocalLlm {
    pub id: String,
    pub display_name: String,
    pub base_model_name: String,
    pub base_url: String,
    pub api_style: String,
    pub token: String,
    pub token_configured: bool,
    pub headers: Vec<(String, String)>,
    pub reasoning_field_name: String,
    pub thinking: String,
    pub thinking_budget: Option<u32>,
    pub description: Option<String>,
    pub system_prompt: Option<String>,
    pub enabled_tools: Option<Vec<String>>,
}

/// The mathematical content of a [`ResolvedLocalLlm`].
#[verifier::ext_equal]
pub struct ModelView {
    pub id: Seq<char>,
    pub display_name: Seq<char>,
    pub base_model_name: Seq<char>,
    pub base_url: Seq<char>,
    pub api_style: Seq<char>,
    pub token: Seq<char>,
    pub token_configured: bool,
    pub headers: Seq<(Seq<char>, Seq<char>)>,
    pub reasoning_field_name: Seq<char>,
    pub thinking: Seq<char>,
    pub thinking_budget: Option<u32>,
    pub description: Option<Seq<char>>,
    pub system_prompt: Option<Seq<char>>,
    pub enabled_tools: Option<Set<Seq<char>>>,
}

/// Why a configuration cannot be used.
#[derive(Debug)]
pub enum ConfigError {
    MissingActiveModel,
    MissingModelProvider,
    MissingModelName,
    MissingApiBase,
    ActiveModelNotFound(String),
    ProviderNotFound { provider: String, model: String },
    NoApiKey { provider: String },
    SystemPrompt(String),
}

/// The mathematical content of a [`ConfigError`].
#[verifier::ext_equal]
pub enum ErrorView {
    MissingActiveModel,
    MissingModelProvider,
    MissingModelName,
    MissingApiBase,
    ActiveModelNotFound(Seq<char>),
    ProviderNotFound { provider: Seq<char>, model: Seq<char> },
    NoApiKey { provider: Seq<char> },
    SystemPrompt(Seq<char>),
}

pub open spec fn pair_texts(pairs: Seq<(String, String)>) -> Seq<(Seq<char>, Seq<char>)> {
    pairs.map_values(|pair: (String, String)| (pair.0@, pair.1@))
}

impl View for ResolvedLocalLlm {
    type V = ModelView;

    open spec fn view(&self) -> ModelView {
        ModelView {
            id: self.id@,
            display_name: self.display_name@,
            base_model_name: self.base_model_name@,
            base_url: self.base_url@,
            api_style: self.api_style@,
            token: self.token@,
            token_configured: self.token_configured,
            headers: pair_texts(self.headers@),
            reasoning_field_name: self.reasoning_field_name@,
            thinking: self.thinking@,
            thinking_budget: self.thinking_budget,
            description: opt_text(self.description),
            system_prompt: opt_text(self.system_prompt),
            enabled_tools: match self.enabled_tools {
                Some(tools) => Some(texts(tools@).to_set()),
                None => None,
            },
        }
    }
}

impl View for ConfigError {
    type V = ErrorView;

    open spec fn view(&self) -> ErrorView {
        match *self {
            ConfigError::MissingActiveModel => ErrorView::MissingActiveModel,
            ConfigError::MissingModelProvider => ErrorView::MissingModelProvider,
            ConfigError::MissingModelName => ErrorView::MissingModelName,
            ConfigError::MissingApiBase => ErrorView::MissingApiBase,
            ConfigError::ActiveModelNotFound(name) => ErrorView::ActiveModelNotFound(name@),
            ConfigError::ProviderNotFound { provider, model } => ErrorView::ProviderNotFound {
                provider: provider@,
                model: model@,
            },
            ConfigError::NoApiKey { provider } => ErrorView::NoApiKey { provider: provider@ },
            ConfigError::SystemPrompt(why) => ErrorView::SystemPrompt(why@),
        }
    }
}

/// A setting without white space around it; a blank one is as good as none.
pub open spec fn setting(value: Option<Seq<char>>) -> Option<Seq<char>> {
    match value {
        Some(text) => if is_blank(text) {
            None
        } else {
            Some(trimmed(text))
        },
        None => None,
    }
}

pub open spec fn setting_or(value: Option<Seq<char>>, default: Seq<char>) -> Seq<char> {
    match setting(value) {
        Some(text) => text,
        None => default,
    }
}

pub open spec fn first_of(a: Option<Seq<char>>, b: Option<Seq<char>>) -> Option<Seq<char>> {
    if a is Some {
        a
    } else {
        b
    }
}

/// The value of an environment variable.
pub open spec fn env_value(env: Seq<(Seq<char>, Seq<char>)>, name: Seq<char>) -> Option<Seq<char>>
    decreases env.len(),
{
    if env.len() == 0 {
        None
    } else if env[0].0 == name {
        Some(env[0].1)
    } else {
        env_value(env.skip(1), name)
    }
}

/// The key for a provider: as configured, or else from the environment variable it names.
pub open spec fn api_key(
    provider: LocalLlmProviderConfig,
    env: Seq<(Seq<char>, Seq<char>)>,
) -> Option<Seq<char>> {
    match setting(first_of(opt_text(provider.api_key), opt_text(provider.token))) {
        Some(key) => Some(key),
        None => match setting(opt_text(provider.api_key_env_var)) {
            Some(name) => setting(env_value(env, name)),
            None => None,
        },
    }
}

/// Headers without white space around them; those with a blank name or value are left out.
pub open spec fn clean_headers(headers: Seq<(Seq<char>, Seq<char>)>) -> Seq<(Seq<char>, Seq<char>)>
    decreases headers.len(),
{
    if headers.len() == 0 {
        seq![]
    } else {
        let rest = clean_headers(headers.drop_last());
        let (name, value) = headers.last();
        if is_blank(name) || is_blank(value) {
            rest
        } else {
            rest.push((trimmed(name), trimmed(value)))
        }
    }
}

/// The tools that are enabled: all, unless some are named.
pub open spec fn tool_set(names: Seq<Seq<char>>) -> Option<Set<Seq<char>>> {
    if names.len() == 0 {
        None
    } else {
        Some(
            Set::new(
                |tool: Seq<char>|
                    exists|i: int|
                        0 <= i < names.len() && !is_blank(#[trigger] names[i]) && trimmed(names[i])
                            == tool,
            ),
        )
    }
}

/// What a model goes by: its alias, or else its name.
pub open spec fn alias_or_name_of(model: LocalLlmConfigModel) -> Seq<char> {
    setting_or(opt_text(model.alias), setting_or(Some(model.name@), "unknown"@))
}

/// Whether a model is meant by `active`.
pub open spec fn is_called(model: LocalLlmConfigModel, active: Seq<char>) -> bool {
    ||| model.alias matches Some(alias) && trimmed(alias@) == active
    ||| trimmed(model.name@) == active
    ||| model.id matches Some(id) && trimmed(id@) == active
}

pub open spec fn is_provider(provider: LocalLlmProviderConfig, name: Seq<char>) -> bool {
    trimmed(provider.name@) == name
}

/// The first provider with a name.
pub open spec fn provider_named(
    providers: Seq<LocalLlmProviderConfig>,
    name: Seq<char>,
) -> Option<LocalLlmProviderConfig>
    decreases providers.len(),
{
    if providers.len() == 0 {
        None
    } else if is_provider(providers[0], name) {
        Some(providers[0])
    } else {
        provider_named(providers.skip(1), name)
    }
}

/// The first model that is meant by `active`.
pub open spec fn model_called(models: Seq<LocalLlmConfigModel>, active: Seq<char>) -> Option<
    LocalLlmConfigModel,
>
    decreases models.len(),
{
    if models.len() == 0 {
        None
    } else if is_called(models[0], active) {
        Some(models[0])
    } else {
        model_called(models.skip(1), active)
    }
}

/// The system prompt: from the file where one is configured, or else as configured. `file` is what
/// reading that file gave.
pub open spec fn system_prompt_of(
    agent: LocalLlmAgentConfig,
    file: Result<String, String>,
) -> Result<Option<Seq<char>>, ErrorView> {
    if setting(opt_text(agent.system_prompt_file)) is Some {
        match file {
            Ok(contents) => Ok(Some(trimmed(contents@))),
            Err(why) => Err(ErrorView::SystemPrompt(why@)),
        }
    } else {
        Ok(opt_text(agent.system_prompt))
    }
}

/// A model as it is used.
pub open spec fn resolved(
    config: LocalLlmConfig,
    model: LocalLlmConfigModel,
    env: Seq<(Seq<char>, Seq<char>)>,
    file: Result<String, String>,
) -> Result<ModelView, ErrorView> {
    let provider_name = trimmed(model.provider@);
    let found = provider_named(config.providers@, provider_name);
    if provider_name.len() == 0 {
        Err(ErrorView::MissingModelProvider)
    } else if found is None {
        Err(
            ErrorView::ProviderNotFound {
                provider: provider_name,
                model: alias_or_name_of(model),
            },
        )
    } else if is_blank(model.name@) {
        Err(ErrorView::MissingModelName)
    } else {
        let provider = found->0;
        let alias = alias_or_name_of(model);
        if is_blank(provider.api_base@) {
            Err(ErrorView::MissingApiBase)
        } else if api_key(provider, env) is None {
            Err(ErrorView::NoApiKey { provider: provider.name@ })
        } else {
            match system_prompt_of(config.agent, file) {
                Err(why) => Err(why),
                Ok(system_prompt) => Ok(
                    ModelView {
                        id: setting_or(opt_text(model.id), alias),
                        display_name: setting_or(opt_text(model.display_name), alias),
                        base_model_name: trimmed(model.name@),
                        base_url: trimmed(provider.api_base@),
                        api_style: setting_or(opt_text(provider.api_style), "openai"@),
                        token: api_key(provider, env)->0,
                        token_configured: true,
                        headers: clean_headers(pair_texts(provider.headers@)),
                        reasoning_field_name: setting_or(
                            opt_text(provider.reasoning_field_name),
                            "reasoning_content"@,
                        ),
                        thinking: setting_or(opt_text(model.thinking), "auto"@),
                        thinking_budget: model.thinking_budget,
                        description: setting(
                            first_of(opt_text(model.description), opt_text(provider.description)),
                        ),
                        system_prompt,
                        enabled_tools: tool_set(texts(config.agent.enabled_tools@)),
                    },
                ),
            }
        }
    }
}

/// All models as they are used, or the first reason why one cannot be.
pub open spec fn resolved_all(
    config: LocalLlmConfig,
    models: Seq<LocalLlmConfigModel>,
    env: Seq<(Seq<char>, Seq<char>)>,
    file: Result<String, String>,
) -> Result<Seq<ModelView>, ErrorView>
    decreases models.len(),
{
    if models.len() == 0 {
        Ok(seq![])
    } else {
        match resolved_all(config, models.drop_last(), env, file) {
            Err(why) => Err(why),
            Ok(rest) => match resolved(config, models.last(), env, file) {
                Err(why) => Err(why),
                Ok(model) => Ok(rest.push(model)),
            },
        }
    }
}

/// The model in use.
pub open spec fn resolved_active(
    config: LocalLlmConfig,
    env: Seq<(Seq<char>, Seq<char>)>,
    file: Result<String, String>,
) -> Result<ModelView, ErrorView> {
    let active = trimmed(config.active_model@);
    if active.len() == 0 {
        Err(ErrorView::MissingActiveModel)
    } else {
        match model_called(config.models@, active) {
            None => Err(ErrorView::ActiveModelNotFound(active)),
            Some(model) => resolved(config, model, env, file),
        }
    }
}

pub open spec fn model_views(models: Seq<ResolvedLocalLlm>) -> Seq<ModelView> {
    models.map_values(|model: ResolvedLocalLlm| model@)
}

fn setting_of(value: &Option<String>) -> (out: Option<String>)
    ensures
        opt_text(out) == setting(opt_text(*value)),
{
    match value {
        Some(text) => {
            let text = trim(text.as_str());
            if text.is_empty() {
                None
            } else {
                Some(text.to_owned())
            }
        },
        None => None,
    }
}

fn setting_or_else(value: &Option<String>, default: &str) -> (out: String)
    ensures
        out@ == setting_or(opt_text(*value), default@),
{
    match setting_of(value) {
        Some(text) => text,
        None => default.to_owned(),
    }
}

fn env_lookup(env: &Vec<(String, String)>, name: &str) -> (value: Option<String>)
    ensures
        opt_text(value) == env_value(pair_texts(env@), name@),
{
    let ghost all = pair_texts(env@);
    let mut i: usize = 0;
    assert(all.skip(0) =~= all);
    while i < env.len()
        invariant
            i <= env.len(),
            all == pair_texts(env@),
            env_value(all, name@) == env_value(all.skip(i as int), name@),
        decreases env.len() - i,
    {
        assert(all.skip(i as int)[0] == all[i as int]);
        if same(env[i].0.as_str(), name) {
            return Some(env[i].1.clone());
        }
        assert(all.skip(i as int).skip(1) =~= all.skip(i + 1));
        i += 1;
    }
    None
}

impl LocalLlmAgentConfig {
    /// The file that the system prompt is read from, if one is configured.
    pub fn prompt_file(&self) -> (path: Option<String>)
        ensures
            opt_text(path) == setting(opt_text(self.system_prompt_file)),
    {
        setting_of(&self.system_prompt_file)
    }

    /// The system prompt; `file` is what reading its file gave.
    pub fn resolve_system_prompt(&self, file: &Result<String, String>) -> (prompt: Result<
        Option<String>,
        ConfigError,
    >)
        ensures
            match prompt {
                Ok(prompt) => system_prompt_of(*self, *file) == Ok::<_, ErrorView>(opt_text(prompt)),
                Err(why) => system_prompt_of(*self, *file) == Err::<Option<Seq<char>>, _>(why@),
            },
    {
        if self.prompt_file().is_some() {
            match file {
                Ok(contents) => Ok(Some(trim(contents.as_str()).to_owned())),
                Err(why) => Err(ConfigError::SystemPrompt(why.clone())),
            }
        } else {
            match &self.system_prompt {
                Some(prompt) => Ok(Some(prompt.clone())),
                None => Ok(None),
            }
        }
    }

    /// The tools that are enabled, `None` for all.
    pub fn enabled_tools_set(&self) -> (tools: Option<Vec<String>>)
        ensures
            match tools {
                Some(tools) => tool_set(texts(self.enabled_tools@)) == Some(texts(tools@).to_set()),
                None => tool_set(texts(self.enabled_tools@)) is None,
            },
    {
        if self.enabled_tools.len() == 0 {
            return None;
        }
        let ghost names = texts(self.enabled_tools@);
        let mut tools: Vec<String> = Vec::new();
        let mut i: usize = 0;
        while i < self.enabled_tools.len()
            invariant
                i <= self.enabled_tools.len(),
                names == texts(self.enabled_tools@),
                forall|tool: Seq<char>| #[trigger]
                    texts(tools@).contains(tool) <==> exists|j: int|
                        0 <= j < i && !is_blank(#[trigger] names[j]) && trimmed(names[j]) == tool,
            decreases self.enabled_tools.len() - i,
        {
            let ghost before = texts(tools@);
            let name = trim(self.enabled_tools[i].as_str());
            if !name.is_empty() {
                tools.push(name.to_owned());
                assert(texts(tools@) =~= before.push(trimmed(names[i as int])));
            }
            assert forall|tool: Seq<char>| #[trigger]
                texts(tools@).contains(tool) <==> exists|j: int|
                    0 <= j < i + 1 && !is_blank(#[trigger] names[j]) && trimmed(names[j]) == tool by {
                if texts(tools@).contains(tool) {
                    let k = choose|k: int| 0 <= k < texts(tools@).len() && texts(tools@)[k] == tool;
                    if k < before.len() {
                        assert(before[k] == tool);
                        assert(before.contains(tool));
                        let j = choose|j: int|
                            0 <= j < i && !is_blank(#[trigger] names[j]) && trimmed(names[j]) == tool;
                        assert(!is_blank(names[j]));
                    } else {
                        assert(!is_blank(names[i as int]));
                    }
                }
                if exists|j: int|
                    0 <= j < i + 1 && !is_blank(#[trigger] names[j]) && trimmed(names[j]) == tool {
                    let j = choose|j: int|
                        0 <= j < i + 1 && !is_blank(#[trigger] names[j]) && trimmed(names[j])
                            == tool;
                    if j < i {
                        assert(before.contains(tool));
                        let k = choose|k: int| 0 <= k < before.len() && before[k] == tool;
                        assert(texts(tools@)[k] == tool);
                    } else {
                        assert(texts(tools@)[texts(tools@).len() - 1] == tool);
                    }
                }
            }
            i += 1;
        }
        assert(tool_set(names)->0 =~= texts(tools@).to_set());
        Some(tools)
    }
}

impl LocalLlmProviderConfig {
    /// The key for this provider; `env` holds the environment.
    pub fn resolve_api_key(&self, env: &Vec<(String, String)>) -> (key: Option<String>)
        ensures
            opt_text(key) == api_key(*self, pair_texts(env@)),
    {
        let configured = if self.api_key.is_some() {
            setting_of(&self.api_key)
        } else {
            setting_of(&self.token)
        };
        match configured {
            Some(key) => Some(key),
            None => match setting_of(&self.api_key_env_var) {
                Some(name) => setting_of(&env_lookup(env, name.as_str())),
                None => None,
            },
        }
    }

    pub fn resolved_headers(&self) -> (headers: Vec<(String, String)>)
        ensures
            pair_texts(headers@) == clean_headers(pair_texts(self.headers@)),
    {
        let ghost all = pair_texts(self.headers@);
        let mut headers: Vec<(String, String)> = Vec::new();
        let mut i: usize = 0;
        assert(all.take(0) =~= Seq::empty());
        assert(pair_texts(headers@) =~= Seq::empty());
        while i < self.headers.len()
            invariant
                i <= self.headers.len(),
                all == pair_texts(self.headers@),
                pair_texts(headers@) == clean_headers(all.take(i as int)),
            decreases self.headers.len() - i,
        {
            let ghost before = headers@;
            assert(all.take(i + 1).drop_last() =~= all.take(i as int));
            let name = trim(self.headers[i].0.as_str());
            let value = trim(self.headers[i].1.as_str());
            if !name.is_empty() && !value.is_empty() {
                headers.push((name.to_owned(), value.to_owned()));
                assert(pair_texts(headers@) =~= pair_texts(before).push((name@, value@)));
            }
            i += 1;
        }
        assert(all.take(all.len() as int) =~= all);
        headers
    }
}

impl LocalLlmConfigModel {
    /// What this model goes by.
    pub fn alias_or_name(&self) -> (name: String)
        ensures
            name@ == alias_or_name_of(*self),
    {
        match setting_of(&self.alias) {
            Some(alias) => alias,
            None => {
                let name = trim(self.name.as_str());
                if name.is_empty() {
                    "unknown".to_owned()
                } else {
                    name.to_owned()
                }
            },
        }
    }

    /// Whether this model is meant by `active_model`.
    pub fn matches(&self, active_model: &str) -> (yes: bool)
        ensures
            yes == is_called(*self, active_model@),
    {
        if let Some(alias) = &self.alias {
            if same(trim(alias.as_str()), active_model) {
                return true;
            }
        }
        if same(trim(self.name.as_str()), active_model) {
            return true;
        }
        match &self.id {
            Some(id) => same(trim(id.as_str()), active_model),
            None => false,
        }
    }
}

impl LocalLlmConfig {
    fn find_provider(&self, name: &str) -> (found: Option<&LocalLlmProviderConfig>)
        ensures
            match found {
                Some(provider) => provider_named(self.providers@, name@) == Some(*provider),
                None => provider_named(self.providers@, name@) is None,
            },
    {
        let mut i: usize = 0;
        assert(self.providers@.skip(0) =~= self.providers@);
        while i < self.providers.len()
            invariant
                i <= self.providers.len(),
                provider_named(self.providers@, name@) == provider_named(
                    self.providers@.skip(i as int),
                    name@,
                ),
            decreases self.providers.len() - i,
        {
            assert(self.providers@.skip(i as int)[0] == self.providers@[i as int]);
            if same(trim(self.providers[i].name.as_str()), name) {
                return Some(&self.providers[i]);
            }
            assert(self.providers@.skip(i as int).skip(1) =~= self.providers@.skip(i + 1));
            i += 1;
        }
        None
    }

    fn find_model(&self, active: &str) -> (found: Option<&LocalLlmConfigModel>)
        ensures
            match found {
                Some(model) => model_called(self.models@, active@) == Some(*model),
                None => model_called(self.models@, active@) is None,
            },
    {
        let mut i: usize = 0;
        assert(self.models@.skip(0) =~= self.models@);
        while i < self.models.len()
            invariant
                i <= self.models.len(),
                model_called(self.models@, active@) == model_called(
                    self.models@.skip(i as int),
                    active@,
                ),
            decreases self.models.len() - i,
        {
            assert(self.models@.skip(i as int)[0] == self.models@[i as int]);
            if self.models[i].matches(active) {
                return Some(&self.models[i]);
            }
            assert(self.models@.skip(i as int).skip(1) =~= self.models@.skip(i + 1));
            i += 1;
        }
        None
    }

    /// Everything that is needed to use `model`. `env` holds the environment, `file` what reading
    /// the prompt file gave.
    pub fn resolve_model(
        &self,
        model: &LocalLlmConfigModel,
        env: &Vec<(String, String)>,
        file: &Result<String, String>,
    ) -> (out: Result<ResolvedLocalLlm, ConfigError>)
        ensures
            match out {
                Ok(out) => resolved(*self, *model, pair_texts(env@), *file) == Ok::<_, ErrorView>(
                    out@,
                ),
                Err(why) => resolved(*self, *model, pair_texts(env@), *file) == Err::<ModelView, _>(
                    why@,
                ),
            },
    {
        let provider_name = trim(model.provider.as_str());
        if provider_name.is_empty() {
            return Err(ConfigError::MissingModelProvider);
        }
        let alias = model.alias_or_name();
        let provider = match self.find_provider(provider_name) {
            Some(provider) => provider,
            None => {
                return Err(
                    ConfigError::ProviderNotFound {
                        provider: provider_name.to_owned(),
                        model: alias,
                    },
                );
            },
        };
        let model_name = trim(model.name.as_str());
        if model_name.is_empty() {
            return Err(ConfigError::MissingModelName);
        }
        let api_base = trim(provider.api_base.as_str());
        if api_base.is_empty() {
            return Err(ConfigError::MissingApiBase);
        }
        let token = match provider.resolve_api_key(env) {
            Some(token) => token,
            None => {
                return Err(ConfigError::NoApiKey { provider: provider.name.clone() });
            },
        };
        let system_prompt = match self.agent.resolve_system_prompt(file) {
            Ok(system_prompt) => system_prompt,
            Err(why) => {
                return Err(why);
            },
        };
        let description = if model.description.is_some() {
            setting_of(&model.description)
        } else {
            setting_of(&provider.description)
        };
        Ok(
            ResolvedLocalLlm {
                id: setting_or_else(&model.id, alias.as_str()),
                display_name: setting_or_else(&model.display_name, alias.as_str()),
                base_model_name: model_name.to_owned(),
                base_url: api_base.to_owned(),
                api_style: setting_or_else(&provider.api_style, "openai"),
                token,
                token_configured: true,
                headers: provider.resolved_headers(),
                reasoning_field_name: setting_or_else(
                    &provider.reasoning_field_name,
                    "reasoning_content",
                ),
                thinking: setting_or_else(&model.thinking, "auto"),
                thinking_budget: model.thinking_budget,
                description,
                system_prompt,
                enabled_tools: self.agent.enabled_tools_set(),
            },
        )
    }

    /// All models, or the first reason why one cannot be used.
    pub fn models(&self, env: &Vec<(String, String)>, file: &Result<String, String>) -> (out: Result<
        Vec<ResolvedLocalLlm>,
        ConfigError,
    >)
        ensures
            match out {
                Ok(models) => resolved_all(*self, self.models@, pair_texts(env@), *file) == Ok::<
                    _,
                    ErrorView,
                >(model_views(models@)),
                Err(why) => resolved_all(*self, self.models@, pair_texts(env@), *file) == Err::<
                    Seq<ModelView>,
                    _,
                >(why@),
            },
    {
        let mut models: Vec<ResolvedLocalLlm> = Vec::new();
        let ghost environment = pair_texts(env@);
        let mut i: usize = 0;
        assert(self.models@.take(0) =~= Seq::empty());
        assert(model_views(models@) =~= Seq::empty());
        while i < self.models.len()
            invariant
                i <= self.models.len(),
                environment == pair_texts(env@),
                resolved_all(*self, self.models@.take(i as int), environment, *file) == Ok::<
                    _,
                    ErrorView,
                >(model_views(models@)),
            decreases self.models.len() - i,
        {
            let ghost before = models@;
            let ghost head = self.models@.take(i + 1);
            assert(head.drop_last() =~= self.models@.take(i as int));
            match self.resolve_model(&self.models[i], env, file) {
                Ok(model) => {
                    models.push(model);
                    assert(model_views(models@) =~= model_views(before).push(model@));
                },
                Err(why) => {
                    proof {
                        lemma_first_error(*self, self.models@, environment, *file, i + 1);
                    }
                    return Err(why);
                },
            }
            i += 1;
        }
        assert(self.models@.take(self.models@.len() as int) =~= self.models@);
        Ok(models)
    }

    /// The model in use.
    pub fn active_model(&self, env: &Vec<(String, String)>, file: &Result<String, String>) -> (out:
        Result<ResolvedLocalLlm, ConfigError>)
        ensures
            match out {
                Ok(out) => resolved_active(*self, pair_texts(env@), *file) == Ok::<_, ErrorView>(
                    out@,
                ),
                Err(why) => resolved_active(*self, pair_texts(env@), *file) == Err::<ModelView, _>(
                    why@,
                ),
            },
    {
        let active = trim(self.active_model.as_str());
        if active.is_empty() {
            return Err(ConfigError::MissingActiveModel);
        }
        match self.find_model(active) {
            Some(model) => self.resolve_model(model, env, file),
            None => Err(ConfigError::ActiveModelNotFound(active.to_owned())),
        }
    }
}

proof fn lemma_first_error(
    config: LocalLlmConfig,
    models: Seq<LocalLlmConfigModel>,
    env: Seq<(Seq<char>, Seq<char>)>,
    file: Result<String, String>,
    n: int,
)
    requires
        0 <= n <= models.len(),
        resolved_all(config, models.take(n), env, file) is Err,
    ensures
        resolved_all(config, models, env, file) == resolved_all(config, models.take(n), env, file),
    decreases models.len() - n,
{
    if n == models.len() {
        assert(models.take(n) =~= models);
    } else {
        assert(models.take(n + 1).drop_last() =~= models.take(n));
        lemma_first_error(config, models, env, file, n + 1);
    }
}

impl ConfigError {
    pub open spec fn text(self) -> Seq<char> {
        match self {
            ConfigError::MissingActiveModel => "active_model is required"@,
            ConfigError::MissingModelProvider => "model.provider is required"@,
            ConfigError::MissingModelName => "model.name is required"@,
            ConfigError::MissingApiBase => "provider.api_base is required"@,
            ConfigError::ActiveModelNotFound(name) => "active_model '"@ + name@
                + "' was not found in models"@,
            ConfigError::ProviderNotFound { provider, model } => "provider '"@ + provider@
                + "' for model '"@ + model@ + "' was not found"@,
            ConfigError::NoApiKey { provider } => "provider '"@ + provider@
                + "' requires api_key, token, or api_key_env_var with a value"@,
            ConfigError::SystemPrompt(why) => why@,
        }
    }

    /// What is wrong, in words.
    pub fn message(&self) -> (text: String)
        ensures
            text@ == self.text(),
    {
        match self {
            ConfigError::MissingActiveModel => "active_model is required".to_owned(),
            ConfigError::MissingModelProvider => "model.provider is required".to_owned(),
            ConfigError::MissingModelName => "model.name is required".to_owned(),
            ConfigError::MissingApiBase => "provider.api_base is required".to_owned(),
            ConfigError::ActiveModelNotFound(name) => {
                let mut text = "active_model '".to_owned();
                text.append(name.as_str());
                text.append("' was not found in models");
                text
            },
            ConfigError::ProviderNotFound { provider, model } => {
                let mut text = "provider '".to_owned();
                text.append(provider.as_str());
                text.append("' for model '");
                text.append(model.as_str());
                text.append("' was not found");
                text
            },
            ConfigError::NoApiKey { provider } => {
                let mut text = "provider '".to_owned();
                text.append(provider.as_str());
                text.append("' requires api_key, token, or api_key_env_var with a value");
                text
            },
            ConfigError::SystemPrompt(why) => why.clone(),
        }
    }
}


/// The name under which a model's provider is known to clients.
pub open spec fn provider_label(style: Seq<char>) -> Seq<char> {
    let style = lowered(trimmed(style));
    if style == "anthropic"@ {
        "ANTHROPIC"@
    } else if style == "google"@ || style == "gemini"@ {
        "GOOGLE"@
    } else if style == "openai"@ || style == "openai-compatible"@ || style == "openai_compatible"@ {
        "OPENAI"@
    } else if style == "xai"@ || style == "grok"@ {
        "XAI"@
    } else {
        "UNKNOWN"@
    }
}

/// The name of a style of interface.
pub open spec fn style_label(style: Seq<char>) -> Seq<char> {
    let name = lowered(trimmed(style));
    if name == "anthropic"@ {
        "Anthropic"@
    } else if name == "google"@ || name == "gemini"@ {
        "Google"@
    } else if name == "openai"@ || name == "openai-compatible"@ || name == "openai_compatible"@ {
        "OpenAI"@
    } else if name == "xai"@ || name == "grok"@ {
        "xAI"@
    } else if name == "openrouter"@ {
        "OpenRouter"@
    } else {
        trimmed(style)
    }
}

impl ResolvedLocalLlm {
    /// The name under which this model's provider is known to clients.
    pub fn provider(&self) -> (name: &'static str)
        ensures
            name@ == provider_label(self.api_style@),
    {
        let style = to_lower(trim(self.api_style.as_str()));
        let style = style.as_str();
        if same(style, "anthropic") {
            "ANTHROPIC"
        } else if same(style, "google") || same(style, "gemini") {
            "GOOGLE"
        } else if same(style, "openai") || same(style, "openai-compatible") || same(
            style,
            "openai_compatible",
        ) {
            "OPENAI"
        } else if same(style, "xai") || same(style, "grok") {
            "XAI"
        } else {
            "UNKNOWN"
        }
    }

    pub fn api_style_label(&self) -> (label: String)
        ensures
            label@ == style_label(self.api_style@),
    {
        let name = to_lower(trim(self.api_style.as_str()));
        let name = name.as_str();
        if same(name, "anthropic") {
            "Anthropic".to_owned()
        } else if same(name, "google") || same(name, "gemini") {
            "Google".to_owned()
        } else if same(name, "openai") || same(name, "openai-compatible") || same(
            name,
            "openai_compatible",
        ) {
            "OpenAI".to_owned()
        } else if same(name, "xai") || same(name, "grok") {
            "xAI".to_owned()
        } else if same(name, "openrouter") {
            "OpenRouter".to_owned()
        } else {
            trim(self.api_style.as_str()).to_owned()
        }
    }

    /// The configured description, or else the style of the interface.
    pub fn description(&self) -> (text: String)
        ensures
            text@ == match self@.description {
                Some(description) => description,
                None => "Local "@ + style_label(self.api_style@),
            },
    {
        match &self.description {
            Some(description) => description.clone(),
            None => {
                let mut text = "Local ".to_owned();
                text.append(self.api_style_label().as_str());
                text
            },
        }
    }

    /// The configured system prompt, unless it is blank.
    pub fn configured_system_prompt(&self) -> (prompt: Option<&str>)
        ensures
            match prompt {
                Some(prompt) => self@.system_prompt == Some(prompt@) && !is_blank(prompt@),
                None => self@.system_prompt is None || is_blank(self@.system_prompt->0),
            },
    {
        match &self.system_prompt {
            Some(prompt) => {
                if trim(prompt.as_str()).is_empty() {
                    None
                } else {
                    Some(prompt.as_str())
                }
            },
            None => None,
        }
    }
}

/// Why a prompt file cannot be found.
#[derive(Debug)]
pub enum PathError {
    Empty,
    NoHome(String),
}

/// Where a prompt file is: below the home directory where it starts with `~/`, or else below the
/// configuration directory.
pub open spec fn prompt_path(path: Seq<char>, home: Option<Seq<char>>, config_dir: Seq<char>) -> Option<
    Seq<char>,
> {
    let path = trimmed(path);
    if path.len() == 0 {
        None
    } else if "~/"@.is_prefix_of(path) {
        match home {
            None => None,
            Some(home) => if path.len() <= 2 {
                Some(home)
            } else {
                Some(joined_path(home, path.skip(2)))
            },
        }
    } else {
        Some(joined_path(config_dir, path))
    }
}

/// Where a prompt file is.
pub fn resolve_agent_path(path: &str, home: Option<&str>, config_dir: &str) -> (out: Result<
    String,
    PathError,
>)
    ensures
        match out {
            Ok(out) => prompt_path(
                path@,
                match home {
                    Some(home) => Some(home@),
                    None => None,
                },
                config_dir@,
            ) == Some(out@),
            Err(PathError::Empty) => is_blank(path@),
            Err(PathError::NoHome(named)) => {
                &&& named@ == trimmed(path@)
                &&& !is_blank(path@)
                &&& "~/"@.is_prefix_of(named@)
                &&& home is None
            },
        },
{
    let path = trim(path);
    if path.is_empty() {
        return Err(PathError::Empty);
    }
    proof {
        reveal_strlit("~/");
    }
    match strip_prefix(path, "~/") {
        Some(rest) => match home {
            None => Err(PathError::NoHome(path.to_owned())),
            Some(home) => {
                if rest.is_empty() {
                    Ok(home.to_owned())
                } else {
                    Ok(join_path(home, rest))
                }
            },
        },
        None => Ok(join_path(config_dir, path)),
    }
}

} // verus!
