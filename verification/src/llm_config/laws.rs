//! What a configuration means.

use vstd::prelude::*;

use crate::llm_config::{
    ErrorView, LocalLlmConfig, LocalLlmConfigModel, LocalLlmProviderConfig, ModelView, api_key,
    clean_headers, is_called, model_called, pair_texts, prompt_path, provider_label, provider_named,
    resolved, resolved_active, resolved_all, style_label, tool_set,
};
use crate::paths::joined_path;
use crate::text::{is_blank, lowered, opt_text, texts, trimmed};

verus! {

/// A setting that was made: what it says, without white space around it.
pub open spec fn is_set(setting: Option<String>, value: Seq<char>) -> bool {
    setting matches Some(text) && !is_blank(text@) && trimmed(text@) == value
}

/// A setting that was not made, or was left blank.
pub open spec fn is_unset(setting: Option<String>) -> bool {
    setting matches Some(text) ==> is_blank(text@)
}

/// A provider is found by its name. Of several with one name it is the first.
pub proof fn law_providers_are_found(
    providers: Seq<LocalLlmProviderConfig>,
    name: Seq<char>,
    at: int,
)
    requires
        0 <= at < providers.len(),
        trimmed(providers[at].name@) == name,
        forall|i: int| 0 <= i < at ==> trimmed((#[trigger] providers[i]).name@) != name,
    ensures
        provider_named(providers, name) == Some(providers[at]),
    decreases at,
{
    if at > 0 {
        assert(trimmed(providers[0].name@) != name);
        assert forall|i: int| 0 <= i < at - 1 implies trimmed(
            (#[trigger] providers.skip(1)[i]).name@,
        ) != name by {
            assert(providers.skip(1)[i] == providers[i + 1]);
        }
        law_providers_are_found(providers.skip(1), name, at - 1);
    }
}

/// A model goes by its alias, by its name and by its id. Of several that go by one name it is the
/// first.
pub proof fn law_models_are_found(models: Seq<LocalLlmConfigModel>, name: Seq<char>, at: int)
    requires
        0 <= at < models.len(),
        is_set(models[at].alias, name) || trimmed(models[at].name@) == name || is_set(
            models[at].id,
            name,
        ),
        forall|i: int| 0 <= i < at ==> !is_called(#[trigger] models[i], name),
    ensures
        model_called(models, name) == Some(models[at]),
        forall|model: LocalLlmConfigModel| #[trigger]
            is_called(model, name) ==> trimmed(model.name@) == name || (model.alias is Some
                && trimmed(model.alias->0@) == name) || (model.id is Some && trimmed(model.id->0@)
                == name),
    decreases at,
{
    if at > 0 {
        assert(!is_called(models[0], name));
        assert forall|i: int| 0 <= i < at - 1 implies !is_called(
            #[trigger] models.skip(1)[i],
            name,
        ) by {
            assert(models.skip(1)[i] == models[i + 1]);
        }
        law_models_are_found(models.skip(1), name, at - 1);
    }
}

/// The key of a provider is the one in the configuration, and else the value of the environment
/// variable that the configuration names.
pub proof fn law_keys_are_found(
    provider: LocalLlmProviderConfig,
    env: Seq<(Seq<char>, Seq<char>)>,
    key: Seq<char>,
    variable: Seq<char>,
    at: int,
)
    ensures
        is_set(provider.api_key, key) ==> api_key(provider, env) == Some(key),
        provider.api_key is None && is_set(provider.token, key) ==> api_key(provider, env) == Some(
            key,
        ),
        provider.api_key is None && is_unset(provider.token) && is_set(
            provider.api_key_env_var,
            variable,
        ) && 0 <= at < env.len() && env[at].0 == variable && !is_blank(env[at].1) && (forall|i: int|
            0 <= i < at ==> (#[trigger] env[i]).0 != variable) ==> api_key(provider, env) == Some(
            trimmed(env[at].1),
        ),
        provider.api_key is None && is_unset(provider.token) && is_unset(provider.api_key_env_var)
            ==> api_key(provider, env) is None,
{
    if 0 <= at < env.len() && env[at].0 == variable && (forall|i: int|
        0 <= i < at ==> (#[trigger] env[i]).0 != variable) {
        lemma_env_value(env, variable, at);
    }
}

proof fn lemma_env_value(env: Seq<(Seq<char>, Seq<char>)>, name: Seq<char>, at: int)
    requires
        0 <= at < env.len(),
        env[at].0 == name,
        forall|i: int| 0 <= i < at ==> (#[trigger] env[i]).0 != name,
    ensures
        crate::llm_config::env_value(env, name) == Some(env[at].1),
    decreases at,
{
    if at > 0 {
        assert(env[0].0 != name);
        assert forall|i: int| 0 <= i < at - 1 implies (#[trigger] env.skip(1)[i]).0 != name by {
            assert(env.skip(1)[i] == env[i + 1]);
        }
        lemma_env_value(env.skip(1), name, at - 1);
    }
}

/// What a model is made of: its name and its provider's address, key and style, and for what the
/// configuration leaves out the usual values.
pub proof fn law_models_are_made_of_their_settings(
    config: LocalLlmConfig,
    model: LocalLlmConfigModel,
    provider: LocalLlmProviderConfig,
    env: Seq<(Seq<char>, Seq<char>)>,
    file: Result<String, String>,
    key: Seq<char>,
    text: Seq<char>,
)
    requires
        !is_blank(model.provider@),
        !is_blank(model.name@),
        provider_named(config.providers@, trimmed(model.provider@)) == Some(provider),
        !is_blank(provider.api_base@),
        api_key(provider, env) == Some(key),
        is_unset(config.agent.system_prompt_file),
    ensures
        resolved(config, model, env, file) matches Ok(made) && {
            &&& made.base_model_name == trimmed(model.name@)
            &&& made.base_url == trimmed(provider.api_base@)
            &&& made.token == key
            &&& made.token_configured
            &&& is_set(model.id, text) ==> made.id == text
            &&& is_unset(model.id) && is_set(model.alias, text) ==> made.id == text
            &&& is_unset(model.id) && is_unset(model.alias) ==> made.id == trimmed(model.name@)
            &&& is_set(model.display_name, text) ==> made.display_name == text
            &&& is_unset(model.display_name) && is_set(model.alias, text) ==> made.display_name
                == text
            &&& is_unset(model.display_name) && is_unset(model.alias) ==> made.display_name
                == trimmed(model.name@)
            &&& is_set(provider.api_style, text) ==> made.api_style == text
            &&& is_unset(provider.api_style) ==> made.api_style == "openai"@
            &&& is_set(provider.reasoning_field_name, text) ==> made.reasoning_field_name == text
            &&& is_unset(provider.reasoning_field_name) ==> made.reasoning_field_name
                == "reasoning_content"@
            &&& is_set(model.thinking, text) ==> made.thinking == text
            &&& is_unset(model.thinking) ==> made.thinking == "auto"@
            &&& made.thinking_budget == model.thinking_budget
            &&& is_set(model.description, text) ==> made.description == Some(text)
            &&& model.description is None && is_set(provider.description, text)
                ==> made.description == Some(text)
            &&& made.system_prompt == opt_text(config.agent.system_prompt)
            &&& made.headers == clean_headers(pair_texts(provider.headers@))
            &&& made.enabled_tools == tool_set(texts(config.agent.enabled_tools@))
        },
{
}

/// A prompt in a file of its own goes before the one in the configuration, and a file that cannot
/// be read is an error.
pub proof fn law_prompt_files_go_first(
    config: LocalLlmConfig,
    model: LocalLlmConfigModel,
    env: Seq<(Seq<char>, Seq<char>)>,
    contents: String,
    why: String,
    made: ModelView,
)
    requires
        config.agent.system_prompt_file matches Some(path) && !is_blank(path@),
        resolved(config, model, env, Ok(contents)) == Ok::<ModelView, ErrorView>(made),
    ensures
        made.system_prompt == Some(trimmed(contents@)),
        resolved(config, model, env, Err(why)) == Err::<ModelView, ErrorView>(
            ErrorView::SystemPrompt(why@),
        ),
{
}

/// What is wrong with a configuration is said: the provider that is missing or unknown, the name,
/// the address or the key that is missing.
pub proof fn law_faults_are_named(
    config: LocalLlmConfig,
    model: LocalLlmConfigModel,
    provider: LocalLlmProviderConfig,
    env: Seq<(Seq<char>, Seq<char>)>,
    file: Result<String, String>,
)
    ensures
        is_blank(model.provider@) ==> resolved(config, model, env, file) == Err::<
            ModelView,
            ErrorView,
        >(ErrorView::MissingModelProvider),
        !is_blank(model.provider@) && provider_named(config.providers@, trimmed(model.provider@))
            is None ==> (resolved(config, model, env, file) matches Err(
            ErrorView::ProviderNotFound { provider: name, .. },
        ) && name == trimmed(model.provider@)),
        !is_blank(model.provider@) && provider_named(config.providers@, trimmed(model.provider@))
            == Some(provider) ==> {
            let made = resolved(config, model, env, file);
            &&& is_blank(model.name@) ==> made == Err::<ModelView, ErrorView>(
                ErrorView::MissingModelName,
            )
            &&& !is_blank(model.name@) && is_blank(provider.api_base@) ==> made == Err::<
                ModelView,
                ErrorView,
            >(ErrorView::MissingApiBase)
            &&& !is_blank(model.name@) && !is_blank(provider.api_base@) && api_key(provider, env)
                is None ==> made == Err::<ModelView, ErrorView>(
                ErrorView::NoApiKey { provider: provider.name@ },
            )
        },
{
}

/// The model in use is the one that the configuration names, and naming none, or one that there is
/// not, is an error.
pub proof fn law_the_named_model_is_used(
    config: LocalLlmConfig,
    model: LocalLlmConfigModel,
    env: Seq<(Seq<char>, Seq<char>)>,
    file: Result<String, String>,
)
    ensures
        is_blank(config.active_model@) ==> resolved_active(config, env, file) == Err::<
            ModelView,
            ErrorView,
        >(ErrorView::MissingActiveModel),
        !is_blank(config.active_model@) && model_called(
            config.models@,
            trimmed(config.active_model@),
        ) is None ==> resolved_active(config, env, file) == Err::<ModelView, ErrorView>(
            ErrorView::ActiveModelNotFound(trimmed(config.active_model@)),
        ),
        !is_blank(config.active_model@) && model_called(
            config.models@,
            trimmed(config.active_model@),
        ) == Some(model) ==> resolved_active(config, env, file) == resolved(
            config,
            model,
            env,
            file,
        ),
{
}

/// All models of a configuration are there, in their order, or none is.
pub proof fn law_all_models_are_there(
    config: LocalLlmConfig,
    models: Seq<LocalLlmConfigModel>,
    env: Seq<(Seq<char>, Seq<char>)>,
    file: Result<String, String>,
)
    ensures
        resolved_all(config, models, env, file) matches Ok(made) ==> made.len() == models.len()
            && forall|i: int|
            0 <= i < models.len() ==> resolved(config, #[trigger] models[i], env, file) == Ok::<
                ModelView,
                ErrorView,
            >(made[i]),
        resolved_all(config, models, env, file) is Err ==> exists|i: int|
            0 <= i < models.len() && resolved(config, #[trigger] models[i], env, file) is Err,
    decreases models.len(),
{
    if models.len() > 0 {
        law_all_models_are_there(config, models.drop_last(), env, file);
        if let Ok(made) = resolved_all(config, models, env, file) {
            assert forall|i: int| 0 <= i < models.len() implies resolved(
                config,
                #[trigger] models[i],
                env,
                file,
            ) == Ok::<ModelView, ErrorView>(made[i]) by {
                if i < models.len() - 1 {
                    assert(models.drop_last()[i] == models[i]);
                }
            }
        } else if resolved_all(config, models.drop_last(), env, file) is Err {
            let i = choose|i: int|
                0 <= i < models.drop_last().len() && resolved(
                    config,
                    #[trigger] models.drop_last()[i],
                    env,
                    file,
                ) is Err;
            assert(resolved(config, models[i], env, file) is Err);
        } else {
            assert(resolved(config, models[models.len() - 1], env, file) is Err);
        }
    }
}

/// Each header with a name and a value is sent, in order; the others are left out.
pub proof fn law_headers_are_sent(
    headers: Seq<(Seq<char>, Seq<char>)>,
    name: Seq<char>,
    value: Seq<char>,
)
    ensures
        !is_blank(name) && !is_blank(value) ==> clean_headers(headers.push((name, value)))
            == clean_headers(headers).push((trimmed(name), trimmed(value))),
        is_blank(name) || is_blank(value) ==> clean_headers(headers.push((name, value)))
            == clean_headers(headers),
        clean_headers(seq![]).len() == 0,
{
    assert(headers.push((name, value)).drop_last() =~= headers);
}

/// The tools that are enabled are those that are named, and all of them where none is.
pub proof fn law_named_tools_are_enabled(names: Seq<Seq<char>>, at: int, tool: Seq<char>)
    ensures
        names.len() == 0 ==> tool_set(names) is None,
        0 <= at < names.len() && !is_blank(names[at]) ==> (tool_set(names) matches Some(tools)
            && tools.contains(trimmed(names[at]))),
        names.len() > 0 && (forall|i: int|
            0 <= i < names.len() ==> trimmed(#[trigger] names[i]) != tool) ==> (tool_set(
            names,
        ) matches Some(tools) && !tools.contains(tool)),
{
}

/// Styles are shown under the names of those who made them.
pub proof fn law_styles_are_shown(style: Seq<char>)
    ensures
        ({
            let name = lowered(trimmed(style));
            let label = provider_label(style);
            let shown = style_label(style);
            &&& name == "anthropic"@ ==> label == "ANTHROPIC"@ && shown == "Anthropic"@
            &&& name == "google"@ || name == "gemini"@ ==> label == "GOOGLE"@ && shown == "Google"@
            &&& name == "openai"@ || name == "openai-compatible"@ || name == "openai_compatible"@
                ==> label == "OPENAI"@ && shown == "OpenAI"@
            &&& name == "xai"@ || name == "grok"@ ==> label == "XAI"@ && shown == "xAI"@
            &&& name == "openrouter"@ ==> label == "UNKNOWN"@ && shown == "OpenRouter"@
        }),
{
    reveal_strlit("anthropic");
    reveal_strlit("google");
    reveal_strlit("gemini");
    reveal_strlit("openai");
    reveal_strlit("openai-compatible");
    reveal_strlit("openai_compatible");
    reveal_strlit("xai");
    reveal_strlit("grok");
    reveal_strlit("openrouter");
    assert("anthropic"@[0] == 'a' && "xai"@[0] == 'x' && "google"@[0] == 'g' && "gemini"@[0] == 'g'
        && "grok"@[0] == 'g' && "openai"@[0] == 'o' && "openai-compatible"@[0] == 'o'
        && "openai_compatible"@[0] == 'o' && "openrouter"@[0] == 'o');
    assert("google"@[1] == 'o' && "gemini"@[1] == 'e' && "grok"@[1] == 'r');
    assert("openai"@.len() == 6 && "openrouter"@.len() == 10 && "openai-compatible"@.len() == 17
        && "openai_compatible"@.len() == 17);
}

/// A prompt file is looked for beside the configuration, under the home directory where its path
/// begins there, and where an absolute path says.
pub proof fn law_prompt_files_are_looked_for(rest: Seq<char>, home: Seq<char>, dir: Seq<char>)
    requires
        rest.len() > 0,
        trimmed(rest) == rest,
        trimmed("~/"@ + rest) == "~/"@ + rest,
    ensures
        prompt_path("~/"@ + rest, Some(home), dir) == Some(joined_path(home, rest)),
        prompt_path("~/"@ + rest, None, dir) is None,
        rest[0] == '/' ==> prompt_path(rest, Some(home), dir) == Some(rest),
        rest[0] != '/' && rest[0] != '~' && dir.len() > 0 && dir.last() != '/' ==> prompt_path(
            rest,
            Some(home),
            dir,
        ) == Some(dir + seq!['/'] + rest),
{
    reveal_strlit("~/");
    assert(("~/"@ + rest).take(2) =~= "~/"@);
    assert(("~/"@ + rest).skip(2) =~= rest);
    assert(dir.push('/') =~= dir + seq!['/']);
    if "~/"@.is_prefix_of(rest) {
        assert(rest[0] == "~/"@[0]);
    }
}

} // verus!
