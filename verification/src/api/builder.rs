//! Assembling an agent: what may be registered, and the checks a build makes.
//!
//! The builder holds what the checks read: the configuration, each model provider's id
//! and models, the tool descriptors, the skills, and whether storages were registered.
//! A build checks, in this order: duplicate storages, duplicate provider and model ids,
//! the default model, the runtime limits, the compaction and memory models, duplicate
//! tool names, and each skill's name and tool dependencies.

use vstd::prelude::*;
use core::marker::PhantomData;
use crate::api::agent::{all_model_ids, AgentCore, AgentCoreView, ProviderProfile};
use crate::domain::config::AgentConfig;
use crate::domain::error::{AgentError, AgentErrorCode};
use crate::domain::model::ModelInfo;
use crate::domain::skill::SkillDefinition;
use crate::domain::tool::ToolDescriptor;
use crate::text::{concat3, contains_string, is_blank, trim};

verus! {

/// The builder has no model provider yet.
#[derive(Debug, Clone, Copy)]
pub struct NoProvider;

/// The builder has at least one model provider.
#[derive(Debug, Clone, Copy)]
pub struct HasProvider;

/// Collects the parts of an agent; only a builder with a model provider can build.
#[derive(Debug)]
pub struct AgentBuilder<S> {
    config: AgentConfig,
    providers: Vec<ProviderProfile>,
    tools: Vec<ToolDescriptor>,
    skills: Vec<SkillDefinition>,
    session_storage: bool,
    memory_storage: bool,
    duplicate_session_storage: bool,
    duplicate_memory_storage: bool,
    state: PhantomData<S>,
}

/// The mathematical model of a builder.
pub struct BuilderView {
    pub config: AgentConfig,
    pub providers: Seq<ProviderProfile>,
    pub tools: Seq<ToolDescriptor>,
    pub skills: Seq<SkillDefinition>,
    pub session_storage: bool,
    pub memory_storage: bool,
    pub duplicate_session_storage: bool,
    pub duplicate_memory_storage: bool,
}

impl<S> View for AgentBuilder<S> {
    type V = BuilderView;

    closed spec fn view(&self) -> BuilderView {
        BuilderView {
            config: self.config,
            providers: self.providers@,
            tools: self.tools@,
            skills: self.skills@,
            session_storage: self.session_storage,
            memory_storage: self.memory_storage,
            duplicate_session_storage: self.duplicate_session_storage,
            duplicate_memory_storage: self.duplicate_memory_storage,
        }
    }
}

/// The ids of the providers, in order.
pub open spec fn provider_ids(ps: Seq<ProviderProfile>) -> Seq<Seq<char>> {
    ps.map_values(|p: ProviderProfile| p.provider_id@)
}

/// The ids of the models, in order.
pub open spec fn ids_of_models(ms: Seq<ModelInfo>) -> Seq<Seq<char>> {
    ms.map_values(|m: ModelInfo| m.model_id@)
}

/// The first error among the models of provider `i` from model `j` on: a model id that
/// an earlier model of any provider has.
pub open spec fn model_error_in(ps: Seq<ProviderProfile>, i: int, j: int) -> Option<Seq<char>>
    decreases ps[i].models@.len() - j,
{
    let ms = ps[i].models@;
    if j < 0 || j >= ms.len() {
        None
    } else if (all_model_ids(ps.take(i)) + ids_of_models(ms.take(j))).contains(ms[j].model_id@) {
        Some("duplicate model id `"@ + ms[j].model_id@ + "`"@)
    } else {
        model_error_in(ps, i, j + 1)
    }
}

/// The first error among the providers from `i` on: a provider id that an earlier
/// provider has, or a duplicate model id.
pub open spec fn provider_error_at(ps: Seq<ProviderProfile>, i: int) -> Option<Seq<char>>
    decreases ps.len() - i,
{
    if i < 0 || i >= ps.len() {
        None
    } else if provider_ids(ps).take(i).contains(ps[i].provider_id@) {
        Some("duplicate provider id `"@ + ps[i].provider_id@ + "`"@)
    } else {
        match model_error_in(ps, i, 0) {
            Some(m) => Some(m),
            None => provider_error_at(ps, i + 1),
        }
    }
}

/// The position of the first name from `i` on that an earlier name repeats.
pub open spec fn first_dup_from(names: Seq<Seq<char>>, i: int) -> Option<int>
    decreases names.len() - i,
{
    if i < 0 || i >= names.len() {
        None
    } else if names.take(i).contains(names[i]) {
        Some(i)
    } else {
        first_dup_from(names, i + 1)
    }
}

/// The names of the tools, in order.
pub open spec fn tool_names(ts: Seq<ToolDescriptor>) -> Seq<Seq<char>> {
    ts.map_values(|t: ToolDescriptor| t.name@)
}

/// The names of the skills, in order.
pub open spec fn skill_names(ss: Seq<SkillDefinition>) -> Seq<Seq<char>> {
    ss.map_values(|s: SkillDefinition| s.name@)
}

/// The first dependency from `j` on that no tool provides.
pub open spec fn first_missing_dependency(deps: Seq<Seq<char>>, tools: Seq<Seq<char>>, j: int) -> Option<Seq<char>>
    decreases deps.len() - j,
{
    if j < 0 || j >= deps.len() {
        None
    } else if !tools.contains(deps[j]) {
        Some(deps[j])
    } else {
        first_missing_dependency(deps, tools, j + 1)
    }
}

/// The first error among the skills from `i` on: a skill name that an earlier skill has,
/// or a dependency on a tool that is not registered.
pub open spec fn skill_error_at(ss: Seq<SkillDefinition>, tools: Seq<Seq<char>>, i: int) -> Option<(AgentErrorCode, Seq<char>)>
    decreases ss.len() - i,
{
    if i < 0 || i >= ss.len() {
        None
    } else if skill_names(ss).take(i).contains(ss[i].name@) {
        Some((AgentErrorCode::NameConflict, "duplicate skill name `"@ + ss[i].name@ + "`"@))
    } else {
        match first_missing_dependency(ss[i].tool_dependencies.deep_view(), tools, 0) {
            Some(d) => Some(
                (
                    AgentErrorCode::SkillDependencyNotMet,
                    "skill `"@ + ss[i].name@ + "` depends on missing tool `"@ + d + "`"@,
                ),
            ),
            None => skill_error_at(ss, tools, i + 1),
        }
    }
}

/// The model that compacts a session's history by default.
pub open spec fn default_compact_model(c: AgentConfig) -> Seq<char> {
    match c.compact_model {
        Some(m) => m@,
        None => c.default_model@,
    }
}

/// The model that writes memories by default.
pub open spec fn default_memory_model(c: AgentConfig) -> Seq<char> {
    match c.memory_model {
        Some(m) => m@,
        None => c.default_model@,
    }
}

/// Whether a runtime limit is zero or the compaction threshold is out of range.
pub open spec fn bad_limits(c: AgentConfig, threshold_in_range: bool) -> bool {
    c.tool_timeout_ms == 0 || c.max_tool_calls_per_turn == 0 || c.memory_checkpoint_interval == 0
        || c.memory_max_items == 0 || !threshold_in_range
}

/// The error a build ends with, if any, as code and message.
pub open spec fn build_error(b: BuilderView, threshold_in_range: bool) -> Option<(AgentErrorCode, Seq<char>)> {
    let models = all_model_ids(b.providers);
    if b.duplicate_session_storage || b.duplicate_memory_storage {
        Some((AgentErrorCode::StorageDuplicate, "session storage and memory storage can each only be registered once"@))
    } else if provider_error_at(b.providers, 0) is Some {
        Some((AgentErrorCode::NameConflict, provider_error_at(b.providers, 0)->0))
    } else if trim(b.config.default_model@).len() == 0 || !models.contains(b.config.default_model@) {
        Some((AgentErrorCode::InvalidDefaultModel, "default_model must reference a registered model"@))
    } else if bad_limits(b.config, threshold_in_range) {
        Some((AgentErrorCode::InvalidConfig, "agent config contains invalid runtime limits"@))
    } else if !models.contains(default_compact_model(b.config)) || !models.contains(default_memory_model(b.config)) {
        Some((AgentErrorCode::InvalidConfig, "compact_model and memory_model must reference registered models"@))
    } else if first_dup_from(tool_names(b.tools), 0) is Some {
        Some(
            (
                AgentErrorCode::NameConflict,
                "duplicate tool name `"@ + tool_names(b.tools)[first_dup_from(tool_names(b.tools), 0)->0] + "`"@,
            ),
        )
    } else {
        skill_error_at(b.skills, tool_names(b.tools), 0)
    }
}

impl AgentBuilder<NoProvider> {
    /// A builder with `config` and nothing registered.
    pub fn new(config: AgentConfig) -> (r: Self)
        ensures
            r@ == (BuilderView {
                config,
                providers: Seq::empty(),
                tools: Seq::empty(),
                skills: Seq::empty(),
                session_storage: false,
                memory_storage: false,
                duplicate_session_storage: false,
                duplicate_memory_storage: false,
            }),
    {
        AgentBuilder {
            config,
            providers: Vec::new(),
            tools: Vec::new(),
            skills: Vec::new(),
            session_storage: false,
            memory_storage: false,
            duplicate_session_storage: false,
            duplicate_memory_storage: false,
            state: PhantomData,
        }
    }
}

impl<S> AgentBuilder<S> {
    /// Registers a model provider with its id and models.
    pub fn register_model_provider(self, provider: ProviderProfile) -> (r: AgentBuilder<HasProvider>)
        ensures
            r@ == (BuilderView { providers: self@.providers.push(provider), ..self@ }),
    {
        let mut providers = self.providers;
        providers.push(provider);
        AgentBuilder {
            config: self.config,
            providers,
            tools: self.tools,
            skills: self.skills,
            session_storage: self.session_storage,
            memory_storage: self.memory_storage,
            duplicate_session_storage: self.duplicate_session_storage,
            duplicate_memory_storage: self.duplicate_memory_storage,
            state: PhantomData,
        }
    }

    /// Registers a tool by its descriptor.
    pub fn register_tool_handler(self, tool: ToolDescriptor) -> (r: Self)
        ensures
            r@ == (BuilderView { tools: self@.tools.push(tool), ..self@ }),
    {
        let mut b = self;
        b.tools.push(tool);
        b
    }

    /// Registers a skill.
    pub fn register_skill(self, skill: SkillDefinition) -> (r: Self)
        ensures
            r@ == (BuilderView { skills: self@.skills.push(skill), ..self@ }),
    {
        let mut b = self;
        b.skills.push(skill);
        b
    }

    /// Registers the session storage; a second registration is remembered as an error.
    pub fn register_session_storage(self) -> (r: Self)
        ensures
            r@ == (if self@.session_storage {
                BuilderView { duplicate_session_storage: true, ..self@ }
            } else {
                BuilderView { session_storage: true, ..self@ }
            }),
    {
        let mut b = self;
        if b.session_storage {
            b.duplicate_session_storage = true;
        } else {
            b.session_storage = true;
        }
        b
    }

    /// Registers the memory storage; a second registration is remembered as an error.
    pub fn register_memory_storage(self) -> (r: Self)
        ensures
            r@ == (if self@.memory_storage {
                BuilderView { duplicate_memory_storage: true, ..self@ }
            } else {
                BuilderView { memory_storage: true, ..self@ }
            }),
    {
        let mut b = self;
        if b.memory_storage {
            b.duplicate_memory_storage = true;
        } else {
            b.memory_storage = true;
        }
        b
    }
}

fn name_error(prefix: &str, name: &str) -> (e: AgentError)
    ensures
        e.code == AgentErrorCode::NameConflict,
        e.message@ == prefix@ + name@ + "`"@,
        !e.retryable,
{
    AgentError::new(AgentErrorCode::NameConflict, concat3(prefix, name, "`"))
}

/// Checks the providers' ids and their models' ids; on success hands back all model ids.
fn check_providers(ps: &Vec<ProviderProfile>) -> (r: Result<Vec<String>, AgentError>)
    ensures
        match provider_error_at(ps@, 0) {
            Some(m) => r matches Err(e) && e.code == AgentErrorCode::NameConflict && e.message@ == m && !e.retryable,
            None => r matches Ok(models) && models.deep_view() == all_model_ids(ps@),
        },
{
    let mut ids: Vec<String> = Vec::new();
    let mut models: Vec<String> = Vec::new();
    let mut i: usize = 0;
    proof {
        assert(ps@.take(0) =~= Seq::<ProviderProfile>::empty());
        assert(provider_ids(ps@).take(0) =~= Seq::<Seq<char>>::empty());
    }
    while i < ps.len()
        invariant
            i <= ps.len(),
            ids.deep_view() == provider_ids(ps@).take(i as int),
            models.deep_view() == all_model_ids(ps@.take(i as int)),
            provider_error_at(ps@, 0) == provider_error_at(ps@, i as int),
        decreases ps.len() - i,
    {
        let p = &ps[i];
        if contains_string(&ids, p.provider_id.as_str()) {
            return Err(name_error("duplicate provider id `", p.provider_id.as_str()));
        }
        let ghost before = models.deep_view();
        let mut j: usize = 0;
        proof {
            assert(ids_of_models(p.models@.take(0)) =~= Seq::<Seq<char>>::empty());
            assert(before + ids_of_models(p.models@.take(0)) =~= before);
        }
        while j < p.models.len()
            invariant
                i < ps.len(),
                *p == ps@[i as int],
                j <= p.models.len(),
                before == all_model_ids(ps@.take(i as int)),
                models.deep_view() == before + ids_of_models(p.models@.take(j as int)),
                provider_error_at(ps@, 0) == provider_error_at(ps@, i as int),
                !provider_ids(ps@).take(i as int).contains(ps@[i as int].provider_id@),
                model_error_in(ps@, i as int, 0) == model_error_in(ps@, i as int, j as int),
            decreases p.models.len() - j,
        {
            let id = p.models[j].model_id.as_str();
            if contains_string(&models, id) {
                assert(model_error_in(ps@, i as int, j as int) == Some("duplicate model id `"@ + id@ + "`"@));
                return Err(name_error("duplicate model id `", id));
            }
            let ghost pre = models.deep_view();
            models.push(id.to_owned());
            proof {
                assert(models.deep_view() =~= pre.push(id@));
                assert(p.models@.take(j + 1) =~= p.models@.take(j as int).push(p.models@[j as int]));
                assert(ids_of_models(p.models@.take(j + 1)) =~= ids_of_models(p.models@.take(j as int)).push(id@));
                assert(models.deep_view() =~= before + ids_of_models(p.models@.take(j + 1)));
            }
            j += 1;
        }
        let ghost pre_ids = ids.deep_view();
        ids.push(p.provider_id.clone());
        proof {
            assert(p.models@.take(j as int) =~= p.models@);
            assert(ids.deep_view() =~= pre_ids.push(p.provider_id@));
            assert(provider_ids(ps@).take(i + 1) =~= provider_ids(ps@).take(i as int).push(p.provider_id@));
            crate::api::agent::lemma_all_model_ids_step(ps@, i as int);
        }
        i += 1;
    }
    proof {
        assert(ps@.take(i as int) =~= ps@);
    }
    Ok(models)
}

/// Checks the tools' names; on success hands back the names.
fn check_tools(ts: &Vec<ToolDescriptor>) -> (r: Result<Vec<String>, AgentError>)
    ensures
        match first_dup_from(tool_names(ts@), 0) {
            Some(k) => r matches Err(e) && e.code == AgentErrorCode::NameConflict && e.message@ == "duplicate tool name `"@
                + tool_names(ts@)[k] + "`"@ && !e.retryable,
            None => r matches Ok(names) && names.deep_view() == tool_names(ts@),
        },
{
    let mut names: Vec<String> = Vec::new();
    let mut i: usize = 0;
    proof {
        assert(tool_names(ts@).take(0) =~= Seq::<Seq<char>>::empty());
    }
    while i < ts.len()
        invariant
            i <= ts.len(),
            names.deep_view() == tool_names(ts@).take(i as int),
            first_dup_from(tool_names(ts@), 0) == first_dup_from(tool_names(ts@), i as int),
        decreases ts.len() - i,
    {
        let name = ts[i].name.as_str();
        if contains_string(&names, name) {
            return Err(name_error("duplicate tool name `", name));
        }
        let ghost pre = names.deep_view();
        names.push(name.to_owned());
        proof {
            assert(names.deep_view() =~= pre.push(name@));
            assert(tool_names(ts@).take(i + 1) =~= tool_names(ts@).take(i as int).push(name@));
        }
        i += 1;
    }
    proof {
        assert(tool_names(ts@).take(i as int) =~= tool_names(ts@));
    }
    Ok(names)
}

/// Checks the skills' names and their tool dependencies against the tool names.
fn check_skills(ss: &Vec<SkillDefinition>, tools: &Vec<String>) -> (r: Result<(), AgentError>)
    ensures
        match skill_error_at(ss@, tools.deep_view(), 0) {
            Some((code, message)) => r matches Err(e) && e.code == code && e.message@ == message && !e.retryable,
            None => r is Ok,
        },
{
    let mut names: Vec<String> = Vec::new();
    let mut i: usize = 0;
    proof {
        assert(skill_names(ss@).take(0) =~= Seq::<Seq<char>>::empty());
    }
    while i < ss.len()
        invariant
            i <= ss.len(),
            names.deep_view() == skill_names(ss@).take(i as int),
            skill_error_at(ss@, tools.deep_view(), 0) == skill_error_at(ss@, tools.deep_view(), i as int),
        decreases ss.len() - i,
    {
        let skill = &ss[i];
        if contains_string(&names, skill.name.as_str()) {
            return Err(name_error("duplicate skill name `", skill.name.as_str()));
        }
        let deps = &skill.tool_dependencies;
        let mut j: usize = 0;
        while j < deps.len()
            invariant
                i < ss.len(),
                *skill == ss@[i as int],
                *deps == skill.tool_dependencies,
                j <= deps.len(),
                skill_error_at(ss@, tools.deep_view(), 0) == skill_error_at(ss@, tools.deep_view(), i as int),
                !skill_names(ss@).take(i as int).contains(skill.name@),
                first_missing_dependency(deps.deep_view(), tools.deep_view(), 0) == first_missing_dependency(
                    deps.deep_view(),
                    tools.deep_view(),
                    j as int,
                ),
            decreases deps.len() - j,
        {
            if !contains_string(tools, deps[j].as_str()) {
                assert(first_missing_dependency(deps.deep_view(), tools.deep_view(), j as int) == Some(deps.deep_view()[j as int]));
                let mut message = concat3("skill `", skill.name.as_str(), "` depends on missing tool `");
                message.append(deps[j].as_str());
                message.append("`");
                return Err(AgentError::new(AgentErrorCode::SkillDependencyNotMet, message));
            }
            j += 1;
        }
        let ghost pre = names.deep_view();
        names.push(skill.name.clone());
        proof {
            assert(names.deep_view() =~= pre.push(skill.name@));
            assert(skill_names(ss@).take(i + 1) =~= skill_names(ss@).take(i as int).push(skill.name@));
        }
        i += 1;
    }
    Ok(())
}

impl AgentBuilder<HasProvider> {
    /// Checks what was registered and assembles the agent's parts; plugins are admitted
    /// afterwards. The compaction threshold's range, a floating-point check, is made by the
    /// caller and handed in.
    pub fn build(self, compact_threshold_in_range: bool) -> (r: Result<AgentCore, AgentError>)
        ensures
            match build_error(self@, compact_threshold_in_range) {
                Some((code, message)) => r matches Err(e) && e.code == code && e.message@ == message && !e.retryable,
                None => r matches Ok(core) && core@ == (AgentCoreView {
                    config: self@.config,
                    providers: self@.providers,
                    tools: self@.tools,
                    skills: self@.skills,
                    plugins: Seq::empty(),
                    session_storage: self@.session_storage,
                    memory_storage: self@.memory_storage,
                }),
            },
    {
        if self.duplicate_session_storage || self.duplicate_memory_storage {
            return Err(AgentError::new(
                AgentErrorCode::StorageDuplicate,
                "session storage and memory storage can each only be registered once".to_owned(),
            ));
        }
        let models = match check_providers(&self.providers) {
            Ok(models) => models,
            Err(e) => {
                return Err(e);
            },
        };
        let c = &self.config;
        if is_blank(c.default_model.as_str()) || !contains_string(&models, c.default_model.as_str()) {
            return Err(AgentError::new(
                AgentErrorCode::InvalidDefaultModel,
                "default_model must reference a registered model".to_owned(),
            ));
        }
        if c.tool_timeout_ms == 0 || c.max_tool_calls_per_turn == 0 || c.memory_checkpoint_interval == 0
            || c.memory_max_items == 0 || !compact_threshold_in_range {
            return Err(AgentError::new(
                AgentErrorCode::InvalidConfig,
                "agent config contains invalid runtime limits".to_owned(),
            ));
        }
        let compact_model = match &c.compact_model {
            Some(m) => m.as_str(),
            None => c.default_model.as_str(),
        };
        let memory_model = match &c.memory_model {
            Some(m) => m.as_str(),
            None => c.default_model.as_str(),
        };
        if !contains_string(&models, compact_model) || !contains_string(&models, memory_model) {
            return Err(AgentError::new(
                AgentErrorCode::InvalidConfig,
                "compact_model and memory_model must reference registered models".to_owned(),
            ));
        }
        let tool_name_list = match check_tools(&self.tools) {
            Ok(names) => names,
            Err(e) => {
                return Err(e);
            },
        };
        match check_skills(&self.skills, &tool_name_list) {
            Ok(()) => {},
            Err(e) => {
                return Err(e);
            },
        }
        Ok(AgentCore::new(
            self.config,
            self.providers,
            self.tools,
            self.skills,
            self.session_storage,
            self.memory_storage,
        ))
    }
}

proof fn lemma_no_dup_push(s: Seq<Seq<char>>, x: Seq<char>)
    requires
        s.no_duplicates(),
        !s.contains(x),
    ensures
        s.push(x).no_duplicates(),
{
    assert forall|a: int, b: int| 0 <= a < s.push(x).len() && 0 <= b < s.push(x).len() && a != b implies s.push(x)[a]
        != s.push(x)[b] by {
        if a < s.len() && b < s.len() {
        } else if a == s.len() {
            assert(s[b] == s.push(x)[b]);
        } else {
            assert(s[a] == s.push(x)[a]);
        }
    }
}

proof fn lemma_first_dup_none(names: Seq<Seq<char>>, i: int)
    requires
        0 <= i <= names.len(),
        names.take(i).no_duplicates(),
        first_dup_from(names, i) is None,
    ensures
        names.no_duplicates(),
    decreases names.len() - i,
{
    if i == names.len() {
        assert(names.take(i) =~= names);
    } else {
        assert(names.take(i + 1) =~= names.take(i).push(names[i]));
        lemma_no_dup_push(names.take(i), names[i]);
        lemma_first_dup_none(names, i + 1);
    }
}

proof fn lemma_models_none(ps: Seq<ProviderProfile>, i: int, j: int)
    requires
        0 <= i < ps.len(),
        0 <= j <= ps[i].models@.len(),
        (all_model_ids(ps.take(i)) + ids_of_models(ps[i].models@.take(j))).no_duplicates(),
        model_error_in(ps, i, j) is None,
    ensures
        (all_model_ids(ps.take(i)) + ids_of_models(ps[i].models@)).no_duplicates(),
    decreases ps[i].models@.len() - j,
{
    let ms = ps[i].models@;
    if j == ms.len() {
        assert(ms.take(j) =~= ms);
    } else {
        let before = all_model_ids(ps.take(i)) + ids_of_models(ms.take(j));
        assert(ms.take(j + 1) =~= ms.take(j).push(ms[j]));
        assert(ids_of_models(ms.take(j + 1)) =~= ids_of_models(ms.take(j)).push(ms[j].model_id@));
        assert(all_model_ids(ps.take(i)) + ids_of_models(ms.take(j + 1)) =~= before.push(ms[j].model_id@));
        lemma_no_dup_push(before, ms[j].model_id@);
        lemma_models_none(ps, i, j + 1);
    }
}

proof fn lemma_providers_none(ps: Seq<ProviderProfile>, i: int)
    requires
        0 <= i <= ps.len(),
        provider_ids(ps).take(i).no_duplicates(),
        all_model_ids(ps.take(i)).no_duplicates(),
        provider_error_at(ps, i) is None,
    ensures
        provider_ids(ps).no_duplicates(),
        all_model_ids(ps).no_duplicates(),
    decreases ps.len() - i,
{
    if i == ps.len() {
        assert(ps.take(i) =~= ps);
        assert(provider_ids(ps).take(i) =~= provider_ids(ps));
    } else {
        assert(provider_ids(ps).take(i + 1) =~= provider_ids(ps).take(i).push(ps[i].provider_id@));
        lemma_no_dup_push(provider_ids(ps).take(i), ps[i].provider_id@);
        assert(ids_of_models(ps[i].models@.take(0)) =~= Seq::<Seq<char>>::empty());
        assert(all_model_ids(ps.take(i)) + ids_of_models(ps[i].models@.take(0)) =~= all_model_ids(ps.take(i)));
        lemma_models_none(ps, i, 0);
        crate::api::agent::lemma_all_model_ids_step(ps, i);
        assert(all_model_ids(ps.take(i + 1)) == all_model_ids(ps.take(i)) + ids_of_models(ps[i].models@));
        lemma_providers_none(ps, i + 1);
    }
}

proof fn lemma_dependencies_met(deps: Seq<Seq<char>>, tools: Seq<Seq<char>>, j: int)
    requires
        0 <= j <= deps.len(),
        first_missing_dependency(deps, tools, j) is None,
    ensures
        forall|k: int| j <= k < deps.len() ==> tools.contains(#[trigger] deps[k]),
    decreases deps.len() - j,
{
    if j < deps.len() {
        lemma_dependencies_met(deps, tools, j + 1);
    }
}

proof fn lemma_skills_none(ss: Seq<SkillDefinition>, tools: Seq<Seq<char>>, i: int)
    requires
        0 <= i <= ss.len(),
        skill_names(ss).take(i).no_duplicates(),
        skill_error_at(ss, tools, i) is None,
    ensures
        skill_names(ss).no_duplicates(),
        forall|k: int, d: int|
            i <= k < ss.len() && 0 <= d < ss[k].tool_dependencies@.len() ==> tools.contains(
                #[trigger] ss[k].tool_dependencies.deep_view()[d],
            ),
    decreases ss.len() - i,
{
    if i == ss.len() {
        assert(skill_names(ss).take(i) =~= skill_names(ss));
    } else {
        assert(skill_names(ss).take(i + 1) =~= skill_names(ss).take(i).push(ss[i].name@));
        lemma_no_dup_push(skill_names(ss).take(i), ss[i].name@);
        lemma_dependencies_met(ss[i].tool_dependencies.deep_view(), tools, 0);
        lemma_skills_none(ss, tools, i + 1);
    }
}

/// What a successful build guarantees: provider ids, model ids (across all providers),
/// tool names and skill names are each unique; the default, compaction and memory models
/// are registered; and every tool a skill depends on is registered.
pub proof fn lemma_built_agent_is_consistent(b: BuilderView, threshold_in_range: bool)
    requires
        build_error(b, threshold_in_range) is None,
    ensures
        provider_ids(b.providers).no_duplicates(),
        all_model_ids(b.providers).no_duplicates(),
        tool_names(b.tools).no_duplicates(),
        skill_names(b.skills).no_duplicates(),
        all_model_ids(b.providers).contains(b.config.default_model@),
        all_model_ids(b.providers).contains(default_compact_model(b.config)),
        all_model_ids(b.providers).contains(default_memory_model(b.config)),
        forall|k: int, d: int|
            0 <= k < b.skills.len() && 0 <= d < b.skills[k].tool_dependencies@.len() ==> tool_names(b.tools).contains(
                #[trigger] b.skills[k].tool_dependencies.deep_view()[d],
            ),
{
    assert(provider_ids(b.providers).take(0) =~= Seq::<Seq<char>>::empty());
    assert(b.providers.take(0) =~= Seq::<ProviderProfile>::empty());
    lemma_providers_none(b.providers, 0);
    assert(tool_names(b.tools).take(0) =~= Seq::<Seq<char>>::empty());
    lemma_first_dup_none(tool_names(b.tools), 0);
    assert(skill_names(b.skills).take(0) =~= Seq::<Seq<char>>::empty());
    lemma_skills_none(b.skills, tool_names(b.tools), 0);
}

} // verus!
