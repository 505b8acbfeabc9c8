//! What a built agent knows: its configuration, models, tools, skills and plugins.

use vstd::prelude::*;
use crate::application::plugin_manager::{plugin_ids, PluginManager};
use crate::domain::config::AgentConfig;
use crate::domain::error::{AgentError, AgentErrorCode};
use crate::domain::model::ModelInfo;
use crate::domain::plugin::PluginDescriptor;
use crate::domain::skill::SkillDefinition;
use crate::domain::tool::ToolDescriptor;
use crate::text::{concat3, str_eq};

verus! {

/// A model provider as the agent sees it: its id and the models it serves.
#[derive(Debug)]
pub struct ProviderProfile {
    pub provider_id: String,
    pub models: Vec<ModelInfo>,
}

/// The ids of the models of all providers, provider by provider.
pub open spec fn all_model_ids(ps: Seq<ProviderProfile>) -> Seq<Seq<char>>
    decreases ps.len(),
{
    if ps.len() == 0 {
        Seq::empty()
    } else {
        all_model_ids(ps.drop_last()) + ps.last().models@.map_values(|m: ModelInfo| m.model_id@)
    }
}

/// Whether some model of some provider has the id `id`.
pub open spec fn serves(ps: Seq<ProviderProfile>, id: Seq<char>) -> bool {
    exists|p: int, m: int| 0 <= p < ps.len() && 0 <= m < ps[p].models@.len() && (#[trigger] ps[p].models@[m]).model_id@ == id
}

/// The ids of the models of the first `i + 1` providers extend those of the first `i`
/// by the ids of provider `i`.
pub proof fn lemma_all_model_ids_step(ps: Seq<ProviderProfile>, i: int)
    requires
        0 <= i < ps.len(),
    ensures
        all_model_ids(ps.take(i + 1)) == all_model_ids(ps.take(i)) + ps[i].models@.map_values(
            |m: ModelInfo| m.model_id@,
        ),
{
    assert(ps.take(i + 1).drop_last() =~= ps.take(i));
}

/// A model id is among all the ids exactly when some provider serves that model.
pub proof fn lemma_all_model_ids_serves(ps: Seq<ProviderProfile>, id: Seq<char>)
    ensures
        all_model_ids(ps).contains(id) <==> serves(ps, id),
    decreases ps.len(),
{
    if ps.len() > 0 {
        let front = ps.drop_last();
        lemma_all_model_ids_serves(front, id);
        let last = ps.last().models@.map_values(|m: ModelInfo| m.model_id@);
        let all = all_model_ids(ps);
        assert(all == all_model_ids(front) + last);
        if all.contains(id) {
            let k = choose|k: int| 0 <= k < all.len() && all[k] == id;
            if k < all_model_ids(front).len() {
                assert(all_model_ids(front)[k] == id);
                assert(all_model_ids(front).contains(id));
                let (p, m) = choose|p: int, m: int|
                    0 <= p < front.len() && 0 <= m < front[p].models@.len() && (#[trigger] front[p].models@[m]).model_id@ == id;
                assert(ps[p] == front[p]);
                assert(ps[p].models@[m].model_id@ == id);
            } else {
                let m = k - all_model_ids(front).len();
                assert(last[m] == id);
                assert(ps[ps.len() - 1].models@[m].model_id@ == id);
            }
        }
        if serves(ps, id) {
            let (p, m) = choose|p: int, m: int|
                0 <= p < ps.len() && 0 <= m < ps[p].models@.len() && (#[trigger] ps[p].models@[m]).model_id@ == id;
            if p < ps.len() - 1 {
                assert(front[p] == ps[p]);
                assert(front[p].models@[m].model_id@ == id);
                assert(serves(front, id));
                let k = choose|k: int| 0 <= k < all_model_ids(front).len() && all_model_ids(front)[k] == id;
                assert(all[k] == id);
            } else {
                assert(last[m] == id);
                assert(all[all_model_ids(front).len() + m] == id);
            }
        }
    }
}

/// A built agent's parts. Provider ids, model ids, tool names, skill names and plugin
/// ids are each unique.
#[derive(Debug)]
pub struct AgentCore {
    config: AgentConfig,
    providers: Vec<ProviderProfile>,
    tools: Vec<ToolDescriptor>,
    skills: Vec<SkillDefinition>,
    plugin_manager: PluginManager,
    session_storage: bool,
    memory_storage: bool,
}

/// The mathematical model of an agent's parts.
pub struct AgentCoreView {
    pub config: AgentConfig,
    pub providers: Seq<ProviderProfile>,
    pub tools: Seq<ToolDescriptor>,
    pub skills: Seq<SkillDefinition>,
    pub plugins: Seq<PluginDescriptor>,
    pub session_storage: bool,
    pub memory_storage: bool,
}

impl View for AgentCore {
    type V = AgentCoreView;

    closed spec fn view(&self) -> AgentCoreView {
        AgentCoreView {
            config: self.config,
            providers: self.providers@,
            tools: self.tools@,
            skills: self.skills@,
            plugins: self.plugin_manager.view_descriptors(),
            session_storage: self.session_storage,
            memory_storage: self.memory_storage,
        }
    }
}

impl AgentCore {
    /// An agent of these parts with no plugin admitted yet.
    pub(crate) fn new(
        config: AgentConfig,
        providers: Vec<ProviderProfile>,
        tools: Vec<ToolDescriptor>,
        skills: Vec<SkillDefinition>,
        session_storage: bool,
        memory_storage: bool,
    ) -> (r: Self)
        ensures
            r@ == (AgentCoreView {
                config,
                providers: providers@,
                tools: tools@,
                skills: skills@,
                plugins: Seq::empty(),
                session_storage,
                memory_storage,
            }),
    {
        AgentCore {
            config,
            providers,
            tools,
            skills,
            plugin_manager: PluginManager::new(Vec::new()),
            session_storage,
            memory_storage,
        }
    }

    /// The agent configuration.
    pub fn config(&self) -> (r: &AgentConfig)
        ensures
            *r == self@.config,
    {
        &self.config
    }

    /// The model providers, in registration order.
    pub fn providers(&self) -> (r: &Vec<ProviderProfile>)
        ensures
            r@ == self@.providers,
    {
        &self.providers
    }

    /// The descriptors of the registered tools, in registration order.
    pub fn tool_descriptors(&self) -> (r: &Vec<ToolDescriptor>)
        ensures
            r@ == self@.tools,
    {
        &self.tools
    }

    /// The registered skills, in registration order.
    pub fn skills(&self) -> (r: &Vec<SkillDefinition>)
        ensures
            r@ == self@.skills,
    {
        &self.skills
    }

    /// The admitted plugins.
    pub fn plugin_manager(&self) -> (r: &PluginManager)
        ensures
            r.view_descriptors() == self@.plugins,
    {
        &self.plugin_manager
    }

    /// Whether a session storage is registered.
    pub fn has_session_storage(&self) -> (r: bool)
        ensures
            r == self@.session_storage,
    {
        self.session_storage
    }

    /// Whether a memory storage is registered.
    pub fn has_memory_storage(&self) -> (r: bool)
        ensures
            r == self@.memory_storage,
    {
        self.memory_storage
    }

    /// Succeeds when a session storage is registered; resuming and listing sessions need
    /// one.
    pub fn require_session_storage(&self) -> (r: Result<(), AgentError>)
        ensures
            self@.session_storage ==> r is Ok,
            !self@.session_storage ==> (r matches Err(e) && e.code == AgentErrorCode::SessionNotFound
                && e.message@ == "session storage is not registered"@ && !e.retryable),
    {
        if self.session_storage {
            Ok(())
        } else {
            Err(AgentError::new(AgentErrorCode::SessionNotFound, "session storage is not registered".to_owned()))
        }
    }

    /// Where the model `model_id` is registered: its provider and its position there.
    pub fn model(&self, model_id: &str) -> (r: Option<(usize, usize)>)
        ensures
            match r {
                Some((p, m)) => {
                    &&& p < self@.providers.len()
                    &&& m < self@.providers[p as int].models@.len()
                    &&& self@.providers[p as int].models@[m as int].model_id@ == model_id@
                },
                None => !all_model_ids(self@.providers).contains(model_id@),
            },
    {
        let mut p: usize = 0;
        while p < self.providers.len()
            invariant
                p <= self.providers.len(),
                forall|q: int, m: int|
                    0 <= q < p && 0 <= m < self.providers@[q].models@.len() ==> (#[trigger] self.providers@[q].models@[m]).model_id@
                        != model_id@,
            decreases self.providers.len() - p,
        {
            let models = &self.providers[p].models;
            let mut m: usize = 0;
            while m < models.len()
                invariant
                    p < self.providers.len(),
                    *models == self.providers@[p as int].models,
                    m <= models.len(),
                    forall|q: int, k: int|
                        0 <= q < p && 0 <= k < self.providers@[q].models@.len() ==> (#[trigger] self.providers@[q].models@[k]).model_id@
                            != model_id@,
                    forall|k: int| 0 <= k < m ==> (#[trigger] models@[k]).model_id@ != model_id@,
                decreases models.len() - m,
            {
                if str_eq(models[m].model_id.as_str(), model_id) {
                    return Some((p, m));
                }
                m += 1;
            }
            p += 1;
        }
        proof {
            lemma_all_model_ids_serves(self.providers@, model_id@);
        }
        None
    }

    /// Where the model `model_id` is registered, or `InvalidDefaultModel` when no provider
    /// serves it.
    pub fn model_registration(&self, model_id: &str) -> (r: Result<(usize, usize), AgentError>)
        ensures
            match r {
                Ok((p, m)) => {
                    &&& p < self@.providers.len()
                    &&& m < self@.providers[p as int].models@.len()
                    &&& self@.providers[p as int].models@[m as int].model_id@ == model_id@
                },
                Err(e) => {
                    &&& !all_model_ids(self@.providers).contains(model_id@)
                    &&& e.code == AgentErrorCode::InvalidDefaultModel
                    &&& e.message@ == "unknown model `"@ + model_id@ + "`"@
                    &&& !e.retryable
                },
            },
    {
        match self.model(model_id) {
            Some(found) => Ok(found),
            None => Err(AgentError::new(AgentErrorCode::InvalidDefaultModel, concat3("unknown model `", model_id, "`"))),
        }
    }

    /// Admits a plugin, before its initialization: its id must differ from those of the
    /// plugins admitted so far.
    pub fn admit_plugin(&mut self, descriptor: PluginDescriptor) -> (r: Result<(), AgentError>)
        ensures
            final(self)@.config == old(self)@.config,
            final(self)@.providers == old(self)@.providers,
            final(self)@.tools == old(self)@.tools,
            final(self)@.skills == old(self)@.skills,
            final(self)@.session_storage == old(self)@.session_storage,
            final(self)@.memory_storage == old(self)@.memory_storage,
            plugin_ids(old(self)@.plugins).contains(descriptor.id@) ==> {
                &&& r matches Err(e) && e.code == AgentErrorCode::NameConflict && e.message@ == "duplicate plugin id `"@
                    + descriptor.id@ + "`"@ && !e.retryable
                &&& final(self)@.plugins == old(self)@.plugins
            },
            !plugin_ids(old(self)@.plugins).contains(descriptor.id@) ==> {
                &&& r is Ok
                &&& final(self)@.plugins == old(self)@.plugins.push(descriptor)
            },
    {
        if self.plugin_manager.has_plugin_id(descriptor.id.as_str()) {
            return Err(AgentError::new(
                AgentErrorCode::NameConflict,
                concat3("duplicate plugin id `", descriptor.id.as_str(), "`"),
            ));
        }
        self.plugin_manager.add(descriptor);
        Ok(())
    }
}

} // verus!
