//! The host's shared state and its job tracker.
//!
//! The tracker records every invocation request as a job: created
//! `Pending` on submission, finalized exactly once with the invoker's
//! terminal outcome, and retained in submission order until explicitly
//! pruned. Job ids are the submission positions, so they are unique and
//! strictly increasing. The state also owns the loaded modules, the
//! process-wide capability provider, and the latest peer snapshot.

use vstd::prelude::*;

use crate::caps::CapabilityProvider;
use crate::caps::ProviderModel;
use crate::caps::host_capabilities;
use crate::caps::host_world;
use crate::config::AppStateConfig;
use crate::context::Limits;
use crate::discovery::Peer;
use crate::discovery::PeerModel;
use crate::discovery::peers_view;
use crate::hostenv::now_millis;
use crate::iface::Value;
use crate::iface::clone_bytes;
use crate::invoke::Outcome;
use crate::invoke::OutcomeModel;
use crate::invoke::invoke;
use crate::invoke::spec_invoke;
use crate::invoke::vals_view;
use crate::module::LoadError;
use crate::module::ModuleModel;
use crate::module::PluginModule;
use crate::module::load;
use crate::module::module_binds;
use crate::module::module_wf;
use crate::module::spec_digest;
use crate::module::spec_load_outcome;

verus! {

/// The lifecycle of one invocation.
#[derive(Clone, Copy, Debug, PartialEq, Eq, Structural)]
pub enum JobState {
    Pending,
    Instantiating,
    Running,
    Completed,
    Faulted,
    TimedOut,
    ResourceExhausted,
}

/// Whether a job state is terminal.
pub open spec fn is_terminal(s: JobState) -> bool {
    s is Completed || s is Faulted || s is TimedOut || s is ResourceExhausted
}

/// The transitions the invocation lifecycle allows.
pub open spec fn can_transition(a: JobState, b: JobState) -> bool {
    ||| (a is Pending && b is Instantiating)
    ||| (a is Instantiating && b is Running)
    ||| (a is Instantiating && b is ResourceExhausted)
    ||| (a is Running && (b is Completed || b is Faulted || b is TimedOut))
}

/// Terminal states are final: no transition leaves one.
pub proof fn lemma_terminal_states_final(a: JobState, b: JobState)
    ensures
        is_terminal(a) ==> !can_transition(a, b),
{
}

/// The terminal job state an invocation outcome settles.
pub open spec fn outcome_state(o: OutcomeModel) -> JobState {
    match o {
        OutcomeModel::Completed(_) => JobState::Completed,
        OutcomeModel::Faulted(_) => JobState::Faulted,
        OutcomeModel::TimedOut => JobState::TimedOut,
        OutcomeModel::ResourceExhausted => JobState::ResourceExhausted,
    }
}

/// Every invocation outcome settles a terminal state: a submitted job
/// that has been run can only be found in a terminal state.
pub proof fn lemma_outcome_state_terminal(o: OutcomeModel)
    ensures
        is_terminal(outcome_state(o)),
{
}

/// The terminal job state of an invocation outcome.
pub fn state_of_outcome(o: &Outcome) -> (s: JobState)
    ensures
        s == outcome_state(o@),
{
    match o {
        Outcome::Completed(_) => JobState::Completed,
        Outcome::Faulted(_) => JobState::Faulted,
        Outcome::TimedOut => JobState::TimedOut,
        Outcome::ResourceExhausted => JobState::ResourceExhausted,
    }
}

/// Why the tracker refused an operation on a job.
#[derive(Clone, Copy, Debug, PartialEq, Eq, Structural)]
pub enum TrackError {
    /// No job has the given id.
    NotFound,
    /// The job is already in a terminal state.
    AlreadyFinal,
}

/// The durable record of one invocation request.
pub struct Job {
    /// Unique id: the job's submission position.
    pub job_id: u64,
    /// The digest of the module this job runs.
    pub plugin_id: u64,
    /// The module's position in the host's module table.
    pub module_index: usize,
    /// The requested export's name.
    pub export: Vec<u8>,
    /// The input payload.
    pub input: Vec<Value>,
    /// The invocation's resource budget.
    pub limits: Limits,
    pub state: JobState,
    pub started_at: i64,
    pub completed_at: Option<i64>,
    /// The invoker's outcome, recorded exactly once at finalization.
    pub outcome: Option<Outcome>,
}

/// Mathematical model of a job record.
pub struct JobModel {
    pub job_id: u64,
    pub plugin_id: u64,
    pub module_index: usize,
    pub export: Seq<u8>,
    pub input: Seq<crate::iface::ValueModel>,
    pub limits: Limits,
    pub state: JobState,
    pub started_at: i64,
    pub completed_at: Option<i64>,
    pub outcome: Option<OutcomeModel>,
}

impl View for Job {
    type V = JobModel;

    open spec fn view(&self) -> JobModel {
        JobModel {
            job_id: self.job_id,
            plugin_id: self.plugin_id,
            module_index: self.module_index,
            export: self.export@,
            input: vals_view(self.input@),
            limits: self.limits,
            state: self.state,
            started_at: self.started_at,
            completed_at: self.completed_at,
            outcome: match self.outcome {
                Some(o) => Some(o@),
                None => None,
            },
        }
    }
}

/// The model of a sequence of job records.
pub open spec fn jobs_view(s: Seq<Job>) -> Seq<JobModel> {
    s.map_values(|j: Job| j@)
}

/// The model of a sequence of loaded modules.
pub open spec fn modules_view(s: Seq<PluginModule>) -> Seq<ModuleModel> {
    s.map_values(|m: PluginModule| m@)
}

/// The whole host state: configuration, own identity, the capability
/// provider, the loaded modules, the job records in submission order,
/// and the latest peer snapshot.
pub struct AppState {
    config: AppStateConfig,
    myself: Peer,
    provider: CapabilityProvider,
    modules: Vec<PluginModule>,
    jobs: Vec<Job>,
    peers: Vec<Peer>,
}

/// Mathematical model of the host state.
pub struct AppModel {
    pub app_name: Seq<char>,
    pub port: Option<u16>,
    pub myself: PeerModel,
    pub provider: ProviderModel,
    pub modules: Seq<ModuleModel>,
    pub jobs: Seq<JobModel>,
    pub peers: Seq<PeerModel>,
}

impl View for AppState {
    type V = AppModel;

    closed spec fn view(&self) -> AppModel {
        AppModel {
            app_name: self.config.app_name@,
            port: self.config.port,
            myself: self.myself@,
            provider: self.provider@,
            modules: modules_view(self.modules@),
            jobs: jobs_view(self.jobs@),
            peers: peers_view(self.peers@),
        }
    }
}

/// The host state's invariant: job ids are the submission positions, a
/// job is `Pending` until its one finalization and terminal afterwards,
/// its outcome is recorded exactly at that finalization, every job names
/// a loaded module by position and by digest, and every loaded module is
/// well-formed and bound to the host's capability world.
pub open spec fn app_inv(m: AppModel) -> bool {
    &&& m.jobs.len() <= u64::MAX
    &&& forall|i: int| 0 <= i < m.jobs.len() ==> (#[trigger] m.jobs[i]).job_id == i as u64
    &&& forall|i: int|
        0 <= i < m.jobs.len() ==> ((#[trigger] m.jobs[i]).state is Pending <==> m.jobs[i].outcome
            is None)
    &&& forall|i: int|
        0 <= i < m.jobs.len() ==> ((#[trigger] m.jobs[i]).state is Pending || is_terminal(
            m.jobs[i].state,
        ))
    &&& forall|i: int|
        0 <= i < m.jobs.len() ==> (#[trigger] m.jobs[i]).module_index < m.modules.len()
            && m.modules[m.jobs[i].module_index as int].digest == m.jobs[i].plugin_id
    &&& forall|j: int|
        0 <= j < m.modules.len() ==> module_binds(#[trigger] m.modules[j], host_world())
            && module_wf(m.modules[j])
}

/// Two distinct submissions are independent jobs: they never share an id.
pub proof fn lemma_jobs_independent(m: AppModel, i: int, j: int)
    requires
        app_inv(m),
        0 <= i < m.jobs.len(),
        0 <= j < m.jobs.len(),
        i != j,
    ensures
        m.jobs[i].job_id != m.jobs[j].job_id,
{
    assert(m.jobs[i].job_id == i as u64);
    assert(m.jobs[j].job_id == j as u64);
}

/// Copy a vector of runtime values.
pub fn clone_values(vs: &Vec<Value>) -> (r: Vec<Value>)
    ensures
        vals_view(r@) == vals_view(vs@),
{
    let mut r: Vec<Value> = Vec::new();
    let mut i: usize = 0;
    while i < vs.len()
        invariant
            i <= vs@.len(),
            r@.len() == i,
            forall|w: int| 0 <= w < i ==> (#[trigger] r@[w])@ == vs@[w]@,
        decreases vs@.len() - i,
    {
        let v = vs[i].clone();
        r.push(v);
        i = i + 1;
    }
    assert(vals_view(r@) =~= vals_view(vs@));
    r
}

impl AppState {
    /// Build the host state: no modules, no jobs, no peers, and a fresh
    /// capability provider carrying the host's logical label.
    pub fn new(config: AppStateConfig, myself: Peer, host_label: Vec<u8>, log_cap: usize) -> (r:
        AppState)
        ensures
            app_inv(r@),
            r@.app_name == config.app_name@,
            r@.port == config.port,
            r@.myself == myself@,
            r@.provider.host_name == host_label@,
            r@.provider.log == Seq::<Seq<u8>>::empty(),
            r@.provider.log_cap == log_cap,
            r@.provider.counter == 0,
            r@.modules == Seq::<ModuleModel>::empty(),
            r@.jobs == Seq::<JobModel>::empty(),
            r@.peers == Seq::<PeerModel>::empty(),
    {
        let r = AppState {
            config,
            myself,
            provider: CapabilityProvider::new(host_label, log_cap),
            modules: Vec::new(),
            jobs: Vec::new(),
            peers: Vec::new(),
        };
        proof {
            assert(r@.modules =~= Seq::<ModuleModel>::empty());
            assert(r@.jobs =~= Seq::<JobModel>::empty());
            assert(r@.peers =~= Seq::<PeerModel>::empty());
        }
        r
    }

    /// The configuration this host was started with.
    pub fn config(&self) -> (r: &AppStateConfig)
        ensures
            r.app_name@ == self@.app_name,
            r.port == self@.port,
    {
        &self.config
    }

    /// This host's own peer identity.
    pub fn myself(&self) -> (r: &Peer)
        ensures
            r@ == self@.myself,
    {
        &self.myself
    }

    /// All job records, in submission order.
    pub fn jobs(&self) -> (r: &Vec<Job>)
        ensures
            jobs_view(r@) == self@.jobs,
    {
        &self.jobs
    }

    /// The latest peer snapshot, in the order it was handed in.
    pub fn peers(&self) -> (r: &Vec<Peer>)
        ensures
            peers_view(r@) == self@.peers,
    {
        &self.peers
    }

    /// The capability provider's current state, read-only.
    pub fn provider(&self) -> (r: &CapabilityProvider)
        ensures
            r@ == self@.provider,
    {
        &self.provider
    }

    /// How many modules are installed.
    pub fn module_count(&self) -> (r: usize)
        ensures
            r == self@.modules.len(),
    {
        self.modules.len()
    }

    /// The digest identifying the module at a position, or nothing when
    /// no module stands there.
    pub fn module_digest(&self, ix: usize) -> (r: Option<u64>)
        ensures
            match r {
                Some(d) => ix < self@.modules.len() && d == self@.modules[ix as int].digest,
                None => ix >= self@.modules.len(),
            },
    {
        if ix < self.modules.len() {
            Some(self.modules[ix].digest)
        } else {
            None
        }
    }

    /// Replace the peer snapshot with a fresh one from the discovery
    /// collaborator. Nothing else changes.
    pub fn set_peers(&mut self, peers: Vec<Peer>)
        requires
            app_inv(old(self)@),
        ensures
            app_inv(final(self)@),
            final(self)@ == (AppModel { peers: peers_view(peers@), ..old(self)@ }),
    {
        self.peers = peers;
    }

    /// Validate and install a plugin binary against the host's
    /// capability world; on success return the new module's position.
    ///
    /// The result is decided exactly by the binary and the host world:
    /// rejected binaries leave the state unchanged and report why, and a
    /// module whose required imports the host does not offer is refused
    /// as an interface mismatch with nothing instantiated.
    pub fn install_module(&mut self, bytes: &Vec<u8>) -> (r: Result<usize, LoadError>)
        requires
            app_inv(old(self)@),
        ensures
            app_inv(final(self)@),
            match spec_load_outcome(bytes@, host_world()) {
                Ok(parts) => r matches Ok(ix) && ix == old(self)@.modules.len() && final(self)@.modules.len() == old(self)@.modules.len() + 1 && final(self)@.modules.subrange(
                    0,
                    old(self)@.modules.len() as int,
                ) == old(self)@.modules && ({
                    let m = final(self)@.modules.last();
                    &&& m.interface.imports == parts.imports
                    &&& m.interface.exports == parts.exports
                    &&& m.code == parts.code
                    &&& m.digest == spec_digest(bytes@)
                }) && final(self)@ == (AppModel { modules: final(self)@.modules, ..old(self)@ }),
                Err(e) => r matches Err(e2) && e2 == e && final(self)@ == old(self)@,
            },
    {
        let offered = host_capabilities();
        match load(bytes, &offered) {
            Err(e) => Err(e),
            Ok(m) => {
                let ix = self.modules.len();
                proof {
                    assert(modules_view(self.modules@.push(m)) =~= modules_view(
                        self.modules@,
                    ).push(m@));
                }
                self.modules.push(m);
                proof {
                    assert(final(self)@.modules.subrange(0, old(self)@.modules.len() as int)
                        =~= old(self)@.modules);
                }
                Ok(ix)
            },
        }
    }

    /// Submit one invocation: record a `Pending` job against a loaded
    /// module and return its id. The job's id is its submission
    /// position, so concurrent submissions never share one. Nothing is
    /// run yet. An unknown module position is refused with nothing
    /// recorded.
    pub fn start_job(
        &mut self,
        module_index: usize,
        export: Vec<u8>,
        input: Vec<Value>,
        limits: Limits,
    ) -> (r: Option<u64>)
        requires
            app_inv(old(self)@),
        ensures
            app_inv(final(self)@),
            match r {
                None => (module_index >= old(self)@.modules.len() || old(self)@.jobs.len()
                    >= u64::MAX) && final(self)@ == old(self)@,
                Some(id) => {
                    &&& module_index < old(self)@.modules.len()
                    &&& id == old(self)@.jobs.len()
                    &&& final(self)@.jobs.len() == old(self)@.jobs.len() + 1
                    &&& final(self)@.jobs.subrange(0, old(self)@.jobs.len() as int) == old(self)@.jobs
                    &&& ({
                        let j = final(self)@.jobs.last();
                        &&& j.job_id == id
                        &&& j.plugin_id == old(self)@.modules[module_index as int].digest
                        &&& j.module_index == module_index
                        &&& j.export == export@
                        &&& j.input == vals_view(input@)
                        &&& j.limits == limits
                        &&& j.state == JobState::Pending
                        &&& j.completed_at is None
                        &&& j.outcome is None
                    })
                    &&& final(self)@ == (AppModel { jobs: final(self)@.jobs, ..old(self)@ })
                },
            },
    {
        if module_index >= self.modules.len() {
            return None;
        }
        if self.jobs.len() as u64 == u64::MAX {
            return None;
        }
        let id: u64 = self.jobs.len() as u64;
        let started_at = now_millis();
        let job = Job {
            job_id: id,
            plugin_id: self.modules[module_index].digest,
            module_index,
            export,
            input,
            limits,
            state: JobState::Pending,
            started_at,
            completed_at: None,
            outcome: None,
        };
        proof {
            assert(jobs_view(self.jobs@.push(job)) =~= jobs_view(self.jobs@).push(job@));
        }
        self.jobs.push(job);
        proof {
            assert(final(self)@.jobs.subrange(0, old(self)@.jobs.len() as int) =~= old(self)@.jobs);
        }
        Some(id)
    }

    /// Look one job up by id: its record, or nothing when no job has
    /// that id.
    pub fn status(&self, job_id: u64) -> (r: Option<&Job>)
        requires
            app_inv(self@),
        ensures
            match r {
                Some(j) => (job_id as int) < self@.jobs.len() && j@ == self@.jobs[job_id as int],
                None => (job_id as int) >= self@.jobs.len(),
            },
    {
        if job_id < self.jobs.len() as u64 {
            let ix: usize = job_id as usize;
            Some(&self.jobs[ix])
        } else {
            None
        }
    }

    /// Record the invoker's terminal outcome on a job, exactly once:
    /// the job leaves `Pending` for the outcome's terminal state and its
    /// result is captured. A second finalization is refused, and an
    /// unknown id reported, with nothing changed.
    pub fn finalize_job(&mut self, job_id: u64, outcome: Outcome) -> (r: Result<(), TrackError>)
        requires
            app_inv(old(self)@),
        ensures
            app_inv(final(self)@),
            match r {
                Err(TrackError::NotFound) => (job_id as int) >= old(self)@.jobs.len() && final(self)@ == old(self)@,
                Err(TrackError::AlreadyFinal) => (job_id as int) < old(self)@.jobs.len()
                    && !(old(self)@.jobs[job_id as int].state is Pending) && final(self)@ == old(self)@,
                Ok(()) => {
                    &&& (job_id as int) < old(self)@.jobs.len()
                    &&& old(self)@.jobs[job_id as int].state is Pending
                    &&& ({
                        let j0 = old(self)@.jobs[job_id as int];
                        let j1 = final(self)@.jobs[job_id as int];
                        &&& j1.state == outcome_state(outcome@)
                        &&& is_terminal(j1.state)
                        &&& j1.outcome == Some(outcome@)
                        &&& j1.completed_at is Some
                        &&& j1.job_id == j0.job_id
                        &&& j1.plugin_id == j0.plugin_id
                        &&& j1.module_index == j0.module_index
                        &&& j1.export == j0.export
                        &&& j1.input == j0.input
                        &&& j1.limits == j0.limits
                        &&& j1.started_at == j0.started_at
                    })
                    &&& final(self)@.jobs.len() == old(self)@.jobs.len()
                    &&& forall|w: int|
                        0 <= w < old(self)@.jobs.len() && w != job_id as int ==> final(self)@.jobs[w] == old(self)@.jobs[w]
                    &&& final(self)@ == (AppModel { jobs: final(self)@.jobs, ..old(self)@ })
                },
            },
    {
        if job_id >= self.jobs.len() as u64 {
            return Err(TrackError::NotFound);
        }
        let ix: usize = job_id as usize;
        match self.jobs[ix].state {
            JobState::Pending => {},
            _ => {
                return Err(TrackError::AlreadyFinal);
            },
        }
        let completed_at = now_millis();
        let done = Job {
            job_id: self.jobs[ix].job_id,
            plugin_id: self.jobs[ix].plugin_id,
            module_index: self.jobs[ix].module_index,
            export: clone_bytes(&self.jobs[ix].export),
            input: clone_values(&self.jobs[ix].input),
            limits: self.jobs[ix].limits,
            state: state_of_outcome(&outcome),
            started_at: self.jobs[ix].started_at,
            completed_at: Some(completed_at),
            outcome: Some(outcome),
        };
        proof {
            lemma_outcome_state_terminal(outcome@);
            assert(jobs_view(self.jobs@.update(ix as int, done)) =~= jobs_view(
                self.jobs@,
            ).update(ix as int, done@));
        }
        self.jobs[ix] = done;
        Ok(())
    }

    /// Run one pending job to its terminal state: invoke the module's
    /// export in a fresh isolated context under the job's limits, then
    /// finalize the record with the outcome. The record afterwards holds
    /// exactly what [`spec_invoke`] decides for the job's module, export,
    /// input and limits, and the provider has advanced the same way.
    pub fn run_job(&mut self, job_id: u64) -> (r: Result<(), TrackError>)
        requires
            app_inv(old(self)@),
        ensures
            app_inv(final(self)@),
            match r {
                Err(TrackError::NotFound) => (job_id as int) >= old(self)@.jobs.len() && final(self)@ == old(self)@,
                Err(TrackError::AlreadyFinal) => (job_id as int) < old(self)@.jobs.len()
                    && !(old(self)@.jobs[job_id as int].state is Pending) && final(self)@ == old(self)@,
                Ok(()) => ({
                    let j0 = old(self)@.jobs[job_id as int];
                    let ran = spec_invoke(
                        old(self)@.modules[j0.module_index as int],
                        j0.export,
                        j0.input,
                        j0.limits,
                        old(self)@.provider,
                    );
                    &&& (job_id as int) < old(self)@.jobs.len()
                    &&& j0.state is Pending
                    &&& final(self)@.provider == ran.1
                    &&& ({
                        let j1 = final(self)@.jobs[job_id as int];
                        &&& j1.state == outcome_state(ran.0)
                        &&& is_terminal(j1.state)
                        &&& j1.outcome == Some(ran.0)
                        &&& j1.job_id == j0.job_id
                        &&& j1.export == j0.export
                        &&& j1.input == j0.input
                    })
                    &&& final(self)@.jobs.len() == old(self)@.jobs.len()
                    &&& forall|w: int|
                        0 <= w < old(self)@.jobs.len() && w != job_id as int ==> final(self)@.jobs[w] == old(self)@.jobs[w]
                    &&& final(self)@.modules == old(self)@.modules
                    &&& final(self)@.peers == old(self)@.peers
                }),
            },
    {
        if job_id >= self.jobs.len() as u64 {
            return Err(TrackError::NotFound);
        }
        let ix: usize = job_id as usize;
        match self.jobs[ix].state {
            JobState::Pending => {},
            _ => {
                return Err(TrackError::AlreadyFinal);
            },
        }
        let midx: usize = self.jobs[ix].module_index;
        let lim: Limits = self.jobs[ix].limits;
        let outcome = invoke(
            &self.modules[midx],
            &self.jobs[ix].export,
            &self.jobs[ix].input,
            &lim,
            &mut self.provider,
        );
        match self.finalize_job(job_id, outcome) {
            Ok(()) => Ok(()),
            Err(e) => Err(e),
        }
    }

    /// Submit one invocation and run it at once: the job is recorded,
    /// executed in its own fresh context, and finalized in a terminal
    /// state before this returns. An unknown module position is refused
    /// with nothing recorded.
    pub fn submit_and_run(
        &mut self,
        module_index: usize,
        export: Vec<u8>,
        input: Vec<Value>,
        limits: Limits,
    ) -> (r: Option<u64>)
        requires
            app_inv(old(self)@),
        ensures
            app_inv(final(self)@),
            match r {
                None => (module_index >= old(self)@.modules.len() || old(self)@.jobs.len()
                    >= u64::MAX) && final(self)@ == old(self)@,
                Some(id) => {
                    &&& id == old(self)@.jobs.len()
                    &&& final(self)@.jobs.len() == old(self)@.jobs.len() + 1
                    &&& final(self)@.jobs.subrange(0, old(self)@.jobs.len() as int) == old(self)@.jobs
                    &&& ({
                        let ran = spec_invoke(
                            old(self)@.modules[module_index as int],
                            export@,
                            vals_view(input@),
                            limits,
                            old(self)@.provider,
                        );
                        let j = final(self)@.jobs.last();
                        &&& j.job_id == id
                        &&& j.state == outcome_state(ran.0)
                        &&& is_terminal(j.state)
                        &&& j.outcome == Some(ran.0)
                        &&& j.export == export@
                        &&& j.input == vals_view(input@)
                        &&& final(self)@.provider == ran.1
                    })
                    &&& final(self)@.modules == old(self)@.modules
                    &&& final(self)@.peers == old(self)@.peers
                },
            },
    {
        let id = match self.start_job(module_index, export, input, limits) {
            None => {
                return None;
            },
            Some(id) => id,
        };
        match self.run_job(id) {
            Ok(()) => Some(id),
            Err(_) => {
                proof {
                    assert(false);
                }
                None
            },
        }
    }
}

} // verus!
