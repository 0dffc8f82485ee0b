//! The tick-driven daemons: the shared run-loop decisions, the server's
//! configuration distribution tick, and the client's schedule-driven job
//! launcher.

use vstd::prelude::*;

use crate::config::{Client, ClientV, Config, ConfigVersion};
use crate::db::Db;
use crate::job::{BackupJob, BackupJobV, BackupType, JobStatus};
use crate::schedule::{active_at_v, lemma_active_at_dv, local_now, LocalTime, Schedule};

verus! {

/// Whether the run loop should halt after the current tick.
#[derive(Clone, Copy, Debug, PartialEq, Eq, Structural)]
pub enum Stopping {
    Yes,
    No,
}

/// The operating-system signals a daemon listens for.
#[derive(Clone, Copy, Debug, PartialEq, Eq, Structural)]
pub enum Signal {
    Int,
    Term,
}

/// The signals every daemon subscribes to by default.
pub fn default_signals() -> (r: Vec<Signal>)
    ensures
        r@ == seq![Signal::Int, Signal::Term],
{
    let mut v: Vec<Signal> = Vec::new();
    v.push(Signal::Int);
    v.push(Signal::Term);
    proof {
        assert(v@ =~= seq![Signal::Int, Signal::Term]);
    }
    v
}

/// What a daemon contributes to the run loop besides its tick work: how it
/// answers a delivered signal, and what it does when the loop winds down.
pub trait ReliqueApp {
    /// Handles one delivered signal; the loop stops when the answer says so.
    fn received_signal(&mut self, sig: Signal) -> (r: Stopping);

    /// Runs once after the loop has stopped.
    fn shutdown(&mut self);
}

/// Whether the run loop stops now: either the tick asked to halt, or some
/// pending signal's answer did.
pub fn should_stop(tick: &Stopping, signal_answers: &Vec<Stopping>) -> (r: bool)
    ensures
        r == (*tick == Stopping::Yes || exists|i: int|
            0 <= i < signal_answers@.len() && signal_answers@[i] == Stopping::Yes),
{
    match tick {
        Stopping::Yes => true,
        Stopping::No => {
            let mut i: usize = 0;
            while i < signal_answers.len()
                invariant
                    0 <= i <= signal_answers@.len(),
                    forall|p: int| 0 <= p < i ==> signal_answers@[p] != Stopping::Yes,
                decreases signal_answers@.len() - i,
            {
                let stop = match signal_answers[i] {
                    Stopping::Yes => true,
                    Stopping::No => false,
                };
                if stop {
                    return true;
                }
                i += 1;
            }
            false
        },
    }
}

/// Whether the server must push its configuration to a client: exactly when
/// the version the client reported differs from the server's current one,
/// a missing report included.
pub fn needs_config_push(server_version: &Option<String>, client_version: &Option<String>) -> (r:
    bool)
    ensures
        r == (server_version.deep_view() != client_version.deep_view()),
{
    match (server_version, client_version) {
        (None, None) => {
            proof {
                assert(server_version.deep_view() =~= client_version.deep_view());
            }
            false
        },
        (Some(s), Some(c)) => {
            let eq = *s == *c;
            proof {
                if s@ == c@ {
                    assert(server_version.deep_view() =~= client_version.deep_view());
                }
            }
            !eq
        },
        _ => true,
    }
}

/// What one server tick asks its caller to do.
#[derive(Debug)]
pub enum ServerTick {
    /// The configuration names no clients; nothing to contact.
    NoClients,
    /// Ask each of these clients for its configuration version (pushing the
    /// record on a mismatch), and note the jobs currently active.
    Poll(Vec<Client>, Vec<BackupJob>),
}

/// The server daemon: the authoritative configuration document and the job
/// registry it owns.
pub struct ServerDaemon {
    pub config: Config,
    pub db: Db,
}

impl ServerDaemon {
    /// A server daemon over the given document and registry.
    pub fn new(config: Config, db: Db) -> (r: ServerDaemon)
        ensures
            r.config == config,
            r.db == db,
    {
        ServerDaemon { config, db }
    }

    /// One tick of the server loop: nothing when no clients are configured,
    /// otherwise the client list to poll for configuration versions together
    /// with the currently active jobs; the loop never stops on its own.
    pub fn loop_func(&mut self) -> (r: (Stopping, ServerTick))
        requires
            old(self).db.wf(),
        ensures
            *final(self) == *old(self),
            r.0 == Stopping::No,
            (r.1 is NoClients) == (old(self).config.clients is None),
            r.1 matches ServerTick::Poll(cs, jobs) ==> {
                &&& old(self).config.clients matches Some(own) && cs.deep_view()
                    == own.deep_view()
                &&& jobs.deep_view().len() == Db::active_rows(
                    old(self).db.jobs.deep_view(),
                ).len()
                &&& forall|q: int|
                    0 <= q < jobs.deep_view().len() ==> #[trigger] jobs.deep_view()[q]
                        == crate::db::job_of_row(
                        Db::active_rows(old(self).db.jobs.deep_view())[q],
                        old(self).db.modules.deep_view(),
                        old(self).db.clients.deep_view(),
                    )
            },
    {
        match &self.config.clients {
            None => (Stopping::No, ServerTick::NoClients),
            Some(clients) => {
                let mut copies: Vec<Client> = Vec::new();
                let mut i: usize = 0;
                while i < clients.len()
                    invariant
                        0 <= i <= clients@.len(),
                        clients == &old(self).config.clients->0,
                        copies@.len() == i,
                        forall|j: int|
                            0 <= j < i ==> (#[trigger] copies@[j]).deep_view()
                                == clients@[j].deep_view(),
                    decreases clients@.len() - i,
                {
                    copies.push(clients[i].duplicate());
                    i += 1;
                }
                proof {
                    assert(copies.deep_view() =~= (old(self).config.clients->0).deep_view());
                }
                let jobs = self.db.get_active_jobs();
                (Stopping::No, ServerTick::Poll(copies, jobs))
            },
        }
    }
}

impl ReliqueApp for ServerDaemon {
    /// Any subscribed signal stops the server.
    fn received_signal(&mut self, sig: Signal) -> (r: Stopping) {
        Stopping::Yes
    }

    /// The server has nothing to wind down beyond its loop.
    fn shutdown(&mut self) {
    }
}

/// Whether the module's schedule-name list names this schedule; a module
/// without a list follows no schedule.
pub open spec fn module_names_schedule(m: crate::config::BackupModuleV, name: Seq<char>) -> bool {
    match m.schedules {
        None => false,
        Some(names) => exists|i: int| 0 <= i < names.len() && names[i] == name,
    }
}

/// Whether some schedule of the client both belongs to the module and is
/// active at the given instant.
pub open spec fn module_qualifies(
    c: ClientV,
    m: crate::config::BackupModuleV,
    now: LocalTime,
) -> bool {
    exists|s: int|
        0 <= s < c.schedules.len() && module_names_schedule(m, (#[trigger] c.schedules[s]).name)
            && active_at_v(c.schedules[s], now)
}

/// Whether any schedule of the client is active at the given instant.
pub open spec fn client_has_active_v(c: ClientV, now: LocalTime) -> bool {
    exists|s: int| 0 <= s < c.schedules.len() && active_at_v(#[trigger] c.schedules[s], now)
}

/// The schedules of `ss` active at `now`, in order.
pub open spec fn active_schedules_of(ss: Seq<crate::schedule::ScheduleV>, now: LocalTime) -> Seq<
    crate::schedule::ScheduleV,
> {
    ss.filter(|s: crate::schedule::ScheduleV| active_at_v(s, now))
}

/// The names of the schedules active at the given instant, in order.
pub fn get_active_schedules(schedules: Vec<Schedule>, now: &LocalTime) -> (r: Vec<String>)
    ensures
        r.deep_view().len() == active_schedules_of(schedules.deep_view(), *now).len(),
        forall|q: int|
            0 <= q < r.deep_view().len() ==> #[trigger] r.deep_view()[q] == active_schedules_of(
                schedules.deep_view(),
                *now,
            )[q].name,
{
    let ghost ssv = schedules.deep_view();
    let mut out: Vec<String> = Vec::new();
    let mut i: usize = 0;
    proof {
        reveal(Seq::filter);
        assert(ssv.subrange(0, 0) =~= Seq::<crate::schedule::ScheduleV>::empty());
    }
    while i < schedules.len()
        invariant
            0 <= i <= schedules@.len(),
            ssv == schedules.deep_view(),
            ssv.len() == schedules@.len(),
            out.deep_view().len() == active_schedules_of(ssv.subrange(0, i as int), *now).len(),
            forall|q: int|
                0 <= q < out.deep_view().len() ==> #[trigger] out.deep_view()[q]
                    == active_schedules_of(ssv.subrange(0, i as int), *now)[q].name,
        decreases schedules@.len() - i,
    {
        let ghost fsub = active_schedules_of(ssv.subrange(0, i as int), *now);
        proof {
            reveal(Seq::filter);
            assert(ssv.subrange(0, i as int + 1).drop_last() =~= ssv.subrange(0, i as int));
            assert(ssv.subrange(0, i as int + 1).last() == ssv[i as int]);
            assert(ssv[i as int] == schedules@[i as int].deep_view());
            lemma_active_at_dv(schedules@[i as int], *now);
        }
        if schedules[i].is_active(now) {
            let ghost out_before = out.deep_view();
            out.push(schedules[i].name.clone());
            proof {
                assert(out.deep_view() =~= out_before.push(schedules@[i as int].name@));
                assert(active_schedules_of(ssv.subrange(0, i as int + 1), *now) =~= fsub.push(
                    ssv[i as int],
                ));
                let fnext = active_schedules_of(ssv.subrange(0, i as int + 1), *now);
                assert forall|q: int|
                    0 <= q < out.deep_view().len() implies #[trigger] out.deep_view()[q]
                    == fnext[q].name by {
                    if q < out_before.len() {
                        assert(out.deep_view()[q] == out_before[q]);
                        assert(fnext[q] == fsub[q]);
                    } else {
                        assert(fnext[q] == ssv[i as int]);
                    }
                }
            }
        } else {
            proof {
                assert(active_schedules_of(ssv.subrange(0, i as int + 1), *now) =~= fsub);
            }
        }
        i += 1;
    }
    proof {
        assert(ssv.subrange(0, ssv.len() as int) =~= ssv);
    }
    out
}

/// Whether any schedule of the client's list is active at the given
/// instant; a missing client record has no active schedule.
pub fn has_active_schedule(client: &Option<Client>, now: &LocalTime) -> (r: bool)
    ensures
        r == (match client {
            None => false,
            Some(c) => client_has_active_v(c.deep_view(), *now),
        }),
{
    match client {
        None => false,
        Some(c) => {
            let ghost cv = c.deep_view();
            let mut s: usize = 0;
            while s < c.schedules.len()
                invariant
                    0 <= s <= c.schedules@.len(),
                    client matches Some(cc) && cc == c,
                    cv == c.deep_view(),
                    cv.schedules.len() == c.schedules@.len(),
                    forall|p: int| 0 <= p < s ==> !active_at_v(#[trigger] cv.schedules[p], *now),
                decreases c.schedules@.len() - s,
            {
                proof {
                    assert(cv.schedules[s as int] == c.schedules@[s as int].deep_view());
                    lemma_active_at_dv(c.schedules@[s as int], *now);
                }
                if c.schedules[s].is_active(now) {
                    proof {
                        assert(active_at_v(c.deep_view().schedules[s as int], *now));
                        assert(client_has_active_v(c.deep_view(), *now));
                        assert(match client {
                            None => false,
                            Some(cc) => client_has_active_v(cc.deep_view(), *now),
                        });
                    }
                    return true;
                }
                s += 1;
            }
            false
        },
    }
}

/// Whether some schedule of the client both belongs to the module and is
/// active at the given instant.
fn module_matches_active(c: &Client, m: &crate::config::BackupModule, now: &LocalTime) -> (r: bool)
    ensures
        r == module_qualifies(c.deep_view(), m.deep_view(), *now),
{
    let ghost cv = c.deep_view();
    let ghost mv = m.deep_view();
    let mut s: usize = 0;
    while s < c.schedules.len()
        invariant
            0 <= s <= c.schedules@.len(),
            cv == c.deep_view(),
            mv == m.deep_view(),
            cv.schedules.len() == c.schedules@.len(),
            forall|p: int|
                0 <= p < s ==> !(module_names_schedule(mv, (#[trigger] cv.schedules[p]).name)
                    && active_at_v(cv.schedules[p], *now)),
        decreases c.schedules@.len() - s,
    {
        proof {
            assert(cv.schedules[s as int] == c.schedules@[s as int].deep_view());
            lemma_active_at_dv(c.schedules@[s as int], *now);
        }
        let mut named = false;
        match &m.schedules {
            None => {},
            Some(names) => {
                let mut n: usize = 0;
                while n < names.len()
                    invariant
                        0 <= n <= names@.len(),
                        mv == m.deep_view(),
                        mv.schedules matches Some(nv) && nv.len() == names@.len() && forall|q: int|
                            0 <= q < names@.len() ==> nv[q] == (#[trigger] names@[q])@,
                        0 <= s < c.schedules@.len(),
                        cv == c.deep_view(),
                        cv.schedules.len() == c.schedules@.len(),
                        named == exists|q: int|
                            0 <= q < n && (mv.schedules->0)[q] == (
                            #[trigger] c.schedules@[s as int].deep_view()).name,
                    decreases names@.len() - n,
                {
                    if names[n] == c.schedules[s].name {
                        named = true;
                    }
                    n += 1;
                }
                proof {
                    assert(named == module_names_schedule(mv, cv.schedules[s as int].name));
                }
            },
        }
        if named && c.schedules[s].is_active(now) {
            return true;
        }
        s += 1;
    }
    false
}

/// The modules of the client whose own schedules include one active at the
/// given instant, in order.
pub open spec fn qualifying_modules(c: ClientV, now: LocalTime) -> Seq<
    crate::config::BackupModuleV,
> {
    c.modules.filter(|m: crate::config::BackupModuleV| module_qualifies(c, m, now))
}

/// One fresh pending job for every module of the client with an active
/// schedule of its own, in module order; a missing client record yields no
/// jobs.
pub fn create_backup_jobs(cfg: &Option<Client>, now: &LocalTime) -> (r: Vec<BackupJob>)
    ensures
        match cfg {
            None => r@.len() == 0,
            Some(c) => {
                let quals = qualifying_modules(c.deep_view(), *now);
                &&& r.deep_view().len() == quals.len()
                &&& forall|q: int|
                    0 <= q < r.deep_view().len() ==> {
                        let jv = #[trigger] r.deep_view()[q];
                        &&& jv.module == quals[q]
                        &&& jv.client == c.deep_view()
                        &&& jv.status == JobStatus::Pending
                        &&& jv.backup_type == (match quals[q].backup_type {
                            Some(t) => t,
                            None => BackupType::Full,
                        })
                        &&& jv.uuid.len() == 36
                    }
            },
        },
{
    let c = match cfg {
        None => {
            return Vec::new();
        },
        Some(c) => c,
    };
    let ghost cv = c.deep_view();
    let mut out: Vec<BackupJob> = Vec::new();
    let mut i: usize = 0;
    proof {
        reveal(Seq::filter);
        assert(cv.modules.subrange(0, 0) =~= Seq::<crate::config::BackupModuleV>::empty());
    }
    while i < c.modules.len()
        invariant
            0 <= i <= c.modules@.len(),
            cv == c.deep_view(),
            cv.modules.len() == c.modules@.len(),
            cfg matches Some(cc) && cc == c,
            out.deep_view().len() == cv.modules.subrange(0, i as int).filter(
                |m: crate::config::BackupModuleV| module_qualifies(cv, m, *now),
            ).len(),
            forall|q: int|
                0 <= q < out.deep_view().len() ==> {
                    let jv = #[trigger] out.deep_view()[q];
                    let quals = cv.modules.subrange(0, i as int).filter(
                        |m: crate::config::BackupModuleV| module_qualifies(cv, m, *now),
                    );
                    &&& jv.module == quals[q]
                    &&& jv.client == cv
                    &&& jv.status == JobStatus::Pending
                    &&& jv.backup_type == (match quals[q].backup_type {
                        Some(t) => t,
                        None => BackupType::Full,
                    })
                    &&& jv.uuid.len() == 36
                },
        decreases c.modules@.len() - i,
    {
        let ghost fsub = cv.modules.subrange(0, i as int).filter(
            |m: crate::config::BackupModuleV| module_qualifies(cv, m, *now),
        );
        proof {
            reveal(Seq::filter);
            assert(cv.modules.subrange(0, i as int + 1).drop_last() =~= cv.modules.subrange(
                0,
                i as int,
            ));
            assert(cv.modules.subrange(0, i as int + 1).last() == cv.modules[i as int]);
            assert(cv.modules[i as int] == c.modules@[i as int].deep_view());
        }
        if module_matches_active(c, &c.modules[i], now) {
            let job = BackupJob::new(c.duplicate(), c.modules[i].duplicate());
            let ghost out_before = out.deep_view();
            let ghost jobv = job.deep_view();
            out.push(job);
            proof {
                assert(out.deep_view() =~= out_before.push(jobv));
                assert(cv.modules.subrange(0, i as int + 1).filter(
                    |m: crate::config::BackupModuleV| module_qualifies(cv, m, *now),
                ) =~= fsub.push(cv.modules[i as int]));
                let fnext = cv.modules.subrange(0, i as int + 1).filter(
                    |m: crate::config::BackupModuleV| module_qualifies(cv, m, *now),
                );
                assert forall|q: int| 0 <= q < out.deep_view().len() implies {
                    let jv = #[trigger] out.deep_view()[q];
                    &&& jv.module == fnext[q]
                    &&& jv.client == cv
                    &&& jv.status == JobStatus::Pending
                    &&& jv.backup_type == (match fnext[q].backup_type {
                        Some(t) => t,
                        None => BackupType::Full,
                    })
                    &&& jv.uuid.len() == 36
                } by {
                    if q < out_before.len() {
                        assert(out.deep_view()[q] == out_before[q]);
                        assert(fnext[q] == fsub[q]);
                    } else {
                        assert(out.deep_view()[q] == jobv);
                        assert(fnext[q] == cv.modules[i as int]);
                    }
                }
            }
        } else {
            proof {
                assert(cv.modules.subrange(0, i as int + 1).filter(
                    |m: crate::config::BackupModuleV| module_qualifies(cv, m, *now),
                ) =~= fsub);
            }
        }
        i += 1;
    }
    proof {
        assert(cv.modules.subrange(0, cv.modules.len() as int) =~= cv.modules);
    }
    out
}

/// The in-flight job list after offering a run of candidates: each candidate
/// joins the list unless a job for the same module name is already there,
/// walking the candidates in order against the growing list.
pub open spec fn enqueue_spec(existing: Seq<BackupJobV>, cands: Seq<BackupJobV>) -> Seq<BackupJobV>
    decreases cands.len(),
{
    if cands.len() == 0 {
        existing
    } else {
        let next = if exists|j: int|
            0 <= j < existing.len() && (#[trigger] existing[j]).module.name
                == cands[0].module.name {
            existing
        } else {
            existing.push(cands[0])
        };
        enqueue_spec(next, cands.drop_first())
    }
}

/// The jobs a client daemon launched during one tick, and what became of its
/// in-memory state.
#[derive(Debug)]
pub enum ClientTick {
    /// No configuration has arrived from the server yet; nothing to do.
    WaitingForConfig,
    /// These jobs were enqueued and must now be run against the server.
    Launch(Vec<BackupJob>),
    /// No schedule is active; this many finished jobs were evicted.
    Cleaned(usize),
}

/// The client daemon: the local configuration document, the client record
/// received from the server, and the in-flight jobs.
pub struct ClientDaemon {
    pub config: Config,
    pub client_config: Option<Client>,
    pub jobs: Vec<BackupJob>,
}

impl ClientDaemon {
    /// A client daemon that has not yet heard from its server.
    pub fn new(config: Config) -> (r: ClientDaemon)
        ensures
            r.config == config,
            r.client_config is None,
            r.jobs@.len() == 0,
    {
        ClientDaemon { config, client_config: None, jobs: Vec::new() }
    }

    /// Offers a run of candidate jobs to the in-flight list: a candidate
    /// whose module name is already represented is dropped, the rest are
    /// appended in order, and the appended jobs are handed back for launch.
    pub fn enqueue_new_jobs(&mut self, candidates: Vec<BackupJob>) -> (launched: Vec<BackupJob>)
        ensures
            final(self).config == old(self).config,
            final(self).client_config == old(self).client_config,
            final(self).jobs.deep_view() == enqueue_spec(
                old(self).jobs.deep_view(),
                candidates.deep_view(),
            ),
            old(self).jobs.deep_view().len() <= final(self).jobs.deep_view().len(),
            launched.deep_view() == final(self).jobs.deep_view().skip(
                old(self).jobs.deep_view().len() as int,
            ),
    {
        let ghost cands = candidates.deep_view();
        let ghost base = old(self).jobs.deep_view();
        let mut launched: Vec<BackupJob> = Vec::new();
        let mut i: usize = 0;
        proof {
            assert(cands.skip(0) =~= cands);
        }
        while i < candidates.len()
            invariant
                0 <= i <= candidates@.len(),
                cands == candidates.deep_view(),
                cands.len() == candidates@.len(),
                self.config == old(self).config,
                self.client_config == old(self).client_config,
                base.len() <= self.jobs.deep_view().len(),
                enqueue_spec(base, cands) == enqueue_spec(
                    self.jobs.deep_view(),
                    cands.skip(i as int),
                ),
                launched.deep_view() == self.jobs.deep_view().skip(base.len() as int),
            decreases candidates@.len() - i,
        {
            let ghost jobs_now = self.jobs.deep_view();
            proof {
                assert(cands.skip(i as int)[0] == cands[i as int]);
                assert(cands.skip(i as int).drop_first() =~= cands.skip(i as int + 1));
                assert(cands[i as int] == candidates@[i as int].deep_view());
            }
            let mut dup = false;
            let mut j: usize = 0;
            while j < self.jobs.len()
                invariant
                    0 <= j <= self.jobs@.len(),
                    0 <= i < candidates@.len(),
                    jobs_now == self.jobs.deep_view(),
                    jobs_now.len() == self.jobs@.len(),
                    cands == candidates.deep_view(),
                    cands[i as int] == candidates@[i as int].deep_view(),
                    dup == exists|p: int|
                        0 <= p < j && (#[trigger] jobs_now[p]).module.name == cands[i as int].module.name,
                decreases self.jobs@.len() - j,
            {
                proof {
                    assert(jobs_now[j as int] == self.jobs@[j as int].deep_view());
                }
                if self.jobs[j].module.name == candidates[i].module.name {
                    dup = true;
                }
                j += 1;
            }
            if !dup {
                let copy_for_launch = candidates[i].duplicate();
                let cand = candidates[i].duplicate();
                let ghost launched_before = launched.deep_view();
                self.jobs.push(cand);
                launched.push(copy_for_launch);
                proof {
                    assert(self.jobs.deep_view() =~= jobs_now.push(cands[i as int]));
                    assert(launched.deep_view() =~= launched_before.push(cands[i as int]));
                    assert(launched.deep_view() =~= self.jobs.deep_view().skip(base.len() as int));
                }
            }
            proof {
                assert(enqueue_spec(self.jobs.deep_view(), cands.skip(i as int + 1))
                    == enqueue_spec(jobs_now, cands.skip(i as int)));
            }
            i += 1;
        }
        proof {
            assert(cands.skip(cands.len() as int) =~= Seq::<BackupJobV>::empty());
        }
        launched
    }

    /// Evicts every finished job from the in-flight list, keeping the order
    /// of the rest, and reports how many left.
    pub fn clean_done_jobs(&mut self) -> (evicted: usize)
        ensures
            final(self).config == old(self).config,
            final(self).client_config == old(self).client_config,
            final(self).jobs.deep_view() == old(self).jobs.deep_view().filter(
                |j: BackupJobV| j.status != JobStatus::Done,
            ),
            evicted == old(self).jobs.deep_view().len() - final(self).jobs.deep_view().len(),
    {
        let ghost js = self.jobs.deep_view();
        let initial = self.jobs.len();
        let mut kept: Vec<BackupJob> = Vec::new();
        let mut i: usize = 0;
        proof {
            reveal(Seq::filter);
            assert(js.subrange(0, 0) =~= Seq::<BackupJobV>::empty());
        }
        while i < self.jobs.len()
            invariant
                0 <= i <= self.jobs@.len(),
                js == self.jobs.deep_view(),
                js.len() == self.jobs@.len(),
                kept.deep_view() == js.subrange(0, i as int).filter(
                    |j: BackupJobV| j.status != JobStatus::Done,
                ),
            decreases self.jobs@.len() - i,
        {
            let ghost fsub = js.subrange(0, i as int).filter(
                |j: BackupJobV| j.status != JobStatus::Done,
            );
            proof {
                reveal(Seq::filter);
                assert(js.subrange(0, i as int + 1).drop_last() =~= js.subrange(0, i as int));
                assert(js.subrange(0, i as int + 1).last() == js[i as int]);
                assert(js[i as int] == self.jobs@[i as int].deep_view());
            }
            let done = match self.jobs[i].status {
                JobStatus::Done => true,
                _ => false,
            };
            if !done {
                let ghost kept_before = kept.deep_view();
                kept.push(self.jobs[i].duplicate());
                proof {
                    assert(kept.deep_view() =~= kept_before.push(js[i as int]));
                    assert(js.subrange(0, i as int + 1).filter(
                        |j: BackupJobV| j.status != JobStatus::Done,
                    ) =~= fsub.push(js[i as int]));
                }
            } else {
                proof {
                    assert(js.subrange(0, i as int + 1).filter(
                        |j: BackupJobV| j.status != JobStatus::Done,
                    ) =~= fsub);
                }
            }
            i += 1;
        }
        proof {
            assert(js.subrange(0, js.len() as int) =~= js);
            js.lemma_filter_len(|j: BackupJobV| j.status != JobStatus::Done);
        }
        self.jobs = kept;
        initial - self.jobs.len()
    }

    /// One tick of the client loop: wait while no configuration has
    /// arrived; launch a fresh job for every module with an active schedule
    /// whose module name is not already in flight; and between active
    /// windows, evict finished jobs. The loop never stops on its own, and
    /// the clock is read once per tick.
    pub fn loop_func(&mut self) -> (r: (Stopping, ClientTick))
        ensures
            r.0 == Stopping::No,
            final(self).config == old(self).config,
            final(self).client_config == old(self).client_config,
            (r.1 is WaitingForConfig) == (old(self).client_config is None),
            r.1 is WaitingForConfig ==> *final(self) == *old(self),
            r.1 matches ClientTick::Launch(launched) ==> exists|now: LocalTime|
                {
                    &&& #[trigger] now.wf()
                    &&& old(self).client_config matches Some(c) && client_has_active_v(
                        c.deep_view(),
                        now,
                    )
                    &&& exists|cands: Seq<BackupJobV>|
                        {
                            let c2 = (old(self).client_config->0).deep_view();
                            let quals = qualifying_modules(c2, now);
                            &&& #[trigger] cands.len() == quals.len()
                            &&& forall|q: int|
                                0 <= q < cands.len() ==> {
                                    let jv = #[trigger] cands[q];
                                    &&& jv.module == quals[q]
                                    &&& jv.client == c2
                                    &&& jv.status == JobStatus::Pending
                                    &&& jv.backup_type == (match quals[q].backup_type {
                                        Some(t) => t,
                                        None => BackupType::Full,
                                    })
                                    &&& jv.uuid.len() == 36
                                }
                            &&& final(self).jobs.deep_view() == enqueue_spec(
                                old(self).jobs.deep_view(),
                                cands,
                            )
                            &&& launched.deep_view() == final(self).jobs.deep_view().skip(
                                old(self).jobs.deep_view().len() as int,
                            )
                        }
                },
            r.1 matches ClientTick::Cleaned(n) ==> {
                &&& old(self).client_config is Some
                &&& final(self).jobs.deep_view() == old(self).jobs.deep_view().filter(
                    |j: BackupJobV| j.status != JobStatus::Done,
                )
                &&& n == old(self).jobs.deep_view().len() - final(self).jobs.deep_view().len()
            },
    {
        if self.client_config.is_none() {
            return (Stopping::No, ClientTick::WaitingForConfig);
        }
        let now = local_now();
        if has_active_schedule(&self.client_config, &now) {
            let candidates = create_backup_jobs(&self.client_config, &now);
            proof {
                // The candidate run itself witnesses the launch description.
                let cands = candidates.deep_view();
            }
            let launched = self.enqueue_new_jobs(candidates);
            (Stopping::No, ClientTick::Launch(launched))
        } else {
            let n = self.clean_done_jobs();
            (Stopping::No, ClientTick::Cleaned(n))
        }
    }

    /// Replaces the held client record with one pushed by the server, unless
    /// the held record already carries the incoming configuration version;
    /// reports whether a replacement happened.
    pub fn apply_config(&mut self, incoming: Client) -> (replaced: bool)
        ensures
            final(self).config == old(self).config,
            final(self).jobs == old(self).jobs,
            replaced == !(old(self).client_config matches Some(held)
                && held.config_version matches Some(v) && incoming.config_version.deep_view()
                == Some(v@)),
            replaced ==> final(self).client_config == Some(incoming),
            !replaced ==> final(self).client_config == old(self).client_config,
    {
        let same = match &self.client_config {
            None => false,
            Some(held) => {
                match (&held.config_version, &incoming.config_version) {
                    (Some(v), Some(iv)) => {
                        let eq = *v == *iv;
                        proof {
                            if v@ == iv@ {
                                assert(incoming.config_version.deep_view() =~= Some(v@));
                            }
                        }
                        eq
                    },
                    _ => false,
                }
            },
        };
        if same {
            return false;
        }
        self.client_config = Some(incoming);
        true
    }

    /// The configuration-version reply this client serves: the version of
    /// the held record, or nothing while no record has arrived.
    pub fn current_config_version(&self) -> (r: ConfigVersion)
        ensures
            r.version.deep_view() == (match self.client_config {
                None => None::<Seq<char>>,
                Some(c) => c.config_version.deep_view(),
            }),
    {
        match &self.client_config {
            None => ConfigVersion { version: None },
            Some(c) => ConfigVersion { version: crate::config::copy_opt_string(&c.config_version) },
        }
    }
}

impl ReliqueApp for ClientDaemon {
    /// Any subscribed signal stops the client.
    fn received_signal(&mut self, sig: Signal) -> (r: Stopping) {
        Stopping::Yes
    }

    /// The client has nothing to wind down beyond its loop.
    fn shutdown(&mut self) {
    }
}

} // verus!
