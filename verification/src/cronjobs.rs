//! Scheduled agent jobs: the jobs file of a profile, listing jobs, and
//! creating, removing, pausing and resuming them.

use vstd::prelude::*;
use crate::json::{ostring, clone_opt};
use crate::config::{strs_view, named_profile, ostr_view, profile_home};
use crate::mcp::{ostrs, strings_or_empty};
use crate::text::str_eq;

verus! {

/// A job as the jobs file keeps it.
#[derive(Debug, Clone, PartialEq, Eq)]
pub struct CronJobConfig {
    pub schedule: String,
    pub prompt: Option<String>,
    pub enabled: Option<bool>,
    pub name: Option<String>,
    pub deliver: Option<Vec<String>>,
    pub skills: Option<Vec<String>>,
    pub script: Option<String>,
}

/// The mathematical view of a stored job.
pub struct CronJobConfigV {
    pub schedule: Seq<char>,
    pub prompt: Option<Seq<char>>,
    pub enabled: Option<bool>,
    pub name: Option<Seq<char>>,
    pub deliver: Option<Seq<Seq<char>>>,
    pub skills: Option<Seq<Seq<char>>>,
    pub script: Option<Seq<char>>,
}

impl View for CronJobConfig {
    type V = CronJobConfigV;

    open spec fn view(&self) -> CronJobConfigV {
        CronJobConfigV {
            schedule: self.schedule@,
            prompt: ostring(self.prompt),
            enabled: self.enabled,
            name: ostring(self.name),
            deliver: ostrs(self.deliver),
            skills: ostrs(self.skills),
            script: ostring(self.script),
        }
    }
}

fn copy_strings_opt(o: &Option<Vec<String>>) -> (r: Option<Vec<String>>)
    ensures
        ostrs(r) == ostrs(*o),
{
    match o {
        Some(v) => Some(strings_or_empty(o)),
        None => None,
    }
}

impl CronJobConfig {
    /// A copy of the stored job.
    pub fn copy(&self) -> (r: CronJobConfig)
        ensures
            r@ == self@,
    {
        CronJobConfig {
            schedule: self.schedule.as_str().to_owned(),
            prompt: clone_opt(&self.prompt),
            enabled: self.enabled,
            name: clone_opt(&self.name),
            deliver: copy_strings_opt(&self.deliver),
            skills: copy_strings_opt(&self.skills),
            script: clone_opt(&self.script),
        }
    }
}

/// How often a job repeats and how often it ran.
#[derive(Debug, Clone, PartialEq, Eq)]
pub struct CronRepeat {
    pub times: Option<i64>,
    pub completed: i64,
}

/// A job as the desktop lists it.
#[derive(Debug, Clone, PartialEq, Eq)]
pub struct CronJob {
    pub id: String,
    pub name: String,
    pub schedule: String,
    pub prompt: String,
    /// `active`, `paused` or `completed`.
    pub state: String,
    pub enabled: bool,
    pub next_run_at: Option<String>,
    pub last_run_at: Option<String>,
    pub last_status: Option<String>,
    pub last_error: Option<String>,
    pub repeat: Option<CronRepeat>,
    pub deliver: Vec<String>,
    pub skills: Vec<String>,
    pub script: Option<String>,
}

/// True when `j` is how the stored job `c` of id `id` is listed: named by
/// its name or else its id, active, enabled unless it says otherwise,
/// with no run history.
pub open spec fn listed_job(j: CronJob, id: Seq<char>, c: CronJobConfigV) -> bool {
    &&& j.id@ == id
    &&& j.name@ == (match c.name {
        Some(n) => n,
        None => id,
    })
    &&& j.schedule@ == c.schedule
    &&& j.prompt@ == (match c.prompt {
        Some(p) => p,
        None => Seq::empty(),
    })
    &&& j.state@ == "active"@
    &&& j.enabled == (match c.enabled {
        Some(b) => b,
        None => true,
    })
    &&& j.next_run_at is None && j.last_run_at is None && j.last_status is None && j.last_error is None
    &&& j.repeat is None
    &&& strs_view(j.deliver@) == (match c.deliver {
        Some(d) => d,
        None => Seq::empty(),
    })
    &&& strs_view(j.skills@) == (match c.skills {
        Some(s) => s,
        None => Seq::empty(),
    })
    &&& ostring(j.script) == c.script
}

/// The jobs of a jobs file, by id; no id occurs twice.
#[derive(Debug)]
pub struct CronConfigFile {
    jobs: Vec<(String, CronJobConfig)>,
}

/// The views of stored jobs.
pub open spec fn jobs_view(v: Seq<(String, CronJobConfig)>) -> Seq<(Seq<char>, CronJobConfigV)> {
    v.map_values(|e: (String, CronJobConfig)| (e.0@, e.1@))
}

/// No id occurs twice.
pub open spec fn unique_ids(s: Seq<(Seq<char>, CronJobConfigV)>) -> bool {
    forall|i: int, j: int| 0 <= i < j < s.len() ==> (#[trigger] s[i]).0 != (#[trigger] s[j]).0
}

/// The index of the job of that id.
pub open spec fn index_of(s: Seq<(Seq<char>, CronJobConfigV)>, id: Seq<char>) -> Option<int> {
    if exists|i: int| 0 <= i < s.len() && (#[trigger] s[i]).0 == id {
        Some(choose|i: int| 0 <= i < s.len() && (#[trigger] s[i]).0 == id)
    } else {
        None
    }
}

/// The stored job of that id.
pub open spec fn lookup(s: Seq<(Seq<char>, CronJobConfigV)>, id: Seq<char>) -> Option<CronJobConfigV> {
    match index_of(s, id) {
        Some(i) => Some(s[i].1),
        None => None,
    }
}

/// The jobs after storing `c` under `id`: replacing the job of that id in
/// place, or adding it at the end.
pub open spec fn with_job(s: Seq<(Seq<char>, CronJobConfigV)>, id: Seq<char>, c: CronJobConfigV) -> Seq<(Seq<char>, CronJobConfigV)> {
    match index_of(s, id) {
        Some(i) => s.update(i, (id, c)),
        None => s.push((id, c)),
    }
}

/// The jobs without the job of that id.
pub open spec fn without_job(s: Seq<(Seq<char>, CronJobConfigV)>, id: Seq<char>) -> Seq<(Seq<char>, CronJobConfigV)> {
    match index_of(s, id) {
        Some(i) => s.remove(i),
        None => s,
    }
}

/// The jobs after storing each of `es` in turn.
pub open spec fn with_jobs(s: Seq<(Seq<char>, CronJobConfigV)>, es: Seq<(Seq<char>, CronJobConfigV)>) -> Seq<
    (Seq<char>, CronJobConfigV),
>
    decreases es.len(),
{
    if es.len() == 0 {
        s
    } else {
        with_job(with_jobs(s, es.drop_last()), es.last().0, es.last().1)
    }
}

/// A stored job with its `enabled` flag set.
pub open spec fn with_enabled(c: CronJobConfigV, enabled: bool) -> CronJobConfigV {
    CronJobConfigV { enabled: Some(enabled), ..c }
}

proof fn lemma_index_unique(s: Seq<(Seq<char>, CronJobConfigV)>, id: Seq<char>, i: int)
    requires
        unique_ids(s),
        0 <= i < s.len(),
        s[i].0 == id,
    ensures
        index_of(s, id) == Some(i),
{
    let w = choose|w: int| 0 <= w < s.len() && (#[trigger] s[w]).0 == id;
    if w < i {
        assert(s[w].0 != s[i].0);
    } else if w > i {
        assert(s[i].0 != s[w].0);
    }
}

impl CronConfigFile {
    /// The stored jobs, in order.
    pub closed spec fn entries(&self) -> Seq<(Seq<char>, CronJobConfigV)> {
        jobs_view(self.jobs@)
    }

    /// No id occurs twice.
    pub closed spec fn wf(&self) -> bool {
        unique_ids(self.entries())
    }

    /// A jobs file without jobs.
    pub fn new() -> (r: Self)
        ensures
            r.wf(),
            r.entries() == Seq::<(Seq<char>, CronJobConfigV)>::empty(),
    {
        let r = CronConfigFile { jobs: Vec::new() };
        assert(r.entries() =~= Seq::<(Seq<char>, CronJobConfigV)>::empty());
        r
    }

    /// The jobs file holding the jobs in order, a later job replacing an
    /// earlier one of the same id.
    pub fn from_entries(entries: Vec<(String, CronJobConfig)>) -> (r: Self)
        ensures
            r.wf(),
            r.entries() == with_jobs(Seq::empty(), jobs_view(entries@)),
    {
        let ghost all = jobs_view(entries@);
        let total = entries.len();
        let mut rest = entries;
        let mut r = CronConfigFile::new();
        let mut n: usize = 0;
        while rest.len() > 0
            invariant
                r.wf(),
                all.len() == total,
                n <= all.len(),
                jobs_view(rest@) == all.skip(n as int),
                r.entries() == with_jobs(Seq::empty(), all.take(n as int)),
            decreases rest@.len(),
        {
            let ghost before = rest@;
            assert(jobs_view(before).len() == before.len());
            assert(n < all.len());
            let (k, c) = rest.remove(0);
            assert(jobs_view(before)[0] == (k@, c@));
            assert(rest@ =~= before.drop_first());
            assert(jobs_view(rest@) =~= jobs_view(before).drop_first());
            assert(jobs_view(rest@) =~= all.skip(n + 1));
            assert(all.take(n + 1).drop_last() =~= all.take(n as int));
            assert(all.take(n + 1).last() == all[n as int]);
            r.insert(k, c);
            n = n + 1;
        }
        assert(all.take(n as int) =~= all);
        r
    }

    /// The stored jobs, in order.
    pub fn jobs(&self) -> (r: &Vec<(String, CronJobConfig)>)
        ensures
            jobs_view(r@) == self.entries(),
    {
        &self.jobs
    }

    fn position(&self, id: &str) -> (r: Option<usize>)
        requires
            self.wf(),
        ensures
            match r {
                Some(i) => i < self.entries().len() && index_of(self.entries(), id@) == Some(i as int),
                None => index_of(self.entries(), id@) is None,
            },
    {
        let ghost s = self.entries();
        let mut i: usize = 0;
        while i < self.jobs.len()
            invariant
                i <= self.jobs@.len(),
                s == jobs_view(self.jobs@),
                s.len() == self.jobs@.len(),
                unique_ids(s),
                forall|k: int| 0 <= k < i ==> (#[trigger] s[k]).0 != id@,
            decreases self.jobs@.len() - i,
        {
            if str_eq(self.jobs[i].0.as_str(), id) {
                proof {
                    assert(s[i as int].0 == id@);
                    lemma_index_unique(s, id@, i as int);
                }
                return Some(i);
            }
            i = i + 1;
        }
        None
    }

    /// The stored job of that id.
    pub fn get(&self, id: &str) -> (r: Option<&CronJobConfig>)
        requires
            self.wf(),
        ensures
            match r {
                Some(c) => lookup(self.entries(), id@) == Some(c@),
                None => lookup(self.entries(), id@) is None,
            },
    {
        match self.position(id) {
            Some(i) => Some(&self.jobs[i].1),
            None => None,
        }
    }

    /// Stores a job under an id: replaces the job of that id in place, or
    /// adds it at the end.
    pub fn insert(&mut self, id: String, job: CronJobConfig)
        requires
            old(self).wf(),
        ensures
            final(self).wf(),
            final(self).entries() == with_job(old(self).entries(), id@, job@),
    {
        let ghost s = self.entries();
        let ghost e = (id@, job@);
        match self.position(id.as_str()) {
            Some(i) => {
                self.jobs.set(i, (id, job));
                assert(self.entries() =~= s.update(i as int, e));
                assert forall|a: int, b: int| 0 <= a < b < self.entries().len() implies (#[trigger] self.entries()[a]).0
                    != (#[trigger] self.entries()[b]).0 by {
                    assert(self.entries()[a].0 == s[a].0);
                    assert(self.entries()[b].0 == s[b].0);
                }
            },
            None => {
                self.jobs.push((id, job));
                assert(self.entries() =~= s.push(e));
                assert forall|a: int, b: int| 0 <= a < b < self.entries().len() implies (#[trigger] self.entries()[a]).0
                    != (#[trigger] self.entries()[b]).0 by {
                    if b == s.len() {
                        assert(self.entries()[a] == s[a]);
                        assert(!(exists|i: int| 0 <= i < s.len() && (#[trigger] s[i]).0 == e.0));
                    }
                }
            },
        }
    }

    /// Removes the job of that id, if any.
    pub fn remove(&mut self, id: &str)
        requires
            old(self).wf(),
        ensures
            final(self).wf(),
            final(self).entries() == without_job(old(self).entries(), id@),
    {
        let ghost s = self.entries();
        match self.position(id) {
            Some(i) => {
                self.jobs.remove(i);
                assert(self.entries() =~= s.remove(i as int));
                assert forall|a: int, b: int| 0 <= a < b < self.entries().len() implies (#[trigger] self.entries()[a]).0
                    != (#[trigger] self.entries()[b]).0 by {
                    let a0 = if a < i { a } else { a + 1 };
                    let b0 = if b < i { b } else { b + 1 };
                    assert(self.entries()[a] == s[a0]);
                    assert(self.entries()[b] == s[b0]);
                }
            },
            None => {},
        }
    }

    /// Sets the `enabled` flag of the job of that id; the error when there
    /// is no such job.
    pub fn set_enabled(&mut self, id: &str, enabled: bool) -> (r: Result<(), String>)
        requires
            old(self).wf(),
        ensures
            final(self).wf(),
            match lookup(old(self).entries(), id@) {
                Some(c) => r is Ok && final(self).entries() == with_job(old(self).entries(), id@, with_enabled(c, enabled)),
                None => (r matches Err(e) && e@ == "Job '"@ + id@ + "' not found"@) && final(self).entries() == old(
                    self,
                ).entries(),
            },
    {
        match self.position(id) {
            Some(i) => {
                let mut c = self.jobs[i].1.copy();
                c.enabled = Some(enabled);
                self.insert(id.to_owned(), c);
                Ok(())
            },
            None => Err("Job '".to_owned().concat(id).concat("' not found")),
        }
    }
}

/// The path of a profile's jobs file, as components below the Hermes home.
pub fn cron_config_path(profile: Option<&str>) -> (r: Vec<String>)
    ensures
        strs_view(r@) == (match named_profile(ostr_view(profile)) {
            Some(p) => seq!["profiles"@, p],
            None => Seq::<Seq<char>>::empty(),
        }) + seq![".hermes"@, "cron"@, "jobs.json"@],
{
    let mut r = profile_home(profile);
    let ghost before = strs_view(r@);
    r.push(".hermes".to_owned());
    r.push("cron".to_owned());
    r.push("jobs.json".to_owned());
    assert(strs_view(r@) =~= before + seq![".hermes"@, "cron"@, "jobs.json"@]);
    r
}

/// How a stored job is listed (see `listed_job`).
pub fn list_entry(id: &str, c: &CronJobConfig) -> (r: CronJob)
    ensures
        listed_job(r, id@, c@),
{
    CronJob {
        id: id.to_owned(),
        name: match &c.name {
            Some(n) => n.as_str().to_owned(),
            None => id.to_owned(),
        },
        schedule: c.schedule.as_str().to_owned(),
        prompt: match &c.prompt {
            Some(p) => p.as_str().to_owned(),
            None => String::new(),
        },
        state: "active".to_owned(),
        enabled: match c.enabled {
            Some(b) => b,
            None => true,
        },
        next_run_at: None,
        last_run_at: None,
        last_status: None,
        last_error: None,
        repeat: None,
        deliver: strings_or_empty(&c.deliver),
        skills: strings_or_empty(&c.skills),
        script: clone_opt(&c.script),
    }
}

/// Whether a stored job is listed: all when disabled ones are included,
/// else those not disabled.
pub open spec fn shown(c: CronJobConfigV, include_disabled: bool) -> bool {
    include_disabled || c.enabled != Some(false)
}

/// The stored jobs that are listed, in order.
pub open spec fn shown_jobs(s: Seq<(Seq<char>, CronJobConfigV)>, include_disabled: bool) -> Seq<(Seq<char>, CronJobConfigV)>
    decreases s.len(),
{
    if s.len() == 0 {
        Seq::empty()
    } else {
        let r = shown_jobs(s.drop_last(), include_disabled);
        if shown(s.last().1, include_disabled) {
            r.push(s.last())
        } else {
            r
        }
    }
}

/// Lists the jobs of a jobs file (absent when there is none), in order;
/// disabled jobs only when asked for (see `listed_job`).
pub fn list_cron_jobs(config: Option<&CronConfigFile>, include_disabled: bool) -> (r: Vec<CronJob>)
    requires
        config matches Some(c) ==> c.wf(),
    ensures
        match config {
            Some(c) => r@.len() == shown_jobs(c.entries(), include_disabled).len() && forall|i: int|
                0 <= i < r@.len() ==> listed_job(
                    #[trigger] r@[i],
                    shown_jobs(c.entries(), include_disabled)[i].0,
                    shown_jobs(c.entries(), include_disabled)[i].1,
                ),
            None => r@.len() == 0,
        },
{
    let mut out: Vec<CronJob> = Vec::new();
    match config {
        None => out,
        Some(c) => {
            let jobs = c.jobs();
            let ghost s = c.entries();
            let mut i: usize = 0;
            while i < jobs.len()
                invariant
                    i <= jobs@.len(),
                    s == jobs_view(jobs@),
                    s.len() == jobs@.len(),
                    out@.len() == shown_jobs(s.take(i as int), include_disabled).len(),
                    forall|k: int| 0 <= k < out@.len() ==> listed_job(
                        #[trigger] out@[k],
                        shown_jobs(s.take(i as int), include_disabled)[k].0,
                        shown_jobs(s.take(i as int), include_disabled)[k].1,
                    ),
                decreases jobs@.len() - i,
            {
                assert(s.take(i + 1).drop_last() =~= s.take(i as int));
                assert(s.take(i + 1).last() == s[i as int]);
                assert(s[i as int] == (jobs@[i as int].0@, jobs@[i as int].1@));
                let show = include_disabled || match jobs[i].1.enabled {
                    Some(b) => b,
                    None => true,
                };
                if show {
                    out.push(list_entry(jobs[i].0.as_str(), &jobs[i].1));
                }
                i = i + 1;
            }
            assert(s.take(jobs@.len() as int) =~= s);
            out
        },
    }
}

/// The stored form of a new job: enabled, named by its name or else its
/// id, delivering to the one target when given.
pub open spec fn new_job_config(
    id: Seq<char>,
    schedule: Seq<char>,
    prompt: Option<Seq<char>>,
    name: Option<Seq<char>>,
    deliver: Option<Seq<char>>,
) -> CronJobConfigV {
    CronJobConfigV {
        schedule,
        prompt,
        enabled: Some(true),
        name: Some(match name {
            Some(n) => n,
            None => id,
        }),
        deliver: match deliver {
            Some(d) => Some(seq![d]),
            None => None,
        },
        skills: None,
        script: None,
    }
}

/// Stores a new job under the id and returns it as listed.
pub fn add_cron_job(
    config: &mut CronConfigFile,
    id: &str,
    schedule: &str,
    prompt: Option<&str>,
    name: Option<&str>,
    deliver: Option<&str>,
) -> (r: CronJob)
    requires
        old(config).wf(),
    ensures
        final(config).wf(),
        final(config).entries() == with_job(
            old(config).entries(),
            id@,
            new_job_config(id@, schedule@, ostr_view(prompt), ostr_view(name), ostr_view(deliver)),
        ),
        listed_job(r, id@, new_job_config(id@, schedule@, ostr_view(prompt), ostr_view(name), ostr_view(deliver))),
{
    let job_name = match name {
        Some(n) => n.to_owned(),
        None => id.to_owned(),
    };
    let deliver_list = match deliver {
        Some(d) => {
            let mut v: Vec<String> = Vec::new();
            v.push(d.to_owned());
            assert(strs_view(v@) =~= seq![d@]);
            Some(v)
        },
        None => None,
    };
    let job = CronJobConfig {
        schedule: schedule.to_owned(),
        prompt: match prompt {
            Some(p) => Some(p.to_owned()),
            None => None,
        },
        enabled: Some(true),
        name: Some(job_name),
        deliver: deliver_list,
        skills: None,
        script: None,
    };
    let listed = list_entry(id, &job);
    config.insert(id.to_owned(), job);
    listed
}

/// Creates a job with a fresh random id (see `add_cron_job`).
pub fn create_cron_job(
    config: &mut CronConfigFile,
    schedule: &str,
    prompt: Option<&str>,
    name: Option<&str>,
    deliver: Option<&str>,
) -> (r: CronJob)
    requires
        old(config).wf(),
    ensures
        final(config).wf(),
        final(config).entries() == with_job(
            old(config).entries(),
            r.id@,
            new_job_config(r.id@, schedule@, ostr_view(prompt), ostr_view(name), ostr_view(deliver)),
        ),
        listed_job(r, r.id@, new_job_config(r.id@, schedule@, ostr_view(prompt), ostr_view(name), ostr_view(deliver))),
{
    let id = crate::ids::new_uuid_text();
    add_cron_job(config, id.as_str(), schedule, prompt, name, deliver)
}

/// Removes a job; a missing job is no error.
pub fn remove_cron_job(config: &mut CronConfigFile, job_id: &str)
    requires
        old(config).wf(),
    ensures
        final(config).wf(),
        final(config).entries() == without_job(old(config).entries(), job_id@),
{
    config.remove(job_id);
}

/// Pauses a job: it stays stored but disabled.
pub fn pause_cron_job(config: &mut CronConfigFile, job_id: &str) -> (r: Result<(), String>)
    requires
        old(config).wf(),
    ensures
        final(config).wf(),
        match lookup(old(config).entries(), job_id@) {
            Some(c) => r is Ok && final(config).entries() == with_job(old(config).entries(), job_id@, with_enabled(c, false)),
            None => (r matches Err(e) && e@ == "Job '"@ + job_id@ + "' not found"@) && final(config).entries() == old(
                config,
            ).entries(),
        },
{
    config.set_enabled(job_id, false)
}

/// Resumes a job: it is enabled again.
pub fn resume_cron_job(config: &mut CronConfigFile, job_id: &str) -> (r: Result<(), String>)
    requires
        old(config).wf(),
    ensures
        final(config).wf(),
        match lookup(old(config).entries(), job_id@) {
            Some(c) => r is Ok && final(config).entries() == with_job(old(config).entries(), job_id@, with_enabled(c, true)),
            None => (r matches Err(e) && e@ == "Job '"@ + job_id@ + "' not found"@) && final(config).entries() == old(
                config,
            ).entries(),
        },
{
    config.set_enabled(job_id, true)
}

/// Sets the `enabled` flag of a job in a jobs file, as pausing and resuming
/// do: the error when there is no jobs file, or when it has no such job;
/// else the updated file, to be written back.
pub fn update_cron_job(config: Option<CronConfigFile>, job_id: &str, enabled: bool) -> (r: Result<CronConfigFile, String>)
    requires
        config matches Some(c) ==> c.wf(),
    ensures
        match config {
            None => r matches Err(e) && e@ == "Cron config not found"@,
            Some(c) => match lookup(c.entries(), job_id@) {
                Some(j) => r matches Ok(f) && f.wf() && f.entries() == with_job(c.entries(), job_id@, with_enabled(j, enabled)),
                None => r matches Err(e) && e@ == "Job '"@ + job_id@ + "' not found"@,
            },
        },
{
    match config {
        None => Err("Cron config not found".to_owned()),
        Some(c) => {
            let mut f = c;
            match f.set_enabled(job_id, enabled) {
                Ok(()) => Ok(f),
                Err(e) => Err(e),
            }
        },
    }
}

/// Triggering a job only acknowledges it.
pub fn trigger_cron_job(job_id: &str) -> (r: Result<String, String>)
    ensures
        r matches Ok(m) && m@ == "Triggered job: "@ + job_id@,
{
    Ok("Triggered job: ".to_owned().concat(job_id))
}

// ── Laws of the jobs file ─────────────────────────────────────────────────

/// Storing a job under an id keeps ids unique; reading that id gives the
/// stored job, and every other id reads as before.
pub proof fn lemma_read_after_store(s: Seq<(Seq<char>, CronJobConfigV)>, id: Seq<char>, c: CronJobConfigV, other: Seq<char>)
    requires
        unique_ids(s),
    ensures
        unique_ids(with_job(s, id, c)),
        lookup(with_job(s, id, c), id) == Some(c),
        other != id ==> lookup(with_job(s, id, c), other) == lookup(s, other),
{
    let t = with_job(s, id, c);
    match index_of(s, id) {
        Some(i) => {
            assert((s[i]).0 == id);
            assert forall|a: int, b: int| 0 <= a < b < t.len() implies (#[trigger] t[a]).0 != (#[trigger] t[b]).0 by {
                assert(t[a].0 == s[a].0);
                assert(t[b].0 == s[b].0);
            }
            lemma_index_unique(t, id, i);
            if other != id {
                if exists|k: int| 0 <= k < s.len() && (#[trigger] s[k]).0 == other {
                    let k = choose|k: int| 0 <= k < s.len() && (#[trigger] s[k]).0 == other;
                    lemma_index_unique(s, other, k);
                    assert(t[k] == s[k]);
                    lemma_index_unique(t, other, k);
                } else {
                    assert forall|k: int| 0 <= k < t.len() implies (#[trigger] t[k]).0 != other by {
                        if k != i {
                            assert(t[k] == s[k]);
                        }
                    }
                }
            }
        },
        None => {
            assert forall|a: int, b: int| 0 <= a < b < t.len() implies (#[trigger] t[a]).0 != (#[trigger] t[b]).0 by {
                if b == s.len() {
                    assert(t[a] == s[a]);
                }
            }
            lemma_index_unique(t, id, s.len() as int);
            if other != id {
                if exists|k: int| 0 <= k < s.len() && (#[trigger] s[k]).0 == other {
                    let k = choose|k: int| 0 <= k < s.len() && (#[trigger] s[k]).0 == other;
                    lemma_index_unique(s, other, k);
                    assert(t[k] == s[k]);
                    lemma_index_unique(t, other, k);
                } else {
                    assert forall|k: int| 0 <= k < t.len() implies (#[trigger] t[k]).0 != other by {
                        if k < s.len() {
                            assert(t[k] == s[k]);
                        }
                    }
                }
            }
        },
    }
}

/// Removing a job keeps ids unique; its id then reads as absent, and every
/// other id reads as before.
pub proof fn lemma_read_after_remove(s: Seq<(Seq<char>, CronJobConfigV)>, id: Seq<char>, other: Seq<char>)
    requires
        unique_ids(s),
    ensures
        unique_ids(without_job(s, id)),
        lookup(without_job(s, id), id) is None,
        other != id ==> lookup(without_job(s, id), other) == lookup(s, other),
{
    let t = without_job(s, id);
    match index_of(s, id) {
        Some(i) => {
            assert((s[i]).0 == id);
            assert forall|a: int, b: int| 0 <= a < b < t.len() implies (#[trigger] t[a]).0 != (#[trigger] t[b]).0 by {
                let a0 = if a < i { a } else { a + 1 };
                let b0 = if b < i { b } else { b + 1 };
                assert(t[a] == s[a0]);
                assert(t[b] == s[b0]);
            }
            assert forall|k: int| 0 <= k < t.len() implies (#[trigger] t[k]).0 != id by {
                let k0 = if k < i { k } else { k + 1 };
                assert(t[k] == s[k0]);
                if s[k0].0 == id {
                    if k0 < i {
                        assert(s[k0].0 != s[i].0);
                    } else {
                        assert(s[i].0 != s[k0].0);
                    }
                }
            }
            if other != id {
                if exists|k: int| 0 <= k < s.len() && (#[trigger] s[k]).0 == other {
                    let k = choose|k: int| 0 <= k < s.len() && (#[trigger] s[k]).0 == other;
                    lemma_index_unique(s, other, k);
                    let k1 = if k < i { k } else { k - 1 };
                    assert(k != i);
                    assert(t[k1] == s[k]);
                    lemma_index_unique(t, other, k1);
                } else {
                    assert forall|k: int| 0 <= k < t.len() implies (#[trigger] t[k]).0 != other by {
                        let k0 = if k < i { k } else { k + 1 };
                        assert(t[k] == s[k0]);
                    }
                }
            }
        },
        None => {},
    }
}

/// Pausing and then resuming a job leaves it enabled with its other
/// settings unchanged; a paused job is hidden from the default listing.
pub proof fn lemma_pause_then_resume(s: Seq<(Seq<char>, CronJobConfigV)>, id: Seq<char>, c: CronJobConfigV)
    requires
        unique_ids(s),
        lookup(s, id) == Some(c),
    ensures
        lookup(with_job(s, id, with_enabled(c, false)), id) == Some(with_enabled(c, false)),
        !shown(with_enabled(c, false), false),
        lookup(with_job(with_job(s, id, with_enabled(c, false)), id, with_enabled(with_enabled(c, false), true)), id)
            == Some(with_enabled(c, true)),
        with_enabled(with_enabled(c, false), true) == with_enabled(c, true),
{
    lemma_read_after_store(s, id, with_enabled(c, false), id);
    let t = with_job(s, id, with_enabled(c, false));
    lemma_read_after_store(t, id, with_enabled(with_enabled(c, false), true), id);
}

/// A stored job as the listing shows it: its `enabled` flag made explicit
/// (a job that does not say is enabled).
pub open spec fn listed_form(e: (Seq<char>, CronJobConfigV)) -> (Seq<char>, CronJobConfigV) {
    (e.0, with_enabled(e.1, e.1.enabled != Some(false)))
}

/// The listing of stored jobs, each in its listed form.
pub open spec fn listing(s: Seq<(Seq<char>, CronJobConfigV)>, include_disabled: bool) -> Seq<(Seq<char>, CronJobConfigV)> {
    shown_jobs(s, include_disabled).map_values(|e: (Seq<char>, CronJobConfigV)| listed_form(e))
}

/// How a job is listed depends on its stored form only through its listed
/// form.
pub proof fn lemma_listed_job_form(j: CronJob, id: Seq<char>, c: CronJobConfigV)
    ensures
        listed_job(j, id, c) == listed_job(j, id, listed_form((id, c)).1),
{
}

proof fn lemma_same_listing(s: Seq<(Seq<char>, CronJobConfigV)>, t: Seq<(Seq<char>, CronJobConfigV)>, inc: bool)
    requires
        s.len() == t.len(),
        forall|k: int| 0 <= k < s.len() ==> listed_form(#[trigger] s[k]) == listed_form(t[k]),
    ensures
        listing(s, inc) == listing(t, inc),
    decreases s.len(),
{
    if s.len() > 0 {
        lemma_same_listing(s.drop_last(), t.drop_last(), inc);
        assert(listed_form(s.last()) == listed_form(t.last()));
        assert(shown(s.last().1, inc) == shown(t.last().1, inc));
        let a = shown_jobs(s.drop_last(), inc);
        let b = shown_jobs(t.drop_last(), inc);
        if shown(s.last().1, inc) {
            assert(a.push(s.last()).map_values(|e: (Seq<char>, CronJobConfigV)| listed_form(e))
                =~= a.map_values(|e: (Seq<char>, CronJobConfigV)| listed_form(e)).push(listed_form(s.last())));
            assert(b.push(t.last()).map_values(|e: (Seq<char>, CronJobConfigV)| listed_form(e))
                =~= b.map_values(|e: (Seq<char>, CronJobConfigV)| listed_form(e)).push(listed_form(t.last())));
        }
    }
}

/// Pausing a job and then resuming it gives back the listing the jobs had
/// before the pause, with or without disabled jobs, when the job was not
/// disabled to begin with.
pub proof fn lemma_pause_resume_listing(s: Seq<(Seq<char>, CronJobConfigV)>, id: Seq<char>, c: CronJobConfigV, include_disabled: bool)
    requires
        unique_ids(s),
        lookup(s, id) == Some(c),
        c.enabled != Some(false),
    ensures
        listing(
            with_job(with_job(s, id, with_enabled(c, false)), id, with_enabled(with_enabled(c, false), true)),
            include_disabled,
        ) == listing(s, include_disabled),
{
    let i = index_of(s, id)->0;
    let t = with_job(s, id, with_enabled(c, false));
    assert(t == s.update(i, (id, with_enabled(c, false))));
    assert(s[i].0 == id);
    assert(unique_ids(t)) by {
        assert forall|a: int, b: int| 0 <= a < b < t.len() implies (#[trigger] t[a]).0 != (#[trigger] t[b]).0 by {
            assert(t[a].0 == s[a].0 && t[b].0 == s[b].0);
        }
    }
    lemma_index_unique(t, id, i);
    let u = with_job(t, id, with_enabled(with_enabled(c, false), true));
    assert(u == t.update(i, (id, with_enabled(with_enabled(c, false), true))));
    assert forall|k: int| 0 <= k < s.len() implies listed_form(#[trigger] u[k]) == listed_form(s[k]) by {
        if k == i {
            assert(s[k].1 == c);
            assert(listed_form(u[k]).1 =~= listed_form(s[k]).1);
        }
    }
    lemma_same_listing(u, s, include_disabled);
}

/// The same law over jobs files: when `paused` is what pausing job `id` of
/// `before` stores and `resumed` is what resuming it then stores (as
/// `pause_cron_job`, `resume_cron_job` and `update_cron_job` state), the
/// listing of `resumed` is the listing of `before`, with or without
/// disabled jobs, provided the job was not disabled before the pause.
pub proof fn lemma_pause_resume_files(
    before: CronConfigFile,
    paused: CronConfigFile,
    resumed: CronConfigFile,
    id: Seq<char>,
    include_disabled: bool,
)
    requires
        before.wf(),
        lookup(before.entries(), id) matches Some(c) && c.enabled != Some(false)
            && paused.entries() == with_job(before.entries(), id, with_enabled(c, false)),
        lookup(paused.entries(), id) matches Some(d)
            && resumed.entries() == with_job(paused.entries(), id, with_enabled(d, true)),
    ensures
        listing(resumed.entries(), include_disabled) == listing(before.entries(), include_disabled),
{
    let c = lookup(before.entries(), id)->0;
    lemma_read_after_store(before.entries(), id, with_enabled(c, false), id);
    lemma_pause_resume_listing(before.entries(), id, c, include_disabled);
}

} // verus!
