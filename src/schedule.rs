//! The fixed set of periodic jobs and the period of each.
use vstd::prelude::*;

verus! {

/// The jobs that the scheduler runs, each on its own timeline.
#[derive(Clone, Copy, Debug, PartialEq, Eq, Structural)]
pub enum JobKind {
    LaunchRocket,
    ShipCargoes,
    SendWeather,
    FetchRemoteNews,
    BackupDatabase,
    GenCargoTextInfo,
    TestShort,
    TestLong,
}

/// The registered name of a job.
pub open spec fn job_name_of(k: JobKind) -> Seq<char> {
    match k {
        JobKind::LaunchRocket => "launch_rocket"@,
        JobKind::ShipCargoes => "ship_cargoes"@,
        JobKind::SendWeather => "send_weather"@,
        JobKind::FetchRemoteNews => "fetch_remote_news"@,
        JobKind::BackupDatabase => "backup_database"@,
        JobKind::GenCargoTextInfo => "gen_cargo_text_info"@,
        JobKind::TestShort => "test_short"@,
        JobKind::TestLong => "test_long"@,
    }
}

/// The period of a job, in the English form the cron scheduler reads.
pub open spec fn period_of(k: JobKind) -> Seq<char> {
    match k {
        JobKind::LaunchRocket => "every 10 minutes"@,
        JobKind::ShipCargoes => "every 60 seconds"@,
        JobKind::SendWeather => "every 5 minutes"@,
        JobKind::FetchRemoteNews => "every 6 hours"@,
        JobKind::BackupDatabase => "every 8 hours"@,
        JobKind::GenCargoTextInfo => "every 3 seconds"@,
        JobKind::TestShort => "every 20 seconds"@,
        JobKind::TestLong => "every 1 minutes"@,
    }
}

/// The period of a job, in seconds.
pub open spec fn period_seconds_of(k: JobKind) -> nat {
    match k {
        JobKind::LaunchRocket => 600,
        JobKind::ShipCargoes => 60,
        JobKind::SendWeather => 300,
        JobKind::FetchRemoteNews => 21600,
        JobKind::BackupDatabase => 28800,
        JobKind::GenCargoTextInfo => 3,
        JobKind::TestShort => 20,
        JobKind::TestLong => 60,
    }
}

/// The job registered under `name`, if any.
pub open spec fn job_named(name: Seq<char>) -> Option<JobKind> {
    if name == job_name_of(JobKind::LaunchRocket) {
        Some(JobKind::LaunchRocket)
    } else if name == job_name_of(JobKind::ShipCargoes) {
        Some(JobKind::ShipCargoes)
    } else if name == job_name_of(JobKind::SendWeather) {
        Some(JobKind::SendWeather)
    } else if name == job_name_of(JobKind::FetchRemoteNews) {
        Some(JobKind::FetchRemoteNews)
    } else if name == job_name_of(JobKind::BackupDatabase) {
        Some(JobKind::BackupDatabase)
    } else if name == job_name_of(JobKind::GenCargoTextInfo) {
        Some(JobKind::GenCargoTextInfo)
    } else if name == job_name_of(JobKind::TestShort) {
        Some(JobKind::TestShort)
    } else if name == job_name_of(JobKind::TestLong) {
        Some(JobKind::TestLong)
    } else {
        None
    }
}

/// Whether two strings hold the same characters.
pub fn same_text(a: &str, b: &str) -> (r: bool)
    ensures
        r == (a@ == b@),
{
    let n = a.unicode_len();
    let m = b.unicode_len();
    if n != m {
        return false;
    }
    let mut i: usize = 0;
    while i < n
        invariant
            n == a@.len(),
            m == b@.len(),
            n == m,
            i <= n,
            a@.subrange(0, i as int) == b@.subrange(0, i as int),
        decreases n - i,
    {
        if a.get_char(i) != b.get_char(i) {
            assert(a@[i as int] != b@[i as int]);
            return false;
        }
        assert(a@.subrange(0, i + 1) == a@.subrange(0, i as int).push(a@[i as int]));
        assert(b@.subrange(0, i + 1) == b@.subrange(0, i as int).push(b@[i as int]));
        i = i + 1;
    }
    assert(a@ == a@.subrange(0, n as int));
    assert(b@ == b@.subrange(0, n as int));
    true
}

impl JobKind {
    /// Every job, in the order the scheduler registers them.
    pub fn all() -> (r: Vec<JobKind>)
        ensures
            r@.len() == 8,
            forall|k: JobKind| r@.contains(k),
    {
        let r = vec![
            JobKind::LaunchRocket,
            JobKind::ShipCargoes,
            JobKind::SendWeather,
            JobKind::FetchRemoteNews,
            JobKind::BackupDatabase,
            JobKind::GenCargoTextInfo,
            JobKind::TestShort,
            JobKind::TestLong,
        ];
        assert forall|k: JobKind| r@.contains(k) by {
            match k {
                JobKind::LaunchRocket => assert(r@[0] == k),
                JobKind::ShipCargoes => assert(r@[1] == k),
                JobKind::SendWeather => assert(r@[2] == k),
                JobKind::FetchRemoteNews => assert(r@[3] == k),
                JobKind::BackupDatabase => assert(r@[4] == k),
                JobKind::GenCargoTextInfo => assert(r@[5] == k),
                JobKind::TestShort => assert(r@[6] == k),
                JobKind::TestLong => assert(r@[7] == k),
            }
        }
        r
    }

    /// The name the job is registered under.
    pub fn name(&self) -> (r: &'static str)
        ensures
            r@ == job_name_of(*self),
    {
        match self {
            JobKind::LaunchRocket => "launch_rocket",
            JobKind::ShipCargoes => "ship_cargoes",
            JobKind::SendWeather => "send_weather",
            JobKind::FetchRemoteNews => "fetch_remote_news",
            JobKind::BackupDatabase => "backup_database",
            JobKind::GenCargoTextInfo => "gen_cargo_text_info",
            JobKind::TestShort => "test_short",
            JobKind::TestLong => "test_long",
        }
    }

    /// The job's period, in the English form the cron scheduler reads.
    pub fn period(&self) -> (r: &'static str)
        ensures
            r@ == period_of(*self),
    {
        match self {
            JobKind::LaunchRocket => "every 10 minutes",
            JobKind::ShipCargoes => "every 60 seconds",
            JobKind::SendWeather => "every 5 minutes",
            JobKind::FetchRemoteNews => "every 6 hours",
            JobKind::BackupDatabase => "every 8 hours",
            JobKind::GenCargoTextInfo => "every 3 seconds",
            JobKind::TestShort => "every 20 seconds",
            JobKind::TestLong => "every 1 minutes",
        }
    }

    /// The job's period, in seconds.
    pub fn period_seconds(&self) -> (r: u64)
        ensures
            r == period_seconds_of(*self),
    {
        match self {
            JobKind::LaunchRocket => 600,
            JobKind::ShipCargoes => 60,
            JobKind::SendWeather => 300,
            JobKind::FetchRemoteNews => 21600,
            JobKind::BackupDatabase => 28800,
            JobKind::GenCargoTextInfo => 3,
            JobKind::TestShort => 20,
            JobKind::TestLong => 60,
        }
    }

    /// The job registered under `name`; `None` for a name no job has.
    pub fn from_name(name: &str) -> (r: Option<JobKind>)
        ensures
            r == job_named(name@),
    {
        if same_text(name, JobKind::LaunchRocket.name()) {
            Some(JobKind::LaunchRocket)
        } else if same_text(name, JobKind::ShipCargoes.name()) {
            Some(JobKind::ShipCargoes)
        } else if same_text(name, JobKind::SendWeather.name()) {
            Some(JobKind::SendWeather)
        } else if same_text(name, JobKind::FetchRemoteNews.name()) {
            Some(JobKind::FetchRemoteNews)
        } else if same_text(name, JobKind::BackupDatabase.name()) {
            Some(JobKind::BackupDatabase)
        } else if same_text(name, JobKind::GenCargoTextInfo.name()) {
            Some(JobKind::GenCargoTextInfo)
        } else if same_text(name, JobKind::TestShort.name()) {
            Some(JobKind::TestShort)
        } else if same_text(name, JobKind::TestLong.name()) {
            Some(JobKind::TestLong)
        } else {
            None
        }
    }
}

/// A job name that no job is registered under.
#[derive(Clone, Copy, Debug, PartialEq, Eq, Structural)]
pub struct UnknownJob;

/// The period of the job registered under `job_name`; an unknown name is a
/// configuration error, reported to the caller at startup.
pub fn get_period(job_name: &str) -> (r: Result<&'static str, UnknownJob>)
    ensures
        match job_named(job_name@) {
            Some(k) => r.is_ok() && r.unwrap()@ == period_of(k),
            None => r == Err::<&'static str, UnknownJob>(UnknownJob),
        },
{
    match JobKind::from_name(job_name) {
        Some(k) => Ok(k.period()),
        None => Err(UnknownJob),
    }
}

} // verus!
