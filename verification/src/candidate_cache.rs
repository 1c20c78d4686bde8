//! The candidates that were found a short while ago, kept until they are too old.

use vstd::prelude::*;
use vstd::string::*;

use crate::accounts::{clone_candidates, Candidate};
use crate::json::or_else;
use crate::text::{opt_string, parse_unsigned, str_eq, trim, trimmed, unsigned_of};

verus! {

/// How long candidates are kept where nothing else is set.
pub const DEFAULT_CANDIDATE_CACHE_TTL_MS: u64 = 500;

/// The variable that says for how many milliseconds candidates are kept.
pub const CANDIDATE_CACHE_TTL_ENV: &'static str = "CODEXMANAGER_CANDIDATE_CACHE_TTL_MS";

/// The variable that says where the database is.
pub const DB_PATH_ENV: &'static str = "CODEXMANAGER_DB_PATH";

/// What stands for a database of which nothing is said.
pub const UNSET_DB_PATH: &'static str = "<unset>";

/// Nanoseconds in a millisecond.
pub const NANOS_PER_MILLI: u128 = 1_000_000;

/// What the environment says.
pub struct SelectionEnv {
    pub cache_ttl_ms: Option<String>,
    pub db_path: Option<String>,
}

/// The settings in force, and whether they were ever read from the environment on demand.
pub struct SelectionConfig {
    pub loaded: bool,
    pub cache_ttl_ms: u64,
    pub db_path: String,
}

/// What settings hold.
pub struct ConfigV {
    pub loaded: bool,
    pub cache_ttl_ms: u64,
    pub db_path: Seq<char>,
}

/// For how many milliseconds candidates are kept, as the environment says; what is no number counts
/// as nothing.
pub open spec fn env_ttl(env: SelectionEnv) -> u64 {
    match env.cache_ttl_ms {
        Some(raw) => or_else(unsigned_of(trimmed(raw@)), DEFAULT_CANDIDATE_CACHE_TTL_MS),
        None => DEFAULT_CANDIDATE_CACHE_TTL_MS,
    }
}

/// Where the database is, as the environment says.
pub open spec fn env_db_path(env: SelectionEnv) -> Seq<char> {
    or_else(opt_string(env.db_path), UNSET_DB_PATH@)
}

/// The settings as the environment has them.
pub open spec fn reloaded(config: ConfigV, env: SelectionEnv) -> ConfigV {
    ConfigV { cache_ttl_ms: env_ttl(env), db_path: env_db_path(env), ..config }
}

/// The settings, read from the environment where they never were.
pub open spec fn loaded(config: ConfigV, env: SelectionEnv) -> ConfigV {
    if config.loaded {
        config
    } else {
        ConfigV { loaded: true, ..reloaded(config, env) }
    }
}

impl SelectionConfig {
    pub open spec fn view(&self) -> ConfigV {
        ConfigV { loaded: self.loaded, cache_ttl_ms: self.cache_ttl_ms, db_path: self.db_path@ }
    }

    /// The settings before anything was read.
    pub fn new() -> (r: SelectionConfig)
        ensures
            r@ == (ConfigV {
                loaded: false,
                cache_ttl_ms: DEFAULT_CANDIDATE_CACHE_TTL_MS,
                db_path: UNSET_DB_PATH@,
            }),
    {
        SelectionConfig {
            loaded: false,
            cache_ttl_ms: DEFAULT_CANDIDATE_CACHE_TTL_MS,
            db_path: UNSET_DB_PATH.to_owned(),
        }
    }

    /// The place where the path of the database is kept.
    pub fn current_db_path_cell(&mut self) -> (cell: &mut String)
        ensures
            *cell == old(self).db_path,
            final(self).db_path == *final(cell),
            final(self).loaded == old(self).loaded,
            final(self).cache_ttl_ms == old(self).cache_ttl_ms,
    {
        &mut self.db_path
    }

    /// Takes the settings from the environment.
    pub fn reload_from_env(&mut self, env: &SelectionEnv)
        ensures
            final(self)@ == reloaded(old(self)@, *env),
    {
        let given = match &env.cache_ttl_ms {
            Some(raw) => parse_unsigned(trim(raw.as_str())),
            None => None,
        };
        self.cache_ttl_ms = match given {
            Some(ttl_ms) => ttl_ms,
            None => DEFAULT_CANDIDATE_CACHE_TTL_MS,
        };
        let db_path = match &env.db_path {
            Some(db_path) => db_path.clone(),
            None => UNSET_DB_PATH.to_owned(),
        };
        let cell = self.current_db_path_cell();
        *cell = db_path;
    }

    /// Takes the settings from the environment, unless that was done before.
    pub fn ensure_selection_config_loaded(&mut self, env: &SelectionEnv)
        ensures
            final(self)@ == loaded(old(self)@, *env),
    {
        if !self.loaded {
            self.reload_from_env(env);
            self.loaded = true;
        }
    }

    /// For how many milliseconds candidates are kept.
    pub fn candidate_cache_ttl(&mut self, env: &SelectionEnv) -> (r: u64)
        ensures
            final(self)@ == loaded(old(self)@, *env),
            r == loaded(old(self)@, *env).cache_ttl_ms,
    {
        self.ensure_selection_config_loaded(env);
        self.cache_ttl_ms
    }

    /// Where the database is.
    pub fn current_db_path(&mut self, env: &SelectionEnv) -> (r: String)
        ensures
            final(self)@ == loaded(old(self)@, *env),
            r@ == loaded(old(self)@, *env).db_path,
    {
        self.ensure_selection_config_loaded(env);
        self.db_path.clone()
    }
}

/// Candidates that were found, the database that they come from, and when they are too old. Times
/// are nanoseconds from a fixed start.
pub struct CandidateSnapshotCache {
    pub db_path: String,
    pub expires_at: u128,
    pub candidates: Vec<Candidate>,
}

/// What a cache holds, where it holds something.
pub struct SnapshotV {
    pub db_path: Seq<char>,
    pub expires_at: int,
    pub candidates: Seq<Candidate>,
}

impl CandidateSnapshotCache {
    pub open spec fn view(&self) -> SnapshotV {
        SnapshotV {
            db_path: self.db_path@,
            expires_at: self.expires_at as int,
            candidates: self.candidates@,
        }
    }
}

/// The candidates that a cache holds for a database at the time `now`.
pub open spec fn fresh_candidates(
    cache: Option<SnapshotV>,
    db_path: Seq<char>,
    now: u64,
) -> Option<Seq<Candidate>> {
    match cache {
        Some(snapshot) => if snapshot.db_path == db_path && now < snapshot.expires_at {
            Some(snapshot.candidates)
        } else {
            None
        },
        None => None,
    }
}

/// The cache after a look at it: what is of no use at the time `now` is dropped.
pub open spec fn after_read(cache: Option<SnapshotV>, db_path: Seq<char>, now: u64) -> Option<
    SnapshotV,
> {
    if fresh_candidates(cache, db_path, now) is Some {
        cache
    } else {
        None
    }
}

/// What a cache holds after candidates were put into it at the time `now`.
pub open spec fn snapshot_at(
    config: ConfigV,
    candidates: Seq<Candidate>,
    now: u64,
) -> SnapshotV {
    SnapshotV {
        db_path: config.db_path,
        expires_at: now + config.cache_ttl_ms * NANOS_PER_MILLI,
        candidates,
    }
}

/// What optional candidates are.
pub open spec fn opt_candidates(candidates: Option<Vec<Candidate>>) -> Option<Seq<Candidate>> {
    match candidates {
        Some(found) => Some(found@),
        None => None,
    }
}

/// The settings, and the candidates that were found last.
pub struct Selection {
    pub config: SelectionConfig,
    pub cache: Option<CandidateSnapshotCache>,
}

impl Selection {
    /// What the cache holds.
    pub open spec fn kept(&self) -> Option<SnapshotV> {
        match self.cache {
            Some(snapshot) => Some(snapshot@),
            None => None,
        }
    }

    /// Nothing read and nothing kept.
    pub fn new() -> (r: Selection)
        ensures
            r.config@ == (ConfigV {
                loaded: false,
                cache_ttl_ms: DEFAULT_CANDIDATE_CACHE_TTL_MS,
                db_path: UNSET_DB_PATH@,
            }),
            r.kept() is None,
    {
        Selection { config: SelectionConfig::new(), cache: None }
    }

    /// The candidates that were found before, unless they are of no use at the time `now`: they come
    /// from another database or are too old, and are then dropped. Where candidates are not to be
    /// kept, the cache is not looked at.
    pub fn read_candidate_cache(&mut self, env: &SelectionEnv, now: u64) -> (r: Option<
        Vec<Candidate>,
    >)
        ensures
            final(self).config@ == loaded(old(self).config@, *env),
            loaded(old(self).config@, *env).cache_ttl_ms == 0 ==> r is None && final(self).kept()
                == old(self).kept(),
            loaded(old(self).config@, *env).cache_ttl_ms > 0 ==> {
                &&& opt_candidates(r) == fresh_candidates(
                    old(self).kept(),
                    loaded(old(self).config@, *env).db_path,
                    now,
                )
                &&& final(self).kept() == after_read(
                    old(self).kept(),
                    loaded(old(self).config@, *env).db_path,
                    now,
                )
            },
    {
        let ttl_ms = self.config.candidate_cache_ttl(env);
        if ttl_ms == 0 {
            return None;
        }
        let db_path = self.config.current_db_path(env);
        let found = match &self.cache {
            Some(cached) => if str_eq(cached.db_path.as_str(), db_path.as_str()) && (now as u128)
                < cached.expires_at {
                Some(clone_candidates(&cached.candidates))
            } else {
                None
            },
            None => None,
        };
        if found.is_none() {
            self.cache = None;
        }
        found
    }

    /// Keeps candidates that were found at the time `now`, where candidates are to be kept.
    pub fn write_candidate_cache(&mut self, env: &SelectionEnv, candidates: Vec<Candidate>, now: u64)
        ensures
            final(self).config@ == loaded(old(self).config@, *env),
            loaded(old(self).config@, *env).cache_ttl_ms == 0 ==> {
                final(self).kept() == old(self).kept()
            },
            loaded(old(self).config@, *env).cache_ttl_ms > 0 ==> final(self).kept() == Some(
                snapshot_at(loaded(old(self).config@, *env), candidates@, now),
            ),
    {
        let ttl_ms = self.config.candidate_cache_ttl(env);
        if ttl_ms == 0 {
            return;
        }
        let db_path = self.config.current_db_path(env);
        let expires_at: u128 = now as u128 + ttl_ms as u128 * NANOS_PER_MILLI;
        self.cache = Some(CandidateSnapshotCache { db_path, expires_at, candidates });
    }

    /// Drops the candidates that were found.
    pub fn invalidate_candidate_cache(&mut self)
        ensures
            final(self).config == old(self).config,
            final(self).kept() is None,
    {
        self.cache = None;
    }

    /// Drops the candidates that were found, so that a test starts without any.
    pub fn clear_candidate_cache_for_tests(&mut self)
        ensures
            final(self).config == old(self).config,
            final(self).kept() is None,
    {
        self.invalidate_candidate_cache();
    }

    /// The candidates that were found before, or else those that `load` finds, which are kept.
    /// `clock` tells the time.
    pub fn collect_gateway_candidates<
        L: FnOnce() -> Result<Vec<Candidate>, String>,
        T: Fn() -> u64,
    >(&mut self, env: &SelectionEnv, clock: &T, load: L) -> (r: Result<Vec<Candidate>, String>)
        requires
            call_requires(*clock, ()),
            call_requires(load, ()),
        ensures
            final(self).config@ == loaded(old(self).config@, *env),
            exists|now: u64|
                {
                    &&& #[trigger] call_ensures(*clock, (), now)
                    &&& candidates_collected(
                        loaded(old(self).config@, *env),
                        old(self).kept(),
                        final(self).kept(),
                        now,
                        *clock,
                        load,
                        r,
                    )
                },
    {
        let ghost config = loaded(self.config@, *env);
        let ghost before = self.kept();
        let now = clock();
        if let Some(cached) = self.read_candidate_cache(env, now) {
            assert(candidates_collected(config, before, self.kept(), now, *clock, load, Ok(cached)));
            return Ok(cached);
        }
        let ghost looked = self.kept();
        match load() {
            Ok(candidates) => {
                let later = clock();
                self.write_candidate_cache(env, clone_candidates(&candidates), later);
                assert(candidates_written(config, looked, self.kept(), *clock, candidates@));
                Ok(candidates)
            },
            Err(e) => Err(e),
        }
    }
}

/// `after` may be what the cache holds once the candidates that were found have been put into it.
pub open spec fn candidates_written<T: Fn() -> u64>(
    config: ConfigV,
    before: Option<SnapshotV>,
    after: Option<SnapshotV>,
    clock: T,
    found: Seq<Candidate>,
) -> bool {
    if config.cache_ttl_ms == 0 {
        after == before
    } else {
        exists|later: u64| #[trigger]
            call_ensures(clock, (), later) && after == Some(snapshot_at(config, found, later))
    }
}

/// `after` and `r` may come of asking for candidates at the time `now`: what is kept, where it is of
/// use, else what `load` gives, which is kept where it is no failure.
pub open spec fn candidates_collected<
    L: FnOnce() -> Result<Vec<Candidate>, String>,
    T: Fn() -> u64,
>(
    config: ConfigV,
    before: Option<SnapshotV>,
    after: Option<SnapshotV>,
    now: u64,
    clock: T,
    load: L,
    r: Result<Vec<Candidate>, String>,
) -> bool {
    let looked = if config.cache_ttl_ms == 0 {
        before
    } else {
        after_read(before, config.db_path, now)
    };
    let kept = if config.cache_ttl_ms == 0 {
        None
    } else {
        fresh_candidates(before, config.db_path, now)
    };
    match kept {
        Some(candidates) => r matches Ok(found) && found@ == candidates && after == before,
        None => call_ensures(load, (), r) && match r {
            Ok(found) => candidates_written(config, looked, after, clock, found@),
            Err(_) => after == looked,
        },
    }
}

/// Candidates that were kept are read back, again and again, until they are too old.
pub proof fn lemma_kept_candidates_read_back(
    config: ConfigV,
    candidates: Seq<Candidate>,
    written: u64,
    now: u64,
)
    requires
        now < written + config.cache_ttl_ms * NANOS_PER_MILLI,
    ensures
        fresh_candidates(
            Some(snapshot_at(config, candidates, written)),
            config.db_path,
            now,
        ) == Some(candidates),
        after_read(Some(snapshot_at(config, candidates, written)), config.db_path, now) == Some(
            snapshot_at(config, candidates, written),
        ),
{
}

/// Candidates that are too old are not read back, and are dropped.
pub proof fn lemma_old_candidates_dropped(
    config: ConfigV,
    candidates: Seq<Candidate>,
    written: u64,
    now: u64,
)
    requires
        now >= written + config.cache_ttl_ms * NANOS_PER_MILLI,
    ensures
        fresh_candidates(
            Some(snapshot_at(config, candidates, written)),
            config.db_path,
            now,
        ) is None,
        after_read(Some(snapshot_at(config, candidates, written)), config.db_path, now) is None,
{
}

/// Candidates of one database are not read back for another, at whatever time.
pub proof fn lemma_other_database_sees_nothing(snapshot: SnapshotV, db_path: Seq<char>, now: u64)
    requires
        snapshot.db_path != db_path,
    ensures
        fresh_candidates(Some(snapshot), db_path, now) is None,
        after_read(Some(snapshot), db_path, now) is None,
{
}

/// Settings are read on demand once: after that the environment no longer counts.
pub proof fn lemma_settings_read_once(config: ConfigV, first: SelectionEnv, second: SelectionEnv)
    ensures
        loaded(loaded(config, first), second) == loaded(config, first),
{
}

} // verus!
