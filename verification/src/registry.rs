//! The model registry: an in-memory catalog of backend models, keyed by
//! name, each name carrying several versions.
//!
//! Versions of one name are kept in registration order, most recently
//! registered first, and `"latest"` resolves to that first entry. This is
//! insertion-time ordering: it is not a semantic-version comparison, and
//! it guarantees "latest is the newest" only when versions are registered
//! oldest to newest.

use vstd::prelude::*;

use crate::text::str_eq;

verus! {

/// What kind of work a model performs.
#[derive(Debug, Clone, Copy, PartialEq, Eq, Structural)]
pub enum ModelType {
    Text,
    Image,
    Video,
    Audio,
    Multimodal,
}

/// Billing granularity: what one `cost_per_unit_millicents` buys.
#[derive(Debug, Clone, Copy, PartialEq, Eq, Structural)]
pub enum UnitType {
    Token,
    Second,
    Image,
    VideoSecond,
}

/// Last known health of a model's endpoint.
#[derive(Debug, Clone, Copy, PartialEq, Eq, Structural)]
pub enum HealthStatus {
    Healthy,
    Unhealthy,
    Degraded,
    Unknown,
}

/// One registered backend model. Cost is integer thousandths of a cent
/// per billing unit; `last_health_check` is unix milliseconds.
#[derive(Debug)]
pub struct ModelInfo {
    pub name: String,
    pub version: String,
    pub endpoint: String,
    pub model_type: ModelType,
    pub unit_type: UnitType,
    pub cost_per_unit_millicents: u32,
    pub max_tokens: Option<u32>,
    pub gpu_required: bool,
    pub health_status: HealthStatus,
    pub last_health_check: i64,
}

impl Clone for ModelInfo {
    fn clone(&self) -> (res: Self)
        ensures
            res == *self,
    {
        ModelInfo {
            name: self.name.clone(),
            version: self.version.clone(),
            endpoint: self.endpoint.clone(),
            model_type: self.model_type,
            unit_type: self.unit_type,
            cost_per_unit_millicents: self.cost_per_unit_millicents,
            max_tokens: self.max_tokens,
            gpu_required: self.gpu_required,
            health_status: self.health_status,
            last_health_check: self.last_health_check,
        }
    }
}

/// The first model in `models` named `name`: what `"latest"` resolves to.
pub open spec fn spec_latest(models: Seq<ModelInfo>, name: Seq<char>) -> Option<ModelInfo>
    decreases models.len(),
{
    if models.len() == 0 {
        None
    } else if models[0].name@ == name {
        Some(models[0])
    } else {
        spec_latest(models.skip(1), name)
    }
}

/// The first model in `models` with exactly this name and version.
pub open spec fn spec_exact(models: Seq<ModelInfo>, name: Seq<char>, version: Seq<char>) -> Option<
    ModelInfo,
>
    decreases models.len(),
{
    if models.len() == 0 {
        None
    } else if models[0].name@ == name && models[0].version@ == version {
        Some(models[0])
    } else {
        spec_exact(models.skip(1), name, version)
    }
}

/// What `resolve` returns: the newest registration of `name` when
/// `version` is `"latest"`, otherwise the exact `(name, version)` entry.
pub open spec fn spec_resolve(models: Seq<ModelInfo>, name: Seq<char>, version: Seq<char>) -> Option<
    ModelInfo,
> {
    if version == "latest"@ {
        spec_latest(models, name)
    } else {
        spec_exact(models, name, version)
    }
}

/// The in-memory model catalog. The flat list is ordered by registration,
/// most recent first; all versions of a name therefore appear newest
/// first, as `spec_latest` reads them.
#[derive(Debug)]
pub struct ModelRegistry {
    models: Vec<ModelInfo>,
}

impl ModelRegistry {
    /// The registry's contents, most recently registered first.
    pub closed spec fn view(self) -> Seq<ModelInfo> {
        self.models@
    }

    /// An empty registry.
    pub fn new() -> (r: ModelRegistry)
        ensures
            r@ == Seq::<ModelInfo>::empty(),
    {
        ModelRegistry { models: Vec::new() }
    }

    /// Registers a model: it becomes the newest entry, so a subsequent
    /// `resolve(name, "latest")` returns it.
    pub fn register(&mut self, model: ModelInfo)
        ensures
            final(self)@ == old(self)@.insert(0, model),
    {
        self.models.insert(0, model);
    }

    /// Resolves a model name and version. `"latest"` picks the most
    /// recently registered version of `name`; any other `version` must
    /// match exactly. Returns `None` when nothing matches, which the
    /// gateway surfaces as `ModelNotFound`.
    pub fn resolve(&self, name: &str, version: &str) -> (r: Option<ModelInfo>)
        ensures
            r == spec_resolve(self@, name@, version@),
    {
        let latest = str_eq(version, "latest");
        let n = self.models.len();
        let mut i: usize = 0;
        proof {
            assert(self@.skip(0) =~= self@);
        }
        while i < n
            invariant
                n == self@.len(),
                i <= n,
                latest == (version@ == "latest"@),
                spec_resolve(self@, name@, version@) == spec_resolve(
                    self@.skip(i as int),
                    name@,
                    version@,
                ),
            decreases n - i,
        {
            let m = &self.models[i];
            let name_hit = str_eq(m.name.as_str(), name);
            let hit = if latest {
                name_hit
            } else {
                name_hit && str_eq(m.version.as_str(), version)
            };
            proof {
                assert(self@.skip(i as int)[0] == self@[i as int]);
                assert(self@.skip(i as int).skip(1) =~= self@.skip(i as int + 1));
            }
            if hit {
                return Some(self.models[i].clone());
            }
            i = i + 1;
        }
        proof {
            assert(self@.skip(n as int) =~= Seq::<ModelInfo>::empty());
        }
        None
    }

    /// The number of registered model entries, all versions counted.
    pub fn len(&self) -> (r: usize)
        ensures
            r == self@.len(),
    {
        self.models.len()
    }

    /// Borrows the entry at `i`, newest registration first.
    pub fn get(&self, i: usize) -> (r: &ModelInfo)
        requires
            i < self@.len(),
        ensures
            *r == self@[i as int],
    {
        &self.models[i]
    }

    /// Records the outcome of a health probe: every entry matching
    /// `(name, version)` gets the new status and probe time; no other
    /// entry and no other field changes.
    pub fn record_health(&mut self, name: &str, version: &str, status: HealthStatus, now_ms: i64)
        ensures
            final(self)@.len() == old(self)@.len(),
            forall|j: int|
                0 <= j < old(self)@.len() ==> final(self)@[j] == (
                if old(self)@[j].name@ == name@ && old(self)@[j].version@ == version@ {
                    ModelInfo {
                        health_status: status,
                        last_health_check: now_ms,
                        ..old(self)@[j]
                    }
                } else {
                    old(self)@[j]
                }),
    {
        let n = self.models.len();
        let mut i: usize = 0;
        while i < n
            invariant
                n == self@.len(),
                n == old(self)@.len(),
                i <= n,
                forall|j: int|
                    0 <= j < i ==> self@[j] == (
                    if old(self)@[j].name@ == name@ && old(self)@[j].version@ == version@ {
                        ModelInfo {
                            health_status: status,
                            last_health_check: now_ms,
                            ..old(self)@[j]
                        }
                    } else {
                        old(self)@[j]
                    }),
                forall|j: int| i <= j < n ==> self@[j] == old(self)@[j],
            decreases n - i,
        {
            let hit = {
                let m = &self.models[i];
                str_eq(m.name.as_str(), name) && str_eq(m.version.as_str(), version)
            };
            if hit {
                let old_entry = self.models[i].clone();
                self.models.set(
                    i,
                    ModelInfo {
                        health_status: status,
                        last_health_check: now_ms,
                        ..old_entry
                    },
                );
            }
            i = i + 1;
        }
    }
}

/// How a health probe's outcome reads: a 2xx answer means `Healthy`,
/// any other HTTP status `Degraded`, and no answer at all (a transport
/// failure, passed as `None`) `Unhealthy`.
pub open spec fn spec_classify_probe(status_code: Option<u16>) -> HealthStatus {
    match status_code {
        Some(c) => if 200 <= c < 300 {
            HealthStatus::Healthy
        } else {
            HealthStatus::Degraded
        },
        None => HealthStatus::Unhealthy,
    }
}

/// Classifies one health probe's outcome; the probe itself — an HTTP
/// `GET {endpoint}/health` under a bounded timeout — happens outside,
/// and its status code (or its transport failure, as `None`) is passed
/// in.
pub fn classify_probe(status_code: Option<u16>) -> (r: HealthStatus)
    ensures
        r == spec_classify_probe(status_code),
{
    match status_code {
        Some(c) => if 200 <= c && c < 300 {
            HealthStatus::Healthy
        } else {
            HealthStatus::Degraded
        },
        None => HealthStatus::Unhealthy,
    }
}

/// In any registry, the newest registration of a name — what
/// `"latest"` picks — is also what its own version string resolves to:
/// exact resolution cannot land on an older entry of that name.
pub proof fn lemma_newest_is_exact(models: Seq<ModelInfo>, name: Seq<char>)
    ensures
        match spec_latest(models, name) {
            Some(m) => m.name@ == name && spec_exact(models, name, m.version@) == Some(m),
            None => true,
        },
    decreases models.len(),
{
    if models.len() > 0 && models[0].name@ != name {
        lemma_newest_is_exact(models.skip(1), name);
    }
}

/// The resolution law: registering `m2` after `m1`, both under one name,
/// makes `"latest"` resolve to `m2`, the same model that `m2`'s own
/// version string resolves to. Ordering is by registration time, so the
/// law asks nothing of how the two version strings compare.
pub proof fn lemma_latest_resolves_newest(r0: Seq<ModelInfo>, m1: ModelInfo, m2: ModelInfo)
    requires
        m1.name@ == m2.name@,
        m2.version@ != "latest"@,
    ensures
        ({
            let r2 = r0.insert(0, m1).insert(0, m2);
            spec_resolve(r2, m2.name@, "latest"@) == spec_resolve(r2, m2.name@, m2.version@)
                && spec_resolve(r2, m2.name@, "latest"@) == Some(m2)
        }),
{
    let r2 = r0.insert(0, m1).insert(0, m2);
    assert(r2[0] == m2);
    assert(spec_latest(r2, m2.name@) == Some(m2));
    lemma_newest_is_exact(r2, m2.name@);
}

} // verus!
