//! The workload objects that the pipeline transforms.
//!
//! These structures hold, as plain values, exactly what the reconciliation
//! logic reads and writes of the cluster's objects: container names,
//! environment entries, resource limit maps, labels, and the few job-level
//! scalars. The boundary code converts between these and the wire form of
//! the orchestrator's API.

use vstd::prelude::*;
use crate::strmap::StrMap;

verus! {

/// Selects one key of a named config map or secret.
#[derive(Debug, PartialEq)]
pub struct KeySelector {
    pub name: String,
    pub key: String,
    pub optional: Option<bool>,
}

impl KeySelector {
    /// An equal copy.
    pub fn duplicate(&self) -> (r: Self)
        ensures
            r == *self,
    {
        KeySelector { name: self.name.clone(), key: self.key.clone(), optional: self.optional }
    }
}

/// Selects a field of the pod by its path.
#[derive(Debug, PartialEq)]
pub struct FieldSelector {
    pub api_version: Option<String>,
    pub field_path: String,
}

impl FieldSelector {
    /// An equal copy.
    pub fn duplicate(&self) -> (r: Self)
        ensures
            r == *self,
    {
        FieldSelector {
            api_version: match &self.api_version {
                Some(s) => Some(s.clone()),
                None => None,
            },
            field_path: self.field_path.clone(),
        }
    }
}

/// Selects a resource of a container, scaled by an optional divisor.
#[derive(Debug, PartialEq)]
pub struct ResourceFieldSelector {
    pub container_name: Option<String>,
    pub divisor: Option<String>,
    pub resource: String,
}

impl ResourceFieldSelector {
    /// An equal copy.
    pub fn duplicate(&self) -> (r: Self)
        ensures
            r == *self,
    {
        ResourceFieldSelector {
            container_name: match &self.container_name {
                Some(s) => Some(s.clone()),
                None => None,
            },
            divisor: match &self.divisor {
                Some(s) => Some(s.clone()),
                None => None,
            },
            resource: self.resource.clone(),
        }
    }
}

/// An indirect environment value, passed through opaquely: the engine never
/// reads the referenced data.
#[derive(Debug, PartialEq)]
pub struct EnvVarSource {
    pub config_map_key_ref: Option<KeySelector>,
    pub secret_key_ref: Option<KeySelector>,
    pub field_ref: Option<FieldSelector>,
    pub resource_field_ref: Option<ResourceFieldSelector>,
}

impl EnvVarSource {
    /// An equal copy.
    pub fn duplicate(&self) -> (r: Self)
        ensures
            r == *self,
    {
        EnvVarSource {
            config_map_key_ref: match &self.config_map_key_ref {
                Some(k) => Some(k.duplicate()),
                None => None,
            },
            secret_key_ref: match &self.secret_key_ref {
                Some(k) => Some(k.duplicate()),
                None => None,
            },
            field_ref: match &self.field_ref {
                Some(f) => Some(f.duplicate()),
                None => None,
            },
            resource_field_ref: match &self.resource_field_ref {
                Some(r) => Some(r.duplicate()),
                None => None,
            },
        }
    }
}

/// One declared environment entry of a container.
#[derive(Debug, PartialEq)]
pub struct EnvVar {
    pub name: String,
    pub value: Option<String>,
    pub value_from: Option<EnvVarSource>,
}

impl Default for EnvVar {
    fn default() -> (r: Self)
        ensures
            r.name@ == Seq::<char>::empty(),
            r.value is None,
            r.value_from is None,
    {
        EnvVar { name: String::new(), value: None, value_from: None }
    }
}

/// The resource requirements of a container. Quantities are kept as the
/// orchestrator's literal quantity strings.
#[derive(Debug)]
pub struct ResourceRequirements {
    pub limits: Option<StrMap<String>>,
    pub requests: Option<StrMap<String>>,
}

impl Default for ResourceRequirements {
    fn default() -> (r: Self)
        ensures
            r.limits is None,
            r.requests is None,
    {
        ResourceRequirements { limits: None, requests: None }
    }
}

/// One container of a pod template.
#[derive(Debug)]
pub struct Container {
    pub name: String,
    pub image: Option<String>,
    pub env: Option<Vec<EnvVar>>,
    pub resources: Option<ResourceRequirements>,
}

impl Default for Container {
    fn default() -> (r: Self)
        ensures
            r.name@ == Seq::<char>::empty(),
            r.image is None,
            r.env is None,
            r.resources is None,
    {
        Container { name: String::new(), image: None, env: None, resources: None }
    }
}

/// The pod-level spec of a template.
#[derive(Debug)]
pub struct PodSpec {
    pub containers: Vec<Container>,
    pub restart_policy: Option<String>,
}

impl Default for PodSpec {
    fn default() -> (r: Self)
        ensures
            r.containers@ == Seq::<Container>::empty(),
            r.restart_policy is None,
    {
        PodSpec { containers: Vec::new(), restart_policy: None }
    }
}

/// The metadata carried by an object or a template.
#[derive(Debug)]
pub struct ObjectMeta {
    pub name: Option<String>,
    pub labels: Option<StrMap<String>>,
    pub managed_fields: Option<Vec<String>>,
}

impl Default for ObjectMeta {
    fn default() -> (r: Self)
        ensures
            r.name is None,
            r.labels is None,
            r.managed_fields is None,
    {
        ObjectMeta { name: None, labels: None, managed_fields: None }
    }
}

/// Two metadata values carry the same content: same name, same label
/// entries, same field-ownership entries.
pub open spec fn meta_equiv(a: ObjectMeta, b: ObjectMeta) -> bool {
    &&& a.name == b.name
    &&& (a.labels is Some <==> b.labels is Some)
    &&& (a.labels is Some ==> a.labels->0.entries_seq() == b.labels->0.entries_seq())
    &&& (a.managed_fields is Some <==> b.managed_fields is Some)
    &&& (a.managed_fields is Some ==> a.managed_fields->0@ == b.managed_fields->0@)
}

/// Copies a list of strings element by element.
fn clone_string_vec(v: &Vec<String>) -> (r: Vec<String>)
    ensures
        r@ == v@,
{
    let mut r: Vec<String> = Vec::new();
    let n = v.len();
    let mut i: usize = 0;
    while i < n
        invariant
            i <= n,
            n == v@.len(),
            r@ == v@.take(i as int),
        decreases n - i,
    {
        r.push(v[i].clone());
        proof {
            assert(v@.take(i as int + 1) =~= v@.take(i as int).push(v@[i as int]));
        }
        i = i + 1;
    }
    proof {
        assert(v@.take(n as int) =~= v@);
    }
    r
}

impl ObjectMeta {
    /// A copy carrying the same content.
    pub fn duplicate(&self) -> (r: Self)
        ensures
            meta_equiv(r, *self),
    {
        ObjectMeta {
            name: match &self.name {
                Some(s) => Some(s.clone()),
                None => None,
            },
            labels: match &self.labels {
                Some(m) => Some(m.duplicate()),
                None => None,
            },
            managed_fields: match &self.managed_fields {
                Some(v) => Some(clone_string_vec(v)),
                None => None,
            },
        }
    }
}

/// A pod template: optional metadata plus an optional pod spec.
#[derive(Debug)]
pub struct PodTemplateSpec {
    pub metadata: Option<ObjectMeta>,
    pub spec: Option<PodSpec>,
}

impl Default for PodTemplateSpec {
    fn default() -> (r: Self)
        ensures
            r.metadata is None,
            r.spec is None,
    {
        PodTemplateSpec { metadata: None, spec: None }
    }
}

/// The selector of a job, of which only the match-label map is touched.
#[derive(Debug)]
pub struct LabelSelector {
    pub match_labels: Option<StrMap<String>>,
}

/// The spec of a job: the pod template plus the job-level scalars.
#[derive(Debug)]
pub struct JobSpec {
    pub template: PodTemplateSpec,
    pub backoff_limit: Option<i32>,
    pub parallelism: Option<i32>,
    pub completions: Option<i32>,
    pub selector: Option<LabelSelector>,
}

impl Default for JobSpec {
    fn default() -> (r: Self)
        ensures
            r.template.metadata is None,
            r.template.spec is None,
            r.backoff_limit is None,
            r.parallelism is None,
            r.completions is None,
            r.selector is None,
    {
        JobSpec {
            template: PodTemplateSpec::default(),
            backoff_limit: None,
            parallelism: None,
            completions: None,
            selector: None,
        }
    }
}

/// The job template embedded in a recurring trigger definition.
#[derive(Debug)]
pub struct JobTemplateSpec {
    pub metadata: Option<ObjectMeta>,
    pub spec: Option<JobSpec>,
}

/// A standalone job object.
#[derive(Debug)]
pub struct Job {
    pub metadata: ObjectMeta,
    pub spec: Option<JobSpec>,
}

/// The spec of a recurring job: the embedded job template.
#[derive(Debug)]
pub struct CronJobSpec {
    pub job_template: JobTemplateSpec,
}

/// A recurring job definition, as far as the pipeline reads it.
#[derive(Debug)]
pub struct CronJob {
    pub metadata: ObjectMeta,
    pub spec: Option<CronJobSpec>,
}

/// The spec of a continuously-running workload: its pod template.
#[derive(Debug)]
pub struct DeploymentSpec {
    pub template: PodTemplateSpec,
}

/// A continuously-running workload definition, as far as the pipeline reads
/// it.
#[derive(Debug)]
pub struct Deployment {
    pub metadata: ObjectMeta,
    pub spec: Option<DeploymentSpec>,
}

} // verus!
