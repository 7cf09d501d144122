//! Normalization of a continuously-running workload: its pod template is
//! wrapped in a fresh job-level spec, and the pod restart policy is forced
//! to `Never`, since a job's pods must not be restarted the way a
//! deployment's are.

use vstd::prelude::*;
use vstd::string::StringExecFns;
use crate::kube::model::{meta_equiv, Deployment, JobSpec, JobTemplateSpec};

verus! {

impl Deployment {
    /// The canonical job template derived from a deployment: the pod
    /// template with restart policy `Never`, inside a fresh job spec with
    /// parallelism, completions, backoff limit and selector unset.
    pub fn get_template_spec(self) -> (r: Option<JobTemplateSpec>)
        ensures
            r is Some <==> self.spec is Some,
            self.spec is Some ==> {
                let t = self.spec->0.template;
                let rt = r->0;
                &&& (rt.metadata is Some <==> t.metadata is Some)
                &&& (t.metadata is Some ==> meta_equiv(rt.metadata->0, t.metadata->0))
                &&& rt.spec is Some
                &&& rt.spec->0.backoff_limit is None
                &&& rt.spec->0.parallelism is None
                &&& rt.spec->0.completions is None
                &&& rt.spec->0.selector is None
                &&& rt.spec->0.template.metadata == t.metadata
                &&& (t.spec is None ==> rt.spec->0.template.spec is None)
                &&& (t.spec is Some ==> rt.spec->0.template.spec is Some
                    && rt.spec->0.template.spec->0.containers@ == t.spec->0.containers@
                    && rt.spec->0.template.spec->0.restart_policy is Some
                    && rt.spec->0.template.spec->0.restart_policy->0@ == "Never"@)
            },
    {
        match self.spec {
            Some(dep) => {
                let mut template = dep.template;
                let metadata = match &template.metadata {
                    Some(md) => Some(md.duplicate()),
                    None => None,
                };
                match &mut template.spec {
                    Some(ps) => {
                        ps.restart_policy = Some("Never".to_owned());
                    },
                    None => {},
                }
                Some(
                    JobTemplateSpec {
                        metadata,
                        spec: Some(
                            JobSpec {
                                template,
                                backoff_limit: None,
                                parallelism: None,
                                completions: None,
                                selector: None,
                            },
                        ),
                    },
                )
            },
            None => None,
        }
    }
}

} // verus!
