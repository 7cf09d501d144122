//! Normalization of a recurring-job source: its embedded job template is
//! already in canonical shape and passes through unchanged.

use vstd::prelude::*;
use crate::kube::model::{CronJob, JobTemplateSpec};

verus! {

impl CronJob {
    /// The canonical job template of a recurring job: the embedded template
    /// itself, or nothing when the object carries no spec.
    pub fn get_template_spec(self) -> (r: Option<JobTemplateSpec>)
        ensures
            r is Some <==> self.spec is Some,
            self.spec is Some ==> r == Some(self.spec->0.job_template),
    {
        match self.spec {
            Some(s) => Some(s.job_template),
            None => None,
        }
    }
}

} // verus!
