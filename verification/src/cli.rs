//! The command-line surface of one invocation, held as plain values, and
//! the one piece of its logic with real edge-case policy: adding a
//! user-provided variable to the editable environment of a chosen
//! container.

use vstd::prelude::*;
use crate::error::Error;
use crate::kube::manual_job_name;
use crate::kube::spec::{ContainerEnv, EnvKind};
use crate::strmap::{str_eq, upsert};

verus! {

/// The options of one run: the source workload, the target job name, and
/// the submission knobs.
#[derive(Debug)]
pub struct Cli {
    /// The name of the source workload; when absent, the boundary prompts
    /// for an interactive selection.
    pub job_name: Option<String>,
    /// The target name from which the job's own name is derived.
    pub target_name: String,
    pub dry_run: bool,
    pub namespace: String,
    pub backoff_limit: i32,
    /// Derive from a continuously-running workload instead of a recurring
    /// job.
    pub deployment: bool,
    pub dry_run_output_path: Option<String>,
}

impl Cli {
    /// The derived job name that is checked against the cluster before any
    /// other work: a second run with the same target name collides with the
    /// first on purpose.
    pub fn target_job_name(&self) -> (r: String)
        ensures
            r@ == self.target_name@ + "-manual"@,
    {
        manual_job_name(self.target_name.as_str())
    }
}

/// Some editable container entry carries the name.
pub open spec fn has_env_container(s: Seq<ContainerEnv>, name: Seq<char>) -> bool {
    exists|i: int| 0 <= i < s.len() && s[i].name@ == name
}

/// The position of the last editable container entry carrying the name.
pub open spec fn last_env_index(s: Seq<ContainerEnv>, name: Seq<char>) -> int
    decreases s.len(),
{
    if s.len() == 0 {
        0
    } else if s.last().name@ == name {
        s.len() - 1
    } else {
        last_env_index(s.drop_last(), name)
    }
}

pub proof fn lemma_last_env_index_at(s: Seq<ContainerEnv>, name: Seq<char>, k: int)
    requires
        0 <= k < s.len(),
        s[k].name@ == name,
        forall|j: int| k < j < s.len() ==> #[trigger] s[j].name@ != name,
    ensures
        last_env_index(s, name) == k,
        has_env_container(s, name),
    decreases s.len(),
{
    if k == s.len() - 1 {
    } else {
        assert(s.last().name@ != name);
        lemma_last_env_index_at(s.drop_last(), name, k);
    }
}

/// Binds one user-provided variable, as a literal, in the editable set of
/// the last container carrying the given name; everything else is left as
/// it was. Fails when no container carries the name.
pub fn add_additional_env(
    envs: &mut Vec<ContainerEnv>,
    container: &str,
    key: String,
    value: String,
) -> (r: Result<(), Error>)
    ensures
        !has_env_container(old(envs)@, container@) ==> {
            &&& r is Err
            &&& final(envs)@ == old(envs)@
            &&& r->Err_0 matches Error::ContainerNotFound { name } && name@ == container@
        },
        has_env_container(old(envs)@, container@) ==> {
            let k = last_env_index(old(envs)@, container@);
            &&& r is Ok
            &&& final(envs)@.len() == old(envs)@.len()
            &&& forall|j: int|
                0 <= j < old(envs)@.len() && j != k ==> #[trigger] final(envs)@[j] == old(
                    envs,
                )@[j]
            &&& final(envs)@[k].name == old(envs)@[k].name
            &&& final(envs)@[k].envs.entries_seq() == upsert(
                old(envs)@[k].envs.entries_seq(),
                key,
                EnvKind::Literal(value),
            )
        },
{
    let ghost s0 = envs@;
    let n = envs.len();
    let mut found: Option<usize> = None;
    let mut i: usize = 0;
    while i < n
        invariant
            i <= n,
            n == envs@.len(),
            envs@ == s0,
            match found {
                None => forall|j: int| 0 <= j < i ==> #[trigger] s0[j].name@ != container@,
                Some(k) => k < i && s0[k as int].name@ == container@ && forall|j: int|
                    k < j < i ==> #[trigger] s0[j].name@ != container@,
            },
        decreases n - i,
    {
        if str_eq(envs[i].name.as_str(), container) {
            found = Some(i);
        }
        i = i + 1;
    }
    match found {
        None => {
            proof {
                assert(!has_env_container(s0, container@));
            }
            Err(Error::ContainerNotFound { name: container.to_owned() })
        },
        Some(k) => {
            proof {
                lemma_last_env_index_at(s0, container@, k as int);
            }
            let ghost pre = envs@;
            let mut ce = envs.remove(k);
            ce.envs.insert(key, EnvKind::Literal(value));
            envs.insert(k, ce);
            proof {
                assert(envs@ =~= pre.update(k as int, envs@[k as int]));
            }
            Ok(())
        },
    }
}

} // verus!
