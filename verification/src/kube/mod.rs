//! Building a one-off job from a reconciled template, and preparing a job
//! for stable dry-run rendering.

pub mod model;
pub mod render;
pub mod spec;
pub mod template;

use vstd::prelude::*;
use vstd::string::StringExecFns;
use crate::kube::model::{Job, JobSpec, ObjectMeta};
use crate::strmap::{lemma_lookup_none_absent, lemma_remove_key_absent, lookup, remove_key};

verus! {

/// The derived name of a manually dispatched job: the target name with the
/// fixed `-manual` suffix.
pub fn manual_job_name(name: &str) -> (r: String)
    ensures
        r@ == name@ + "-manual"@,
{
    let mut s = name.to_owned();
    s.append("-manual");
    s
}

/// Wraps a reconciled job spec into a fresh standalone job named
/// `<name>-manual`, carrying the caller's backoff limit. Nothing is
/// submitted here.
pub fn build_manual_job(name: &str, job_spec: JobSpec, backoff_limit: i32) -> (r: Job)
    ensures
        r.metadata.name is Some,
        r.metadata.name->0@ == name@ + "-manual"@,
        r.metadata.labels is None,
        r.metadata.managed_fields is None,
        r.spec is Some,
        r.spec->0.backoff_limit == Some(backoff_limit),
        r.spec->0.template == job_spec.template,
        r.spec->0.parallelism == job_spec.parallelism,
        r.spec->0.completions == job_spec.completions,
        r.spec->0.selector == job_spec.selector,
{
    let job_name = manual_job_name(name);
    Job {
        metadata: ObjectMeta { name: Some(job_name), labels: None, managed_fields: None },
        spec: Some(JobSpec { backoff_limit: Some(backoff_limit), ..job_spec }),
    }
}

/// The object-level label set after stripping: the controller-identity
/// keys removed, everything else kept in order.
pub open spec fn strip_meta_labels(l: Seq<(String, String)>) -> Seq<(String, String)> {
    remove_key(remove_key(l, "batch.kubernetes.io/controller-uid"@), "controller-uid"@)
}

/// The pod-template label set after stripping.
pub open spec fn strip_template_labels(l: Seq<(String, String)>) -> Seq<(String, String)> {
    remove_key(remove_key(l, "controller-uid"@), "batch.kubernetes.io/controller-uid"@)
}

/// The selector match-label set after stripping.
pub open spec fn strip_selector_labels(l: Seq<(String, String)>) -> Seq<(String, String)> {
    remove_key(l, "batch.kubernetes.io/controller-uid"@)
}

/// How a job relates to its stripped form: field-ownership metadata gone,
/// controller-identity labels removed from the object, its pod template and
/// its selector, and everything else exactly as it was.
pub open spec fn strip_relation(o: Job, n: Job) -> bool {
    &&& n.metadata.name == o.metadata.name
    &&& n.metadata.managed_fields is None
    &&& (o.metadata.labels is None ==> n.metadata.labels is None)
    &&& (o.metadata.labels is Some ==> n.metadata.labels is Some
        && n.metadata.labels->0.entries_seq() == strip_meta_labels(
        o.metadata.labels->0.entries_seq(),
    ))
    &&& (o.spec is None ==> n.spec is None)
    &&& (o.spec is Some ==> n.spec is Some && {
        let os = o.spec->0;
        let ns = n.spec->0;
        &&& ns.backoff_limit == os.backoff_limit
        &&& ns.parallelism == os.parallelism
        &&& ns.completions == os.completions
        &&& ns.template.spec == os.template.spec
        &&& (os.template.metadata is None ==> ns.template.metadata is None)
        &&& (os.template.metadata is Some ==> ns.template.metadata is Some && {
            let om = os.template.metadata->0;
            let nm = ns.template.metadata->0;
            &&& nm.name == om.name
            &&& nm.managed_fields == om.managed_fields
            &&& (om.labels is None ==> nm.labels is None)
            &&& (om.labels is Some ==> nm.labels is Some && nm.labels->0.entries_seq()
                == strip_template_labels(om.labels->0.entries_seq()))
        })
        &&& (os.selector is None ==> ns.selector is None)
        &&& (os.selector is Some ==> ns.selector is Some && {
            let osl = os.selector->0;
            let nsl = ns.selector->0;
            &&& (osl.match_labels is None ==> nsl.match_labels is None)
            &&& (osl.match_labels is Some ==> nsl.match_labels is Some
                && nsl.match_labels->0.entries_seq() == strip_selector_labels(
                osl.match_labels->0.entries_seq(),
            ))
        })
    })
}

/// Strips the orchestrator-injected identifying fields from a job so that
/// repeated dry runs of the same logical job render identically: the
/// field-ownership metadata, and the controller-identity labels on the
/// object, its pod template, and its selector.
pub fn strip_controller_fields(job: &mut Job)
    ensures
        strip_relation(*old(job), *final(job)),
{
    job.metadata.managed_fields = None;
    match &mut job.metadata.labels {
        Some(m) => {
            m.remove("batch.kubernetes.io/controller-uid");
            m.remove("controller-uid");
        },
        None => {},
    }
    match &mut job.spec {
        Some(sp) => {
            match &mut sp.template.metadata {
                Some(md) => {
                    match &mut md.labels {
                        Some(m) => {
                            m.remove("controller-uid");
                            m.remove("batch.kubernetes.io/controller-uid");
                        },
                        None => {},
                    }
                },
                None => {},
            }
            match &mut sp.selector {
                Some(sel) => {
                    match &mut sel.match_labels {
                        Some(m) => {
                            m.remove("batch.kubernetes.io/controller-uid");
                        },
                        None => {},
                    }
                },
                None => {},
            }
        },
        None => {},
    }
}


/// Neither controller-identity label key is bound in the label set.
pub open spec fn controller_free_labels(l: Seq<(String, String)>) -> bool {
    lookup(l, "batch.kubernetes.io/controller-uid"@) is None && lookup(l, "controller-uid"@)
        is None
}

/// The shape of a job that `build_manual_job` produces, before the
/// orchestrator has seen it: no object labels, no field-ownership
/// metadata, no selector, and a pod template free of controller-identity
/// labels.
pub open spec fn fresh_manual_job(j: Job) -> bool {
    &&& j.metadata.labels is None
    &&& j.metadata.managed_fields is None
    &&& j.spec is Some
    &&& j.spec->0.selector is None
    &&& ((j.spec->0.template.metadata is Some && j.spec->0.template.metadata->0.labels is Some)
        ==> controller_free_labels(j.spec->0.template.metadata->0.labels->0.entries_seq()))
}

/// Dry-run stability: stripping a freshly built manual job changes none of
/// its rendered content, so rendering it before and after the strip yields
/// textually identical output.
pub proof fn dry_run_stable(j: Job, s: Job)
    requires
        fresh_manual_job(j),
        strip_relation(j, s),
    ensures
        crate::kube::render::job_doc(s) == crate::kube::render::job_doc(j),
{
    assert(s.metadata == j.metadata);
    let os = j.spec->0;
    let ns = s.spec->0;
    assert(crate::kube::render::pod_template_block(ns.template)
        == crate::kube::render::pod_template_block(os.template)) by {
        if os.template.metadata is Some {
            let om = os.template.metadata->0;
            let nm = ns.template.metadata->0;
            if om.labels is Some {
                let l = om.labels->0.entries_seq();
                lemma_lookup_none_absent(l, "controller-uid"@);
                lemma_remove_key_absent(l, "controller-uid"@);
                lemma_lookup_none_absent(l, "batch.kubernetes.io/controller-uid"@);
                lemma_remove_key_absent(l, "batch.kubernetes.io/controller-uid"@);
                assert(strip_template_labels(l) == l);
                assert(nm.labels->0.entries_seq() == om.labels->0.entries_seq());
            }
            assert(crate::kube::render::meta_fields("      "@, nm)
                == crate::kube::render::meta_fields("      "@, om));
        }
    }
    assert(crate::kube::render::job_spec_block(ns) == crate::kube::render::job_spec_block(os));
}

} // verus!
