//! Tests of normalization, job building, dry-run stripping and rendering.

use job_dispatch::cli::{add_additional_env, Cli};
use job_dispatch::error::Error;
use job_dispatch::kube::model::{
    Container, CronJob, CronJobSpec, Deployment, DeploymentSpec, EnvVar, JobSpec, JobTemplateSpec,
    LabelSelector, ObjectMeta, PodSpec, PodTemplateSpec, ResourceRequirements,
};
use job_dispatch::kube::render::render_job;
use job_dispatch::kube::spec::{ContainerEnv, EnvKind};
use job_dispatch::kube::{build_manual_job, manual_job_name, strip_controller_fields};
use job_dispatch::strmap::StrMap;

fn simple_pod_template(policy: Option<&str>) -> PodTemplateSpec {
    PodTemplateSpec {
        metadata: None,
        spec: Some(PodSpec {
            containers: vec![Container { name: "main".to_string(), ..Default::default() }],
            restart_policy: policy.map(|p| p.to_string()),
        }),
    }
}

#[test]
fn manual_name_is_deterministic() {
    assert_eq!(manual_job_name("foo"), "foo-manual");
    let job = build_manual_job("foo", JobSpec::default(), 3);
    assert_eq!(job.metadata.name.as_deref(), Some("foo-manual"));
    assert_eq!(job.spec.as_ref().unwrap().backoff_limit, Some(3));
}

#[test]
fn cli_derives_the_same_name() {
    let cli = Cli {
        job_name: None,
        target_name: "foo".to_string(),
        dry_run: false,
        namespace: "default".to_string(),
        backoff_limit: 3,
        deployment: false,
        dry_run_output_path: None,
    };
    assert_eq!(cli.target_job_name(), "foo-manual");
}

#[test]
fn deployment_forces_never_restart() {
    for original in [Some("Always"), Some("OnFailure"), None] {
        let deployment = Deployment {
            metadata: ObjectMeta::default(),
            spec: Some(DeploymentSpec { template: simple_pod_template(original) }),
        };
        let template = deployment.get_template_spec().unwrap();
        let job_spec = template.spec.unwrap();
        assert!(job_spec.parallelism.is_none());
        assert!(job_spec.completions.is_none());
        let pod = job_spec.template.spec.unwrap();
        assert_eq!(pod.restart_policy.as_deref(), Some("Never"));
    }
}

#[test]
fn deployment_without_spec_yields_nothing() {
    let deployment = Deployment { metadata: ObjectMeta::default(), spec: None };
    assert!(deployment.get_template_spec().is_none());
}

#[test]
fn cronjob_template_passes_through() {
    let cronjob = CronJob {
        metadata: ObjectMeta::default(),
        spec: Some(CronJobSpec {
            job_template: JobTemplateSpec {
                metadata: None,
                spec: Some(JobSpec {
                    template: simple_pod_template(Some("OnFailure")),
                    backoff_limit: Some(7),
                    ..Default::default()
                }),
            },
        }),
    };
    let template = cronjob.get_template_spec().unwrap();
    let job_spec = template.spec.unwrap();
    assert_eq!(job_spec.backoff_limit, Some(7));
    let pod = job_spec.template.spec.unwrap();
    // The recurring job's template is reused verbatim.
    assert_eq!(pod.restart_policy.as_deref(), Some("OnFailure"));
}

#[test]
fn strip_removes_controller_identity() {
    let mut labels: StrMap<String> = StrMap::new();
    labels.insert("app".to_string(), "demo".to_string());
    labels.insert(
        "batch.kubernetes.io/controller-uid".to_string(),
        "abc".to_string(),
    );
    labels.insert("controller-uid".to_string(), "abc".to_string());

    let mut template_labels: StrMap<String> = StrMap::new();
    template_labels.insert("controller-uid".to_string(), "abc".to_string());
    template_labels.insert("job-name".to_string(), "demo-manual".to_string());

    let mut match_labels: StrMap<String> = StrMap::new();
    match_labels.insert(
        "batch.kubernetes.io/controller-uid".to_string(),
        "abc".to_string(),
    );

    let mut job = build_manual_job("demo", JobSpec::default(), 1);
    job.metadata.labels = Some(labels);
    job.metadata.managed_fields = Some(vec!["kube-controller-manager".to_string()]);
    if let Some(spec) = job.spec.as_mut() {
        spec.selector = Some(LabelSelector { match_labels: Some(match_labels) });
        spec.template.metadata = Some(ObjectMeta {
            name: None,
            labels: Some(template_labels),
            managed_fields: None,
        });
    }

    strip_controller_fields(&mut job);

    assert!(job.metadata.managed_fields.is_none());
    let labels = job.metadata.labels.as_ref().unwrap();
    assert_eq!(labels.len(), 1);
    assert_eq!(labels.get("app").unwrap(), "demo");
    let spec = job.spec.as_ref().unwrap();
    let template_labels = spec
        .template
        .metadata
        .as_ref()
        .unwrap()
        .labels
        .as_ref()
        .unwrap();
    assert_eq!(template_labels.len(), 1);
    assert_eq!(template_labels.get("job-name").unwrap(), "demo-manual");
    let match_labels = spec
        .selector
        .as_ref()
        .unwrap()
        .match_labels
        .as_ref()
        .unwrap();
    assert_eq!(match_labels.len(), 0);
}

#[test]
fn dry_run_output_is_stable() {
    let mut limits: StrMap<String> = StrMap::new();
    limits.insert("cpu".to_string(), "0.5".to_string());
    let job_spec = JobSpec {
        template: PodTemplateSpec {
            metadata: Some(ObjectMeta {
                name: None,
                labels: Some(StrMap::new()),
                managed_fields: None,
            }),
            spec: Some(PodSpec {
                containers: vec![Container {
                    name: "main".to_string(),
                    image: Some("busybox".to_string()),
                    env: Some(vec![EnvVar {
                        name: "KEY".to_string(),
                        value: Some("value".to_string()),
                        ..Default::default()
                    }]),
                    resources: Some(ResourceRequirements {
                        limits: Some(limits),
                        requests: None,
                    }),
                }],
                restart_policy: Some("Never".to_string()),
            }),
        },
        ..Default::default()
    };

    let mut job = build_manual_job("demo", job_spec, 2);
    let before = render_job(&job);
    strip_controller_fields(&mut job);
    let after = render_job(&job);
    assert_eq!(before, after);
}

#[test]
fn render_produces_the_expected_document() {
    let mut limits: StrMap<String> = StrMap::new();
    limits.insert("cpu".to_string(), "250m".to_string());
    let job_spec = JobSpec {
        template: PodTemplateSpec {
            metadata: None,
            spec: Some(PodSpec {
                containers: vec![Container {
                    name: "main".to_string(),
                    image: Some("busybox".to_string()),
                    env: Some(vec![EnvVar {
                        name: "KEY".to_string(),
                        value: Some("value".to_string()),
                        ..Default::default()
                    }]),
                    resources: Some(ResourceRequirements {
                        limits: Some(limits),
                        requests: None,
                    }),
                }],
                restart_policy: Some("Never".to_string()),
            }),
        },
        ..Default::default()
    };
    let job = build_manual_job("demo", job_spec, 3);

    let expected = "apiVersion: batch/v1\n\
                    kind: Job\n\
                    metadata:\n\
                    \x20 name: demo-manual\n\
                    spec:\n\
                    \x20 backoffLimit: 3\n\
                    \x20 template:\n\
                    \x20   spec:\n\
                    \x20     restartPolicy: Never\n\
                    \x20     containers:\n\
                    \x20     - name: main\n\
                    \x20       image: busybox\n\
                    \x20       env:\n\
                    \x20       - name: KEY\n\
                    \x20         value: value\n\
                    \x20       resources:\n\
                    \x20         limits:\n\
                    \x20           cpu: 250m\n";
    assert_eq!(render_job(&job), expected);
}

#[test]
fn render_handles_negative_backoff() {
    let job = build_manual_job("demo", JobSpec::default(), -12);
    let text = render_job(&job);
    assert!(text.contains("backoffLimit: -12\n"));
}

#[test]
fn additional_env_targets_last_match() {
    let mut envs = vec![
        ContainerEnv { name: "web".to_string(), envs: StrMap::new() },
        ContainerEnv { name: "web".to_string(), envs: StrMap::new() },
    ];
    let res = add_additional_env(
        &mut envs,
        "web",
        "EXTRA".to_string(),
        "v".to_string(),
    );
    assert!(res.is_ok());
    assert!(envs[0].envs.get("EXTRA").is_none());
    assert_eq!(
        *envs[1].envs.get("EXTRA").unwrap(),
        EnvKind::Literal("v".to_string())
    );
}

#[test]
fn additional_env_unknown_container_fails() {
    let mut envs = vec![ContainerEnv { name: "web".to_string(), envs: StrMap::new() }];
    let res = add_additional_env(&mut envs, "ghost", "K".to_string(), "v".to_string());
    assert_eq!(res, Err(Error::ContainerNotFound { name: "ghost".to_string() }));
    assert!(envs[0].envs.get("K").is_none());
}

#[test]
fn error_messages_name_the_context() {
    let err = Error::ContainerNotFound { name: "main".to_string() };
    assert_eq!(err.message(), "unable to get the targeted container main");
    assert_eq!(
        Error::MissingTemplate.message(),
        "unable to find the pod spec of the job"
    );
    let err = Error::ContainerMismatch {
        expected: "web".to_string(),
        got: Some("sidecar".to_string()),
    };
    assert_eq!(err.message(), "container list drifted: expected container web");
    let err = Error::AlreadyExists { name: "foo-manual".to_string() };
    assert_eq!(
        err.message(),
        "a job with the same name already exists: foo-manual"
    );
    assert_eq!(
        Error::UserCancelled.message(),
        "operation cancelled by the user"
    );
    let err = Error::SubmissionFailed { reason: "quota".to_string() };
    assert_eq!(err.message(), "unable to create the job: quota");
}

#[test]
fn render_covers_optional_blocks() {
    let mut labels: StrMap<String> = StrMap::new();
    labels.insert("app".to_string(), "demo".to_string());
    let mut template_labels: StrMap<String> = StrMap::new();
    template_labels.insert("job-name".to_string(), "full-manual".to_string());
    let mut match_labels: StrMap<String> = StrMap::new();
    match_labels.insert("a".to_string(), "b".to_string());
    let mut requests: StrMap<String> = StrMap::new();
    requests.insert("memory".to_string(), "1Gi".to_string());

    let job = job_dispatch::kube::model::Job {
        metadata: ObjectMeta {
            name: Some("full-manual".to_string()),
            labels: Some(labels),
            managed_fields: Some(vec!["kubectl".to_string()]),
        },
        spec: Some(JobSpec {
            template: PodTemplateSpec {
                metadata: Some(ObjectMeta {
                    name: None,
                    labels: Some(template_labels),
                    managed_fields: None,
                }),
                spec: Some(PodSpec {
                    containers: vec![Container {
                        name: "main".to_string(),
                        image: None,
                        env: Some(vec![EnvVar {
                            name: "REF".to_string(),
                            value: None,
                            value_from: Some(job_dispatch::kube::model::EnvVarSource {
                                config_map_key_ref: Some(
                                    job_dispatch::kube::model::KeySelector {
                                        name: "cm".to_string(),
                                        key: "k".to_string(),
                                        optional: Some(true),
                                    },
                                ),
                                secret_key_ref: None,
                                field_ref: Some(job_dispatch::kube::model::FieldSelector {
                                    api_version: Some("v1".to_string()),
                                    field_path: "metadata.name".to_string(),
                                }),
                                resource_field_ref: Some(
                                    job_dispatch::kube::model::ResourceFieldSelector {
                                        container_name: Some("main".to_string()),
                                        divisor: Some("1m".to_string()),
                                        resource: "limits.cpu".to_string(),
                                    },
                                ),
                            }),
                        }]),
                        resources: Some(ResourceRequirements {
                            limits: None,
                            requests: Some(requests),
                        }),
                    }],
                    restart_policy: None,
                }),
            },
            backoff_limit: Some(0),
            parallelism: Some(1),
            completions: Some(2),
            selector: Some(LabelSelector { match_labels: Some(match_labels) }),
        }),
    };

    let lines = [
        "apiVersion: batch/v1",
        "kind: Job",
        "metadata:",
        "  name: full-manual",
        "  labels:",
        "    app: demo",
        "  managedFields:",
        "  - manager: kubectl",
        "spec:",
        "  backoffLimit: 0",
        "  parallelism: 1",
        "  completions: 2",
        "  selector:",
        "    matchLabels:",
        "      a: b",
        "  template:",
        "    metadata:",
        "      labels:",
        "        job-name: full-manual",
        "    spec:",
        "      containers:",
        "      - name: main",
        "        env:",
        "        - name: REF",
        "          valueFrom:",
        "            configMapKeyRef:",
        "              name: cm",
        "              key: k",
        "              optional: true",
        "            fieldRef:",
        "              apiVersion: v1",
        "              fieldPath: metadata.name",
        "            resourceFieldRef:",
        "              containerName: main",
        "              divisor: 1m",
        "              resource: limits.cpu",
        "        resources:",
        "          requests:",
        "            memory: 1Gi",
    ];
    let expected = lines.join("\n") + "\n";
    assert_eq!(render_job(&job), expected);
}

#[test]
fn render_marks_empty_collections() {
    let job = job_dispatch::kube::model::Job {
        metadata: ObjectMeta {
            name: None,
            labels: None,
            managed_fields: Some(Vec::new()),
        },
        spec: Some(JobSpec {
            template: PodTemplateSpec {
                metadata: None,
                spec: Some(PodSpec {
                    containers: vec![Container {
                        name: "x".to_string(),
                        image: None,
                        env: Some(Vec::new()),
                        resources: Some(ResourceRequirements { limits: None, requests: None }),
                    }],
                    restart_policy: None,
                }),
            },
            backoff_limit: None,
            parallelism: None,
            completions: None,
            selector: Some(LabelSelector { match_labels: None }),
        }),
    };
    let lines = [
        "apiVersion: batch/v1",
        "kind: Job",
        "metadata:",
        "  managedFields: []",
        "spec:",
        "  selector:",
        "  template:",
        "    spec:",
        "      containers:",
        "      - name: x",
        "        env: []",
        "        resources: {}",
    ];
    let expected = lines.join("\n") + "\n";
    assert_eq!(render_job(&job), expected);

    let bare = job_dispatch::kube::model::Job {
        metadata: ObjectMeta::default(),
        spec: Some(JobSpec {
            template: PodTemplateSpec {
                metadata: None,
                spec: Some(PodSpec::default()),
            },
            ..Default::default()
        }),
    };
    let lines = [
        "apiVersion: batch/v1",
        "kind: Job",
        "metadata:",
        "spec:",
        "  template:",
        "    spec:",
        "      containers: []",
    ];
    let expected = lines.join("\n") + "\n";
    assert_eq!(render_job(&bare), expected);
}

#[test]
fn string_map_distinguishes_keys() {
    let mut m: StrMap<String> = StrMap::new();
    m.insert("alpha".to_string(), "1".to_string());
    m.insert("beta".to_string(), "2".to_string());
    assert_eq!(m.get("alpha").unwrap(), "1");
    assert_eq!(m.get("beta").unwrap(), "2");
    assert!(m.get("gamma").is_none());
    m.insert("alpha".to_string(), "3".to_string());
    assert_eq!(m.len(), 2);
    assert_eq!(m.get("alpha").unwrap(), "3");
    assert_eq!(m.remove("alpha"), Some("3".to_string()));
    assert!(m.get("alpha").is_none());
    assert_eq!(m.len(), 1);
}
