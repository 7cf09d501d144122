//! Tests of the environment reconciler and the resource limit updater.

use job_dispatch::error::Error;
use job_dispatch::kube::model::{
    Container, EnvVar, EnvVarSource, JobSpec, KeySelector, PodSpec, PodTemplateSpec,
    ResourceRequirements,
};
use job_dispatch::kube::spec::EnvKind;
use job_dispatch::strmap::StrMap;

fn literal_var(name: &str, value: &str) -> EnvVar {
    EnvVar { name: name.to_string(), value: Some(value.to_string()), ..Default::default() }
}

fn container_with_env(name: &str, env: Vec<EnvVar>) -> Container {
    Container { name: name.to_string(), env: Some(env), ..Default::default() }
}

fn job_spec_with(containers: Vec<Container>) -> JobSpec {
    JobSpec {
        template: PodTemplateSpec {
            metadata: None,
            spec: Some(PodSpec { containers, ..Default::default() }),
        },
        ..Default::default()
    }
}

#[test]
fn expect_to_process_env() {
    let job_spec = JobSpec {
        template: PodTemplateSpec {
            metadata: None,
            spec: Some(PodSpec {
                containers: vec![Container {
                    env: Some(vec![EnvVar {
                        name: "key".to_string(),
                        value: Some("value".to_string()),
                        ..Default::default()
                    }]),
                    name: "main".to_string(),
                    ..Default::default()
                }],
                ..Default::default()
            }),
        },
        ..Default::default()
    };

    let fetched_env = job_spec.get_env();
    assert!(fetched_env.is_ok());

    let fetched_env = fetched_env.unwrap();
    let container = fetched_env.first().unwrap();

    assert_eq!(container.name, "main");
    assert_eq!(
        *container.envs.get("key").unwrap(),
        EnvKind::Literal("value".to_string())
    );
}

#[test]
fn expect_to_rebuild_env() {
    let mut job_spec = JobSpec {
        template: PodTemplateSpec {
            metadata: None,
            spec: Some(PodSpec {
                containers: vec![Container {
                    env: Some(vec![EnvVar {
                        name: "key".to_string(),
                        value: Some("value".to_string()),
                        ..Default::default()
                    }]),
                    name: "main".to_string(),
                    ..Default::default()
                }],
                ..Default::default()
            }),
        },
        ..Default::default()
    };

    let mut envs = job_spec.get_env().unwrap();
    let container = envs.first_mut().expect("Expect to get the first container");

    // Overwrite the extracted literal with the edited value.
    container
        .envs
        .insert("key".to_string(), EnvKind::Literal("dodo".to_string()));

    // Rebuild the environment variable and expect the job spec key = dodo
    let res = job_spec.rebuild_env(&mut envs);
    assert!(res.is_ok());

    let spec = job_spec
        .template
        .spec
        .expect("Expect to get the spec of the pod");
    let container = spec.containers.first().expect("Expect to get a container");
    let new_env = container.env.as_ref().unwrap().first().unwrap();

    assert_eq!(new_env.value.as_ref().unwrap(), "dodo");
}

#[test]
fn expect_to_update_resources() {
    let mut limits: StrMap<String> = StrMap::new();
    limits.insert("cpu".to_string(), "0.1".to_string());
    limits.insert("memory".to_string(), "0.5".to_string());

    let mut job_spec = JobSpec {
        template: PodTemplateSpec {
            metadata: None,
            spec: Some(PodSpec {
                containers: vec![Container {
                    name: "main".to_string(),
                    resources: Some(ResourceRequirements {
                        limits: Some(limits),
                        ..Default::default()
                    }),
                    ..Default::default()
                }],
                ..Default::default()
            }),
        },
        ..Default::default()
    };

    let res =
        job_spec.update_resources(("10Mb".to_string(), "0.01".to_string(), "main".to_string()));
    assert!(res.is_ok());

    let pod = job_spec.template.spec.unwrap();
    let container = pod.containers.first().unwrap();
    let resources = container.resources.as_ref().unwrap();
    let limits = resources.limits.as_ref().unwrap();

    assert_eq!(limits.get("memory").unwrap().clone(), "10Mb".to_string());
    assert_eq!(limits.get("cpu").unwrap().clone(), "0.01".to_string());
}

#[test]
fn round_trip_preserves_env() {
    let mut job_spec = job_spec_with(vec![
        container_with_env("web", vec![literal_var("A", "1"), literal_var("B", "2")]),
        container_with_env("sidecar", vec![literal_var("C", "3")]),
    ]);

    let mut envs = job_spec.get_env().unwrap();
    assert_eq!(envs.len(), 2);
    let res = job_spec.rebuild_env(&mut envs);
    assert!(res.is_ok());

    let pod = job_spec.template.spec.unwrap();
    let web = pod.containers[0].env.as_ref().unwrap();
    assert_eq!(web.len(), 2);
    assert_eq!(web[0].name, "A");
    assert_eq!(web[0].value.as_deref(), Some("1"));
    assert_eq!(web[1].name, "B");
    assert_eq!(web[1].value.as_deref(), Some("2"));
    let sidecar = pod.containers[1].env.as_ref().unwrap();
    assert_eq!(sidecar.len(), 1);
    assert_eq!(sidecar[0].name, "C");
    assert_eq!(sidecar[0].value.as_deref(), Some("3"));
}

#[test]
fn mixed_kinds_round_trip_unchanged() {
    let reference = EnvVar {
        name: "REF".to_string(),
        value: None,
        value_from: Some(EnvVarSource {
            config_map_key_ref: Some(KeySelector {
                name: "cm".to_string(),
                key: "k".to_string(),
                optional: None,
            }),
            secret_key_ref: None,
            field_ref: None,
            resource_field_ref: None,
        }),
    };
    let malformed = EnvVar { name: "BARE".to_string(), ..Default::default() };
    let mut job_spec = job_spec_with(vec![container_with_env(
        "web",
        vec![literal_var("A", "1"), reference, malformed],
    )]);

    let mut envs = job_spec.get_env().unwrap();
    assert!(job_spec.rebuild_env(&mut envs).is_ok());

    let pod = job_spec.template.spec.unwrap();
    let web = pod.containers[0].env.as_ref().unwrap();
    assert_eq!(web.len(), 3);
    assert_eq!(web[0].name, "A");
    assert_eq!(web[0].value.as_deref(), Some("1"));
    assert_eq!(web[1].name, "REF");
    assert!(web[1].value.is_none());
    assert_eq!(
        web[1]
            .value_from
            .as_ref()
            .unwrap()
            .config_map_key_ref
            .as_ref()
            .unwrap()
            .key,
        "k"
    );
    assert_eq!(web[2].name, "BARE");
    assert!(web[2].value.is_none());
    assert!(web[2].value_from.is_none());
}

#[test]
fn edit_changes_only_target() {
    let mut job_spec = job_spec_with(vec![
        container_with_env("web", vec![literal_var("A", "1"), literal_var("B", "2")]),
        container_with_env("sidecar", vec![literal_var("C", "3")]),
    ]);

    let mut envs = job_spec.get_env().unwrap();
    envs[0]
        .envs
        .insert("B".to_string(), EnvKind::Literal("edited".to_string()));
    assert!(job_spec.rebuild_env(&mut envs).is_ok());

    let pod = job_spec.template.spec.unwrap();
    let web = pod.containers[0].env.as_ref().unwrap();
    assert_eq!(web[0].value.as_deref(), Some("1"));
    assert_eq!(web[1].value.as_deref(), Some("edited"));
    let sidecar = pod.containers[1].env.as_ref().unwrap();
    assert_eq!(sidecar[0].value.as_deref(), Some("3"));
}

#[test]
fn net_new_key_appends_one_literal() {
    let mut job_spec = job_spec_with(vec![container_with_env(
        "web",
        vec![literal_var("A", "1")],
    )]);

    let mut envs = job_spec.get_env().unwrap();
    envs[0]
        .envs
        .insert("EXTRA".to_string(), EnvKind::Literal("new".to_string()));
    assert!(job_spec.rebuild_env(&mut envs).is_ok());

    let pod = job_spec.template.spec.unwrap();
    let web = pod.containers[0].env.as_ref().unwrap();
    assert_eq!(web.len(), 2);
    assert_eq!(web[0].name, "A");
    assert_eq!(web[1].name, "EXTRA");
    assert_eq!(web[1].value.as_deref(), Some("new"));
    assert!(web[1].value_from.is_none());
}

#[test]
fn net_new_keys_append_in_ascending_order() {
    let mut job_spec = job_spec_with(vec![container_with_env(
        "web",
        vec![literal_var("M", "1")],
    )]);

    let mut envs = job_spec.get_env().unwrap();
    // Edited in descending order; the appends come out ascending, as an
    // ordered variable map would hand them out.
    envs[0]
        .envs
        .insert("Z_LAST".to_string(), EnvKind::Literal("z".to_string()));
    envs[0]
        .envs
        .insert("A_FIRST".to_string(), EnvKind::Literal("a".to_string()));
    assert!(job_spec.rebuild_env(&mut envs).is_ok());

    let pod = job_spec.template.spec.unwrap();
    let web = pod.containers[0].env.as_ref().unwrap();
    assert_eq!(web.len(), 3);
    assert_eq!(web[0].name, "M");
    assert_eq!(web[1].name, "A_FIRST");
    assert_eq!(web[1].value.as_deref(), Some("a"));
    assert_eq!(web[2].name, "Z_LAST");
    assert_eq!(web[2].value.as_deref(), Some("z"));
}

#[test]
fn net_new_external_reference_is_skipped() {
    let mut job_spec = job_spec_with(vec![container_with_env(
        "web",
        vec![literal_var("A", "1")],
    )]);

    let mut envs = job_spec.get_env().unwrap();
    let source = EnvVarSource {
        config_map_key_ref: Some(KeySelector {
            name: "cm".to_string(),
            key: "k".to_string(),
            optional: None,
        }),
        secret_key_ref: None,
        field_ref: None,
        resource_field_ref: None,
    };
    envs[0]
        .envs
        .insert("REF".to_string(), EnvKind::ConfigMap(Box::new(source)));
    assert!(job_spec.rebuild_env(&mut envs).is_ok());

    // A net-new reference cannot be fabricated: nothing is appended.
    let pod = job_spec.template.spec.unwrap();
    let web = pod.containers[0].env.as_ref().unwrap();
    assert_eq!(web.len(), 1);
    assert_eq!(web[0].name, "A");
}

#[test]
fn container_rename_is_detected() {
    let mut job_spec = job_spec_with(vec![container_with_env(
        "web",
        vec![literal_var("A", "1")],
    )]);

    let mut envs = job_spec.get_env().unwrap();
    envs[0].name = "renamed".to_string();
    let res = job_spec.rebuild_env(&mut envs);
    match res {
        Err(Error::ContainerMismatch { expected, got }) => {
            assert_eq!(expected, "web");
            assert_eq!(got.as_deref(), Some("renamed"));
        }
        other => panic!("expected a container mismatch, got {:?}", other),
    }
    // The template is left as it was.
    let pod = job_spec.template.spec.unwrap();
    assert_eq!(pod.containers[0].env.as_ref().unwrap()[0].value.as_deref(), Some("1"));
}

#[test]
fn container_reorder_is_detected() {
    let mut job_spec = job_spec_with(vec![
        container_with_env("web", vec![literal_var("A", "1")]),
        container_with_env("sidecar", vec![literal_var("C", "3")]),
    ]);

    let mut envs = job_spec.get_env().unwrap();
    envs.swap(0, 1);
    let res = job_spec.rebuild_env(&mut envs);
    match res {
        Err(Error::ContainerMismatch { expected, got }) => {
            assert_eq!(expected, "web");
            assert_eq!(got.as_deref(), Some("sidecar"));
        }
        other => panic!("expected a container mismatch, got {:?}", other),
    }
}

#[test]
fn fewer_entries_than_containers_is_detected() {
    let mut job_spec = job_spec_with(vec![
        container_with_env("web", vec![literal_var("A", "1")]),
        container_with_env("sidecar", vec![literal_var("C", "3")]),
    ]);

    let mut envs = job_spec.get_env().unwrap();
    envs.truncate(1);
    let res = job_spec.rebuild_env(&mut envs);
    match res {
        Err(Error::ContainerMismatch { expected, got }) => {
            assert_eq!(expected, "sidecar");
            assert_eq!(got, None);
        }
        other => panic!("expected a container mismatch, got {:?}", other),
    }
}

#[test]
fn empty_edited_set_is_a_noop() {
    // A workload with no environment anywhere must never error out.
    let mut job_spec = JobSpec::default();
    let mut envs = Vec::new();
    assert!(job_spec.rebuild_env(&mut envs).is_ok());
}

#[test]
fn missing_template_is_reported() {
    let job_spec = JobSpec::default();
    assert_eq!(job_spec.get_env().unwrap_err(), Error::MissingTemplate);

    let mut job_spec = JobSpec::default();
    let mut envs = vec![job_dispatch::kube::spec::ContainerEnv {
        name: "main".to_string(),
        envs: StrMap::new(),
    }];
    assert_eq!(job_spec.rebuild_env(&mut envs), Err(Error::MissingTemplate));

    let mut job_spec = JobSpec::default();
    let res =
        job_spec.update_resources(("1Mi".to_string(), "0.1".to_string(), "main".to_string()));
    assert_eq!(res, Err(Error::MissingTemplate));
}

#[test]
fn malformed_entry_is_dropped() {
    let bare = EnvVar { name: "EMPTY".to_string(), ..Default::default() };
    let job_spec = job_spec_with(vec![container_with_env(
        "web",
        vec![bare, literal_var("A", "1")],
    )]);

    let envs = job_spec.get_env().unwrap();
    assert_eq!(envs[0].envs.len(), 1);
    assert!(envs[0].envs.get("EMPTY").is_none());
    assert!(envs[0].envs.get("A").is_some());
}

#[test]
fn duplicate_name_keeps_last_value() {
    let job_spec = job_spec_with(vec![container_with_env(
        "web",
        vec![literal_var("A", "first"), literal_var("A", "second")],
    )]);

    let envs = job_spec.get_env().unwrap();
    assert_eq!(envs[0].envs.len(), 1);
    assert_eq!(
        *envs[0].envs.get("A").unwrap(),
        EnvKind::Literal("second".to_string())
    );
}

#[test]
fn container_without_env_is_skipped() {
    let job_spec = job_spec_with(vec![
        Container { name: "bare".to_string(), ..Default::default() },
        container_with_env("web", vec![literal_var("A", "1")]),
    ]);

    let envs = job_spec.get_env().unwrap();
    assert_eq!(envs.len(), 1);
    assert_eq!(envs[0].name, "web");
}

#[test]
fn external_reference_round_trips() {
    let source = EnvVarSource {
        config_map_key_ref: None,
        secret_key_ref: Some(KeySelector {
            name: "creds".to_string(),
            key: "token".to_string(),
            optional: Some(true),
        }),
        field_ref: None,
        resource_field_ref: None,
    };
    let referenced = EnvVar {
        name: "TOKEN".to_string(),
        value: None,
        value_from: Some(source),
    };
    let mut job_spec = job_spec_with(vec![container_with_env("web", vec![referenced])]);

    let mut envs = job_spec.get_env().unwrap();
    match envs[0].envs.get("TOKEN").unwrap() {
        EnvKind::ConfigMap(s) => {
            assert_eq!(s.secret_key_ref.as_ref().unwrap().name, "creds");
        }
        other => panic!("expected an external reference, got {:?}", other),
    }
    assert!(job_spec.rebuild_env(&mut envs).is_ok());

    let pod = job_spec.template.spec.unwrap();
    let entry = &pod.containers[0].env.as_ref().unwrap()[0];
    assert!(entry.value.is_none());
    let kept = entry.value_from.as_ref().unwrap().secret_key_ref.as_ref().unwrap();
    assert_eq!(kept.key, "token");
    assert_eq!(kept.optional, Some(true));
}

#[test]
fn override_creates_limits_block() {
    let mut job_spec = job_spec_with(vec![Container {
        name: "main".to_string(),
        ..Default::default()
    }]);

    let res =
        job_spec.update_resources(("10Mi".to_string(), "0.01".to_string(), "main".to_string()));
    assert!(res.is_ok());

    let pod = job_spec.template.spec.unwrap();
    let resources = pod.containers[0].resources.as_ref().unwrap();
    assert!(resources.requests.is_none());
    let limits = resources.limits.as_ref().unwrap();
    assert_eq!(limits.len(), 2);
    assert_eq!(limits.get("cpu").unwrap(), "0.01");
    assert_eq!(limits.get("memory").unwrap(), "10Mi");
}

#[test]
fn override_preserves_unrelated_limits() {
    let mut limits: StrMap<String> = StrMap::new();
    limits.insert("cpu".to_string(), "0.1".to_string());
    limits.insert("memory".to_string(), "0.5".to_string());
    limits.insert("ephemeral-storage".to_string(), "1Gi".to_string());
    let mut requests: StrMap<String> = StrMap::new();
    requests.insert("cpu".to_string(), "0.05".to_string());

    let mut job_spec = job_spec_with(vec![Container {
        name: "main".to_string(),
        resources: Some(ResourceRequirements {
            limits: Some(limits),
            requests: Some(requests),
        }),
        ..Default::default()
    }]);

    let res =
        job_spec.update_resources(("10Mi".to_string(), "0.01".to_string(), "main".to_string()));
    assert!(res.is_ok());

    let pod = job_spec.template.spec.unwrap();
    let resources = pod.containers[0].resources.as_ref().unwrap();
    let limits = resources.limits.as_ref().unwrap();
    assert_eq!(limits.len(), 3);
    assert_eq!(limits.get("cpu").unwrap(), "0.01");
    assert_eq!(limits.get("memory").unwrap(), "10Mi");
    assert_eq!(limits.get("ephemeral-storage").unwrap(), "1Gi");
    // Requests are never touched.
    let requests = resources.requests.as_ref().unwrap();
    assert_eq!(requests.get("cpu").unwrap(), "0.05");
}

#[test]
fn override_targets_last_matching_container() {
    let mut job_spec = job_spec_with(vec![
        Container { name: "main".to_string(), ..Default::default() },
        Container { name: "main".to_string(), ..Default::default() },
    ]);

    let res =
        job_spec.update_resources(("1Mi".to_string(), "0.2".to_string(), "main".to_string()));
    assert!(res.is_ok());

    let pod = job_spec.template.spec.unwrap();
    assert!(pod.containers[0].resources.is_none());
    assert!(pod.containers[1].resources.is_some());
}

#[test]
fn override_unknown_container_fails() {
    let mut job_spec = job_spec_with(vec![Container {
        name: "main".to_string(),
        ..Default::default()
    }]);

    let res =
        job_spec.update_resources(("1Mi".to_string(), "0.2".to_string(), "ghost".to_string()));
    assert_eq!(res, Err(Error::ContainerNotFound { name: "ghost".to_string() }));
    let pod = job_spec.template.spec.unwrap();
    assert!(pod.containers[0].resources.is_none());
}
