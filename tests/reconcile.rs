use nimbus_sidecar::annotations::{config_key, create_env, is_enabled};
use nimbus_sidecar::config::{
    CirrusEnvironment, APP_ID, APP_NAME, CHANNEL, CIRRUS_FML_PATH, DEFAULT_REMOTE_SETTING_URL,
    FINALIZER, REMOTE_SETTING_REFRESH_RATE_IN_SECONDS, REMOTE_SETTING_URL,
};
use nimbus_sidecar::engine::{decide, has_finalizer, same_config, Decision, ManagedObject};
use nimbus_sidecar::error::Error;
use nimbus_sidecar::lifecycle::{
    action_for, add_finalizer, after_cleanup, error_policy, remove_finalizer, Action,
};
use nimbus_sidecar::sidecar::build_sidecar;

fn s(x: &str) -> String {
    x.to_string()
}

fn pair(k: &str, v: &str) -> (String, String) {
    (s(k), s(v))
}

fn enabled_annotations() -> Vec<(String, String)> {
    vec![
        pair("nimbus.mozilla.org/enabled", "true"),
        pair("nimbus.mozilla.org/env.app.id", "123"),
        pair("nimbus.mozilla.org/env.app.name", "foo"),
        pair("nimbus.mozilla.org/env.channel", "release"),
    ]
}

fn object(annotations: Vec<(String, String)>) -> ManagedObject {
    ManagedObject {
        name: s("web"),
        namespace: s("default"),
        annotations,
        finalizers: vec![],
        deleting: false,
        sidecar_env: None,
    }
}

fn lookup(env: &CirrusEnvironment, key: &str) -> Option<String> {
    env.get(key).cloned()
}

fn desired_env() -> CirrusEnvironment {
    match create_env(&enabled_annotations(), "web", &CirrusEnvironment::default()) {
        Ok(env) => env,
        Err(_) => panic!("valid annotations rejected"),
    }
}

fn config_message(e: Error) -> String {
    match e {
        Error::InvalidConfigurationError(m) => m,
        _ => panic!("not a configuration error"),
    }
}

#[test]
fn enabled_object_without_finalizer_is_patched() {
    let obj = object(enabled_annotations());
    let defaults = CirrusEnvironment::default();
    let d = decide(&obj, &defaults);
    let env = match d {
        Ok(Decision::Apply(env)) => env,
        _ => panic!("expected an apply"),
    };
    assert_eq!(lookup(&env, APP_ID), Some(s("123")));
    assert_eq!(lookup(&env, APP_NAME), Some(s("foo")));
    assert_eq!(lookup(&env, CHANNEL), Some(s("release")));
    assert_eq!(lookup(&env, REMOTE_SETTING_URL), Some(s(DEFAULT_REMOTE_SETTING_URL)));
    assert_eq!(lookup(&env, REMOTE_SETTING_REFRESH_RATE_IN_SECONDS), Some(s("10")));
    assert_eq!(lookup(&env, CIRRUS_FML_PATH), Some(s("/nimbus.fml.yaml")));
    let fins = add_finalizer(&obj.finalizers);
    assert_eq!(fins, vec![s(FINALIZER)]);
    assert!(matches!(action_for(&Decision::Apply(env)), Action::Requeue(300)));
}

#[test]
fn missing_app_id_is_a_configuration_error() {
    let mut annotations = enabled_annotations();
    annotations.remove(1);
    let obj = object(annotations);
    let e = match decide(&obj, &CirrusEnvironment::default()) {
        Err(e) => e,
        Ok(_) => panic!("expected an error"),
    };
    let msg = config_message(e);
    assert!(msg.starts_with("APP_ID env var is empty"));
    assert!(msg.contains("'nimbus.mozilla.org/env.app.id'"));
    assert!(msg.ends_with("onto deployment web."));
    assert!(!msg.contains("APP_NAME"));
    assert!(!msg.contains("CHANNEL"));
    let a = error_policy(&Error::InvalidConfigurationError(msg));
    assert!(matches!(a, Action::Requeue(300)));
}

#[test]
fn missing_app_name_names_only_app_name() {
    let mut annotations = enabled_annotations();
    annotations.remove(2);
    let e = create_env(&annotations, "web", &CirrusEnvironment::default());
    let msg = config_message(e.err().unwrap());
    assert_eq!(
        msg,
        "APP_NAME env var is empty \u{2014} add a value for the 'nimbus.mozilla.org/env.app.name' annotation onto deployment web."
    );
}

#[test]
fn missing_channel_names_only_channel() {
    let mut annotations = enabled_annotations();
    annotations.remove(3);
    let e = create_env(&annotations, "web", &CirrusEnvironment::default());
    let msg = config_message(e.err().unwrap());
    assert!(msg.starts_with("CHANNEL env var is empty"));
    assert!(msg.contains("'nimbus.mozilla.org/env.channel'"));
    assert!(!msg.contains("APP_"));
}

#[test]
fn not_enabled_awaits_change() {
    let mut annotations = enabled_annotations();
    annotations.remove(0);
    let obj = object(annotations);
    let d = decide(&obj, &CirrusEnvironment::default());
    assert!(matches!(d, Ok(Decision::AwaitChange)));
    assert!(matches!(action_for(&Decision::AwaitChange), Action::AwaitChange));
}

#[test]
fn enabled_value_must_be_exactly_true() {
    let mut annotations = enabled_annotations();
    annotations[0].1 = s("True");
    assert!(!is_enabled(&annotations));
    let obj = object(annotations);
    assert!(matches!(decide(&obj, &CirrusEnvironment::default()), Ok(Decision::AwaitChange)));
}

#[test]
fn up_to_date_object_is_skipped() {
    let env = desired_env();
    let mut obj = object(enabled_annotations());
    obj.finalizers = vec![s(FINALIZER)];
    obj.sidecar_env = Some(env.env_vars());
    let d = decide(&obj, &CirrusEnvironment::default());
    assert!(matches!(d, Ok(Decision::Skip)));
    assert!(matches!(action_for(&Decision::Skip), Action::Requeue(300)));
}

#[test]
fn reconciling_twice_after_apply_skips_both_times() {
    let defaults = CirrusEnvironment::default();
    let mut obj = object(enabled_annotations());
    let env = match decide(&obj, &defaults) {
        Ok(Decision::Apply(env)) => env,
        _ => panic!("expected an apply"),
    };
    obj.finalizers = add_finalizer(&obj.finalizers);
    obj.sidecar_env = Some(build_sidecar(&env).env);
    assert!(matches!(decide(&obj, &defaults), Ok(Decision::Skip)));
    assert!(matches!(decide(&obj, &defaults), Ok(Decision::Skip)));
}

#[test]
fn drifted_environment_is_patched_again() {
    let env = desired_env();
    let mut obj = object(enabled_annotations());
    obj.finalizers = vec![s(FINALIZER)];
    let mut vars = env.env_vars();
    vars[0].1 = s("changed");
    obj.sidecar_env = Some(vars);
    assert!(matches!(decide(&obj, &CirrusEnvironment::default()), Ok(Decision::Apply(_))));
}

#[test]
fn matching_sidecar_without_finalizer_is_patched() {
    let env = desired_env();
    let mut obj = object(enabled_annotations());
    obj.sidecar_env = Some(env.env_vars());
    assert!(matches!(decide(&obj, &CirrusEnvironment::default()), Ok(Decision::Apply(_))));
}

#[test]
fn deleting_object_with_finalizer_is_cleaned_up() {
    let mut obj = object(enabled_annotations());
    obj.finalizers = vec![s("other"), s(FINALIZER)];
    obj.deleting = true;
    assert!(matches!(decide(&obj, &CirrusEnvironment::default()), Ok(Decision::Cleanup)));
    let after = after_cleanup(&obj.finalizers, &Ok(()));
    assert_eq!(after, vec![s("other")]);
    assert!(matches!(action_for(&Decision::Cleanup), Action::AwaitChange));
}

#[test]
fn deletion_wins_over_stale_patch() {
    let mut annotations = enabled_annotations();
    annotations.push(pair("nimbus.mozilla.org/env.channel", "beta"));
    let mut obj = object(annotations);
    obj.finalizers = vec![s(FINALIZER)];
    obj.sidecar_env = Some(vec![pair("APP_ID", "old")]);
    obj.deleting = true;
    assert!(matches!(decide(&obj, &CirrusEnvironment::default()), Ok(Decision::Cleanup)));
}

#[test]
fn deletion_wins_over_invalid_configuration() {
    let mut obj = object(vec![pair("nimbus.mozilla.org/enabled", "true")]);
    obj.finalizers = vec![s(FINALIZER)];
    obj.deleting = true;
    assert!(matches!(decide(&obj, &CirrusEnvironment::default()), Ok(Decision::Cleanup)));
}

#[test]
fn deleting_object_without_finalizer_awaits_change() {
    let mut obj = object(enabled_annotations());
    obj.deleting = true;
    assert!(matches!(decide(&obj, &CirrusEnvironment::default()), Ok(Decision::AwaitChange)));
}

#[test]
fn failed_cleanup_keeps_finalizer_until_success() {
    let fins = vec![s(FINALIZER)];
    let failed = after_cleanup(&fins, &Err(Error::KubeError(s("store unavailable"))));
    assert!(has_finalizer(&failed));
    let done = after_cleanup(&failed, &Ok(()));
    assert!(!has_finalizer(&done));
    assert!(done.is_empty());
}

#[test]
fn finalizer_add_and_remove_keep_others() {
    let fins = vec![s("a"), s(FINALIZER), s("b")];
    assert_eq!(add_finalizer(&fins), fins);
    assert_eq!(remove_finalizer(&fins), vec![s("a"), s("b")]);
    assert_eq!(add_finalizer(&vec![s("a")]), vec![s("a"), s(FINALIZER)]);
}

#[test]
fn config_keys_from_annotations() {
    assert_eq!(config_key("nimbus.mozilla.org/env.app.id"), Some(s("APP_ID")));
    assert_eq!(
        config_key("nimbus.mozilla.org/env.remote.setting.refresh.rate.in.seconds"),
        Some(s("REMOTE_SETTING_REFRESH_RATE_IN_SECONDS"))
    );
    assert_eq!(config_key("nimbus.mozilla.org/enabled"), None);
    assert_eq!(config_key("other.org/env.app.id"), None);
    assert_eq!(config_key("nimbus.mozilla.org/env."), Some(s("")));
}

#[test]
fn annotation_overrides_a_default() {
    let mut annotations = enabled_annotations();
    annotations.push(pair("nimbus.mozilla.org/env.cirrus.fml.path", "/other.yaml"));
    annotations.push(pair("unrelated/env.app.id", "999"));
    let env = create_env(&annotations, "web", &CirrusEnvironment::default()).ok().unwrap();
    assert_eq!(lookup(&env, CIRRUS_FML_PATH), Some(s("/other.yaml")));
    assert_eq!(lookup(&env, APP_ID), Some(s("123")));
}

#[test]
fn set_returns_previous_value() {
    let mut env = CirrusEnvironment::empty();
    assert_eq!(env.set(s("B"), s("1")), None);
    assert_eq!(env.set(s("A"), s("2")), None);
    assert_eq!(env.set(s("B"), s("3")), Some(s("1")));
    assert_eq!(env.env_vars(), vec![pair("A", "2"), pair("B", "3")]);
    assert_eq!(lookup(&env, "C"), None);
}

#[test]
fn validate_on_defaults_reports_app_id_first() {
    let env = CirrusEnvironment::default();
    let msg = config_message(env.validate("svc").err().unwrap());
    assert!(msg.starts_with("APP_ID "));
    assert!(msg.ends_with("deployment svc."));
    assert!(env.check_var_not_empty(REMOTE_SETTING_URL, "svc").is_ok());
}

#[test]
fn build_is_deterministic_and_sorted() {
    let mut a = CirrusEnvironment::empty();
    a.set(s("CHANNEL"), s("release"));
    a.set(s("APP_ID"), s("1"));
    let mut b = CirrusEnvironment::empty();
    b.set(s("APP_ID"), s("1"));
    b.set(s("CHANNEL"), s("release"));
    assert!(same_config(&a, &b));
    assert!(a == b);
    assert!(a != CirrusEnvironment::empty());
    let sa = build_sidecar(&a);
    let sb = build_sidecar(&b);
    assert_eq!(sa.env, sb.env);
    assert_eq!(sa.env, vec![pair("APP_ID", "1"), pair("CHANNEL", "release")]);
    assert_eq!(sa.name, "cirrus");
    assert_eq!(sa.container_port, 8001);
    assert_eq!(sa.size_limit, "2Mi");
}

#[test]
fn process_defaults_seed_the_configuration() {
    let env = CirrusEnvironment::with_defaults(s("u"), s("30"), s("7"), s("n"), s("c"), s("/f"));
    assert!(env.validate("x").is_ok());
    assert_eq!(env.env_vars().len(), 6);
    assert_eq!(lookup(&env, REMOTE_SETTING_REFRESH_RATE_IN_SECONDS), Some(s("30")));
}

#[test]
fn error_message_names_kind_and_detail() {
    assert_eq!(Error::KubeError(s("boom")).message(), "Kube Error: boom");
    assert_eq!(
        Error::InvalidConfigurationError(s("x")).message(),
        "Invalid configuration: x"
    );
    assert_eq!(Error::EventPublishError(s("e")).message(), "Event Error: e");
}
