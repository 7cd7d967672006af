use terraform_settings_mapper::json::JsonValue;
use terraform_settings_mapper::state::{
    default_managed, extract_id, extract_sensitive_top_keys, parse_provider, parse_state,
    ResourceInstance, StateFile, StateInstance, StateResource,
};

fn s(t: &str) -> JsonValue {
    JsonValue::Str(t.to_string())
}

fn obj(entries: Vec<(&str, JsonValue)>) -> JsonValue {
    JsonValue::Object(entries.into_iter().map(|(k, v)| (k.to_string(), v)).collect())
}

fn resource(module: Option<&str>, instances: Vec<StateInstance>) -> StateResource {
    StateResource {
        mode: "managed".to_string(),
        resource_type: "aws_instance".to_string(),
        name: "web".to_string(),
        module: module.map(str::to_string),
        provider: "provider[\"registry.terraform.io/hashicorp/aws\"]".to_string(),
        instances,
    }
}

fn instance(index_key: Option<JsonValue>, attributes: Option<JsonValue>, sensitive: Vec<JsonValue>) -> StateInstance {
    StateInstance { index_key, attributes, sensitive_attributes: sensitive }
}

#[test]
fn provider_from_terraform_registry() {
    let (source, local) = parse_provider("provider[\"registry.terraform.io/hashicorp/aws\"]");
    assert_eq!(source, "hashicorp/aws");
    assert_eq!(local, "aws");
}

#[test]
fn provider_from_opentofu_registry() {
    let (source, local) = parse_provider("provider[\"registry.opentofu.org/hashicorp/aws\"]");
    assert_eq!(source, "hashicorp/aws");
    assert_eq!(local, "aws");
}

#[test]
fn provider_from_other_host_keeps_host() {
    let (source, local) = parse_provider("provider[\"example.com/acme/widget\"]");
    assert_eq!(source, "example.com/acme/widget");
    assert_eq!(local, "widget");
}

#[test]
fn provider_without_wrapper_or_slash() {
    let (source, local) = parse_provider("aws");
    assert_eq!(source, "aws");
    assert_eq!(local, "aws");
    let (source, local) = parse_provider("provider[\"provider[\"registry.terraform.io/a/b\"]\"]");
    assert_eq!(source, "a/b");
    assert_eq!(local, "b");
    let (source, local) = parse_provider("ns/");
    assert_eq!(source, "ns/");
    assert_eq!(local, "");
}

#[test]
fn default_mode_is_managed() {
    assert_eq!(default_managed(), "managed");
}

#[test]
fn id_is_a_non_empty_string_attribute() {
    assert_eq!(extract_id(&obj(vec![("id", s("i-123"))])).as_deref(), Some("i-123"));
    assert_eq!(extract_id(&obj(vec![("id", s(""))])), None);
    assert_eq!(extract_id(&obj(vec![("id", JsonValue::Number("7".to_string()))])), None);
    assert_eq!(extract_id(&obj(vec![("name", s("x"))])), None);
    assert_eq!(extract_id(&s("id")), None);
}

#[test]
fn sensitive_keys_are_first_string_segments_once() {
    let paths = vec![
        JsonValue::Array(vec![s("password")]),
        JsonValue::Array(vec![s("config"), JsonValue::Number("0".to_string()), s("secret")]),
        JsonValue::Array(vec![s("password")]),
        JsonValue::Array(vec![JsonValue::Number("0".to_string()), s("x")]),
        JsonValue::Array(vec![]),
        s("loose"),
    ];
    let mut keys = extract_sensitive_top_keys(&paths);
    keys.sort();
    assert_eq!(keys, vec!["config".to_string(), "password".to_string()]);
}

#[test]
fn parse_state_extracts_every_instance_in_order() {
    let state = StateFile {
        resources: vec![
            resource(None, vec![
                instance(Some(JsonValue::Number("0".to_string())), Some(obj(vec![("id", s("i-0"))])), vec![]),
                instance(Some(s("prod")), None, vec![JsonValue::Array(vec![s("password")])]),
            ]),
            resource(Some("module.vpc"), vec![]),
            resource(Some("module.vpc"), vec![instance(None, Some(obj(vec![("id", s("")), ("x", s("y"))])), vec![])]),
        ],
    };
    let out: Vec<ResourceInstance> = parse_state(state);
    assert_eq!(out.len(), 3);

    assert_eq!(out[0].mode, "managed");
    assert_eq!(out[0].index.as_deref(), Some("0"));
    assert_eq!(out[0].resource_id.as_deref(), Some("i-0"));
    assert_eq!(out[0].provider_source, "hashicorp/aws");
    assert_eq!(out[0].provider_local_name, "aws");
    assert_eq!(out[0].module_prefix, None);
    assert_eq!(out[0].address(), "aws_instance.web[0]");

    assert_eq!(out[1].index.as_deref(), Some("\"prod\""));
    assert!(matches!(&out[1].attributes, JsonValue::Object(e) if e.is_empty()));
    assert_eq!(out[1].resource_id, None);
    assert_eq!(out[1].sensitive_top_keys, vec!["password".to_string()]);
    assert_eq!(out[1].address(), "aws_instance.web[\"prod\"]");

    assert_eq!(out[2].module_prefix.as_deref(), Some("module.vpc"));
    assert_eq!(out[2].index, None);
    assert_eq!(out[2].resource_id, None);
    assert_eq!(out[2].address(), "module.vpc.aws_instance.web");
}

#[test]
fn non_string_index_is_written_as_json() {
    let state = StateFile {
        resources: vec![resource(None, vec![
            instance(Some(JsonValue::Bool(true)), None, vec![]),
            instance(Some(JsonValue::Array(vec![s("a\"b")])), None, vec![]),
        ])],
    };
    let out = parse_state(state);
    assert_eq!(out[0].index.as_deref(), Some("true"));
    assert_eq!(out[1].index.as_deref(), Some("[\"a\\\"b\"]"));
    assert_eq!(out[1].address(), "aws_instance.web[[\"a\\\"b\"]]");
}

#[test]
fn string_index_is_quoted_without_escaping() {
    let state = StateFile {
        resources: vec![resource(Some("module.m"), vec![instance(Some(s("a\"b")), None, vec![])])],
    };
    let out = parse_state(state);
    assert_eq!(out[0].address(), "module.m.aws_instance.web[\"a\"b\"]");
}

#[test]
fn empty_state_has_no_instances() {
    assert!(parse_state(StateFile { resources: vec![] }).is_empty());
}

#[test]
fn address_of_module_instance_with_index() {
    let r = ResourceInstance {
        mode: "managed".to_string(),
        resource_type: "aws_instance".to_string(),
        name: "web".to_string(),
        module_prefix: Some("module.vpc".to_string()),
        index: Some("0".to_string()),
        provider_source: "hashicorp/aws".to_string(),
        provider_local_name: "aws".to_string(),
        resource_id: None,
        sensitive_top_keys: vec![],
        attributes: JsonValue::Object(vec![]),
    };
    assert_eq!(r.address(), "module.vpc.aws_instance.web[0]");
}

#[test]
fn resource_instances_clone() {
    let out = parse_state(StateFile {
        resources: vec![resource(None, vec![instance(Some(s("k")), Some(obj(vec![("id", s("i"))])), vec![])])],
    });
    let copy = out[0].clone();
    assert_eq!(copy.address(), out[0].address());
    assert_eq!(copy.resource_id.as_deref(), Some("i"));
}
