use cellguard::json::JsonValue;
use cellguard::prompt::error::PromptError;
use cellguard::prompt::kernel::PromptKernelAdapter;
use cellguard::prompt::registry::TemplateRegistry;
use cellguard::prompt::template::{PromptTemplate, TemplateVariable, VariableType};
use cellguard::prompt::version::compare_versions;
use cellguard::strmap::StrMap;
use std::cmp::Ordering;

fn text(s: &str) -> JsonValue {
    JsonValue::String(s.to_string())
}

fn values(pairs: Vec<(&str, JsonValue)>) -> StrMap<JsonValue> {
    let mut m = StrMap::new();
    for (k, v) in pairs {
        m.insert(k.to_string(), v);
    }
    m
}

#[test]
fn test_template_render_simple() {
    let template = PromptTemplate::new("greeting", "Hello, {{name}}! Welcome to {{place}}.")
        .with_variable(TemplateVariable::new("name", VariableType::String))
        .with_variable(TemplateVariable::new("place", VariableType::String));
    let vals = values(vec![("name", text("Alice")), ("place", text("Wonderland"))]);
    let result = template.render(&vals).unwrap();
    assert_eq!(result, "Hello, Alice! Welcome to Wonderland.");
}

#[test]
fn test_template_missing_variable() {
    let template = PromptTemplate::new("test", "Hello, {{name}}!")
        .with_variable(TemplateVariable::new("name", VariableType::String));
    let vals = StrMap::new();
    let result = template.render(&vals);
    assert!(result.is_err());
    assert!(matches!(result.unwrap_err(), PromptError::MissingVariable(_)));
}

#[test]
fn test_template_default_value() {
    let template = PromptTemplate::new("greeting", "Hello, {{name}}!").with_variable(
        TemplateVariable::new("name", VariableType::String).with_default(text("World")),
    );
    let vals = StrMap::new();
    let result = template.render(&vals).unwrap();
    assert_eq!(result, "Hello, World!");
}

#[test]
fn test_template_type_validation() {
    let template = PromptTemplate::new("test", "Count: {{count}}")
        .with_variable(TemplateVariable::new("count", VariableType::Number));
    let vals = values(vec![("count", text("not a number"))]);
    let result = template.render(&vals);
    assert!(result.is_err());
    assert!(matches!(result.unwrap_err(), PromptError::InvalidType(_)));
}

#[test]
fn test_template_number_variable() {
    let template = PromptTemplate::new("math", "Result: {{value}}")
        .with_variable(TemplateVariable::new("value", VariableType::Number));
    let vals = values(vec![("value", JsonValue::Number("42".to_string()))]);
    let result = template.render(&vals).unwrap();
    assert_eq!(result, "Result: 42");
}

#[test]
fn test_template_boolean_variable() {
    let template = PromptTemplate::new("flag", "Enabled: {{enabled}}")
        .with_variable(TemplateVariable::new("enabled", VariableType::Boolean));
    let vals = values(vec![("enabled", JsonValue::Bool(true))]);
    let result = template.render(&vals).unwrap();
    assert_eq!(result, "Enabled: true");
}

#[test]
fn test_template_list_variable() {
    let template = PromptTemplate::new("items", "Items: {{items}}")
        .with_variable(TemplateVariable::new("items", VariableType::List));
    let vals = values(vec![("items", JsonValue::Array(vec![text("a"), text("b"), text("c")]))]);
    let result = template.render(&vals).unwrap();
    assert_eq!(result, "Items: a, b, c");
}

#[test]
fn test_variable_names() {
    let template = PromptTemplate::new("test", "{{a}} {{b}} {{c}}")
        .with_variable(TemplateVariable::new("a", VariableType::String))
        .with_variable(TemplateVariable::new("b", VariableType::String))
        .with_variable(TemplateVariable::new("c", VariableType::String).optional());
    let names = template.variable_names();
    assert_eq!(names.len(), 3);
    assert!(names.contains(&"a"));
    assert!(names.contains(&"b"));
    assert!(names.contains(&"c"));
}

#[test]
fn test_required_and_optional_variables() {
    let template = PromptTemplate::new("test", "{{a}} {{b}}")
        .with_variable(TemplateVariable::new("a", VariableType::String))
        .with_variable(TemplateVariable::new("b", VariableType::String).optional());
    assert_eq!(template.required_variables().len(), 1);
    assert_eq!(template.optional_variables().len(), 1);
}

#[test]
fn test_template_composition() {
    let system = PromptTemplate::new(
        "system",
        "You are a helpful assistant.\n{%body%}\nEnd instructions.",
    )
    .with_section("body");
    let body = PromptTemplate::new("body", "Task: {{task}}")
        .with_variable(TemplateVariable::new("task", VariableType::String));
    let composed = system.compose(&body, "body").unwrap();
    let vals = values(vec![("task", text("write code"))]);
    let result = composed.render(&vals).unwrap();
    assert_eq!(result, "You are a helpful assistant.\nTask: write code\nEnd instructions.");
}

#[test]
fn test_template_composition_missing_section() {
    let system = PromptTemplate::new("system", "No section here.");
    let body = PromptTemplate::new("body", "Body content");
    let result = system.compose(&body, "body");
    assert!(result.is_err());
}

#[test]
fn test_registry_register_and_get() {
    let mut registry = TemplateRegistry::new();
    let template = PromptTemplate::new("greeting", "Hello, {{name}}!")
        .with_variable(TemplateVariable::new("name", VariableType::String));
    registry.register(template).unwrap();
    assert!(registry.has_template("greeting"));
    assert!(registry.get_latest("greeting").is_some());
}

#[test]
fn test_registry_version_management() {
    let mut registry = TemplateRegistry::new();
    let v1 = PromptTemplate::new("greeting", "Hello, {{name}}!")
        .with_version("1.0.0")
        .with_variable(TemplateVariable::new("name", VariableType::String));
    let v2 = PromptTemplate::new("greeting", "Hi, {{name}}!")
        .with_version("2.0.0")
        .with_variable(TemplateVariable::new("name", VariableType::String));
    registry.register(v1).unwrap();
    registry.register(v2).unwrap();
    assert_eq!(registry.list_versions("greeting").len(), 2);
    let latest = registry.get_latest("greeting").unwrap();
    assert_eq!(latest.version, "2.0.0");
    let v1_template = registry.get_version("greeting", "1.0.0").unwrap();
    assert_eq!(v1_template.version, "1.0.0");
}

#[test]
fn test_registry_version_conflict() {
    let mut registry = TemplateRegistry::new();
    let t1 = PromptTemplate::new("test", "Template v1").with_version("1.0.0");
    let t2 = PromptTemplate::new("test", "Template v1 again").with_version("1.0.0");
    registry.register(t1).unwrap();
    let result = registry.register(t2);
    assert!(result.is_err());
    assert!(matches!(result.unwrap_err(), PromptError::VersionConflict(_)));
}

#[test]
fn test_registry_render() {
    let mut registry = TemplateRegistry::new();
    let template = PromptTemplate::new("greeting", "Hello, {{name}}!")
        .with_variable(TemplateVariable::new("name", VariableType::String));
    registry.register(template).unwrap();
    let vals = values(vec![("name", text("Bob"))]);
    let result = registry.render_latest("greeting", &vals).unwrap();
    assert_eq!(result, "Hello, Bob!");
}

#[test]
fn test_registry_not_found() {
    let registry = TemplateRegistry::new();
    let vals = StrMap::new();
    let result = registry.render_latest("nonexistent", &vals);
    assert!(result.is_err());
    assert!(matches!(result.unwrap_err(), PromptError::NotFound(_)));
}

#[test]
fn test_template_with_description() {
    let template = PromptTemplate::new("test", "content").with_description("A test template");
    assert_eq!(template.description.as_deref(), Some("A test template"));
}

#[test]
fn test_variable_with_description() {
    let var = TemplateVariable::new("name", VariableType::String).with_description("The user's name");
    assert_eq!(var.description.as_deref(), Some("The user's name"));
}

#[test]
fn test_registry_counts() {
    let mut registry = TemplateRegistry::new();
    assert_eq!(registry.template_count(), 0);
    assert_eq!(registry.total_versions(), 0);
    registry.register(PromptTemplate::new("a", "A").with_version("1.0.0")).unwrap();
    registry.register(PromptTemplate::new("a", "A2").with_version("2.0.0")).unwrap();
    registry.register(PromptTemplate::new("b", "B").with_version("1.0.0")).unwrap();
    assert_eq!(registry.template_count(), 2);
    assert_eq!(registry.total_versions(), 3);
}

#[test]
fn test_registry_remove() {
    let mut registry = TemplateRegistry::new();
    registry.register(PromptTemplate::new("test", "Test").with_version("1.0.0")).unwrap();
    assert!(registry.has_template("test"));
    assert!(registry.remove("test"));
    assert!(!registry.has_template("test"));
    assert!(!registry.remove("test"));
}

#[test]
fn test_registry_remove_version() {
    let mut registry = TemplateRegistry::new();
    registry.register(PromptTemplate::new("test", "v1").with_version("1.0.0")).unwrap();
    registry.register(PromptTemplate::new("test", "v2").with_version("2.0.0")).unwrap();
    assert!(registry.has_version("test", "1.0.0"));
    assert!(registry.remove_version("test", "1.0.0"));
    assert!(!registry.has_version("test", "1.0.0"));
    assert!(registry.has_version("test", "2.0.0"));
}

#[test]
fn test_variable_type_strings() {
    assert_eq!(VariableType::String.as_str(), "string");
    assert_eq!(VariableType::Number.as_str(), "number");
    assert_eq!(VariableType::Boolean.as_str(), "boolean");
    assert_eq!(VariableType::List.as_str(), "list");
    assert_eq!(VariableType::Object.as_str(), "object");
}

#[test]
fn test_render_with_defaults() {
    let template = PromptTemplate::new("greeting", "Hello, {{name}}!").with_variable(
        TemplateVariable::new("name", VariableType::String).with_default(text("World")),
    );
    let result = template.render_with_defaults().unwrap();
    assert_eq!(result, "Hello, World!");
}

#[test]
fn adapter_wraps_registry() {
    let registry = TemplateRegistry::new();
    let adapter = PromptKernelAdapter::new(registry);
    assert!(adapter.registry().list_templates().is_empty());
}

// Laws and edge cases on concrete values.

#[test]
fn compare_versions_orders_numerically() {
    assert_eq!(compare_versions("1.10.0", "1.9.0"), Ordering::Greater);
    assert_eq!(compare_versions("1.0", "1.0.0"), Ordering::Equal);
    assert_eq!(compare_versions("1.0.0", "1.0.1"), Ordering::Less);
    assert_eq!(compare_versions("x.1", "0.1"), Ordering::Equal);
    assert_eq!(compare_versions("2", "10"), Ordering::Less);
}

#[test]
fn compare_versions_is_antisymmetric_on_samples() {
    let samples = ["1.0.0", "1.2", "0.9.9", "abc", "1.0.1", "10"];
    for a in samples.iter() {
        assert_eq!(compare_versions(a, a), Ordering::Equal);
        for b in samples.iter() {
            assert_eq!(compare_versions(a, b), compare_versions(b, a).reverse());
        }
    }
}

#[test]
fn registry_latest_is_highest_version() {
    let mut registry = TemplateRegistry::new();
    registry.register(PromptTemplate::new("t", "a").with_version("1.9.0")).unwrap();
    registry.register(PromptTemplate::new("t", "b").with_version("1.10.0")).unwrap();
    registry.register(PromptTemplate::new("t", "c").with_version("1.2.0")).unwrap();
    assert_eq!(registry.get_latest("t").unwrap().version, "1.10.0");
    assert_eq!(registry.list_versions("t"), vec!["1.10.0", "1.9.0", "1.2.0"]);
}

#[test]
fn registry_conflict_keeps_first_registration() {
    let mut registry = TemplateRegistry::new();
    registry.register(PromptTemplate::new("t", "first").with_version("1.0.0")).unwrap();
    let err = registry.register(PromptTemplate::new("t", "second").with_version("1.0.0")).unwrap_err();
    assert_eq!(err.message(), "version conflict: template 't' version '1.0.0' already exists");
    assert_eq!(registry.get_version("t", "1.0.0").unwrap().template, "first");
}

#[test]
fn registry_lists_names_sorted() {
    let mut registry = TemplateRegistry::new();
    registry.register(PromptTemplate::new("zeta", "z")).unwrap();
    registry.register(PromptTemplate::new("alpha", "a")).unwrap();
    registry.register(PromptTemplate::new("mid", "m")).unwrap();
    assert_eq!(registry.list_templates(), vec!["alpha", "mid", "zeta"]);
}

#[test]
fn registry_name_stays_after_last_version_removed() {
    let mut registry = TemplateRegistry::new();
    registry.register(PromptTemplate::new("t", "x").with_version("1.0.0")).unwrap();
    assert!(registry.remove_version("t", "1.0.0"));
    assert!(registry.has_template("t"));
    assert!(registry.get_latest("t").is_none());
    assert!(!registry.remove_version("t", "1.0.0"));
    assert!(!registry.remove_version("missing", "1.0.0"));
}

#[test]
fn registry_render_unknown_version_is_not_found() {
    let mut registry = TemplateRegistry::new();
    registry.register(PromptTemplate::new("t", "x").with_version("1.0.0")).unwrap();
    let vals = StrMap::new();
    let err = registry.render("t", Some("9.9.9"), &vals).unwrap_err();
    assert_eq!(err.message(), "template not found: t");
}

#[test]
fn render_object_and_null_values() {
    let template = PromptTemplate::new("o", "[{{obj}}][{{items}}]")
        .with_variable(TemplateVariable::new("obj", VariableType::Object))
        .with_variable(TemplateVariable::new("items", VariableType::List));
    let obj = JsonValue::Object(vec![
        ("a".to_string(), JsonValue::Number("1".to_string())),
        ("b".to_string(), text("x")),
    ]);
    let items = JsonValue::Array(vec![JsonValue::Number("1".to_string()), JsonValue::Null, text("x")]);
    let vals = values(vec![("obj", obj), ("items", items)]);
    assert_eq!(template.render(&vals).unwrap(), "[a: 1\nb: x][1, , x]");
}

#[test]
fn null_value_is_invalid_for_string_variable() {
    let template = PromptTemplate::new("t", "{{s}}")
        .with_variable(TemplateVariable::new("s", VariableType::String).optional());
    let vals = values(vec![("s", JsonValue::Null)]);
    let err = template.render(&vals).unwrap_err();
    assert_eq!(err.message(), "invalid variable type: variable 's' expected type string, got null");
}

#[test]
fn render_missing_variable_message() {
    let template = PromptTemplate::new("t", "{{who}}")
        .with_variable(TemplateVariable::new("who", VariableType::String));
    let err = template.render(&StrMap::new()).unwrap_err();
    assert_eq!(err.message(), "missing variable: who");
}

#[test]
fn render_invalid_type_message() {
    let template = PromptTemplate::new("t", "{{n}}")
        .with_variable(TemplateVariable::new("n", VariableType::Number));
    let vals = values(vec![("n", JsonValue::Bool(false))]);
    let err = template.render(&vals).unwrap_err();
    assert!(matches!(err, PromptError::InvalidType(_)));
}

#[test]
fn compose_missing_section_message() {
    let system = PromptTemplate::new("system", "No section here.");
    let body = PromptTemplate::new("body", "Body content");
    let err = system.compose(&body, "body").unwrap_err();
    assert_eq!(err.message(), "render error: section 'body' not found in template 'system'");
}

#[test]
fn registry_list_versions_has_each_version_once() {
    let mut registry = TemplateRegistry::new();
    registry.register(PromptTemplate::new("t", "a").with_version("2.0.0")).unwrap();
    registry.register(PromptTemplate::new("t", "b").with_version("1.0.0")).unwrap();
    assert!(registry.register(PromptTemplate::new("t", "c").with_version("2.0.0")).is_err());
    assert_eq!(registry.list_versions("t"), vec!["2.0.0", "1.0.0"]);
    assert!(registry.list_versions("unknown").is_empty());
}
