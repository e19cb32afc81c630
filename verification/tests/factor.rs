//! Resolution and validation through the variables layer, as a component
//! host would configure it.

use outbound_policy::errors::ProviderError;
use outbound_policy::key::Key;
use outbound_policy::provider::{Provider, ProviderVariableKind};
use outbound_policy::resolver::{ProviderResolver, Variable, VariablesValidatorHook};

#[derive(Debug)]
struct MockProvider;

impl Provider for MockProvider {
    fn get(&self, key: &Key) -> Result<Option<String>, ProviderError> {
        match key.as_str() {
            "foo" => Ok(Some("bar".to_string())),
            _ => Ok(None),
        }
    }

    fn kind(&self) -> ProviderVariableKind {
        ProviderVariableKind::Static
    }
}

#[derive(Debug)]
struct DynamicMockProvider;

impl Provider for DynamicMockProvider {
    fn get(&self, _key: &Key) -> Result<Option<String>, ProviderError> {
        Ok(None)
    }

    fn kind(&self) -> ProviderVariableKind {
        ProviderVariableKind::Dynamic
    }
}

fn required(name: &str) -> (String, Variable) {
    (name.to_string(), Variable { default: None, secret: false })
}

fn with_default(name: &str, default: &str) -> (String, Variable) {
    (
        name.to_string(),
        Variable { default: Some(default.to_string()), secret: false },
    )
}

#[test]
fn provider_works() {
    let mut resolver =
        ProviderResolver::<MockProvider>::new(vec![required("foo")]).expect("valid declarations");
    resolver.add_provider(MockProvider);

    let val = resolver.resolve_template("<{{ foo }}>").expect("template resolves");
    assert_eq!(val, "<bar>");
}

#[test]
fn validate_variable_existence_successful() {
    let mut resolver =
        ProviderResolver::<MockProvider>::new(vec![required("foo")]).expect("valid declarations");
    resolver.add_provider(MockProvider);

    resolver.validate_variable_existence().expect("validation succeeds");
}

#[test]
fn validate_variable_existence_successful_with_default_value() {
    let mut resolver = ProviderResolver::<MockProvider>::new(vec![with_default("baz", "var")])
        .expect("valid declarations");
    resolver.add_provider(MockProvider);

    resolver.validate_variable_existence().expect("validation succeeds");
}

#[test]
fn validate_variable_existence_successful_with_dynamic_provider() {
    let mut resolver = ProviderResolver::<DynamicMockProvider>::new(vec![required("baz")])
        .expect("valid declarations");
    resolver.add_provider(DynamicMockProvider);

    resolver.validate_variable_existence().expect("validation succeeds");
}

#[test]
fn validate_variable_existence_fails() {
    let mut resolver =
        ProviderResolver::<MockProvider>::new(vec![required("baz")]).expect("valid declarations");
    resolver.add_provider(MockProvider);

    assert!(resolver.validate_variable_existence().is_err());
}

#[test]
fn validator_hook_reports_each_missing_variable() {
    let mut resolver =
        ProviderResolver::<MockProvider>::new(vec![required("aa"), required("foo"), required("bb")])
            .expect("valid declarations");
    resolver.add_provider(MockProvider);

    let err = VariablesValidatorHook
        .configure_app(&resolver)
        .expect_err("two variables are unresolvable");
    match err {
        outbound_policy::errors::ValidationError::Missing(names) => {
            assert_eq!(names, vec!["aa".to_string(), "bb".to_string()]);
        }
        other => panic!("unexpected validation outcome: {:?}", other),
    }
}

#[test]
fn validator_hook_accepts_covered_variables() {
    let mut resolver = ProviderResolver::<MockProvider>::new(vec![required("foo")])
        .expect("valid declarations");
    resolver.add_provider(MockProvider);

    VariablesValidatorHook
        .configure_app(&resolver)
        .expect("every variable is covered");
}
