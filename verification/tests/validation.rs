//! Pre-flight validation against chains of static and dynamic providers.

use outbound_policy::errors::ProviderError;
use outbound_policy::key::Key;
use outbound_policy::provider::{Provider, ProviderVariableKind};
use outbound_policy::resolver::{ProviderResolver, Variable};

enum TestProvider {
    /// A static provider holding one key with an optional value.
    Static(String, Option<String>),
    /// A dynamic provider; validation must never ask it anything.
    Dynamic,
}

impl Provider for TestProvider {
    fn kind(&self) -> ProviderVariableKind {
        match self {
            TestProvider::Static(_, _) => ProviderVariableKind::Static,
            TestProvider::Dynamic => ProviderVariableKind::Dynamic,
        }
    }

    fn get(&self, key: &Key) -> Result<Option<String>, ProviderError> {
        match self {
            TestProvider::Static(k, v) => {
                if k == key.as_str() {
                    Ok(v.clone())
                } else {
                    Ok(None)
                }
            }
            TestProvider::Dynamic => {
                panic!("validation should never call get for a dynamic provider")
            }
        }
    }
}

struct ResolverTester {
    providers: Vec<TestProvider>,
    variables: Vec<(String, Variable)>,
}

impl ResolverTester {
    fn new() -> Self {
        ResolverTester { providers: Vec::new(), variables: Vec::new() }
    }

    fn with_dynamic_provider(mut self) -> Self {
        self.providers.push(TestProvider::Dynamic);
        self
    }

    fn with_static_provider(mut self, key: &str, value: Option<&str>) -> Self {
        self.providers
            .push(TestProvider::Static(key.to_string(), value.map(|v| v.to_string())));
        self
    }

    fn with_variable(mut self, (key, default): (&str, Option<&str>)) -> Self {
        self.variables.push((
            key.to_string(),
            Variable { default: default.map(|d| d.to_string()), secret: false },
        ));
        self
    }

    fn make_resolver(self) -> ProviderResolver<TestProvider> {
        let mut resolver = ProviderResolver::new(self.variables).expect("declarations are valid");
        for provider in self.providers {
            resolver.add_provider(provider);
        }
        resolver
    }
}

#[test]
fn single_static_provider_with_no_variable_provided_is_valid() {
    let resolver = ResolverTester::new()
        .with_static_provider("foo", Some("bar"))
        .make_resolver();

    resolver.validate_variable_existence().expect("validation succeeds");
}

#[test]
fn if_single_static_provider_has_variable_value_validation_succeeds() {
    let resolver = ResolverTester::new()
        .with_static_provider("foo", Some("bar"))
        .with_variable(("foo", None))
        .make_resolver();

    resolver.validate_variable_existence().expect("validation succeeds");
}

#[test]
fn if_there_is_a_single_static_provider_and_it_does_not_contain_a_required_variable_then_validation_fails(
) {
    let resolver = ResolverTester::new()
        .with_static_provider("foo", Some("bar"))
        .with_variable(("bar", None))
        .make_resolver();

    assert!(resolver.validate_variable_existence().is_err());
}

#[test]
fn if_there_is_a_dynamic_provider_then_validation_succeeds_even_if_a_static_provider_without_the_variable_is_in_play(
) {
    let resolver = ResolverTester::new()
        .with_dynamic_provider()
        .with_variable(("bar", None))
        .make_resolver();

    resolver.validate_variable_existence().expect("validation succeeds");
}

#[test]
fn if_there_is_a_dynamic_provider_and_a_static_provider_then_validation_succeeds_even_if_a_static_provider_without_the_variable_is_in_play(
) {
    let resolver = ResolverTester::new()
        .with_dynamic_provider()
        .with_static_provider("foo", Some("bar"))
        .with_variable(("baz", None))
        .make_resolver();

    resolver.validate_variable_existence().expect("validation succeeds");
}

#[test]
fn if_there_is_a_dynamic_provider_and_a_static_provider_then_validation_succeeds_even_if_a_static_provider_with_the_variable_is_in_play(
) {
    let resolver = ResolverTester::new()
        .with_dynamic_provider()
        .with_static_provider("foo", Some("bar"))
        .with_variable(("baz", Some("coo")))
        .make_resolver();

    resolver.validate_variable_existence().expect("validation succeeds");
}

#[test]
fn if_there_is_two_static_providers_where_one_has_data_is_valid() {
    let resolver = ResolverTester::new()
        .with_static_provider("foo", Some("bar"))
        .with_static_provider("baz", Some("hay"))
        .with_variable(("foo", None))
        .make_resolver();

    resolver.validate_variable_existence().expect("validation succeeds");
}

#[test]
fn if_there_is_two_static_providers_where_first_provider_does_not_have_data_while_second_provider_does(
) {
    let resolver = ResolverTester::new()
        .with_static_provider("foo", Some("bar"))
        .with_static_provider("baz", Some("hay"))
        .with_variable(("baz", None))
        .make_resolver();

    resolver.validate_variable_existence().expect("validation succeeds");
}

#[test]
fn if_there_is_two_static_providers_neither_having_data_is_invalid() {
    let resolver = ResolverTester::new()
        .with_static_provider("foo", Some("bar"))
        .with_static_provider("baz", Some("hay"))
        .with_variable(("hello", None))
        .make_resolver();

    assert!(resolver.validate_variable_existence().is_err());
}
