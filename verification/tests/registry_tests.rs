use pleme_providers::text::compare_text;
use pleme_providers::ProviderRegistry;
use std::sync::Arc;

struct TestProvider {
    id: String,
    name: String,
}

impl TestProvider {
    fn provider_id(&self) -> &str {
        &self.id
    }

    fn provider_name(&self) -> &str {
        &self.name
    }
}

fn register(registry: &mut ProviderRegistry<TestProvider>, provider: Arc<TestProvider>) {
    let id = provider.provider_id().to_string();
    registry.register(&id, provider);
}

#[test]
fn test_registry_registration() {
    let mut registry = ProviderRegistry::new();
    assert!(registry.is_empty());

    let provider = Arc::new(TestProvider {
        id: "test-provider".to_string(),
        name: "Test Provider".to_string(),
    });

    register(&mut registry, provider);
    assert_eq!(registry.len(), 1);
    assert!(!registry.is_empty());
}

#[test]
fn test_registry_get() {
    let mut registry = ProviderRegistry::new();

    let provider = Arc::new(TestProvider {
        id: "test-provider".to_string(),
        name: "Test Provider".to_string(),
    });

    register(&mut registry, provider);

    let retrieved = registry.get("test-provider");
    assert!(retrieved.is_some());
    assert_eq!(retrieved.unwrap().provider_id(), "test-provider");

    let not_found = registry.get("non-existent");
    assert!(not_found.is_none());
}

#[test]
fn test_registry_provider_ids() {
    let mut registry = ProviderRegistry::new();

    register(&mut registry, Arc::new(TestProvider {
        id: "provider-a".to_string(),
        name: "Provider A".to_string(),
    }));

    register(&mut registry, Arc::new(TestProvider {
        id: "provider-b".to_string(),
        name: "Provider B".to_string(),
    }));

    let ids = registry.provider_ids();
    assert_eq!(ids, vec!["provider-a", "provider-b"]);
}

#[test]
fn test_registry_contains() {
    let mut registry = ProviderRegistry::new();

    let provider = Arc::new(TestProvider {
        id: "test-provider".to_string(),
        name: "Test Provider".to_string(),
    });

    register(&mut registry, provider);

    assert!(registry.contains("test-provider"));
    assert!(!registry.contains("non-existent"));
}

#[test]
fn test_registry_remove() {
    let mut registry = ProviderRegistry::new();

    let provider = Arc::new(TestProvider {
        id: "test-provider".to_string(),
        name: "Test Provider".to_string(),
    });

    register(&mut registry, provider);
    assert_eq!(registry.len(), 1);

    let removed = registry.remove("test-provider");
    assert!(removed.is_some());
    assert_eq!(registry.len(), 0);

    let not_found = registry.remove("non-existent");
    assert!(not_found.is_none());
}

fn provider(id: &str, name: &str) -> Arc<TestProvider> {
    Arc::new(TestProvider { id: id.to_string(), name: name.to_string() })
}

#[test]
fn registering_an_existing_id_replaces_the_provider() {
    let mut registry = ProviderRegistry::new();
    register(&mut registry, provider("stripe", "Old"));
    register(&mut registry, provider("stripe", "New"));
    assert_eq!(registry.len(), 1);
    assert_eq!(registry.get("stripe").unwrap().provider_name(), "New");
}

#[test]
fn get_returns_the_registered_allocation() {
    let mut registry = ProviderRegistry::new();
    let p = provider("fedex", "FedEx");
    register(&mut registry, p.clone());
    let got = registry.get("fedex").unwrap();
    assert!(Arc::ptr_eq(&got, &p));
    let all = registry.all_providers();
    assert!(Arc::ptr_eq(&all[0], &p));
}

#[test]
fn registering_keeps_other_providers() {
    let mut registry = ProviderRegistry::new();
    register(&mut registry, provider("dhl", "DHL"));
    register(&mut registry, provider("correios", "Correios"));
    assert_eq!(registry.get("dhl").unwrap().provider_name(), "DHL");
    assert_eq!(registry.get("correios").unwrap().provider_name(), "Correios");
}

#[test]
fn remove_then_get_finds_nothing_and_keeps_others() {
    let mut registry = ProviderRegistry::new();
    register(&mut registry, provider("ses", "SES"));
    register(&mut registry, provider("sendgrid", "SendGrid"));
    let removed = registry.remove("ses").unwrap();
    assert_eq!(removed.provider_name(), "SES");
    assert!(registry.get("ses").is_none());
    assert!(!registry.contains("ses"));
    assert_eq!(registry.get("sendgrid").unwrap().provider_name(), "SendGrid");
    assert_eq!(registry.len(), 1);
}

#[test]
fn remove_undoes_register_of_a_new_id() {
    let mut registry = ProviderRegistry::new();
    register(&mut registry, provider("a", "A"));
    register(&mut registry, provider("b", "B"));
    assert!(registry.remove("b").is_some());
    assert_eq!(registry.provider_ids(), vec!["a"]);
    assert_eq!(registry.len(), 1);
}

#[test]
fn ids_and_providers_come_out_sorted() {
    let mut registry = ProviderRegistry::new();
    for id in ["twilio", "vonage", "alibaba", "cj_dropshipping", "eprolo", "Zeta", "a", ""] {
        register(&mut registry, provider(id, id));
    }
    let ids = registry.provider_ids();
    assert_eq!(
        ids,
        vec!["", "Zeta", "a", "alibaba", "cj_dropshipping", "eprolo", "twilio", "vonage"]
    );
    let names: Vec<String> =
        registry.all_providers().iter().map(|p| p.provider_name().to_string()).collect();
    assert_eq!(names, ids);
}

#[test]
fn ids_sort_by_code_point() {
    let mut registry = ProviderRegistry::new();
    for id in ["é", "z", "pix", "pi", "mercado-pago", "paypal"] {
        register(&mut registry, provider(id, id));
    }
    let mut expected: Vec<String> = ["é", "z", "pix", "pi", "mercado-pago", "paypal"]
        .iter()
        .map(|s| s.to_string())
        .collect();
    expected.sort();
    assert_eq!(registry.provider_ids(), expected);
}

#[test]
fn default_registry_is_empty() {
    let registry: ProviderRegistry<TestProvider> = ProviderRegistry::default();
    assert!(registry.is_empty());
    assert_eq!(registry.len(), 0);
    assert!(registry.provider_ids().is_empty());
    assert!(registry.all_providers().is_empty());
}

trait Named {
    fn name(&self) -> String;
}

struct N(&'static str);

impl Named for N {
    fn name(&self) -> String {
        self.0.to_string()
    }
}

#[test]
fn registry_holds_trait_objects() {
    let mut registry: ProviderRegistry<dyn Named> = ProviderRegistry::new();
    registry.register("n", Arc::new(N("x")));
    assert_eq!(registry.get("n").unwrap().name(), "x");
}

#[test]
fn text_comparison_is_lexicographic() {
    assert_eq!(compare_text("a", "b"), -1);
    assert_eq!(compare_text("b", "a"), 1);
    assert_eq!(compare_text("abc", "abc"), 0);
    assert_eq!(compare_text("ab", "abc"), -1);
    assert_eq!(compare_text("abc", "ab"), 1);
    assert_eq!(compare_text("", ""), 0);
    assert_eq!(compare_text("Z", "a"), -1);
    assert_eq!(compare_text("é", "z"), 1);
}
