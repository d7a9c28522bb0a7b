use grok_provider::models::{AvailableModel, CatalogEntry, GrokSettings};

fn settings_with(models: Vec<AvailableModel>) -> GrokSettings {
    GrokSettings { api_url: String::new(), available_models: models }
}

fn override_entry(name: &str, display: &str, max_tokens: usize) -> AvailableModel {
    AvailableModel {
        name: name.to_string(),
        display_name: display.to_string(),
        max_tokens,
        max_output_tokens: Some(1024),
        max_completion_tokens: None,
    }
}

#[test]
fn builtin_catalog_has_eight_entries_in_key_order() {
    let entries: Vec<CatalogEntry> = settings_with(Vec::new()).catalog_entries();
    let keys: Vec<&str> = entries.iter().map(|e| e.key.as_str()).collect();
    assert_eq!(
        keys,
        vec![
            "grok-2-latest",
            "grok-2-vision-latest",
            "grok-3-fast-latest",
            "grok-3-latest",
            "grok-3-mini-fast-latest",
            "grok-3-mini-latest",
            "grok-3-mini-thinking-fast-latest",
            "grok-3-mini-thinking-latest",
        ]
    );
}

#[test]
fn thinking_variants_alias_their_base_model() {
    let entries = settings_with(Vec::new()).catalog_entries();
    let thinking = entries
        .iter()
        .find(|e| e.key == "grok-3-mini-thinking-latest")
        .unwrap();
    assert_eq!(thinking.model.name, "grok-3-mini-latest");
    assert_eq!(thinking.model.display_name, "Grok 3 Mini (Thinking)");
}

#[test]
fn override_replaces_builtin_of_same_name() {
    let settings = settings_with(vec![override_entry("grok-2-latest", "Tuned Grok 2", 65536)]);
    let entries = settings.catalog_entries();
    let matching: Vec<&CatalogEntry> =
        entries.iter().filter(|e| e.key == "grok-2-latest").collect();
    assert_eq!(matching.len(), 1);
    assert_eq!(matching[0].model.display_name, "Tuned Grok 2");
    assert_eq!(matching[0].model.max_tokens, 65536);
    assert_eq!(matching[0].model.max_output_tokens, Some(1024));
    assert_eq!(entries.len(), 8);
}

#[test]
fn later_override_of_same_name_wins() {
    let settings = settings_with(vec![
        override_entry("grok-2-latest", "First", 1000),
        override_entry("grok-2-latest", "Second", 2000),
    ]);
    let entries = settings.catalog_entries();
    let matching: Vec<&CatalogEntry> =
        entries.iter().filter(|e| e.key == "grok-2-latest").collect();
    assert_eq!(matching.len(), 1);
    assert_eq!(matching[0].model.display_name, "Second");
    assert_eq!(matching[0].model.max_tokens, 2000);
}

#[test]
fn unknown_override_extends_catalog_in_key_order() {
    let settings = settings_with(vec![override_entry("grok-9-preview", "Grok 9", 200000)]);
    let entries = settings.catalog_entries();
    assert_eq!(entries.len(), 9);
    let added = entries.iter().find(|e| e.key == "grok-9-preview").unwrap();
    assert_eq!(added.model.display_name, "Grok 9");
    let keys: Vec<&str> = entries.iter().map(|e| e.key.as_str()).collect();
    let mut sorted = keys.clone();
    sorted.sort();
    assert_eq!(keys, sorted);
}
