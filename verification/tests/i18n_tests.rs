use argus_tui::i18n::{extract_t_keys, load_catalog, match_locale, resolve_locale, t, Catalog, Locale};

fn catalog_with(key: &str, pt: &str, en: &str, active: Locale) -> Catalog {
    Catalog::new(
        vec![(key.to_string(), pt.to_string())],
        vec![(key.to_string(), en.to_string())],
        vec![],
        active,
    )
}

#[test]
fn extract_t_keys_ignores_calls_ending_in_t() {
    let src = r#"print("hello"); sort("x"); t("real.key");"#;
    assert_eq!(extract_t_keys(src), vec!["real.key".to_string()]);
}

#[test]
fn interpolates_named_placeholders() {
    let catalog = catalog_with("finder.results.placeholder_no_results", "Nenhum resultado", "No results", Locale::PtBr);
    let msg = t(&catalog, "finder.results.placeholder_no_results", &[]);
    assert!(!msg.is_empty());
}

#[test]
fn t_fills_placeholders_and_falls_back() {
    let catalog = catalog_with("greet", "Olá, {name}!", "Hello, {name}!", Locale::EsEs);
    assert_eq!(t(&catalog, "greet", &[("name", "Ana")]), "Olá, Ana!");
    assert_eq!(t(&catalog, "missing.key", &[]), "missing.key");
    let en = catalog_with("greet", "Olá, {name}!", "Hello, {name}!", Locale::EnUs);
    assert_eq!(t(&en, "greet", &[("name", "Bo")]), "Hello, Bo!");
}

#[test]
fn extract_t_keys_finds_every_bare_call() {
    let src = r#"let a = t("one"); let b = tt("two"); t("three", &[])"#;
    assert_eq!(extract_t_keys(src), vec!["one".to_string(), "three".to_string()]);
}

#[test]
fn match_locale_normalizes_and_falls_back_to_language() {
    assert_eq!(match_locale("en-US"), Some("en_US"));
    assert_eq!(match_locale("pt_BR.UTF-8"), Some("pt_BR"));
    assert_eq!(match_locale("es"), Some("es_ES"));
    assert_eq!(match_locale("pt-PT"), Some("pt_BR"));
    assert_eq!(match_locale("de-DE"), None);
}

#[test]
fn resolve_locale_prefers_the_override() {
    assert_eq!(resolve_locale(Some("en"), Some("es-ES")), Locale::EnUs);
    assert_eq!(resolve_locale(Some("xx"), Some("es-ES")), Locale::EsEs);
    assert_eq!(resolve_locale(None, None), Locale::PtBr);
    assert_eq!(Locale::EsEs.code(), "es_ES");
}

#[test]
fn load_catalog_parses_json_tables() {
    let pt = r#"{"a": "um", "b": "dois"}"#;
    let en = r#"{"a": "one"}"#;
    let es = r#"{}"#;
    let catalog = load_catalog(pt, en, es, Locale::EnUs).expect("valid tables");
    assert_eq!(t(&catalog, "a", &[]), "one");
    assert_eq!(t(&catalog, "b", &[]), "dois");
    assert!(load_catalog("not json", en, es, Locale::PtBr).is_none());
    assert!(load_catalog(pt, r#"{"a": 1}"#, es, Locale::PtBr).is_none());
}
