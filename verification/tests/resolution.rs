//! Behaviour of the preferred-language resolution and its per-session cache.

use ns_locale::resolve::{apply_fallback, extract_languages, resolve_from_host};
use ns_locale::{Environment, LocaleEntry, Options, State};

fn entry(language: Option<&str>, region: Option<&str>) -> LocaleEntry {
    LocaleEntry {
        language: language.map(|s| s.to_string()),
        region: region.map(|s| s.to_string()),
    }
}

fn fresh_env(override_langs: Option<Vec<&str>>) -> Environment {
    Environment {
        options: Options {
            preferred_languages: override_langs
                .map(|v| v.into_iter().map(|s| s.to_string()).collect()),
        },
        ns_locale: State::default(),
    }
}

#[test]
fn override_is_returned_verbatim() {
    let mut env = fresh_env(Some(vec!["fr", "de"]));
    let langs = env.try_preferred_languages().expect("override must resolve");
    assert_eq!(langs, vec!["fr".to_string(), "de".to_string()]);
}

#[test]
fn empty_override_is_returned_verbatim() {
    // A configured-but-empty override bypasses the fallback: the resolved
    // list is empty, a documented quirk of the override path.
    let mut env = fresh_env(Some(vec![]));
    let langs = env.try_preferred_languages().expect("override must resolve");
    assert_eq!(langs, Vec::<String>::new());
}

#[test]
fn no_override_defers_to_host() {
    let mut env = fresh_env(None);
    assert!(env.try_preferred_languages().is_none());
    assert!(!env.is_resolved());
}

#[test]
fn fallback_when_host_yields_nothing() {
    let mut env = fresh_env(None);
    assert!(env.try_preferred_languages().is_none());
    let (langs, used_fallback) = env.preferred_languages_from_host(&Vec::new());
    assert_eq!(langs, vec!["en".to_string()]);
    assert!(used_fallback);
}

#[test]
fn fallback_when_host_starts_with_sentinel() {
    let mut env = fresh_env(None);
    assert!(env.try_preferred_languages().is_none());
    let entries = vec![entry(None, None)];
    let (langs, used_fallback) = env.preferred_languages_from_host(&entries);
    assert_eq!(langs, vec!["en".to_string()]);
    assert!(used_fallback);
}

#[test]
fn region_is_stripped() {
    let entries = vec![entry(Some("en"), Some("US")), entry(None, None)];
    let langs = extract_languages(&entries);
    assert_eq!(langs, vec!["en".to_string()]);
}

#[test]
fn sentinel_ends_enumeration() {
    let entries = vec![
        entry(Some("en"), Some("US")),
        entry(Some("fr"), Some("FR")),
        entry(None, None),
        entry(Some("de"), Some("DE")),
    ];
    let langs = extract_languages(&entries);
    assert_eq!(langs, vec!["en".to_string(), "fr".to_string()]);
}

#[test]
fn enumeration_without_sentinel_is_read_whole() {
    let entries = vec![entry(Some("en"), None), entry(Some("ja"), Some("JP"))];
    let langs = extract_languages(&entries);
    assert_eq!(langs, vec!["en".to_string(), "ja".to_string()]);
}

#[test]
fn entry_without_language_contributes_nothing() {
    // Language absent but region present: not a sentinel, yet there is no
    // tag to keep.
    let entries = vec![
        entry(None, Some("US")),
        entry(Some("fr"), None),
        entry(None, None),
    ];
    let langs = extract_languages(&entries);
    assert_eq!(langs, vec!["fr".to_string()]);
}

#[test]
fn host_resolution_is_never_empty() {
    let empty: Vec<LocaleEntry> = Vec::new();
    let (langs, _) = resolve_from_host(&empty);
    assert!(langs.len() >= 1);
    let entries = vec![entry(Some("de"), Some("DE")), entry(None, None)];
    let (langs, used_fallback) = resolve_from_host(&entries);
    assert!(langs.len() >= 1);
    assert_eq!(langs, vec!["de".to_string()]);
    assert!(!used_fallback);
}

#[test]
fn fallback_leaves_non_empty_lists_alone() {
    let langs = apply_fallback(vec!["ja".to_string()]);
    assert_eq!(langs, vec!["ja".to_string()]);
    let langs = apply_fallback(Vec::new());
    assert_eq!(langs, vec!["en".to_string()]);
}

#[test]
fn host_scenario_japanese() {
    let mut env = fresh_env(None);
    assert!(env.try_preferred_languages().is_none());
    let entries = vec![entry(Some("ja"), Some("JP")), entry(None, None)];
    let (langs, used_fallback) = env.preferred_languages_from_host(&entries);
    assert_eq!(langs, vec!["ja".to_string()]);
    assert!(!used_fallback);
}

#[test]
fn accessor_is_idempotent_on_override_path() {
    let mut env = fresh_env(Some(vec!["fr", "de"]));
    let first = env.try_preferred_languages().expect("override must resolve");
    assert!(env.is_resolved());
    let second = env.try_preferred_languages().expect("cache must answer");
    assert_eq!(first, second);
}

#[test]
fn accessor_is_idempotent_on_host_path() {
    let mut env = fresh_env(None);
    assert!(env.try_preferred_languages().is_none());
    let entries = vec![entry(Some("ja"), Some("JP")), entry(None, None)];
    let (first, _) = env.preferred_languages_from_host(&entries);
    assert!(env.is_resolved());
    // A second query is answered from the cache, whatever the host or the
    // configuration would say by now.
    let second = env.try_preferred_languages().expect("cache must answer");
    assert_eq!(first, second);
}

#[test]
fn cached_list_survives_configuration_change() {
    let mut env = fresh_env(None);
    assert!(env.try_preferred_languages().is_none());
    let entries = vec![entry(Some("it"), None), entry(None, None)];
    let (first, _) = env.preferred_languages_from_host(&entries);
    env.options.preferred_languages = Some(vec!["de".to_string()]);
    let second = env.try_preferred_languages().expect("cache must answer");
    assert_eq!(first, second);
    assert_eq!(second, vec!["it".to_string()]);
}

#[test]
fn state_get_reaches_the_session_slot() {
    let mut env = fresh_env(Some(vec!["fr"]));
    let _ = env.try_preferred_languages();
    let state = State::get(&mut env);
    *state = State::default();
    assert!(!env.is_resolved());
}

#[test]
fn default_state_is_unresolved() {
    let env = Environment {
        options: Options {
            preferred_languages: None,
        },
        ns_locale: State::default(),
    };
    assert!(!env.is_resolved());
}
