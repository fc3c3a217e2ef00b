use scribe::model::{polish, Config, Delivery, Found, LoadOutcome, Mode, Rule, SavePlan, Store, Vocabulary};

#[test]
fn number_rewriting_runs_before_vocabulary() {
    let vocab = Vocabulary::from_rules(vec![Rule::new("2026", "FY26")]);
    assert_eq!(polish("due in twenty twenty six", &vocab, true), "due in FY26");
}

#[test]
fn leaving_numbers_alone_leaves_the_words() {
    let vocab = Vocabulary::default();
    assert_eq!(polish("  twenty twenty six  ", &vocab, false), "twenty twenty six");
}

#[test]
fn cleanup_is_off_in_streaming_even_when_asked_for() {
    let mut config = Config {
        cleanup: true,
        ..Config::default()
    };
    assert!(config.cleanup_runs());
    config.mode = Mode::Streaming;
    assert!(!config.cleanup_runs());
}

#[test]
fn a_dictation_goes_through_every_rule_the_user_set() {
    let vocabulary = Vocabulary::from_rules(vec![
        Rule::new("kubernetes", "k8s"),
        Rule::new("2026", "FY26"),
    ]);

    let spoken = "we ship kubernetes in twenty twenty six";
    assert_eq!(polish(spoken, &vocabulary, true), "we ship k8s in FY26");
    assert_eq!(
        polish(spoken, &vocabulary, false),
        "we ship k8s in twenty twenty six"
    );
}

#[test]
fn an_empty_dictation_produces_nothing_to_deliver() {
    let vocabulary = Vocabulary::default();
    assert_eq!(polish("", &vocabulary, true), "");
    assert_eq!(polish("   \n  ", &vocabulary, true), "");
}

#[test]
fn the_defaults_are_those_of_a_first_run() {
    let config = Config::default();
    assert_eq!(config.mode, Mode::Batch);
    assert_eq!(config.delivery, Delivery::Type);
    assert_eq!(config.shortcut, "<Super><Alt>d");
    assert!(config.spell_numbers);
    assert!(!config.cleanup);
    assert_eq!(config.endpoint, "http://127.0.0.1:8080");
    assert!(config.vocabulary.is_empty());
    assert_eq!(Mode::Batch.as_str(), "batch");
    assert_eq!(Mode::Streaming.as_str(), "streaming");
    assert!(Mode::Batch.allows_cleanup());
    assert!(!Mode::Streaming.allows_cleanup());
}

#[test]
fn a_missing_file_is_a_fresh_start_not_an_error() {
    let (store, outcome) = Store::opened("/tmp/x/config.json".to_string(), Found::Missing);
    assert_eq!(outcome, LoadOutcome::Fresh);
    assert_eq!(store.config(), &Config::default());
    assert!(!store.is_read_only());
    assert_eq!(store.path(), Some("/tmp/x/config.json"));
    assert_eq!(store.save_plan(), SavePlan::Write("/tmp/x/config.json".to_string()));
}

#[test]
fn a_newer_file_is_held_read_only_and_never_written_over() {
    let config = Config {
        shortcut: "<Alt>z".into(),
        ..Config::default()
    };
    let (store, outcome) = Store::opened(
        "c.json".to_string(),
        Found::Parsed {
            version: 2,
            config: config.clone(),
        },
    );
    assert_eq!(outcome, LoadOutcome::TooNew { found: 2 });
    assert!(store.is_read_only());
    assert_eq!(store.config().shortcut, "<Alt>z");
    assert_eq!(store.save_plan(), SavePlan::Skip);
}

#[test]
fn a_current_file_loads_writable() {
    let (store, outcome) = Store::opened(
        "c.json".to_string(),
        Found::Parsed {
            version: 1,
            config: Config::default(),
        },
    );
    assert_eq!(outcome, LoadOutcome::Loaded);
    assert!(!store.is_read_only());
}

#[test]
fn an_unreadable_file_is_recovered_with_the_defaults() {
    let (store, outcome) = Store::opened(
        "c.json".to_string(),
        Found::Unreadable {
            aside: "c.json.corrupt-1".to_string(),
        },
    );
    assert_eq!(outcome, LoadOutcome::Recovered("c.json.corrupt-1".to_string()));
    assert_eq!(store.config(), &Config::default());
    assert!(!store.is_read_only(), "a fresh start after recovery is writable");
}

#[test]
fn a_detached_store_reports_that_it_has_nowhere_to_go() {
    let mut store = Store::detached();
    assert_eq!(store.save_plan(), SavePlan::NoPath);
    assert_eq!(store.path(), None);
    store.set_config(Config {
        mode: Mode::Streaming,
        ..Config::default()
    });
    assert_eq!(store.config().mode, Mode::Streaming);
}

#[test]
fn the_config_lives_under_xdg_config_home_when_it_is_absolute() {
    assert_eq!(
        Store::default_path(Some("/xdg"), "/home/u"),
        "/xdg/scribe/config.json"
    );
    assert_eq!(
        Store::default_path(Some("relative"), "/home/u"),
        "/home/u/.config/scribe/config.json"
    );
    assert_eq!(
        Store::default_path(None, "/home/u/"),
        "/home/u/.config/scribe/config.json"
    );
    assert_eq!(Store::default_path(None, ""), ".config/scribe/config.json");
}
