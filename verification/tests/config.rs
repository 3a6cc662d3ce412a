use wepu::config::{init, load, Config};

#[test]
fn by_default_positions_are_kept_and_documents_are_not() {
    assert_eq!(Config::default(), Config { save_position: true, cache_book: false });
}

#[test]
fn settings_are_stored_as_two_switches() {
    assert_eq!(Config { save_position: true, cache_book: false }.save(), "true:false");
    assert_eq!(Config { save_position: false, cache_book: true }.save(), "false:true");
    assert_eq!(Config { save_position: true, cache_book: true }.save(), "true:true");
    assert_eq!(Config { save_position: false, cache_book: false }.save(), "false:false");
}

#[test]
fn stored_settings_are_read_back() {
    assert_eq!(load("true:false"), Some(Config { save_position: true, cache_book: false }));
    assert_eq!(load("false:true"), Some(Config { save_position: false, cache_book: true }));
    for save_position in [false, true] {
        for cache_book in [false, true] {
            let config = Config { save_position, cache_book };
            assert_eq!(load(&config.save()), Some(config));
        }
    }
}

#[test]
fn other_texts_hold_no_settings() {
    for text in ["", ":", "true", "true:", ":false", "True:false", "true:False", "1:0", "true:false:true", "true::false", " true:false", "true:false ", "true;false", "yes:no"] {
        assert_eq!(load(text), None);
    }
}

#[test]
fn a_session_starts_with_the_stored_settings() {
    assert_eq!(init(Some("false:true")), Config { save_position: false, cache_book: true });
    assert_eq!(init(Some("false:false")), Config { save_position: false, cache_book: false });
}

#[test]
fn a_session_starts_with_the_defaults_where_nothing_usable_is_stored() {
    assert_eq!(init(None), Config::default());
    assert_eq!(init(Some("")), Config::default());
    assert_eq!(init(Some("false")), Config::default());
    assert_eq!(init(Some("false:maybe")), Config::default());
}

#[test]
fn switching_document_keeping_off_discards_the_kept_document() {
    let mut config = Config { save_position: true, cache_book: true };
    assert!(config.set_cache_book(false));
    assert_eq!(config, Config { save_position: true, cache_book: false });
    assert!(!config.set_cache_book(true));
    assert_eq!(config, Config { save_position: true, cache_book: true });
}

#[test]
fn switching_position_keeping_leaves_the_other_switch() {
    let mut config = Config { save_position: true, cache_book: true };
    config.set_save_position(false);
    assert_eq!(config, Config { save_position: false, cache_book: true });
    config.set_save_position(true);
    assert_eq!(config, Config { save_position: true, cache_book: true });
}
