use scribe::model::{Config, Delivery, Mode, Rule, Vocabulary};
use scribe::ui::application::{
    banner, not_installed_notice, shortcut_set_notice, capture, handoff, is_modifier_key, needs_cleanup, on_command, on_toggle, take_chunks,
    Activity, Capture, Command, Dictation, Handoff, Press, Stopped,
};
use scribe::ui::cleanup::{
    accept, outcome, reply_text, text_after_cleanup, token_budget, unwrap_reply, CleanupError,
};
use scribe::ui::engine::{EngineError, is_encoder, is_installed, Busy, Job, Loaded, Readiness, STREAM_CHUNK};
use scribe::ui::inject::{keysym_for, keystrokes, saved_token};
use scribe::ui::models::{
    check_size, check_status, download_size, sources, DownloadError, Fetching, Next,
};
use scribe::ui::overlay::{opening_detail, Phase};
use scribe::ui::portal::{response_path, token, Pending};
use scribe::ui::recorder::{record_args, samples, StartError, READ_BYTES, SAMPLE_RATE};
use scribe::ui::shell::{check_version, is_available, ShellError, BUS_NAME, OBJECT_PATH, PROTOCOL_VERSION, UUID};
use scribe::ui::shortcut::{
    check_install, installed_accel, is_registered, toggle_command, with_binding, without_binding,
    ShortcutError, PATH,
};
use scribe::ui::window::{
    cleanup_subtitle, delivery_at, delivery_index, mode_at, mode_index, model_button, model_name,
    permission_row, preview_row, shortcut_subtitle,
};
use scribe::ui::tray::{
    clicked_action, entry_at, entry_properties, entry_property, item_property, menu_property,
    property_ids, Changes, Menu, MenuEntry, Prop, View, MENU_PATH,
};

// ---- the cleanup pass ----

#[test]
fn the_assistant_message_is_found_in_a_normal_reply() {
    let body = br#"{"choices":[{"message":{"role":"assistant","content":"Hello there."}}]}"#;
    assert_eq!(reply_text(body).as_deref(), Some("Hello there."));
}

#[test]
fn a_reply_that_is_not_json_is_not_a_panic() {
    assert_eq!(reply_text(b"<html>502</html>"), None);
    assert_eq!(reply_text(b""), None);
    assert_eq!(reply_text(br#"{"choices":[]}"#), None);
}

#[test]
fn quotes_and_fences_are_stripped() {
    assert_eq!(unwrap_reply("\"Hello there.\""), "Hello there.");
    assert_eq!(unwrap_reply("\u{201c}Hello there.\u{201d}"), "Hello there.");
    assert_eq!(unwrap_reply("```\nHello there.\n```"), "Hello there.");
    assert_eq!(unwrap_reply("```text\nHello there.\n```"), "Hello there.");
}

#[test]
fn a_thinking_block_is_dropped() {
    assert_eq!(
        unwrap_reply("<think>The user said um twice.</think>\nHello there."),
        "Hello there."
    );
}

#[test]
fn a_sentence_containing_quotes_keeps_them() {
    let said = "She said \"no\" and left.";
    assert_eq!(unwrap_reply(said), said);
}

#[test]
fn a_tidied_transcript_is_accepted() {
    let raw = "um so I think we should uh ship it on friday you know";
    let tidy = "So I think we should ship it on Friday.";
    assert_eq!(accept(raw, tidy).as_deref(), Some(tidy));
}

#[test]
fn an_answer_to_the_dictation_is_rejected() {
    let raw = "what is the capital of france";
    let answer = "The capital of France is Paris. It has been the country's \
                  capital since 508 AD, and is home to around two million people \
                  in the city proper and twelve million in the wider region.";
    assert_eq!(accept(raw, answer), None);
}

#[test]
fn an_empty_reply_is_rejected() {
    assert_eq!(accept("something was said", "   "), None);
    assert_eq!(accept("something was said", "```\n\n```"), None);
}

#[test]
fn a_short_dictation_may_grow_a_little_for_punctuation() {
    assert!(accept("ok", "OK.").is_some());
    assert!(accept("hi", "Hi.").is_some());
}

#[test]
fn the_budget_tracks_the_length_of_the_dictation() {
    let short = token_budget("hello");
    let long = token_budget(&"word ".repeat(400));
    assert!(short < long, "a longer dictation gets a larger budget");
    assert!(short >= 64, "a two-word dictation still has room to come back");
    assert!(long <= 2048, "no dictation earns an unbounded reply");
}

#[test]
fn the_budget_is_twice_a_quarter_of_the_characters_within_its_bounds() {
    assert_eq!(token_budget("hello"), 64);
    assert_eq!(token_budget(&"word ".repeat(400)), 1000);
    assert_eq!(token_budget(&"x".repeat(10_000)), 2048);
}

#[test]
fn a_failed_cleanup_keeps_the_dictation() {
    let original = "um hello".to_string();
    assert_eq!(
        text_after_cleanup(original.clone(), Err(CleanupError::Malformed)),
        "um hello"
    );
    assert_eq!(
        text_after_cleanup(original, Ok("Hello.".to_string())),
        "Hello."
    );
}

#[test]
fn the_outcome_names_each_way_a_cleanup_can_fail() {
    let good = br#"{"choices":[{"message":{"content":"Hello."}}]}"#;
    assert_eq!(outcome("um hello", Ok(&good[..]), 200), Ok("Hello.".to_string()));
    assert_eq!(
        outcome("um hello", Err("refused".to_string()), 0),
        Err(CleanupError::Unreachable("refused".to_string()))
    );
    assert_eq!(outcome("um hello", Ok(&good[..]), 503), Err(CleanupError::Status(503)));
    assert_eq!(outcome("um hello", Ok(&b"nope"[..]), 200), Err(CleanupError::Malformed));
    let empty = br#"{"choices":[{"message":{"content":"   "}}]}"#;
    assert_eq!(outcome("um hello", Ok(&empty[..]), 200), Err(CleanupError::Rejected));
    assert_eq!(
        CleanupError::Status(503).message(),
        "The language model returned an error (503)."
    );
}

// ---- the speech models ----

#[test]
fn the_streaming_chunk_is_the_size_the_encoder_was_built_for() {
    assert_eq!(STREAM_CHUNK, 560 * 16_000 / 1000);
}

#[test]
fn an_empty_directory_does_not_count_as_installed() {
    assert!(!is_installed(Mode::Batch, true, &vec![], &vec![]));
    assert!(!is_installed(Mode::Streaming, true, &vec![], &vec![]));
}

#[test]
fn an_encoder_is_found_under_either_of_its_names() {
    for name in ["encoder-model.int8.onnx", "encoder.onnx", "encoder-model.onnx"] {
        assert!(is_encoder(name), "{name} should count as an encoder");
    }
}

#[test]
fn a_decoder_alone_is_not_an_encoder() {
    assert!(!is_encoder("decoder_joint-model.onnx"));
    assert!(!is_installed(
        Mode::Streaming,
        true,
        &vec!["tokenizer.model".to_string()],
        &vec!["tokenizer.model".to_string(), "decoder_joint-model.onnx".to_string()],
    ));
}

#[test]
fn a_model_with_its_files_and_an_encoder_is_installed() {
    let entries = vec![
        "tokenizer.model".to_string(),
        "encoder.onnx".to_string(),
        "decoder_joint.onnx".to_string(),
    ];
    let present = vec!["tokenizer.model".to_string()];
    assert!(is_installed(Mode::Streaming, true, &present, &entries));
    assert!(!is_installed(Mode::Streaming, false, &present, &entries));
    assert!(!is_installed(Mode::Batch, true, &present, &entries));
}

#[test]
fn a_model_is_loaded_once_and_the_stream_starts_over() {
    let mut loaded = Loaded::new();
    assert_eq!(loaded.readiness(Job::Batch, false), Readiness::NotInstalled);
    assert_eq!(loaded.readiness(Job::Batch, true), Readiness::Load);
    loaded.loaded(Job::Batch, false);
    assert_eq!(loaded.readiness(Job::Batch, true), Readiness::Load);
    loaded.loaded(Job::Batch, true);
    assert_eq!(loaded.readiness(Job::Batch, true), Readiness::Run);
    loaded.loaded(Job::Chunk, true);
    assert_eq!(loaded.readiness(Job::Chunk, true), Readiness::Run);
    loaded.reset_stream();
    assert_eq!(loaded.readiness(Job::Chunk, true), Readiness::Load);
    assert_eq!(loaded.readiness(Job::Batch, true), Readiness::Run);
    assert_eq!(Job::Chunk.mode(), Mode::Streaming);
}

#[test]
fn a_second_transcription_is_refused_while_the_first_runs() {
    let mut busy = Busy::new();
    assert!(!busy.is_busy());
    assert!(busy.claim());
    assert!(!busy.claim());
    busy.release();
    assert!(busy.claim());
}

// ---- typing ----

#[test]
fn ascii_maps_to_itself() {
    assert_eq!(keysym_for('h'), 0x68);
    assert_eq!(keysym_for(' '), 0x20);
    assert_eq!(keysym_for('~'), 0x7e);
}

#[test]
fn latin_one_is_still_direct() {
    assert_eq!(keysym_for('é'), 0xe9);
    assert_eq!(keysym_for('ÿ'), 0xff);
}

#[test]
fn beyond_latin_one_uses_the_unicode_range() {
    assert_eq!(keysym_for('Ā'), 0x0100_0100);
    assert_eq!(keysym_for('€'), 0x0100_20ac);
    assert_eq!(keysym_for('😀'), 0x0101_f600);
}

#[test]
fn newline_is_return_not_a_literal() {
    assert_eq!(keysym_for('\n'), 0xff0d);
    assert_eq!(keysym_for('\t'), 0xff09);
}

#[test]
fn each_character_is_pressed_then_released() {
    assert_eq!(
        keystrokes("hé\n"),
        vec![(0x68, 1), (0x68, 0), (0xe9, 1), (0xe9, 0), (0xff0d, 1), (0xff0d, 0)]
    );
    assert!(keystrokes("").is_empty());
}

#[test]
fn a_restore_token_is_read_without_its_whitespace() {
    assert_eq!(saved_token("  abc123\n").as_deref(), Some("abc123"));
    assert_eq!(saved_token(" \n "), None);
}

// ---- the tray menu ----

fn sample() -> Vec<MenuEntry> {
    vec![
        MenuEntry::info("qwen3.6-27b · running"),
        MenuEntry::Separator,
        MenuEntry::item("Stop Server", "toggle"),
        MenuEntry::disabled("Open Web UI", "web-ui"),
        MenuEntry::item("Quit", "quit"),
    ]
}

#[test]
fn ids_are_one_based_because_zero_is_the_root() {
    let entries = sample();
    assert!(entry_at(&entries, 0).is_none(), "0 is the root, not an entry");
    assert_eq!(entry_at(&entries, 1), Some(&entries[0]));
    assert_eq!(entry_at(&entries, 5), Some(&entries[4]));
    assert!(entry_at(&entries, 6).is_none());
    assert!(entry_at(&entries, -1).is_none(), "negative ids must not panic");
}

#[test]
fn group_properties_defaults_to_every_entry() {
    let entries = sample();
    assert_eq!(property_ids(entries.len(), &[]), vec![1, 2, 3, 4, 5]);
    assert_eq!(property_ids(entries.len(), &[1, 3]), vec![1, 3]);
}

#[test]
fn group_properties_skips_ids_that_do_not_exist() {
    assert_eq!(property_ids(sample().len(), &[1, 99, 4]), vec![1, 4]);
}

#[test]
fn individual_properties_can_be_fetched() {
    let entries = sample();
    assert_eq!(
        entry_property(&entries, 3, "label"),
        Some(Prop::Text("Stop Server".to_string()))
    );
    assert_eq!(entry_property(&entries, 3, "nonexistent"), None);
    assert_eq!(entry_property(&entries, 99, "label"), None);
}

#[test]
fn clicking_an_item_dispatches_its_action() {
    let entries = sample();
    assert_eq!(clicked_action(&entries, 3).as_deref(), Some("toggle"));
}

#[test]
fn disabled_rows_and_non_items_do_nothing_when_clicked() {
    let entries = sample();
    assert_eq!(clicked_action(&entries, 4), None);
    assert_eq!(clicked_action(&entries, 2), None);
    assert_eq!(clicked_action(&entries, 1), None);
    assert_eq!(clicked_action(&entries, 99), None);
    assert_eq!(clicked_action(&entries, 5).as_deref(), Some("quit"));
}

#[test]
fn a_separator_is_typed_rather_than_labelled() {
    let props = entry_properties(&MenuEntry::Separator);
    assert!(props
        .iter()
        .any(|(k, v)| k == "type" && *v == Prop::Text("separator".to_string())));
    assert!(!props.iter().any(|(k, _)| k == "label"));
}

#[test]
fn an_info_row_is_shown_but_not_clickable() {
    let props = entry_properties(&MenuEntry::info("29.4 GiB"));
    assert!(props.iter().any(|(k, v)| k == "enabled" && *v == Prop::Flag(false)));
    assert!(props.iter().any(|(k, v)| k == "visible" && *v == Prop::Flag(true)));
}

#[test]
fn the_item_stays_active_even_with_the_server_down() {
    assert_eq!(item_property("Status", "whatever"), Prop::Text("Active".to_string()));
}

#[test]
fn the_icon_name_is_whatever_the_current_view_asked_for() {
    assert_eq!(
        item_property("IconName", "us.hagreli.LlamaTray-symbolic"),
        Prop::Text("us.hagreli.LlamaTray-symbolic".to_string())
    );
}

#[test]
fn the_item_points_at_the_menu_object_path() {
    assert_eq!(
        item_property("Menu", "icon"),
        Prop::ObjectPath(MENU_PATH.to_string())
    );
}

#[test]
fn left_click_opens_the_menu_rather_than_acting() {
    assert_eq!(item_property("ItemIsMenu", "icon"), Prop::Flag(true));
}

#[test]
fn unknown_properties_return_something_rather_than_panicking() {
    assert_eq!(item_property("Nonsense", "icon"), Prop::Text(String::new()));
    assert_eq!(menu_property("Nonsense"), Prop::Text(String::new()));
}

#[test]
fn the_menu_object_describes_itself() {
    assert_eq!(menu_property("Version"), Prop::Number(3));
    assert_eq!(menu_property("TextDirection"), Prop::Text("ltr".to_string()));
    assert_eq!(menu_property("IconThemePath"), Prop::TextList(vec![]));
    assert_eq!(item_property("Id", "icon"), Prop::Text(scribe::APP_ID.to_string()));
}

// ---- downloads ----

#[test]
fn every_source_declares_a_size_so_truncation_can_be_caught() {
    for mode in [Mode::Batch, Mode::Streaming] {
        for source in sources(mode) {
            assert!(source.bytes > 0, "{} has no declared size", source.name);
            assert!(
                source.url.starts_with("https://"),
                "{} is not fetched over https",
                source.name
            );
        }
    }
}

#[test]
fn each_mode_brings_an_encoder_a_decoder_and_a_vocabulary() {
    for mode in [Mode::Batch, Mode::Streaming] {
        let names: Vec<&str> = sources(mode).iter().map(|s| s.name).collect();
        assert!(names.iter().any(|n| n.starts_with("encoder")), "{mode:?} has no encoder");
        assert!(names.iter().any(|n| n.contains("decoder")), "{mode:?} has no decoder");
        assert!(
            names.iter().any(|n| n.contains("vocab") || n.contains("tokenizer")),
            "{mode:?} has no vocabulary"
        );
    }
}

#[test]
fn the_download_is_the_sum_of_its_files() {
    assert_eq!(
        download_size(Mode::Batch),
        sources(Mode::Batch).iter().map(|s| s.bytes).sum::<u64>()
    );
    assert!(download_size(Mode::Batch) > 600_000_000);
    assert_eq!(download_size(Mode::Batch), 670_619_803);
    assert_eq!(download_size(Mode::Streaming), 891_769_206);
}

#[test]
fn a_file_already_here_is_skipped_and_counted() {
    let mut fetching = Fetching::new(Mode::Streaming);
    match fetching.next(Some(880_555_453)) {
        Next::Skipped(source) => assert_eq!(source.name, "encoder.onnx"),
        other => panic!("expected a skip, got {other:?}"),
    }
    assert_eq!(fetching.done_bytes(0), 880_555_453);
    match fetching.next(Some(5)) {
        Next::Fetch(source) => assert_eq!(source.name, "decoder_joint.onnx"),
        other => panic!("expected a fetch, got {other:?}"),
    }
    assert_eq!(fetching.done_bytes(100), 880_555_553);
    fetching.completed();
    match fetching.next(None) {
        Next::Fetch(source) => assert_eq!(source.name, "tokenizer.model"),
        other => panic!("expected a fetch, got {other:?}"),
    }
    fetching.completed();
    assert_eq!(fetching.next(None), Next::Finished);
    assert_eq!(fetching.done_bytes(0), fetching.total());
}

#[test]
fn a_bad_status_or_a_short_file_stops_the_download() {
    assert!(check_status("vocab.txt", 200).is_ok());
    assert!(check_status("vocab.txt", 299).is_ok());
    assert_eq!(
        check_status("vocab.txt", 404),
        Err(DownloadError::Http { file: "vocab.txt".to_string(), status: 404 })
    );
    assert!(check_size("vocab.txt", 93_939, 93_939).is_ok());
    let short = check_size("vocab.txt", 10, 93_939).unwrap_err();
    assert_eq!(
        short.message(),
        "vocab.txt arrived incomplete (10 bytes of 93939). The download was discarded rather than saved."
    );
    assert_eq!(
        check_status("vocab.txt", 404).unwrap_err().message(),
        "Downloading vocab.txt failed with HTTP 404."
    );
}

// ---- the overlay, the recorder, the shell extension, the shortcut ----

#[test]
fn each_phase_has_its_title() {
    assert_eq!(Phase::Listening.title(), "Listening");
    assert_eq!(Phase::Transcribing.title(), "Transcribing");
    assert_eq!(Phase::Polishing.title(), "Cleaning up");
    assert!(Phase::Listening.shows_meter());
    assert!(!Phase::Polishing.shows_meter());
    assert_eq!(opening_detail(Mode::Batch), "Press the shortcut again to stop");
    assert_eq!(opening_detail(Mode::Streaming), "Listening…");
}

#[test]
fn a_read_size_is_a_whole_number_of_frames() {
    assert_eq!(READ_BYTES % 2, 0);
    assert_eq!(READ_BYTES, (SAMPLE_RATE as usize / 25) * 2);
}

#[test]
fn the_recorder_targets_a_named_source_only() {
    let plain = record_args("  ");
    assert_eq!(
        plain,
        vec!["pw-record", "--rate", "16000", "--channels", "1", "--format", "s16", "-"]
    );
    let named = record_args(" alsa_input.usb ");
    assert_eq!(
        named,
        vec![
            "pw-record", "--rate", "16000", "--channels", "1", "--format", "s16", "--target",
            "alsa_input.usb", "-"
        ]
    );
}

#[test]
fn samples_are_little_endian_and_signed() {
    assert_eq!(samples(&[0x00, 0x00, 0xff, 0x7f, 0x00, 0x80, 0xff, 0xff, 0x01]), vec![0, 32767, -32768, -1]);
    assert!(samples(&[0x05]).is_empty());
    assert_eq!(
        StartError::Spawn("denied".to_string()).message(),
        "The microphone could not be opened: denied"
    );
}

#[test]
fn the_names_match_the_ones_the_extension_exports() {
    assert_eq!(BUS_NAME, "us.hagreli.Scribe.Shell");
    assert_eq!(OBJECT_PATH, "/us/hagreli/Scribe/Shell");
    assert_eq!(UUID, "scribe@hagreli.us");
    assert_eq!(PROTOCOL_VERSION, 1);
}

#[test]
fn a_missing_extension_reads_as_not_running_rather_than_an_error() {
    let error = ShellError::NotRunning.message();
    assert!(error.contains(UUID), "the message should say what to enable");
    assert_eq!(check_version(None), Err(ShellError::NotRunning));
    assert_eq!(check_version(Some(1)), Ok(()));
    assert_eq!(check_version(Some(2)), Err(ShellError::Mismatched { found: 2 }));
    assert!(is_available(Some(1)));
    assert!(!is_available(Some(2)));
    assert!(!is_available(None));
}

#[test]
fn the_command_carries_the_toggle_flag() {
    let command = toggle_command(Some("/usr/bin/mynah"));
    assert!(command.ends_with(" --toggle"), "got {command}");
    assert_eq!(command, "/usr/bin/mynah --toggle");
    assert_eq!(toggle_command(None), "mynah --toggle");
}

#[test]
fn the_binding_lives_under_a_path_of_our_own() {
    assert!(PATH.ends_with("/mynah/"));
    assert!(PATH.starts_with("/org/gnome/settings-daemon/"));
}

#[test]
fn installing_adds_the_binding_once_and_removing_leaves_the_rest() {
    let theirs = vec!["/custom0/".to_string(), "/custom1/".to_string()];
    assert!(!is_registered(&theirs));
    let added = with_binding(&theirs).expect("ours was missing");
    assert_eq!(added, vec!["/custom0/".to_string(), "/custom1/".to_string(), PATH.to_string()]);
    assert!(is_registered(&added));
    assert_eq!(with_binding(&added), None);
    assert_eq!(without_binding(&added), theirs);
    assert_eq!(installed_accel(true, "<Super>d").as_deref(), Some("<Super>d"));
    assert_eq!(installed_accel(true, ""), None);
    assert_eq!(installed_accel(false, "<Super>d"), None);
}

#[test]
fn a_shortcut_needs_gnome_and_an_accelerator_that_parses() {
    assert_eq!(check_install(false, true, "<Super>d"), Err(ShortcutError::Unsupported));
    assert_eq!(
        check_install(true, false, "nonsense"),
        Err(ShortcutError::Unparsable("nonsense".to_string()))
    );
    assert_eq!(check_install(true, true, "<Super>d"), Ok(()));
    assert_eq!(
        ShortcutError::Unparsable("x".to_string()).message(),
        "“x” is not a keyboard shortcut Mynah understands."
    );
}

// ---- the portal ----

#[test]
fn the_response_arrives_on_a_path_named_after_the_sender() {
    assert_eq!(
        response_path(":1.42", "scribe_7"),
        "/org/freedesktop/portal/desktop/request/1_42/scribe_7"
    );
    assert_eq!(token("scribe_", 123456), "scribe_123456");
}

#[test]
fn a_request_is_answered_exactly_once() {
    let mut pending = Pending::new();
    assert!(pending.close());
    assert!(!pending.close());
}

// ---- dictation ----

#[test]
fn the_shortcut_starts_stops_and_is_ignored_while_working() {
    assert_eq!(on_toggle(Activity::Idle), Press::Start);
    assert_eq!(on_toggle(Activity::Listening), Press::Stop);
    assert_eq!(on_toggle(Activity::Working), Press::Ignore);
    assert_eq!(on_command(false, true, Activity::Idle), Command::Press(Press::Ignore));
    assert_eq!(on_command(false, true, Activity::Listening), Command::Press(Press::Stop));
    assert_eq!(on_command(true, false, Activity::Idle), Command::Press(Press::Start));
    assert_eq!(on_command(false, false, Activity::Idle), Command::Present);
}

#[test]
fn a_dictation_comes_back_to_idle() {
    let mut dictation = Dictation::new();
    assert_eq!(dictation.press(), Press::Start);
    dictation.recording(true);
    assert_eq!(dictation.activity(), Activity::Listening);
    assert_eq!(dictation.stop(true, Mode::Batch, 100), Stopped::Discard);
    assert_eq!(dictation.activity(), Activity::Idle);

    dictation.recording(true);
    assert_eq!(dictation.stop(true, Mode::Batch, 16_000), Stopped::Transcribe);
    assert_eq!(dictation.activity(), Activity::Working);
    assert_eq!(dictation.press(), Press::Ignore);
    dictation.finish();
    assert_eq!(dictation.activity(), Activity::Idle);

    dictation.recording(false);
    assert_eq!(dictation.activity(), Activity::Idle);
    assert_eq!(dictation.stop(false, Mode::Batch, 0), Stopped::Nothing);
    dictation.recording(true);
    assert_eq!(dictation.stop(true, Mode::Streaming, 0), Stopped::DeliverPartial);
}

#[test]
fn a_transcript_goes_where_the_user_asked() {
    let vocabulary = Vocabulary::from_rules(vec![Rule::new("kubernetes", "k8s")]);
    let mut config = Config {
        vocabulary,
        ..Config::default()
    };
    assert_eq!(
        handoff(&config, "ship kubernetes", true),
        Handoff::Type("ship k8s".to_string())
    );
    assert_eq!(
        handoff(&config, "ship kubernetes", false),
        Handoff::Clipboard("ship k8s".to_string())
    );
    config.delivery = Delivery::Clipboard;
    assert_eq!(
        handoff(&config, "ship kubernetes", true),
        Handoff::Clipboard("ship k8s".to_string())
    );
    assert_eq!(handoff(&config, "   ", true), Handoff::Nothing);
}

#[test]
fn cleanup_is_asked_for_only_when_there_is_something_to_clean() {
    let mut config = Config {
        cleanup: true,
        ..Config::default()
    };
    assert!(needs_cleanup(&config, "um hello"));
    assert!(!needs_cleanup(&config, "  \n "));
    config.mode = Mode::Streaming;
    assert!(!needs_cleanup(&config, "um hello"));
}

#[test]
fn a_bare_modifier_is_not_a_shortcut() {
    assert!(is_modifier_key(0xffe3));
    assert!(is_modifier_key(0xfe03));
    assert!(!is_modifier_key(0x64));
    assert_eq!(capture(0xffe9, true), Capture::Wait);
    assert_eq!(capture(0x64, false), Capture::NeedModifier);
    assert_eq!(capture(0x64, true), Capture::Accept);
}

#[test]
fn the_banner_says_the_most_pressing_thing() {
    assert!(banner(false, true).expect("a banner").contains("mynah --toggle"));
    assert!(banner(true, true).expect("a banner").contains("newer Mynah"));
    assert_eq!(banner(true, false), None);
}

#[test]
fn streaming_audio_is_cut_into_whole_chunks() {
    let mut pending: Vec<u16> = (0..25).collect();
    let chunks = take_chunks(&mut pending, 10);
    assert_eq!(chunks.len(), 2);
    assert_eq!(chunks[0], (0..10).collect::<Vec<u16>>());
    assert_eq!(chunks[1], (10..20).collect::<Vec<u16>>());
    assert_eq!(pending, (20..25).collect::<Vec<u16>>());
    assert!(take_chunks(&mut pending, 10).is_empty());
    assert_eq!(pending.len(), 5);
}

// ---- the settings window, and every message a failure can produce ----

#[test]
fn the_window_reads_back_what_it_shows() {
    for mode in [Mode::Batch, Mode::Streaming] {
        assert_eq!(mode_at(mode_index(mode)), mode);
    }
    for delivery in [Delivery::Type, Delivery::Clipboard] {
        assert_eq!(delivery_at(delivery_index(delivery)), delivery);
    }
    assert_eq!(mode_index(Mode::Streaming), 1);
    assert_eq!(mode_at(7), Mode::Batch);
}

#[test]
fn the_permission_row_says_which_route_types() {
    let extension = permission_row(false, true, true);
    assert!(!extension.show_button && !extension.error);
    assert!(extension.subtitle.contains("shell extension"));
    let granted = permission_row(true, false, false);
    assert_eq!(granted.button, "Ask again");
    assert!(!granted.show_button);
    let refused = permission_row(false, true, false);
    assert!(refused.error && refused.show_button);
    let unasked = permission_row(false, false, false);
    assert_eq!(unasked.button, "Allow typing");
    assert!(unasked.show_button && !unasked.error);
}

#[test]
fn the_model_rows_follow_the_mode() {
    assert_eq!(model_name(Mode::Batch), "Parakeet TDT 0.6B");
    assert_eq!(model_name(Mode::Streaming), "Nemotron streaming 0.6B");
    assert_eq!(model_button(true), ("Remove", true));
    assert_eq!(model_button(false), ("Download", false));
    assert!(cleanup_subtitle(Mode::Streaming).starts_with("Not available in Live mode"));
    assert!(!preview_row(Mode::Streaming, true).sensitive);
    assert!(preview_row(Mode::Batch, true).sensitive);
    assert!(!preview_row(Mode::Batch, false).sensitive);
    assert_eq!(
        shortcut_subtitle("Super+Alt+D", false),
        "Super+Alt+D — not registered with GNOME"
    );
}

#[test]
fn every_failure_reads_as_a_sentence() {
    assert_eq!(
        DownloadError::Network { file: "vocab.txt".into(), detail: "timed out".into() }.message(),
        "Downloading vocab.txt failed: timed out"
    );
    assert_eq!(
        DownloadError::Io { file: "vocab.txt".into(), detail: "disk full".into() }.message(),
        "vocab.txt could not be written to disk: disk full"
    );
    assert_eq!(
        ShellError::Mismatched { found: 2 }.message(),
        "The Scribe shell extension speaks version 2, but this Scribe speaks version 1. Reinstall so the two match."
    );
    assert_eq!(
        ShellError::Call("denied".into()).message(),
        "The shell extension refused to insert the text: denied"
    );
    assert!(ShortcutError::Unsupported.message().contains("mynah --toggle"));
    assert!(StartError::ToolMissing.message().starts_with("pw-record is not installed."));
    assert_eq!(
        EngineError::Load("bad file".into()).message(),
        "The speech model could not be loaded: bad file"
    );
    assert_eq!(
        not_installed_notice(Mode::Streaming),
        "The streaming speech model has not been downloaded yet. Open Mynah to download it."
    );
    assert_eq!(shortcut_set_notice("Ctrl+D"), "Ctrl+D now starts dictation.");
    assert_eq!(
        CleanupError::Rejected.message(),
        "The language model's reply did not look like the dictation."
    );
}

#[test]
fn the_host_hears_only_about_what_changed() {
    let mut menu = Menu::new(View { entries: sample(), icon_name: "idle".to_string() });
    assert_eq!(menu.revision(), 1);
    let same = menu.apply(View { entries: sample(), icon_name: "idle".to_string() });
    assert_eq!(same, Changes { icon: false, layout: false });
    assert_eq!(menu.revision(), 1);
    let icon = menu.apply(View { entries: sample(), icon_name: "busy".to_string() });
    assert_eq!(icon, Changes { icon: true, layout: false });
    assert_eq!(menu.icon_name(), "busy");
    let mut shorter = sample();
    shorter.pop();
    let rows = menu.apply(View { entries: shorter, icon_name: "busy".to_string() });
    assert_eq!(rows, Changes { icon: false, layout: true });
    assert_eq!(menu.revision(), 2);
    assert_eq!(menu.entries().len(), 4);
}
