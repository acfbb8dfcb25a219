use hush::autostart::{launchd_domain, launchd_target, plist_body, plist_path, uid_from_output};
use hush::config::{CustomParserConfig, ModKey, ParakeetModel, Shortcut};
use hush::custom_parser::{
    apply, normalize_script, parse_timeout_ms, parser_is_active, parser_output, ParserRun,
    ParserStep,
};
use hush::models::{
    cache_dir, dir_error, download_error, downloading_status, expected_files, file_url,
    info_error, is_model_cached, model_dir, model_info_url, plan_downloads, required_files,
    total_bytes, DownloadStatus, DownloadStatusSlot, PlannedFile, RepoFile,
};
use hush::numbers::{parse_bounded, to_decimal, to_hex2};
use hush::output::ClipboardPasteOutput;
use hush::overlay::{mode_clears_levels, panel_action, status_reaction, OverlayMode, PanelAction, SoundCue};
use hush::paths::join_path;
use hush::perms::{
    grant_button, grant_microphone_action, maybe_show_settings_at_launch, mic_button,
    mic_status_text, perm_status_text, AccessibilityWait, MicAction, MicState, PermStatus,
};
use hush::pipeline::StatusEvent;
use hush::prefs::{
    backend_from, backend_path, enabled_text, post_process_enabled_from,
    post_process_enabled_path, post_process_model_from, post_process_model_path,
};
use hush::text::{join, replace, trim};
use hush::ui::{
    edit_key_action, native_paste_js, parser_editor_html, record_button, shortcut_label,
    version_title, EditKey, ParserEditor,
};

#[test]
fn parser_activity() {
    let on = CustomParserConfig { enabled: true, script: "return input;".to_string() };
    let blank = CustomParserConfig { enabled: true, script: "  \n ".to_string() };
    let off = CustomParserConfig { enabled: false, script: "return input;".to_string() };
    assert!(parser_is_active(&on));
    assert!(!parser_is_active(&blank));
    assert!(!parser_is_active(&off));
    assert_eq!(apply(&off, "x"), ParserStep::Disabled);
    assert_eq!(apply(&blank, "x"), ParserStep::Disabled);
}

#[test]
fn parser_program_text() {
    let cfg = CustomParserConfig { enabled: true, script: "return “bleh”;".to_string() };
    match apply(&cfg, "He said \"hi\"") {
        ParserStep::Run(p) => {
            assert!(p.starts_with("(() => {\n  const __result = (function(input) {\nreturn \"bleh\";\n})("));
            assert!(p.contains("})(\"He said \\\"hi\\\"\");\n"));
            assert!(p.ends_with("return __coerced;\n})()"));
        }
        other => panic!("unexpected {other:?}"),
    }
}

#[test]
fn normalize_smart_quotes_and_nbsp() {
    assert_eq!(normalize_script("‘a’ “b”\u{00A0}c"), "'a' \"b\" c");
    assert_eq!(normalize_script("plain"), "plain");
}

#[test]
fn parser_outputs_and_timeouts() {
    assert_eq!(parser_output(ParserRun::Finished("42".to_string())), Some("42".to_string()));
    assert_eq!(parser_output(ParserRun::Threw("bad".to_string())), None);
    assert_eq!(parser_output(ParserRun::TimedOut), None);
    assert_eq!(parser_output(ParserRun::Disconnected), None);
    assert_eq!(parse_timeout_ms(None), 5_000);
    assert_eq!(parse_timeout_ms(Some("250")), 250);
    assert_eq!(parse_timeout_ms(Some("0")), 5_000);
    assert_eq!(parse_timeout_ms(Some("-3")), 5_000);
    assert_eq!(parse_timeout_ms(Some("+7")), 7);
    assert_eq!(parse_timeout_ms(Some(" 9")), 5_000);
}

#[test]
fn model_names_and_files() {
    assert_eq!(ParakeetModel::V06b.cache_dir_name(), "parakeet-tdt-0.6b-v3");
    assert_eq!(ParakeetModel::V11b.model_id(), "dtgagnon/parakeet-tdt-1.1b-onnx");
    assert_eq!(
        ParakeetModel::V06b.download_url_prefix(),
        "https://huggingface.co/istupakov/parakeet-tdt-0.6b-v3-onnx/resolve/main/"
    );
    assert_eq!(expected_files().len(), 5);
    assert_eq!(required_files(ParakeetModel::V06b).len(), 4);
    assert_eq!(cache_dir("/h"), "/h/.cache/hush/models");
    assert_eq!(model_dir("/h", ParakeetModel::V11b), "/h/.cache/hush/models/parakeet-tdt-1.1b");
    assert_eq!(
        model_info_url(ParakeetModel::V06b),
        "https://huggingface.co/api/models/istupakov/parakeet-tdt-0.6b-v3-onnx?blobs=true"
    );
    assert_eq!(
        file_url(ParakeetModel::V11b, "vocab.txt"),
        "https://huggingface.co/dtgagnon/parakeet-tdt-1.1b-onnx/resolve/main/vocab.txt"
    );
}

#[test]
fn model_cached_needs_every_required_file() {
    let v06: Vec<String> = ["encoder-model.onnx", "encoder-model.onnx.data", "decoder_joint-model.onnx", "vocab.txt"]
        .iter()
        .map(|s| s.to_string())
        .collect();
    assert!(is_model_cached(ParakeetModel::V06b, true, &v06));
    assert!(!is_model_cached(ParakeetModel::V06b, false, &v06));
    assert!(!is_model_cached(ParakeetModel::V11b, true, &v06));
}

#[test]
fn download_plan_and_total() {
    let listing = vec![
        RepoFile { rfilename: "vocab.txt".to_string(), size: Some(10), lfs_size: None },
        RepoFile { rfilename: "encoder-model.onnx".to_string(), size: Some(1), lfs_size: Some(500) },
        RepoFile { rfilename: "README.md".to_string(), size: Some(3), lfs_size: None },
        RepoFile { rfilename: "decoder_joint-model.onnx".to_string(), size: None, lfs_size: None },
    ];
    let on_disk = vec!["decoder_joint-model.onnx".to_string()];
    let plan = plan_downloads(&listing, &on_disk);
    assert_eq!(
        plan,
        vec![
            PlannedFile { name: "encoder-model.onnx".to_string(), size: 500 },
            PlannedFile { name: "vocab.txt".to_string(), size: 10 },
        ]
    );
    assert_eq!(total_bytes(&plan), Some(510));
    let huge = vec![
        PlannedFile { name: "a".to_string(), size: u64::MAX },
        PlannedFile { name: "b".to_string(), size: 1 },
    ];
    assert_eq!(total_bytes(&huge), None);
}

#[test]
fn download_status_slot_reads_back_writes() {
    let mut slot = DownloadStatusSlot::new();
    assert_eq!(slot.get_download_status(), DownloadStatus::Idle);
    slot.set_download_status(downloading_status("vocab.txt", 10, 5, 100));
    assert_eq!(
        slot.get_download_status(),
        DownloadStatus::Downloading { file: "vocab.txt".to_string(), downloaded_bytes: 15, total_bytes: 100 }
    );
    slot.set_download_status(DownloadStatus::Error(download_error("vocab.txt")));
    assert_eq!(slot.get_download_status(), DownloadStatus::Error("download failed: vocab.txt".to_string()));
    assert_eq!(dir_error("denied"), "create parakeet model dir: denied");
    assert_eq!(info_error("offline"), "fetch model info failed: offline");
    assert_eq!(
        downloading_status("x", u64::MAX, 2, 3),
        DownloadStatus::Downloading { file: "x".to_string(), downloaded_bytes: u64::MAX, total_bytes: 3 }
    );
}

#[test]
fn permissions() {
    let s = PermStatus { microphone: MicState::Granted, accessibility: true };
    assert!(s.mic_granted() && s.all_granted());
    assert!(!maybe_show_settings_at_launch(&s));
    let s = PermStatus { microphone: MicState::Denied, accessibility: true };
    assert!(!s.all_granted());
    assert!(maybe_show_settings_at_launch(&s));
    assert_eq!(mic_status_text(MicState::NotDetermined), "•  Not yet asked");
    assert_eq!(perm_status_text(false), "✗  Not granted");
    assert_eq!(mic_button(MicState::Denied), ("Open System Settings…", true));
    assert_eq!(mic_button(MicState::Granted), ("Granted", false));
    assert_eq!(grant_button(false, true, "Open Accessibility…"), ("Waiting…", false));
    assert_eq!(grant_button(false, false, "Open Accessibility…"), ("Open Accessibility…", true));
    assert_eq!(grant_microphone_action(MicState::NotDetermined), MicAction::Prompt);
    let mut w = AccessibilityWait::new();
    w.start();
    assert!(!w.observe(false));
    assert!(w.waiting);
    assert!(w.observe(true));
    assert!(!w.waiting);
    w.start();
    w.timeout();
    assert!(!w.waiting);
}

#[test]
fn prefs_reading() {
    assert_eq!(backend_from(Some("parakeet"), Some("whisper")), "parakeet");
    assert_eq!(backend_from(None, Some(" whisper\n")), "whisper");
    assert_eq!(backend_from(None, None), "whisper");
    assert!(post_process_enabled_from(Some(" TRUE\n")));
    assert!(post_process_enabled_from(Some(enabled_text(true))));
    assert!(!post_process_enabled_from(Some(enabled_text(false))));
    assert!(!post_process_enabled_from(Some("yes")));
    assert!(!post_process_enabled_from(None));
    assert_eq!(post_process_model_from(Some(" llama3 \n")), "llama3");
    assert_eq!(post_process_model_from(Some("  ")), "qwen2.5:0.5b");
    assert_eq!(post_process_model_from(None), "qwen2.5:0.5b");
    assert_eq!(backend_path("/h"), "/h/.cache/hush/backend");
    assert_eq!(post_process_enabled_path("/h"), "/h/.cache/hush/post-process-enabled");
    assert_eq!(post_process_model_path("/h"), "/h/.cache/hush/post-process-model");
}

#[test]
fn autostart_pieces() {
    assert_eq!(plist_path("/Users/ann"), "/Users/ann/Library/LaunchAgents/com.djmunro.hush.plist");
    let body = plist_body("/Applications/Hush.app");
    assert!(body.contains("<string>com.djmunro.hush</string>"));
    assert!(body.contains("<string>/usr/bin/open</string>\n        <string>/Applications/Hush.app</string>"));
    assert!(body.contains("<key>KeepAlive</key>\n    <false/>"));
    assert!(body.ends_with("</plist>\n"));
    assert_eq!(uid_from_output("501\n"), 501);
    assert_eq!(uid_from_output(" 1000 "), 1000);
    assert_eq!(uid_from_output("nope"), 501);
    assert_eq!(uid_from_output("4294967296"), 501);
    assert_eq!(launchd_domain(501), "gui/501");
    assert_eq!(launchd_target(0), "gui/0/com.djmunro.hush");
}

#[test]
fn overlay_reactions() {
    let r = status_reaction(&StatusEvent::Recording);
    assert_eq!(r.sound, Some(SoundCue::Start));
    assert_eq!(r.mode, Some(OverlayMode::Recording));
    let r = status_reaction(&StatusEvent::Stopped);
    assert_eq!(r.sound, Some(SoundCue::Stop));
    assert_eq!(r.mode, None);
    assert_eq!(status_reaction(&StatusEvent::Idle).mode, Some(OverlayMode::Hidden));
    assert!(status_reaction(&StatusEvent::Error("x".to_string())).log_error);
    assert_eq!(SoundCue::Start.path(), "/System/Library/Sounds/Tink.aiff");
    assert!(mode_clears_levels(OverlayMode::Hidden));
    assert!(!mode_clears_levels(OverlayMode::Recording));
}

#[test]
fn paste_output_text_choice() {
    let mut out = ClipboardPasteOutput::new();
    assert_eq!(out.last_pasted(), "");
    let t = ClipboardPasteOutput::text_to_paste(Some("parsed".to_string()), "raw");
    assert_eq!(t, "parsed");
    let t2 = ClipboardPasteOutput::text_to_paste(None, "raw");
    assert_eq!(t2, "raw");
    out.record_pasted(t);
    assert_eq!(out.last_pasted(), "parsed");
}

#[test]
fn editor_state_machine() {
    let mut ed = ParserEditor::new();
    assert_eq!(ed.set_script("return input;"), None);
    assert_eq!(ed.current_script(), "return input;");
    let js = ed.handle_message("{\"type\":\"ready\",\"script\":\"ignored\"}");
    assert_eq!(
        js,
        Some("if (window.hushEditor) { window.hushEditor.setScript(\"return input;\"); }".to_string())
    );
    assert!(ed.is_ready());
    assert_eq!(ed.current_script(), "return input;");
    ed.sync_parser_snapshot(&CustomParserConfig { enabled: true, script: "return input;".to_string() });
    assert!(!ed.is_dirty(true));
    assert!(ed.is_dirty(false));
    assert_eq!(ed.handle_message("{\"type\":\"changed\",\"script\":\"return 1;\"}"), None);
    assert_eq!(ed.current_script(), "return 1;");
    assert!(ed.is_dirty(true));
    assert_eq!(ed.handle_message("not json"), None);
    assert_eq!(ed.handle_message("{\"type\":\"other\"}"), None);
    assert_eq!(ed.current_script(), "return 1;");
    assert_eq!(ed.script_snapshot(), "return input;");
    assert!(ed.enabled_snapshot());
}

#[test]
fn editor_ready_without_pending_takes_page_script() {
    let mut ed = ParserEditor::new();
    assert_eq!(ed.handle_message("{\"type\":\"ready\",\"script\":\"x\"}"), None);
    assert_eq!(ed.current_script(), "x");
}

#[test]
fn settings_labels_and_keys() {
    assert_eq!(parser_editor_html("<style>/*__HUSH_CSS__*/</style>", "b{}"), "<style>b{}</style>");
    assert_eq!(shortcut_label(None), "(none)");
    let sc = Shortcut { mods: vec![ModKey::LeftControl], key: None, key_label: None };
    assert_eq!(shortcut_label(Some(&sc)), "L⌃");
    assert_eq!(record_button(true), ("Press shortcut…", false));
    assert_eq!(record_button(false), ("Record…", true));
    assert_eq!(version_title("0.3.1", "abc123"), "Hush 0.3.1 (abc123)");
    let cmd = 1u64 << 20;
    let shift = 1u64 << 17;
    assert_eq!(edit_key_action(true, true, cmd, Some("z")), EditKey::Undo);
    assert_eq!(edit_key_action(true, true, cmd | shift, Some("Z")), EditKey::Redo);
    assert_eq!(edit_key_action(true, true, cmd, Some("v")), EditKey::Paste);
    assert_eq!(edit_key_action(true, true, cmd | shift, Some("v")), EditKey::Pass);
    assert_eq!(edit_key_action(true, false, cmd, Some("z")), EditKey::Pass);
    assert_eq!(edit_key_action(true, true, 0, Some("z")), EditKey::Pass);
    assert_eq!(edit_key_action(false, true, cmd, Some("z")), EditKey::Pass);
    assert_eq!(edit_key_action(true, true, cmd | 0xff, Some("z")), EditKey::Undo);
    assert_eq!(
        native_paste_js("a\"b"),
        "window.hushEditor&&window.hushEditor.nativePaste&&window.hushEditor.nativePaste(\"a\\\"b\")"
    );
    assert_eq!(
        native_paste_js("x\n\u{1}\\\u{e9}"),
        "window.hushEditor&&window.hushEditor.nativePaste&&window.hushEditor.nativePaste(\"x\\n\\u0001\\\\\u{e9}\")"
    );
}

#[test]
fn text_and_number_helpers() {
    assert_eq!(join_path("", "a"), "a");
    assert_eq!(join_path("/x", "a/b"), "/x/a/b");
    assert_eq!(join_path("/x/", "a"), "/x/a");
    assert_eq!(join_path("/x", "/etc/hosts"), "/etc/hosts");
    assert_eq!(join_path("/x", ""), "/x/");
    assert_eq!(trim("  a b \t"), "a b");
    assert_eq!(trim("\u{3000}\u{a0}a\u{2009}\u{85}"), "a");
    assert_eq!(trim("\u{200b}a"), "\u{200b}a");
    assert_eq!(replace("a<t>b<t>", "<t>", "-"), "a-b-");
    assert_eq!(replace("aaa", "aa", "b"), "ba");
    assert_eq!(replace("abc", "", "-"), "-a-b-c-");
    assert_eq!(replace("", "", "-"), "-");
    assert_eq!(join(&vec!["a".to_string(), "b".to_string()], ", "), "a, b");
    assert_eq!(parse_bounded("+65535", 65535), Some(65535));
    assert_eq!(parse_bounded("65536", 65535), None);
    assert_eq!(parse_bounded("", 9), None);
    assert_eq!(to_decimal(1234567890), "1234567890");
    assert_eq!(to_hex2(10), "0A");
    assert_eq!(to_hex2(0x1F3), "1F3");
}

#[test]
fn panel_actions() {
    assert_eq!(panel_action(OverlayMode::Hidden, true), PanelAction::Hide);
    assert_eq!(panel_action(OverlayMode::Hidden, false), PanelAction::Nothing);
    assert_eq!(panel_action(OverlayMode::Recording, false), PanelAction::ShowAndRedraw);
    assert_eq!(panel_action(OverlayMode::Transcribing, true), PanelAction::Redraw);
}

#[test]
fn editor_applies_parsed_messages() {
    let mut ed = ParserEditor::new();
    assert_eq!(ed.apply_message(None), None);
    assert_eq!(ed.apply_message(Some((None, Some("x".to_string())))), None);
    assert_eq!(ed.current_script(), "");
    assert_eq!(ed.apply_message(Some((Some("changed".to_string()), Some("y".to_string())))), None);
    assert_eq!(ed.current_script(), "y");
    assert!(!ed.is_ready());
    assert_eq!(ed.set_script("z"), None);
    assert_eq!(
        ed.apply_message(Some((Some("ready".to_string()), None))),
        Some("if (window.hushEditor) { window.hushEditor.setScript(\"z\"); }".to_string())
    );
    assert!(ed.is_ready());
    assert_eq!(ed.apply_message(Some((Some("changed".to_string()), None))), None);
    assert_eq!(ed.current_script(), "z");
}
