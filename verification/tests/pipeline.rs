use hotreload::builder::{BuildDecision, BuildManager};
use hotreload::config::ServerConfig;
use hotreload::session::{ClientSession, OutboundMessage};
use hotreload::watcher::{ChangeWatcher, FileOutcome};

fn test_config() -> ServerConfig {
    ServerConfig {
        crate_dir: b"/proj".to_vec(),
        out_dir: b"dist".to_vec(),
        watch_paths: vec![b"src".to_vec()],
        hot_reload: true,
        release: false,
        custom_profile: None,
        reload_html: false,
        index_on_404: false,
    }
}

#[test]
fn first_seen_file_is_structural_and_stored() {
    let mut w = ChangeWatcher::new(b"/proj".to_vec(), 0);
    let text = b"fn main() { region!(\"hello\") }\n";
    let outcome = w.process_file(b"/proj/src/main.rs", text);
    assert_eq!(outcome, FileOutcome::FirstSeen);
    // The text was stored: the same text again is no change at all.
    let outcome = w.process_file(b"/proj/src/main.rs", text);
    assert_eq!(outcome, FileOutcome::Unchanged);
}

#[test]
fn non_source_extension_is_ignored() {
    let mut w = ChangeWatcher::new(b"/proj".to_vec(), 0);
    let outcome = w.process_file(b"/proj/notes.txt", b"anything");
    assert_eq!(outcome, FileOutcome::Ignored);
}

#[test]
fn debounce_gate_drops_stale_events() {
    let mut w = ChangeWatcher::new(b"/proj".to_vec(), 100);
    let files = vec![(b"/proj/src/main.rs".to_vec(), b"fn main() {}\n".to_vec())];
    let outcome = w.process_event(100, &files);
    assert!(!outcome.processed);
    assert!(!outcome.needs_rebuild);
    assert!(outcome.messages.is_empty());
    // A strictly newer event is processed.
    let outcome = w.process_event(101, &files);
    assert!(outcome.processed);
}

#[test]
fn template_edit_streams_patch_without_rebuild() {
    let mut w = ChangeWatcher::new(b"/proj".to_vec(), 0);
    let old = b"fn main() { region!(\"hello\") }\n".to_vec();
    let new = b"fn main() { region!(\"hello world\") }\n".to_vec();
    let path = b"/proj/src/main.rs".to_vec();
    assert!(w.process_event(1, &vec![(path.clone(), old)]).processed);
    let outcome = w.process_event(2, &vec![(path, new)]);
    assert!(outcome.processed);
    // First-seen forced a rebuild on the first event; the template edit
    // itself forces none.
    assert!(!outcome.needs_rebuild);
    assert_eq!(outcome.messages.len(), 1);
    assert_eq!(outcome.messages[0].location.file, b"src/main.rs".to_vec());
    assert_eq!(outcome.messages[0].location.line, 1);
    assert_eq!(outcome.messages[0].location.col, 12);
    assert_eq!(outcome.messages[0].new_text, b"hello world".to_vec());
}

#[test]
fn structural_edit_rebuilds_and_reloads_on_success() {
    let mut w = ChangeWatcher::new(b"/proj".to_vec(), 0);
    let old = b"fn main() { region!(\"hello\") }\n".to_vec();
    let new = b"fn main(x: u8) { region!(\"hello\") }\n".to_vec();
    let path = b"/proj/src/main.rs".to_vec();
    assert!(w.process_event(1, &vec![(path.clone(), old)]).processed);

    let mut manager = BuildManager::new(test_config());
    let patch_bus = hotreload::bus::Bus::new();
    let mut session = ClientSession::connect(&manager.reload_bus, &patch_bus);

    let outcome = w.process_event(2, &vec![(path, new)]);
    assert!(outcome.needs_rebuild);
    assert!(outcome.messages.is_empty());

    assert_eq!(manager.request(), BuildDecision::Start);
    manager.complete(true);
    // The session receives the one reload signal, exactly once.
    assert_eq!(
        session.next_outbound(&manager.reload_bus, &patch_bus),
        Some(OutboundMessage::Reload)
    );
    assert_eq!(session.next_outbound(&manager.reload_bus, &patch_bus), None);
}

#[test]
fn failed_build_emits_no_reload_and_keeps_new_snapshot() {
    let mut w = ChangeWatcher::new(b"/proj".to_vec(), 0);
    let good = b"fn main() { region!(\"hello\") }\n".to_vec();
    let broken = b"fn main() { region!(\"hello\" }\n".to_vec();
    let fixed = b"fn main() { region!(\"hello\") }}\n".to_vec();
    let path = b"/proj/src/main.rs".to_vec();
    assert!(w.process_event(1, &vec![(path.clone(), good)]).processed);

    let mut manager = BuildManager::new(test_config());
    let patch_bus = hotreload::bus::Bus::new();
    let mut session = ClientSession::connect(&manager.reload_bus, &patch_bus);

    // The broken text does not parse: structural, rebuild owed, snapshot
    // overwritten with the broken text.
    let outcome = w.process_event(2, &vec![(path.clone(), broken.clone())]);
    assert!(outcome.needs_rebuild);

    assert_eq!(manager.request(), BuildDecision::Start);
    manager.complete(false);
    // No reload signal: the client keeps its last-good state.
    assert_eq!(session.next_outbound(&manager.reload_bus, &patch_bus), None);

    // The next edit diffs against the broken text, not the last-good one:
    // re-sending the broken text is no change at all.
    let outcome = w.process_event(3, &vec![(path.clone(), broken)]);
    assert!(outcome.processed);
    assert!(!outcome.needs_rebuild);
    assert!(outcome.messages.is_empty());
    let outcome = w.process_event(4, &vec![(path, fixed)]);
    assert!(outcome.needs_rebuild);
}

#[test]
fn rebuild_requests_are_single_flight() {
    let mut manager = BuildManager::new(test_config());
    assert_eq!(manager.request(), BuildDecision::Start);
    assert_eq!(manager.request(), BuildDecision::Coalesce);
    assert_eq!(manager.request(), BuildDecision::Coalesce);
    manager.complete(false);
    assert_eq!(manager.request(), BuildDecision::Start);
}

#[test]
fn regen_page_only_after_success_and_when_configured() {
    let mut config = test_config();
    config.reload_html = true;
    let manager = BuildManager::new(config);
    assert!(manager.should_regen_page(true));
    assert!(!manager.should_regen_page(false));
    let manager = BuildManager::new(test_config());
    assert!(!manager.should_regen_page(true));
}

#[test]
fn reload_fans_out_to_every_session_exactly_once() {
    let mut manager = BuildManager::new(test_config());
    let patch_bus = hotreload::bus::Bus::new();
    let mut early = Vec::new();
    for _ in 0..3 {
        early.push(ClientSession::connect(&manager.reload_bus, &patch_bus));
    }
    assert_eq!(manager.request(), BuildDecision::Start);
    manager.complete(true);
    for session in early.iter_mut() {
        assert_eq!(
            session.next_outbound(&manager.reload_bus, &patch_bus),
            Some(OutboundMessage::Reload)
        );
        assert_eq!(session.next_outbound(&manager.reload_bus, &patch_bus), None);
    }
    // A session connecting after the emission does not receive it.
    let mut late = ClientSession::connect(&manager.reload_bus, &patch_bus);
    assert_eq!(late.next_outbound(&manager.reload_bus, &patch_bus), None);
}

#[test]
fn session_forwards_patches_and_prefers_reload() {
    let manager = BuildManager::new(test_config());
    let mut patch_bus = hotreload::bus::Bus::new();
    let mut reload_bus = manager.reload_bus;
    let mut session = ClientSession::connect(&reload_bus, &patch_bus);
    let batch = vec![hotreload::differ::PatchMessage {
        location: hotreload::location::LocationId {
            file: b"src/main.rs".to_vec(),
            line: 1,
            col: 12,
        },
        new_text: b"hello world".to_vec(),
    }];
    patch_bus.send(batch.clone());
    reload_bus.send(hotreload::builder::ReloadSignal);
    // The reload came second but goes out first: it renders patches moot.
    assert_eq!(session.next_outbound(&reload_bus, &patch_bus), Some(OutboundMessage::Reload));
    assert_eq!(session.next_outbound(&reload_bus, &patch_bus), Some(OutboundMessage::Patch(batch)));
    assert_eq!(session.next_outbound(&reload_bus, &patch_bus), None);
}

#[test]
fn disconnected_session_is_terminal() {
    let mut manager = BuildManager::new(test_config());
    let patch_bus = hotreload::bus::Bus::new();
    let mut session = ClientSession::connect(&manager.reload_bus, &patch_bus);
    session.note_send_result(false);
    manager.complete(true);
    // Events keep flowing, the dead session forwards none of them.
    assert_eq!(session.next_outbound(&manager.reload_bus, &patch_bus), None);
    session.note_send_result(true);
    assert_eq!(session.next_outbound(&manager.reload_bus, &patch_bus), None);
}

#[test]
fn same_burst_processes_files_in_order() {
    let mut w = ChangeWatcher::new(b"/proj".to_vec(), 0);
    let a_old = b"region!(\"a\")\n".to_vec();
    let b_old = b"region!(\"b\")\n".to_vec();
    assert!(
        w.process_event(
            1,
            &vec![
                (b"/proj/src/a.rs".to_vec(), a_old),
                (b"/proj/src/b.rs".to_vec(), b_old),
            ],
        )
        .processed
    );
    let a_new = b"region!(\"a2\")\n".to_vec();
    let b_new = b"region!(\"b2\")\n".to_vec();
    let outcome = w.process_event(
        2,
        &vec![
            (b"/proj/src/a.rs".to_vec(), a_new),
            (b"/proj/src/b.rs".to_vec(), b_new),
        ],
    );
    assert_eq!(outcome.messages.len(), 2);
    assert_eq!(outcome.messages[0].location.file, b"src/a.rs".to_vec());
    assert_eq!(outcome.messages[0].new_text, b"a2".to_vec());
    assert_eq!(outcome.messages[1].location.file, b"src/b.rs".to_vec());
    assert_eq!(outcome.messages[1].new_text, b"b2".to_vec());
}

#[test]
fn handle_event_reads_the_wall_clock() {
    let files = vec![(b"/proj/src/main.rs".to_vec(), b"fn main() {}\n".to_vec())];
    // A cutoff in the far future: no clock reading passes it.
    let mut w = ChangeWatcher::new(b"/proj".to_vec(), i64::MAX);
    let outcome = w.handle_event(&files);
    assert!(!outcome.processed);
    // A cutoff at the epoch: any present-day clock reading passes it.
    let mut w = ChangeWatcher::new(b"/proj".to_vec(), 0);
    let outcome = w.handle_event(&files);
    assert!(outcome.processed);
    assert!(outcome.needs_rebuild);
}
