use keyboard_it::autostart::{needs_change, plist_path, plist_text, task_params};
use keyboard_it::config::{Config, Role};
use keyboard_it::discovery::{
    make_peer, mdns_host_name, parse_pair_port, service_instance_name, trim_dots, txt_properties, DiscoveredPeer,
    Discovery,
};
use keyboard_it::menubar::ConnStatus;
use keyboard_it::pairing::PairOutcome;
use keyboard_it::permissions::{
    bundle_id, can_relaunch, check, current_step, footer_look, note_stale_grant, order_at, reset_command, row_look,
    tap_permissions_granted, watch_tick, wizard_choice, wizard_next, wizard_not_granted_title, wizard_waiting_text,
    wizard_waiting_title, PermState, PermissionKind, PermissionsController, Probes, RowAction, Tone, WizardAction,
};
use keyboard_it::settings::{
    apply_pair_outcome, button_states, confirm_text, conn_status_text, contacting_text, declined_text,
    friendly_name, load_config, paired_label, paired_text, pair_target, peer_row, popup_items, selected_peer,
    set_conn_status_source, status_tick, unpair, ConnStatusSlot, PairState, row_with_title, same_peers,
    sort_by_name,
};

fn peer(full: &str, host: &str, pair: Option<&str>) -> DiscoveredPeer {
    make_peer(full, host, "desktop-abc.local.", 5599, pair)
}

#[test]
fn a_resolved_service_becomes_a_peer() {
    let p = peer("DESKTOP-ABC._keyboard-it._tcp.local.", "192.168.68.55", Some("5600"));
    assert_eq!(p.name, "DESKTOP-ABC");
    assert_eq!(p.host, "192.168.68.55");
    assert_eq!(p.hostname, "desktop-abc.local");
    assert_eq!(p.port, 5599);
    assert_eq!(p.pair_port, Some(5600));
    assert_eq!(service_instance_name("odd-name"), "odd-name");
    assert_eq!(service_instance_name("x.._keyboard-it._tcp.local."), "x");
    assert_eq!(trim_dots("a..."), "a");
    assert_eq!(parse_pair_port(Some("0")), None);
    assert_eq!(parse_pair_port(Some("+80")), Some(80));
    assert_eq!(parse_pair_port(Some("x")), None);
    assert_eq!(parse_pair_port(None), None);
}

#[test]
fn the_browse_list_upserts_and_removes_by_full_name() {
    let mut d = Discovery::new();
    assert!(d.start(100));
    assert!(!d.start(200));
    assert_eq!(d.elapsed(150), Some(50));
    assert_eq!(d.elapsed(50), Some(0));
    assert!(!d.ever_answered());
    assert!(!d.stalled(8099));
    assert!(d.stalled(8100));
    d.on_resolved(peer("A._keyboard-it._tcp.local.", "10.0.0.1", None));
    d.on_resolved(peer("B._keyboard-it._tcp.local.", "10.0.0.2", None));
    d.on_resolved(peer("A._keyboard-it._tcp.local.", "10.0.0.9", Some("1")));
    assert_eq!(d.peers().len(), 2);
    assert_eq!(d.peers()[0].host, "10.0.0.9");
    assert!(!d.stalled(100_000));
    d.on_removed("A._keyboard-it._tcp.local.");
    d.on_removed("B._keyboard-it._tcp.local.");
    assert!(d.peers().is_empty());
    // The network did answer once; that never goes back.
    assert!(d.ever_answered());
    assert!(d.stalled(100_000));
    assert_eq!(Discovery::new().elapsed(5), None);
}

#[test]
fn what_a_receiver_advertises() {
    assert_eq!(
        txt_properties(Some(5600)),
        vec![("pairv".to_string(), "1".to_string()), ("pair".to_string(), "5600".to_string())]
    );
    assert_eq!(txt_properties(None), vec![("pairv".to_string(), "1".to_string())]);
    assert_eq!(mdns_host_name("DESKTOP-ABC"), "DESKTOP-ABC.local.");
}

#[test]
fn settings_status_line() {
    let mut pair = PairState::Busy("Contacting PC…".to_string());
    let mut hold = Some(10_000);
    let u = status_tick(&mut pair, &mut hold, Some(2), 0);
    assert_eq!(u.show.as_deref(), Some("Contacting PC…"));
    assert!(!u.released);

    let mut pair = PairState::Finished { text: "Done".into(), until_ms: 100 };
    let u = status_tick(&mut pair, &mut hold, Some(2), 50);
    assert_eq!(u.show.as_deref(), Some("Done"));
    let u = status_tick(&mut pair, &mut hold, Some(2), 100);
    assert!(u.released);
    assert!(matches!(pair, PairState::Idle));
    assert_eq!(u.show, None); // still held
    let u = status_tick(&mut pair, &mut hold, Some(2), 10_000);
    assert_eq!(u.show.as_deref(), Some("Connected."));
    assert_eq!(hold, None);
    let u = status_tick(&mut pair, &mut hold, None, 10_001);
    assert_eq!(u.show, None);
    assert_eq!(conn_status_text(ConnStatus::HandshakeFailed), "The PC rejected the key — pair again.");
}

#[test]
fn settings_buttons_and_selection() {
    assert_eq!(button_states(&PairState::Idle, true, false), (true, false));
    assert_eq!(button_states(&PairState::Busy(String::new()), true, true), (false, false));
    let shown = vec![peer("A._keyboard-it._tcp.local.", "10.0.0.1", None)];
    assert!(selected_peer(0, &shown).is_none());
    assert!(selected_peer(-1, &shown).is_none());
    assert!(selected_peer(2, &shown).is_none());
    assert_eq!(selected_peer(1, &shown).unwrap().name, "A");
}

#[test]
fn the_popup_rows() {
    let (rows, enabled) = popup_items(&vec![]);
    assert_eq!(rows, vec!["Searching your network…"]);
    assert!(!enabled);
    let peers = vec![
        peer("A._keyboard-it._tcp.local.", "10.0.0.1", Some("5600")),
        peer("B._keyboard-it._tcp.local.", "10.0.0.2", None),
    ];
    let (rows, enabled) = popup_items(&peers);
    assert!(enabled);
    assert_eq!(rows, vec!["Choose a discovered PC…", "A (10.0.0.1)", "B (10.0.0.2) — needs a newer keyboard-it"]);
    assert_eq!(peer_row(&peers[0]), "A (10.0.0.1)");
}

#[test]
fn pairing_changes_the_config() {
    let mut c = load_config(None);
    assert_eq!(c.port, 5599);
    assert_eq!(paired_label(&c), "Not paired yet");
    let p = peer("PC._keyboard-it._tcp.local.", "10.0.0.7", Some("5600"));
    let outcome = PairOutcome { secret: "s".into(), session_port: 7000, peer_name: "PC".into(), code: "123456".into() };
    c.role = Role::Receiver;
    apply_pair_outcome(&mut c, &outcome, &p);
    assert_eq!(c.role, Role::Sender);
    assert_eq!(c.shared_secret, "s");
    assert_eq!(c.port, 7000);
    assert_eq!(c.peer_host, "desktop-abc.local");
    assert_eq!(c.peer_ip, "10.0.0.7");
    assert_eq!(paired_label(&c), "Paired with desktop-abc.local");
    let mut bare = p.clone();
    bare.hostname = String::new();
    apply_pair_outcome(&mut c, &outcome, &bare);
    assert_eq!(c.peer_host, "10.0.0.7");
    unpair(&mut c);
    assert_eq!(c.shared_secret, "");
    assert_eq!(c.peer_host, "");
    assert_eq!(c.peer_ip, "");
    assert_eq!(c.port, 7000);
    let kept = load_config(Some(Config { port: 1, ..Config::default() }));
    assert_eq!(kept.port, 1);
}

#[test]
fn pairing_messages() {
    let p = peer("PC._keyboard-it._tcp.local.", "10.0.0.7", Some("5600"));
    assert_eq!(pair_target(&p), Ok("10.0.0.7:5600".to_string()));
    let old = peer("PC._keyboard-it._tcp.local.", "10.0.0.7", None);
    assert_eq!(pair_target(&old), Err("PC is running an older keyboard-it — update it on the PC.".to_string()));
    assert_eq!(contacting_text("PC"), "Contacting PC…");
    assert_eq!(confirm_text("PC", "482913"), "Confirm on PC — code 482 913");
    assert_eq!(declined_text("PC"), "PC declined the pairing.");
    assert_eq!(paired_text("PC"), "Paired with PC — connecting…");
    assert_eq!(friendly_name(Some(" Kutay's Mac \n")), "Kutay's Mac");
    assert_eq!(friendly_name(Some("")), "Mac");
    assert_eq!(friendly_name(None), "Mac");
}

#[test]
fn the_status_source_is_registered_once() {
    let mut slot = ConnStatusSlot::new();
    assert!(slot.get().is_none());
    set_conn_status_source(&mut slot, 1);
    set_conn_status_source(&mut slot, 2);
    assert_eq!(slot.get(), Some(&1));
}

fn probes(im: bool, ax: bool, net: bool, elapsed: Option<u64>) -> Probes {
    Probes { input_monitoring: im, accessibility: ax, network_answered: net, browse_elapsed_ms: elapsed }
}

#[test]
fn permission_states_and_order() {
    assert_eq!(order_at(0), PermissionKind::InputMonitoring);
    assert_eq!(order_at(2), PermissionKind::LocalNetwork);
    assert_eq!(check(PermissionKind::LocalNetwork, &probes(true, true, false, None)), PermState::NotChecked);
    assert_eq!(check(PermissionKind::LocalNetwork, &probes(true, true, false, Some(100))), PermState::Checking);
    assert_eq!(check(PermissionKind::LocalNetwork, &probes(true, true, false, Some(8000))), PermState::Unknowable);
    assert_eq!(check(PermissionKind::LocalNetwork, &probes(true, true, true, None)), PermState::Granted);
    assert_eq!(check(PermissionKind::Accessibility, &probes(true, false, true, None)), PermState::Missing);
    assert_eq!(current_step(&[PermState::Granted, PermState::Missing, PermState::Checking]), 1);
    assert_eq!(current_step(&[PermState::Granted, PermState::Granted, PermState::Unknowable]), 3);
    assert!(tap_permissions_granted(true, true));
    assert!(!tap_permissions_granted(true, false));
    assert_eq!(PermissionKind::LocalNetwork.title(), "Local Network");
}

#[test]
fn prompts_fire_once_per_row_and_are_spaced() {
    let mut c = PermissionsController::new();
    let (states, current, fire) = c.refresh(&probes(false, false, false, None), 1000, true);
    assert_eq!(states, [PermState::Missing, PermState::Missing, PermState::NotChecked]);
    assert_eq!(current, 0);
    assert_eq!(fire, Some(0));
    // Not again for the same row.
    assert_eq!(c.refresh(&probes(false, false, false, None), 5000, true).2, None);
    // Input Monitoring granted: Accessibility is next, but not within 2 s.
    assert_eq!(c.refresh(&probes(true, false, false, None), 2500, true).2, None);
    assert_eq!(c.refresh(&probes(true, false, false, None), 3000, false).2, None);
    assert_eq!(c.refresh(&probes(true, false, false, None), 3000, true).2, Some(1));
    // Stuck after 30 s of nothing.
    assert!(!c.stuck(1, PermState::Missing, 32_999));
    assert!(c.stuck(1, PermState::Missing, 33_000));
    assert!(!c.stuck(2, PermState::Missing, 99_000));
    // A row's button: prompt once, then the pane.
    let mut d = PermissionsController::new();
    assert_eq!(d.row_action(2, PermState::NotChecked, 0), RowAction::Request);
    assert_eq!(d.row_action(2, PermState::Checking, 10), RowAction::OpenPane);
    note_stale_grant(&mut d);
    assert_eq!(d.row_action(0, PermState::Granted, 20), RowAction::OpenPane);
    assert_eq!(d.row_action(1, PermState::Missing, 20), RowAction::Request);
}

#[test]
fn how_the_permission_rows_look() {
    let l = row_look(0, PermState::Granted, 1, true, false, false);
    assert_eq!((l.status, l.tone, l.button, l.enabled, l.default_button), ("Granted", Tone::Green, "Granted", false, false));
    let l = row_look(0, PermState::Granted, 3, true, true, false);
    assert_eq!(l.status, "Switched on, but macOS still refused capture");
    assert_eq!(l.button, "Open System Settings");
    assert!(l.enabled);
    let l = row_look(2, PermState::NotChecked, 2, false, true, false);
    assert_eq!(l.button, "Check network access");
    assert!(l.default_button);
    let l = row_look(1, PermState::Missing, 1, true, false, true);
    assert_eq!(l.status, "Still not granted — if no prompt appeared, see below");
    let mut c = PermissionsController::new();
    let f = footer_look(&[PermState::Granted, PermState::Granted, PermState::Unknowable], &[false; 3], &c, true, 0);
    assert!(f.restart_enabled);
    assert!(!f.copy_visible);
    assert_eq!(f.restart_title, "Restart keyboard-it");
    assert!(f.footer.starts_with("Local Network has no API"));
    c.note_copied(100);
    let f = footer_look(&[PermState::Missing, PermState::Missing, PermState::NotChecked], &[true, false, false], &c, false, 200);
    assert!(!f.restart_enabled);
    assert!(f.copy_visible);
    assert_eq!(f.copy_title, "Copied ✓ — run it in Terminal");
    assert_eq!(f.restart_title, "Quit keyboard-it");
    assert!(f.footer.starts_with("If no prompt appeared"));
    let f = footer_look(&[PermState::Missing, PermState::Missing, PermState::NotChecked], &[false; 3], &c, true, 4100);
    assert_eq!(f.copy_title, "Copy reset command");
    assert!(f.footer.starts_with("macOS only applies a permission"));
}

#[test]
fn the_bundle_and_the_watcher() {
    assert!(can_relaunch(Some("/Applications/keyboard-it.app/Contents/MacOS/keyboard-it")));
    assert!(can_relaunch(Some("/x/y.app")));
    assert!(!can_relaunch(Some("/Users/k/target/release/keyboard-it")));
    assert!(!can_relaunch(Some("/x/.app/bin")));
    assert!(!can_relaunch(Some("/x/y.apps/bin")));
    assert!(!can_relaunch(None));
    assert_eq!(bundle_id(None), "com.keyboard-it.keyboard-it");
    assert_eq!(reset_command("a.b"), "sudo tccutil reset All a.b");
    let (mut need, mut restart) = (true, false);
    assert!(!watch_tick(false, &mut need, &mut restart));
    assert!(need && !restart);
    assert!(watch_tick(true, &mut need, &mut restart));
    assert!(!need && restart);
}

#[test]
fn the_first_run_wizard() {
    assert_eq!(wizard_next(false, false), Some(PermissionKind::InputMonitoring));
    assert_eq!(wizard_next(true, false), Some(PermissionKind::Accessibility));
    assert_eq!(wizard_next(true, true), None);
    assert_eq!(wizard_choice(0, true), WizardAction::Relaunch);
    assert_eq!(wizard_choice(0, false), WizardAction::NotYet);
    assert_eq!(wizard_choice(1, false), WizardAction::OpenPane);
    assert_eq!(wizard_choice(2, true), WizardAction::Postpone);
    assert_eq!(wizard_waiting_title("Accessibility"), "Accessibility — waiting for the permission");
    assert_eq!(wizard_not_granted_title("Accessibility"), "Accessibility is not granted yet");
    assert!(wizard_waiting_text("X").starts_with("Switch keyboard-it ON in the X prompt (or under System Settings → Privacy & Security → X), then come back here.\n\nmacOS"));
}

#[test]
fn start_at_login() {
    assert_eq!(plist_path(Some("/Users/k")).unwrap(), "/Users/k/Library/LaunchAgents/com.keyboard-it.keyboard-it.plist");
    assert_eq!(plist_path(Some("/Users/k/")).unwrap(), "/Users/k/Library/LaunchAgents/com.keyboard-it.keyboard-it.plist");
    assert_eq!(plist_path(None), None);
    let text = plist_text("/A.app/Contents/MacOS/a");
    assert!(text.contains("\t\t<string>/A.app/Contents/MacOS/a</string>\n"));
    assert!(text.starts_with("<?xml version=\"1.0\" encoding=\"UTF-8\"?>\n"));
    assert!(text.ends_with("</plist>\n"));
    assert_eq!(
        task_params(true, "C:\\k.exe"),
        "/Create /TN keyboard-it /TR \"\\\"C:\\k.exe\\\"\" /SC ONLOGON /RL HIGHEST /F"
    );
    assert_eq!(task_params(false, "x"), "/Delete /TN keyboard-it /F");
    assert!(needs_change(true, false));
    assert!(!needs_change(true, true));
}

#[test]
fn the_popup_is_sorted_by_name_and_rebuilt_only_on_change() {
    let mk = |n: &str, host: &str| make_peer(&format!("{n}._keyboard-it._tcp.local."), host, "", 1, None);
    let list = vec![mk("b", "1"), mk("B", "2"), mk("a", "3"), mk("b", "4"), mk("ab", "5"), mk("é", "6")];
    let sorted = sort_by_name(&list);
    let order: Vec<(&str, &str)> = sorted.iter().map(|p| (p.name.as_str(), p.host.as_str())).collect();
    assert_eq!(order, vec![("B", "2"), ("a", "3"), ("ab", "5"), ("b", "1"), ("b", "4"), ("é", "6")]);
    assert!(sort_by_name(&vec![]).is_empty());
    assert!(same_peers(&sorted, &sort_by_name(&list)));
    assert!(!same_peers(&sorted, &list));
    assert!(!same_peers(&sorted, &sorted[..2].to_vec()));
    let rows = vec!["x".to_string(), "A (1)".to_string(), "A (1)".to_string()];
    assert_eq!(row_with_title(&rows, "A (1)"), Some(1));
    assert_eq!(row_with_title(&rows, "nope"), None);
}
