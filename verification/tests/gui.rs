use digital_paper::domain::{
    BatteryStatus, DeviceStatus, DeviceSummary, RemoteEntry, RemoteEntryType, StorageStatus,
};
use digital_paper::gui::add_device::{initial_ip, AddDeviceState};
use digital_paper::gui::launcher::{unpaired_message, unreadable_message, LauncherState, OpenStep};
use digital_paper::gui::library::{
    export_outcome, open_outcome, perform_transfer_sync, wrap_name_for_ui, ClickStep, DroppedFile,
    ImportStep, LibraryState, TransferOutcome,
};
use digital_paper::tui::events::{CopyEnd, HelperEnd};
use digital_paper::tui::screen::EntryMeta;

fn s(text: &str) -> String {
    text.to_string()
}

fn device(addr: Option<&str>, paired: bool) -> DeviceSummary {
    DeviceSummary {
        id: s("id"),
        serial: None,
        name: s("Paper"),
        reachable_addrs: addr.into_iter().map(s).collect(),
        transport_kinds: vec![],
        paired,
    }
}

fn file(path: &str) -> RemoteEntry {
    RemoteEntry {
        path: s(path),
        name: s(path.rsplit('/').next().unwrap()),
        entry_type: RemoteEntryType::Document,
        size: Some(0),
        modified_at: None,
    }
}

fn folder(path: &str) -> RemoteEntry {
    RemoteEntry {
        entry_type: RemoteEntryType::Folder,
        ..file(path)
    }
}

#[test]
fn the_launcher_opens_or_pairs() {
    let mut state = LauncherState::new(1000);
    assert!(state.scanning);
    assert!(!state.request_scan(1001));
    state.scanned(Ok(device(Some("h"), true)));
    assert!(state.take_auto_open().is_some());
    assert!(state.take_auto_open().is_none());
    assert!(!state.scan_due(3999));
    assert!(state.scan_due(4000));
    assert!(state.request_scan(4000));
    state.scanned(Ok(device(Some("h"), false)));
    assert_eq!(state.take_auto_pair(), Some(s("digitalpaper.local")));
    for message in ["pairing required", "authentication failed", "device not found"] {
        state.scanned(Err(s(message)));
        assert_eq!(state.take_auto_pair(), Some(s("digitalpaper.local")));
        assert_eq!(state.error, None);
    }
    state.scanned(Err(s("down")));
    assert_eq!(state.error, Some(s("Could not reach digitalpaper.local: down")));
    assert!(!state.sync_external_refresh(0, 9000));
    assert!(state.sync_external_refresh(1, 9000));
    assert_eq!(state.error, None);
    assert!(!state.sync_external_refresh(1, 9000));
    assert_eq!(state.face().0, "Connecting");
    assert_eq!(state.face().4, "Target: digitalpaper.local");
}

#[test]
fn devices_are_opened_from_the_launcher() {
    let mut state = LauncherState::new(0);
    let target = device(Some("h"), true);
    let with = state.begin_open_device(&target);
    assert_eq!(with.addr, Some(s("h")));
    assert_eq!(with.serial, target.serial);
    assert_eq!(with.transport, target.transport_kinds.first().copied());
    assert_eq!(state.busy_modal.as_ref().unwrap().detail, "Connecting to Paper…");
    assert!(matches!(
        LauncherState::opened(&target, Ok(device(Some("h"), true))),
        OpenStep::Validate(_)
    ));
    match LauncherState::opened(&target, Ok(device(None, false))) {
        OpenStep::Pair(addr) => assert_eq!(addr, "h"),
        _ => panic!("no pairing"),
    }
    match LauncherState::opened(&target, Err(s("e"))) {
        OpenStep::Failed(e) => state.settle(Some(e)),
        _ => panic!("no failure"),
    }
    assert_eq!(state.error, Some(s("e")));
    assert!(state.busy_modal.is_none());
    assert_eq!(
        unreadable_message("e"),
        "This address was discovered, but the DPT library could not be opened: e"
    );
    assert_eq!(unpaired_message("a", "e"), "Could not start pairing for a: e");
}

#[test]
fn adding_a_device() {
    let mut state = AddDeviceState::new();
    assert_eq!(initial_ip(Some(s("x")), &None), "x");
    assert_eq!(initial_ip(None, &Some(s(" y "))), "y");
    assert_eq!(state.begin_pair_for_current_ip(" "), None);
    assert_eq!(state.message, Some(s("Device IP is required")));
    assert_eq!(state.begin_pair_for_current_ip(" h "), Some(s("h")));
    assert_eq!(
        state.busy_modal.as_ref().unwrap().detail,
        "Asking h to show a pairing PIN…"
    );
    state.pairing_begun(None);
    assert_eq!(
        state.message,
        Some(s("The DPT should now show a PIN. Enter it here, then click Pair."))
    );
    state.pairing_begun(Some(s("e")));
    assert_eq!(state.message, Some(s("Could not start pairing: e")));
    assert_eq!(state.on_connect(" h"), "h");
    state.connected(Err(s("e")));
    assert_eq!(state.message, Some(s("Connect failed: e")));
    assert_eq!(state.on_pair(""), None);
    assert_eq!(state.message, Some(s("PIN is required")));
    assert_eq!(state.on_pair("1 "), Some(s("1")));
    assert!(!state.paired(Err(s("e"))));
    assert_eq!(state.message, Some(s("Pair failed: e")));
    assert_eq!(state.connected_line(), None);
    assert!(state.paired(Ok(device(Some("h"), true))));
    assert_eq!(state.message, Some(s("Paired with Paper")));
    assert_eq!(state.connected_line(), Some(s("Paper (h)")));
    assert!(state.on_open_library().is_some());
    state.library_opened(Some(s("e")));
    assert_eq!(state.message, Some(s("Open failed: e")));
    assert!(state.busy_modal.is_none());
}

fn library() -> LibraryState {
    let mut state = LibraryState::new(device(Some("h"), true));
    assert_eq!(state.missing_folder(), Some(s("Document")));
    state.reload(Ok(vec![folder("Document/a"), file("Document/x-1.pdf")]), None);
    state
}

#[test]
fn clicking_rows() {
    let mut state = library();
    match state.on_row_click(&folder("Document/a"), 1) {
        ClickStep::Load(path) => assert_eq!(path, "Document/a"),
        _ => panic!("not loaded"),
    }
    assert_eq!(state.missing_folder(), Some(s("Document/a")));
    assert!(!state.has_listing("Document/a"));
    assert!(state.has_listing("Document"));
    state.load_children("Document/a", Err(s("e")));
    assert_eq!(state.message, Some(s("Error: failed to load Document/a: e")));
    assert_eq!(state.missing_folder(), None);
    assert_eq!(
        state.target_folder(&Some(folder("Document/a"))),
        "Document/a"
    );
    assert_eq!(state.target_folder(&Some(folder("Document/b"))), "Document");
    assert_eq!(state.target_folder(&None), "Document");
    assert!(matches!(
        state.on_row_click(&folder("Document/a"), 1),
        ClickStep::Nothing
    ));
    assert!(matches!(
        state.on_row_click(&file("Document/x-1.pdf"), 1),
        ClickStep::Nothing
    ));
    assert!(matches!(
        state.on_row_click(&file("Document/x-1.pdf"), 2),
        ClickStep::Open(_)
    ));
    let (rows, count) = state.render();
    assert_eq!(count, "2 items");
    assert_eq!(rows[0].icon, "📁");
    assert!(!rows[0].is_file);
    assert_eq!(rows[0].drop_target, "Document/a");
    assert_eq!(rows[1].icon, "📄");
    assert_eq!(rows[1].name, "x-\u{200B}1.\u{200B}pdf");
    assert_eq!(rows[1].meta, EntryMeta::File);
    assert!(rows[1].selected);
    assert_eq!(rows[1].drop_target, "Document");
    assert_eq!(state.drop_target_for_entry(&file("top")), "Document");
}

#[test]
fn names_may_break_after_separators() {
    assert_eq!(wrap_name_for_ui("a_b"), "a_\u{200B}b");
    assert_eq!(wrap_name_for_ui("一，二。"), "一，\u{200B}二。\u{200B}");
    let name = "x-y_z.pdf";
    assert_eq!(wrap_name_for_ui(name).replace('\u{200B}', ""), name);
}

#[test]
fn transfers_end_with_a_message_or_a_reload() {
    let end = |dropped: &[Option<Option<&str>>], results: &[bool]| {
        let dropped: Vec<DroppedFile> = dropped
            .iter()
            .map(|item| match item {
                None => DroppedFile::NoFile,
                Some(None) => DroppedFile::NoName,
                Some(Some(name)) => DroppedFile::File {
                    local: format!("/l/{}", name),
                    name: s(name),
                },
            })
            .collect();
        match perform_transfer_sync(&dropped, "D/", &results.to_vec()) {
            ImportStep::Upload(local, remote) => Err((local, remote)),
            ImportStep::Done(outcome) => Ok((outcome.message, outcome.should_reload)),
        }
    };
    let nothing = (Some(s("Error: no files were imported.")), false);
    assert_eq!(end(&[], &[]), Ok(nothing.clone()));
    assert_eq!(end(&[None], &[]), Ok(nothing));
    let two = [Some(Some("a")), None, Some(None), Some(Some("b"))];
    assert_eq!(end(&two, &[]), Err((s("/l/a"), s("D/a"))));
    assert_eq!(end(&two, &[false]), Err((s("/l/b"), s("D/b"))));
    assert_eq!(
        end(&two, &[false, true]),
        Ok((
            Some(s("Error: import completed with 2 failed file(s).")),
            true
        ))
    );
    assert_eq!(end(&[Some(Some("a")), None], &[true]), Ok((None, true)));
    assert_eq!(
        end(&[Some(Some("a"))], &[false]),
        Ok((
            Some(s("Error: import completed with 1 failed file(s).")),
            false
        ))
    );
    assert_eq!(export_outcome(None).message, None);
    assert_eq!(
        export_outcome(Some(s("e"))).message,
        Some(s("Error: export failed: e"))
    );
    for (copy, message) in [
        (
            CopyEnd::NoFolder(s("e")),
            Some("Error: open failed: cannot create temp dir: e"),
        ),
        (CopyEnd::NoDownload(s("e")), Some("Error: download failed: e")),
        (CopyEnd::Shown(HelperEnd::Success), None),
        (
            CopyEnd::Shown(HelperEnd::Code(s("3"))),
            Some("Error: open failed with status 3"),
        ),
        (
            CopyEnd::Shown(HelperEnd::Unstarted(s("e"))),
            Some("Error: open failed: e"),
        ),
    ] {
        let outcome = open_outcome(&copy);
        assert_eq!(outcome.message, message.map(s));
        assert!(!outcome.should_reload);
    }
}

#[test]
fn transfers_are_noted() {
    let mut state = library();
    assert!(!state.on_external_drop("Document", 0));
    assert!(state.on_external_drop("Document", 2));
    assert_eq!(
        state.transfer_modal.as_ref().unwrap().detail,
        "Uploading 2 file(s) to Document…"
    );
    state.transferred(TransferOutcome {
        message: Some(s("m")),
        should_reload: false,
    });
    assert_eq!(state.bottom_line(), "m");
    assert!(!state.may_export(&folder("f")));
    assert_eq!(state.message, Some(s("Error: export only supports files.")));
    assert!(state.may_export(&file("f")));
    state.on_export_entry(&file("f"));
    assert_eq!(state.transfer_modal.as_ref().unwrap().detail, "Saving f…");
    assert!(!state.on_open_entry(&folder("f")));
    assert_eq!(state.message, Some(s("Error: open works for files only.")));
    assert!(state.on_open_entry(&file("f")));
    assert_eq!(state.transfer_modal.as_ref().unwrap().title, "Opening File");
}

#[test]
fn renaming_and_deleting() {
    let mut state = library();
    assert_eq!(state.on_apply_rename("x"), None);
    let mut pending = false;
    assert_eq!(
        state.maybe_handle_pending_rename(&mut pending, &Some(file("Document/x"))),
        None
    );
    assert_eq!(state.rename_target, None);
    pending = true;
    assert_eq!(state.maybe_handle_pending_rename(&mut pending, &None), None);
    assert!(!pending);
    assert_eq!(
        state.message,
        Some(s("Select a file or folder first, then use Rename."))
    );
    assert_eq!(
        state.maybe_handle_pending_rename(&mut pending, &Some(file("Document/y"))),
        None
    );
    assert_eq!(state.rename_target, None);
    pending = true;
    assert_eq!(
        state.maybe_handle_pending_rename(&mut pending, &Some(file("Document/x"))),
        Some(s("x"))
    );
    assert!(!pending);
    assert_eq!(state.rename_target, Some(s("Document/x")));
    assert_eq!(state.on_apply_rename(" "), None);
    assert_eq!(
        state.message,
        Some(s("Error: rename failed: name cannot be empty"))
    );
    assert_eq!(
        state.on_apply_rename(" y "),
        Some((s("Document/x"), s("y")))
    );
    assert_eq!(state.transfer_modal.as_ref().unwrap().detail, "Renaming to y…");
    state.renamed(Some(s("e")));
    assert_eq!(state.message, Some(s("Error: rename failed: e")));
    assert!(state.rename_target.is_some());
    state.renamed(None);
    assert!(state.rename_target.is_none());
    state.on_delete_entry();
    assert_eq!(
        state.transfer_modal.as_ref().unwrap().detail,
        "Removing the selected item…"
    );
    state.deleted(Some(s("e")));
    assert_eq!(state.message, Some(s("Error: delete failed: e")));
    state.deleted(None);
    assert_eq!(state.message, None);
    assert_eq!(state.bottom_line(), "Device info unavailable");
}

#[test]
fn the_footer_tells_of_the_device() {
    let mut state = library();
    state.reload(
        Ok(vec![]),
        Some(DeviceStatus {
            battery: BatteryStatus {
                level_percent: Some(7),
                charging: true,
            },
            storage: StorageStatus {
                total_bytes: None,
                free_bytes: None,
            },
            firmware_version: None,
            owner: Some(s("me")),
            wifi_enabled: true,
        }),
    );
    assert_eq!(
        state.footer_text(),
        "Battery 7%, Wi-Fi on, firmware unknown, owner me"
    );
}
