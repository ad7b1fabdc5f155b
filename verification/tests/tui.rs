use digital_paper::domain::{
    BatteryStatus, DeviceStatus, DeviceSummary, RemoteEntry, RemoteEntryType, StorageStatus,
    UsbStatus, UsbStatusKind,
};
use digital_paper::tui::events::{imported_message, open_message, reveal_message, CopyEnd, HelperEnd};
use digital_paper::tui::layout::{buttons_area, library_areas};
use digital_paper::tui::mouse::{context_menu_rect, list_hit_index, menu_hit_index};
use digital_paper::tui::screen::EntryMeta;
use digital_paper::tui::search::{spawn_search_job, Listed, SearchUpdate};
use digital_paper::tui::state::{
    default_device_addr, normalize_paste_text, AddField, Area, Effect, Key, Label, Mouse, MouseKind,
    PromptKind, Screen, TuiApp,
};
use digital_paper::tree::collections::TextSet;

fn s(text: &str) -> String {
    text.to_string()
}

fn device(name: &str, addr: Option<&str>, paired: bool) -> DeviceSummary {
    DeviceSummary {
        id: s(name),
        serial: None,
        name: s(name),
        reachable_addrs: addr.into_iter().map(s).collect(),
        transport_kinds: vec![],
        paired,
    }
}

fn file(path: &str) -> RemoteEntry {
    RemoteEntry {
        path: s(path),
        name: s(path.rsplit('/').next().unwrap()),
        entry_type: RemoteEntryType::Document,
        size: Some(1_048_576),
        modified_at: None,
    }
}

fn folder(path: &str) -> RemoteEntry {
    RemoteEntry {
        entry_type: RemoteEntryType::Folder,
        size: None,
        ..file(path)
    }
}

fn usb(kind: UsbStatusKind, addr: Option<&str>) -> UsbStatus {
    UsbStatus {
        kind,
        tty_paths: vec![],
        iface_names: vec![],
        candidate_addrs: vec![],
        endpoint_addr: addr.map(s),
        message: s("usb."),
    }
}

fn library() -> TuiApp {
    let mut app = TuiApp::new(s("digitalpaper.local"));
    app.open_browser(device("Paper", Some("1.2.3.4"), true));
    app.reload_browser(
        None,
        Ok(vec![folder("Document/a"), file("Document/x.pdf"), folder("Document/b")]),
    );
    app.settle_selection();
    app
}

fn rows(app: &TuiApp) -> Vec<(String, usize)> {
    app.browser
        .as_ref()
        .unwrap()
        .visible_nodes()
        .into_iter()
        .map(|row| (row.entry.path, row.depth))
        .collect()
}

fn message(app: &TuiApp) -> String {
    app.browser.as_ref().unwrap().message.clone().unwrap_or_default()
}

fn selected(app: &TuiApp) -> String {
    app.selected_entry().unwrap().path
}

#[test]
fn scanning_offers_devices_or_tells_of_usb() {
    let mut app = TuiApp::new(s("h"));
    app.launcher_index = 7;
    app.scan_devices(
        Some(vec![
            device("a", Some("1"), false),
            device("b", None, true),
            device("c", None, false),
        ]),
        None,
    );
    assert_eq!(app.devices.len(), 2);
    assert_eq!(app.launcher_index, 1);
    for (kind, hint, attached) in [
        (
            UsbStatusKind::DptEndpointReachable,
            "usb. Press 'u' to recover/recheck and start pairing.",
            true,
        ),
        (
            UsbStatusKind::UsbSerialOnly,
            "usb. Press 'u' to switch USB mode to network and retry.",
            true,
        ),
        (
            UsbStatusKind::UsbNetworkVisible,
            "usb. Press 'u' to retry endpoint recovery.",
            true,
        ),
        (UsbStatusKind::NoUsbHardware, "usb.", false),
    ] {
        app.scan_devices(None, Some(usb(kind, Some("e"))));
        assert!(app.devices.is_empty());
        assert_eq!(app.usb_hint, Some(s(hint)));
        assert_eq!(app.usb_attached, attached);
        assert_eq!(app.usb_candidate, Some(s("e")));
    }
}

#[test]
fn keys_on_the_launcher() {
    let mut app = TuiApp::new(s("h"));
    app.scan_devices(
        Some(vec![device("a", Some("1"), true), device("b", Some("2"), false)]),
        None,
    );
    assert!(matches!(app.handle_key(Key::Char('r')), Effect::Scan));
    assert!(matches!(app.handle_key(Key::Char('u')), Effect::RecoverUsb));
    app.handle_key(Key::Up);
    assert_eq!(app.launcher_index, 0);
    app.handle_key(Key::Down);
    app.handle_key(Key::Char('j'));
    assert_eq!(app.launcher_index, 1);
    app.handle_key(Key::Enter);
    assert_eq!(app.screen, Screen::AddDevice);
    assert_eq!(app.add_ip, "2");
    assert_eq!(app.add_message, Some(s("Device detected but not paired yet.")));
    app.handle_key(Key::Esc);
    assert_eq!(app.screen, Screen::Launcher);
    app.handle_key(Key::Char('k'));
    match app.handle_key(Key::Enter) {
        Effect::OpenLibrary(addr) => assert_eq!(addr, Some(s("1"))),
        _ => panic!("not opened"),
    }
    assert_eq!(app.screen, Screen::Browser);
    app.screen = Screen::Launcher;
    app.handle_key(Key::Char('a'));
    assert_eq!(app.screen, Screen::AddDevice);
    app.screen = Screen::Launcher;
    app.handle_key(Key::Char('q'));
    assert!(app.should_quit);
}

#[test]
fn keys_on_the_screen_that_adds_a_device() {
    let mut app = TuiApp::new(s(" "));
    app.screen = Screen::AddDevice;
    assert!(matches!(app.handle_key(Key::Enter), Effect::Nothing));
    assert_eq!(app.add_message, Some(s("Device IP is required.")));
    app.handle_key(Key::Backspace);
    for c in ['1', '.', '\u{7}', '2'] {
        app.handle_key(Key::Char(c));
    }
    assert_eq!(app.add_ip, "1.2");
    match app.handle_key(Key::Char('c')) {
        Effect::Connect(ip) => assert_eq!(ip, "1.2"),
        _ => panic!("no connect"),
    }
    match app.handle_key(Key::Char('o')) {
        Effect::ConnectThenOpen(ip) => assert_eq!(ip, "1.2"),
        _ => panic!("no connect"),
    }
    app.connected(Err(s("why")));
    assert_eq!(app.add_message, Some(s("Connect failed: why")));
    assert!(matches!(app.open_connected(), Effect::Nothing));
    app.connected(Ok(device("P", Some("1.2"), true)));
    assert_eq!(app.add_message, Some(s("Connected to P")));
    assert!(matches!(app.handle_key(Key::Char('o')), Effect::OpenLibrary(_)));
    app.screen = Screen::AddDevice;
    app.handle_key(Key::Tab);
    assert_eq!(app.add_field, AddField::Pin);
    assert!(matches!(app.handle_key(Key::Enter), Effect::Nothing));
    assert_eq!(app.add_message, Some(s("PIN is required.")));
    app.handle_paste(" '12345678'\n");
    match app.handle_key(Key::Char('p')) {
        Effect::Pair(pin) => assert_eq!(pin, "12345678"),
        _ => panic!("no pairing"),
    }
    assert!(matches!(app.paired(Err(s("no"))), Effect::Nothing));
    assert_eq!(app.add_message, Some(s("Pair failed: no")));
    assert!(matches!(app.paired(Ok(device("P", None, true))), Effect::Scan));
    assert_eq!(app.add_message, Some(s("Paired with P")));
    app.handle_key(Key::BackTab);
    assert_eq!(app.add_field, AddField::Ip);
}

#[test]
fn usb_recovery_begins_a_pairing() {
    let mut app = TuiApp::new(s("h"));
    match app.recover_usb_network(Ok(usb(UsbStatusKind::DptEndpointReachable, Some("e")))) {
        Effect::BeginPair(ip) => assert_eq!(ip, "e"),
        _ => panic!("no pairing"),
    }
    assert_eq!(app.screen, Screen::AddDevice);
    assert_eq!(app.launcher_message, Some(s("usb.")));
    app.pairing_begun("e", None);
    assert_eq!(
        app.add_message,
        Some(s("The DPT should now show a PIN for e. Enter it, then press 'p'."))
    );
    app.pairing_begun("e", Some(s("x")));
    assert_eq!(app.add_message, Some(s("Could not start pairing: x")));
    assert!(matches!(
        app.recover_usb_network(Ok(usb(UsbStatusKind::NoUsbHardware, None))),
        Effect::Scan
    ));
    assert!(matches!(app.recover_usb_network(Err(s("x"))), Effect::Nothing));
    assert_eq!(app.launcher_error, Some(s("USB recover failed: x")));
}

#[test]
fn folders_are_unfolded_and_their_listings_asked_for() {
    let mut app = library();
    assert_eq!(
        rows(&app),
        vec![(s("Document/a"), 0), (s("Document/x.pdf"), 0), (s("Document/b"), 0)]
    );
    match app.handle_key(Key::Enter) {
        Effect::Load(path) => assert_eq!(path, "Document/a"),
        _ => panic!("not loaded"),
    }
    assert_eq!(app.missing_folder(), Some(s("Document/a")));
    assert!(!app.has_listing("Document/a"));
    assert!(app.has_listing("Document"));
    app.load_children("Document/a", Ok(vec![folder("Document/a/deep"), file("Document/a/y")]));
    assert_eq!(app.missing_folder(), None);
    assert_eq!(
        rows(&app),
        vec![
            (s("Document/a"), 0),
            (s("Document/a/deep"), 1),
            (s("Document/a/y"), 1),
            (s("Document/x.pdf"), 0),
            (s("Document/b"), 0),
        ]
    );
    app.handle_key(Key::Down);
    app.handle_key(Key::Char(' '));
    assert_eq!(app.missing_folder(), Some(s("Document/a/deep")));
    app.load_children("Document/a/deep", Err(s("gone")));
    assert_eq!(message(&app), "Failed to load Document/a/deep: gone");
    assert_eq!(app.missing_folder(), None);
    app.retry_folders();
    assert_eq!(app.missing_folder(), Some(s("Document/a/deep")));
    app.handle_key(Key::Up);
    app.handle_key(Key::Left);
    assert_eq!(rows(&app).len(), 3);
}

#[test]
fn keys_in_the_library() {
    let mut app = library();
    assert_eq!(selected(&app), "Document/a");
    app.handle_key(Key::Char('o'));
    assert_eq!(message(&app), "Open works for files only.");
    app.handle_key(Key::Char('e'));
    assert_eq!(message(&app), "Export works for files only.");
    app.handle_key(Key::Char('j'));
    assert_eq!(selected(&app), "Document/x.pdf");
    match app.handle_key(Key::Enter) {
        Effect::OpenFile(entry) => assert_eq!(entry.path, "Document/x.pdf"),
        _ => panic!("not opened"),
    }
    app.handle_key(Key::Down);
    app.handle_key(Key::Down);
    assert_eq!(selected(&app), "Document/b");
    assert!(matches!(app.handle_key(Key::Char('R')), Effect::Reload));
    assert!(matches!(app.handle_key(Key::Esc), Effect::Scan));
    assert_eq!(app.screen, Screen::Launcher);
    app.screen = Screen::Browser;
    app.handle_key(Key::Char('q'));
    assert!(app.should_quit);
}

#[test]
fn renaming_by_prompt() {
    let mut app = library();
    app.handle_key(Key::Char('r'));
    assert_eq!(app.prompt.as_ref().unwrap().input, "a");
    assert_eq!(app.prompt.as_ref().unwrap().detail, "Rename a");
    assert!(matches!(app.handle_key(Key::Enter), Effect::Nothing));
    assert_eq!(message(&app), "Rename cancelled.");
    app.handle_key(Key::Char('r'));
    app.handle_key(Key::Backspace);
    app.handle_key(Key::Char('n'));
    match app.handle_key(Key::Enter) {
        Effect::Rename(path, name) => {
            assert_eq!((path.as_str(), name.as_str()), ("Document/a", "n"));
        }
        _ => panic!("not renamed"),
    }
    assert!(app.prompt.is_none());
}

#[test]
fn deletions_must_be_confirmed() {
    let mut app = library();
    app.handle_key(Key::Char('d'));
    app.handle_paste("delete");
    assert!(matches!(app.handle_key(Key::Enter), Effect::Nothing));
    assert_eq!(message(&app), "Delete cancelled.");
    app.handle_key(Key::Char('d'));
    assert_eq!(app.prompt.as_ref().unwrap().detail, "Type DELETE to remove a");
    app.handle_paste("DELETE");
    match app.handle_key(Key::Enter) {
        Effect::Delete(path) => assert_eq!(path, "Document/a"),
        _ => panic!("not deleted"),
    }
    app.handle_key(Key::Char('d'));
    app.handle_key(Key::Esc);
    assert!(app.prompt.is_none());
}

#[test]
fn imports_and_exports_by_prompt() {
    let mut app = library();
    app.handle_key(Key::Char('i'));
    assert_eq!(
        app.prompt.as_ref().unwrap().detail,
        "Local file or folder to upload into Document/a"
    );
    app.handle_paste("\"/tmp/x.pdf\"");
    match app.handle_key(Key::Enter) {
        Effect::Import(local, folder) => {
            assert_eq!((local.as_str(), folder.as_str()), ("/tmp/x.pdf", "Document/a"));
        }
        _ => panic!("not imported"),
    }
    app.handle_key(Key::Down);
    app.handle_key(Key::Char('e'));
    match app.handle_key(Key::Enter) {
        Effect::Export(remote, local) => {
            assert_eq!((remote.as_str(), local.as_str()), ("Document/x.pdf", "x.pdf"));
        }
        _ => panic!("not exported"),
    }
    app.handle_key(Key::Char('e'));
    for _ in 0..5 {
        app.handle_key(Key::Backspace);
    }
    assert!(matches!(app.handle_key(Key::Enter), Effect::Nothing));
    assert_eq!(message(&app), "Export cancelled.");
    app.handle_key(Key::Char('i'));
    match &app.prompt.as_ref().unwrap().kind {
        PromptKind::Import { folder } => assert_eq!(folder, "Document"),
        _ => panic!("no import"),
    }
    assert_eq!(imported_message(3), "Imported 3 file(s).");
}

#[test]
fn searching_from_the_keyboard() {
    let mut app = library();
    app.handle_key(Key::Char('/'));
    assert!(app.browser.as_ref().unwrap().search_mode);
    match app.handle_key(Key::Char('y')) {
        Effect::Search(root, query) => {
            assert_eq!((root.as_str(), query.as_str()), ("Document", "y"));
        }
        _ => panic!("no search"),
    }
    assert!(app.searching);
    assert!(rows(&app).is_empty());
    app.apply_search_update(SearchUpdate::Progress {
        query: s("y"),
        current_path: s("Document"),
        visited_folders: 1,
    });
    assert_eq!(
        app.browser.as_ref().unwrap().search_progress,
        Some(s("Searching 'y'... 1 folders scanned, now at Document"))
    );
    let listings: Vec<Listed> = vec![
        Ok(vec![folder("Document/a"), file("Document/x.pdf")]),
        Ok(vec![file("Document/a/Y.pdf")]),
    ];
    app.apply_search_update(spawn_search_job("Document", "y", &listings));
    assert!(!app.searching);
    assert_eq!(rows(&app), vec![(s("Document/a"), 0), (s("Document/a/Y.pdf"), 1)]);
    assert_eq!(
        app.browser.as_ref().unwrap().search_progress,
        Some(s("Search complete for 'y': 2 folders scanned."))
    );
    app.handle_key(Key::Enter);
    assert_eq!(message(&app), "Filtered recursively by 'y'.");
    app.handle_key(Key::Char('/'));
    app.handle_key(Key::Esc);
    assert_eq!(
        message(&app),
        "Search kept: y matching recursively under Document."
    );
    app.handle_key(Key::Char('/'));
    app.handle_key(Key::Backspace);
    assert_eq!(rows(&app).len(), 3);
    app.handle_key(Key::Esc);
    assert_eq!(message(&app), "Search closed.");
    app.handle_key(Key::Char('/'));
    app.handle_paste(" z ");
    assert_eq!(app.browser.as_ref().unwrap().search_query, "z");
    app.apply_search_update(SearchUpdate::Finished {
        query: s("old"),
        results: vec![],
        visited_folders: 1,
    });
    assert!(!app.searching);
    app.apply_search_update(SearchUpdate::Failed {
        query: s("z"),
        error: s("failed to list Document"),
    });
    assert_eq!(
        app.browser.as_ref().unwrap().search_progress,
        Some(s("Search failed for 'z': failed to list Document"))
    );
}

#[test]
fn searches_go_through_every_folder() {
    let mut listings: Vec<Listed> = Vec::new();
    let mut asked = Vec::new();
    loop {
        match spawn_search_job("D", "PDF", &listings) {
            SearchUpdate::Progress {
                query,
                current_path,
                visited_folders,
            } => {
                assert_eq!(query, "PDF");
                assert_eq!(visited_folders, listings.len() + 1);
                let found = match current_path.as_str() {
                    "D" => vec![folder("D/empty"), folder("D/pdfs"), file("D/n.txt")],
                    "D/pdfs" => vec![folder("D/pdfs/in")],
                    "D/pdfs/in" => vec![file("D/pdfs/in/k.pdf"), file("D/pdfs/in/k.txt")],
                    _ => vec![],
                };
                asked.push(current_path);
                listings.push(Ok(found));
            }
            SearchUpdate::Finished {
                results,
                visited_folders,
                ..
            } => {
                assert_eq!(visited_folders, 4);
                let shown: Vec<(String, usize)> =
                    results.into_iter().map(|r| (r.entry.path, r.depth)).collect();
                assert_eq!(
                    shown,
                    vec![(s("D/pdfs"), 0), (s("D/pdfs/in"), 1), (s("D/pdfs/in/k.pdf"), 2)]
                );
                break;
            }
            SearchUpdate::Failed { error, .. } => panic!("{}", error),
        }
    }
    assert_eq!(asked, vec!["D", "D/empty", "D/pdfs", "D/pdfs/in"]);
    match spawn_search_job("D", "x", &vec![Err(s("boom"))]) {
        SearchUpdate::Failed { error, .. } => assert_eq!(error, "failed to list D"),
        _ => panic!("no failure"),
    }
}

fn mouse(kind: MouseKind, column: u16, row: u16) -> Mouse {
    Mouse { kind, column, row }
}

#[test]
fn double_clicks_on_the_launcher() {
    let mut app = TuiApp::new(s("h"));
    app.scan_devices(
        Some(vec![device("a", Some("1"), true), device("b", Some("2"), true)]),
        None,
    );
    assert!(matches!(
        app.handle_mouse(mouse(MouseKind::Left, 0, 5), None, 1000),
        Effect::Nothing
    ));
    assert_eq!(app.launcher_index, 1);
    assert!(matches!(
        app.handle_mouse(mouse(MouseKind::Left, 0, 5), None, 1501),
        Effect::Nothing
    ));
    assert!(matches!(
        app.handle_mouse(mouse(MouseKind::Left, 0, 4), None, 1600),
        Effect::Nothing
    ));
    assert!(matches!(
        app.handle_mouse(mouse(MouseKind::Left, 0, 4), None, 2100),
        Effect::OpenLibrary(_)
    ));
    app.screen = Screen::Launcher;
    app.handle_mouse(mouse(MouseKind::ScrollDown, 0, 0), None, 0);
    app.handle_mouse(mouse(MouseKind::ScrollDown, 0, 0), None, 0);
    assert_eq!(app.launcher_index, 1);
    app.handle_mouse(mouse(MouseKind::ScrollUp, 0, 0), None, 0);
    assert_eq!(app.launcher_index, 0);
}

#[test]
fn clicks_in_the_library() {
    let mut app = library();
    let area = Some(Area {
        x: 0,
        y: 20,
        width: 80,
        height: 3,
    });
    app.handle_mouse(mouse(MouseKind::ScrollDown, 0, 0), area, 0);
    assert_eq!(selected(&app), "Document/x.pdf");
    app.handle_mouse(mouse(MouseKind::ScrollUp, 0, 0), area, 0);
    assert_eq!(selected(&app), "Document/a");
    app.handle_mouse(mouse(MouseKind::Left, 0, 5), area, 100);
    assert_eq!(selected(&app), "Document/x.pdf");
    assert!(matches!(
        app.handle_mouse(mouse(MouseKind::Left, 0, 5), area, 200),
        Effect::OpenFile(_)
    ));
    assert!(matches!(
        app.handle_mouse(mouse(MouseKind::Left, 7, 21), area, 300),
        Effect::Nothing
    ));
    assert!(matches!(
        app.handle_mouse(mouse(MouseKind::Left, 13, 21), area, 300),
        Effect::Scan
    ));
    app.screen = Screen::Browser;
    assert!(matches!(
        app.handle_mouse(mouse(MouseKind::Left, 16, 21), area, 300),
        Effect::Reload
    ));
    app.handle_mouse(mouse(MouseKind::Right, 5, 6), area, 400);
    assert_eq!(selected(&app), "Document/b");
    let menu = app.context_menu.as_ref().unwrap();
    let labels: Vec<Label> = menu.buttons.iter().map(|b| b.label).collect();
    assert_eq!(
        labels,
        vec![Label::Toggle, Label::Back, Label::Reload, Label::Import, Label::Rename, Label::Delete]
    );
    let rect = context_menu_rect(menu);
    assert_eq!((rect.x, rect.y, rect.width, rect.height), (4, 5, 16, 8));
    match app.handle_mouse(mouse(MouseKind::Left, 4, 6), area, 500) {
        Effect::Load(path) => assert_eq!(path, "Document/b"),
        _ => panic!("not toggled"),
    }
    assert!(app.context_menu.is_none());
    app.handle_mouse(mouse(MouseKind::Right, 3, 21), area, 600);
    assert!(app.context_menu.is_some());
    app.handle_mouse(mouse(MouseKind::Left, 70, 1), area, 700);
    assert!(app.context_menu.is_none());
}

#[test]
fn the_menu_from_the_keyboard() {
    let mut app = library();
    app.handle_key(Key::Down);
    app.handle_key(Key::Char('m'));
    {
        let menu = app.context_menu.as_ref().unwrap();
        assert_eq!((menu.x, menu.y, menu.selected), (8, 8, 0));
        let labels: Vec<Label> = menu.buttons.iter().map(|b| b.label).collect();
        assert_eq!(
            labels,
            vec![
                Label::Open,
                Label::Back,
                Label::Reload,
                Label::Import,
                Label::Rename,
                Label::Delete,
                Label::Export,
                Label::Reveal,
            ]
        );
    }
    for _ in 0..9 {
        app.handle_key(Key::Down);
    }
    assert_eq!(app.context_menu.as_ref().unwrap().selected, 7);
    match app.handle_key(Key::Enter) {
        Effect::Reveal(entry) => assert_eq!(entry.path, "Document/x.pdf"),
        _ => panic!("not revealed"),
    }
    app.handle_key(Key::Char('m'));
    app.handle_key(Key::Char('j'));
    app.handle_key(Key::Char('k'));
    app.handle_key(Key::Esc);
    assert!(app.context_menu.is_none());
    app.handle_key(Key::Char('m'));
    for _ in 0..3 {
        app.handle_key(Key::Down);
    }
    app.handle_key(Key::Enter);
    assert_eq!(
        app.prompt.as_ref().unwrap().detail,
        "Local file or folder to upload into Document. You can paste or drop a path here."
    );
}

#[test]
fn hits_in_lists_and_menus() {
    assert_eq!(list_hit_index(3, 4, 2), Some(0));
    assert_eq!(list_hit_index(3, 5, 2), Some(1));
    assert_eq!(list_hit_index(3, 6, 2), None);
    assert_eq!(list_hit_index(3, 3, 2), None);
    assert_eq!(list_hit_index(3, 4, 0), None);
    assert_eq!(list_hit_index(u16::MAX, u16::MAX, 1), Some(0));
    let area = Area {
        x: 4,
        y: 5,
        width: 16,
        height: 8,
    };
    assert_eq!(menu_hit_index(area, 3, 6, 6), None);
    assert_eq!(menu_hit_index(area, 4, 6, 6), Some(0));
    assert_eq!(menu_hit_index(area, 20, 6, 6), None);
}

#[test]
fn the_screens_say_what_is_so() {
    let mut app = TuiApp::new(s("h"));
    let shown = app.draw_launcher();
    assert_eq!(
        shown.discovery,
        "Looking for your Digital Paper device. Press 'r' to rescan or 'a' for manual setup."
    );
    assert_eq!(
        shown.status,
        "Keys: ↑↓ select  Enter open  a add device  u usb recover  r refresh  q quit"
    );
    assert_eq!(shown.transport, "Wi-Fi path available");
    app.usb_candidate = Some(s("e"));
    app.launcher_error = Some(s("err"));
    app.usb_attached = true;
    let shown = app.draw_launcher();
    assert_eq!(
        shown.discovery,
        "USB endpoint detected at e. Press 'u' to recover/recheck before pairing."
    );
    assert_eq!(shown.status, "err");
    assert_eq!(shown.transport, "USB hardware detected");
    app.scan_devices(
        Some(vec![device("a", Some("1"), true), device("b", Some("2"), false)]),
        None,
    );
    let lines: Vec<(String, String, String)> = app
        .draw_launcher()
        .lines
        .into_iter()
        .map(|l| (l.name, l.badge, l.addr))
        .collect();
    assert_eq!(
        lines,
        vec![
            (s("a"), s("[paired]"), s("1")),
            (s("b"), s("[detected]"), s("2")),
        ]
    );
    let add = app.draw_add_device();
    assert_eq!(add.ip, "h");
    assert!(add.ip_focused);
    assert_eq!(add.connected, "Not connected yet");
    assert_eq!(add.status, "Enter the device IP and press 'c' to connect.");
    app.connected(Ok(device("P", None, true)));
    assert_eq!(app.draw_add_device().connected, "P ()");
}

#[test]
fn the_library_as_it_is_shown() {
    let mut app = library();
    let screen = app.browser.as_ref().unwrap().draw_browser();
    assert_eq!(screen.title, "Paper");
    assert_eq!(screen.summary, "Document  |  3 items  |  search off");
    assert_eq!(screen.progress, "Press '/' for recursive search.");
    assert_eq!(screen.selected, 0);
    assert_eq!(screen.battery, "unknown");
    assert_eq!(screen.wifi, "off");
    assert_eq!(screen.buttons[0], Label::Toggle);
    assert_eq!(screen.buttons[0].text(), "Toggle");
    let lines: Vec<(String, String, EntryMeta)> = screen
        .lines
        .into_iter()
        .map(|l| (l.icon, l.name, l.meta))
        .collect();
    assert_eq!(
        lines[..2],
        [
            (s("▸"), s("a"), EntryMeta::Folder),
            (s("•"), s("x.pdf"), EntryMeta::Bytes(1_048_576)),
        ]
    );
    app.handle_key(Key::Char('/'));
    app.handle_key(Key::Char('q'));
    app.reload_browser(
        Some(DeviceStatus {
            battery: BatteryStatus {
                level_percent: Some(50),
                charging: false,
            },
            storage: StorageStatus {
                total_bytes: None,
                free_bytes: None,
            },
            firmware_version: Some(s("1.6")),
            owner: None,
            wifi_enabled: true,
        }),
        Err(s("down")),
    );
    let screen = app.browser.as_ref().unwrap().draw_browser();
    assert_eq!(screen.summary, "Document  |  0 items  |  search q _");
    assert_eq!(screen.progress, "Searching 'q'...");
    assert_eq!(
        screen.empty,
        "No recursive matches. Press '/' to edit search or backspace inside search mode."
    );
    assert_eq!(screen.battery, "50%");
    assert_eq!(screen.wifi, "on");
    assert_eq!(screen.firmware, "1.6");
    assert_eq!(screen.owner, "unknown");
    assert_eq!(screen.status, "Failed to load browser: down");
}

#[test]
fn local_copies_are_told_of() {
    for (end, opened, revealed) in [
        (CopyEnd::NoFolder(s("e")), "Open failed: e", "Reveal failed: e"),
        (CopyEnd::NoDownload(s("e")), "Download failed: e", "Download failed: e"),
        (
            CopyEnd::Shown(HelperEnd::Success),
            "Opened file locally.",
            "Downloaded and revealed a local copy in Finder. Drag from Finder if needed.",
        ),
        (
            CopyEnd::Shown(HelperEnd::Code(s("2"))),
            "open exited with status 2",
            "Reveal exited with status 2",
        ),
        (
            CopyEnd::Shown(HelperEnd::Unstarted(s("e"))),
            "open failed: e",
            "Reveal failed: e",
        ),
    ] {
        assert_eq!(open_message(&end), opened);
        assert_eq!(reveal_message(&end), revealed);
    }
}

#[test]
fn pasted_texts_lose_their_quotes() {
    assert_eq!(normalize_paste_text(" \"/a b\"\n"), "/a b");
    assert_eq!(normalize_paste_text("'x'"), "x");
    assert_eq!(normalize_paste_text("\"'x'\""), "x");
    assert_eq!(normalize_paste_text("'\"x\"'"), "\"x\"");
    assert_eq!(default_device_addr(&Some(s(" a "))), "a");
    assert_eq!(default_device_addr(&Some(s(" "))), "digitalpaper.local");
    assert_eq!(default_device_addr(&None), "digitalpaper.local");
}

#[test]
fn toggling_a_set_twice_changes_nothing() {
    let mut set = TextSet::with("a");
    set.toggle("b");
    assert!(set.contains("b"));
    set.toggle("b");
    assert!(!set.contains("b"));
    assert!(set.contains("a"));
    set.toggle("a");
    assert!(!set.contains("a"));
}

#[test]
fn the_parts_of_the_library_fill_the_terminal() {
    for height in (24..200).chain([1000, 32767, 65535]) {
        for width in [0, 1, 80, 65535] {
            let areas = library_areas(width, height);
            let rows: Vec<(u16, u16)> = areas.iter().map(|a| (a.y, a.height)).collect();
            assert_eq!(
                rows,
                vec![
                    (0, 3),
                    (3, height - 14),
                    (height - 11, 5),
                    (height - 6, 3),
                    (height - 3, 3)
                ]
            );
            assert!(areas.iter().all(|a| a.x == 0 && a.width == width));
        }
    }
    let area = buttons_area(80, 24);
    assert_eq!((area.x, area.y, area.width, area.height), (0, 18, 80, 3));
}

#[test]
fn the_parts_of_the_library_stay_within_a_small_terminal() {
    for height in 0..24 {
        let areas = library_areas(80, height);
        assert_eq!(areas.len(), 5);
        for area in areas {
            assert_eq!((area.x, area.width), (0, 80));
            assert!(area.y + area.height <= height);
        }
    }
}
