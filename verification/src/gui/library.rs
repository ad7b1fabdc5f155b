//! The window that shows a device's library.
use crate::domain::{
    entries, DeviceStatus, DeviceStatusView, DeviceSummary, DeviceSummaryView, RemoteEntry,
    RemoteEntryType, RemoteEntryView,
};
use crate::gui::launcher::{modal, Modal, ModalView};
use crate::numbers::{decimal, number_text};
use crate::paths::{
    cut_at_the_last_slash, inside, inside_is_behind_one_slash, names_folder, parent_of, parent_path,
    path_inside,
};
use crate::text::{cat2, cat3, cat4, cat5, chars_of, has_char, is_blank, same_option, trim, trimmed};
use crate::tree::collections::{
    listing_of, row_views, toggled, ListingCache, ListingView, RowView, TextSet, TreeRow,
};
use crate::tree::rows::{find_missing, first_missing, tree_rows, walk_tree};
use crate::tui::screen::{text_or, wifi_text, EntryMeta};
use vstd::prelude::*;
use vstd::string::*;

verus! {

/// The state of the window, but for the input of a new name.
pub struct LibraryState {
    pub device: DeviceSummary,
    pub root_path: String,
    pub children_cache: ListingCache,
    pub expanded_folders: TextSet,
    pub status: Option<DeviceStatus>,
    pub message: Option<String>,
    pub selected_path: Option<String>,
    pub rename_target: Option<String>,
    pub transfer_modal: Option<Modal>,
}

/// The content of a [`LibraryState`].
#[verifier::ext_equal]
pub struct LibraryView {
    pub device: DeviceSummaryView,
    pub root_path: Seq<char>,
    pub cache: Seq<ListingView>,
    pub expanded: Set<Seq<char>>,
    pub status: Option<DeviceStatusView>,
    pub message: Option<Seq<char>>,
    pub selected_path: Option<Seq<char>>,
    pub rename_target: Option<Seq<char>>,
    pub modal: Option<ModalView>,
}

impl DeepView for LibraryState {
    type V = LibraryView;

    open spec fn deep_view(&self) -> LibraryView {
        LibraryView {
            device: self.device.deep_view(),
            root_path: self.root_path@,
            cache: self.children_cache@,
            expanded: self.expanded_folders@,
            status: self.status.deep_view(),
            message: self.message.deep_view(),
            selected_path: self.selected_path.deep_view(),
            rename_target: self.rename_target.deep_view(),
            modal: self.transfer_modal.deep_view(),
        }
    }
}

/// A library that was just opened.
pub open spec fn new_library(device: DeviceSummaryView) -> LibraryView {
    LibraryView {
        device,
        root_path: "Document"@,
        cache: Seq::empty(),
        expanded: set!["Document"@],
        status: None,
        message: None,
        selected_path: None,
        rename_target: None,
        modal: None,
    }
}

impl LibraryView {
    /// The visible rows.
    pub open spec fn rows(self) -> Seq<RowView> {
        tree_rows(self.cache, self.expanded, self.root_path, 0, self.cache.len())
    }

    /// The window with a message.
    pub open spec fn saying(self, message: Seq<char>) -> LibraryView {
        LibraryView { message: Some(message), ..self }
    }

    /// The window with a note that something is under way.
    pub open spec fn busy(self, title: Seq<char>, detail: Seq<char>) -> LibraryView {
        LibraryView { modal: Some(ModalView { title, detail }), ..self }
    }
}

/// A folder's listing has come, or has failed: a failure is told, and the folder
/// then counts as empty.
pub open spec fn folder_listed(
    s: LibraryView,
    path: Seq<char>,
    listing: Result<Seq<RemoteEntryView>, Seq<char>>,
) -> LibraryView {
    match listing {
        Ok(list) => LibraryView { message: None, cache: s.cache.push((path, list)), ..s },
        Err(e) => LibraryView {
            message: Some("Error: failed to load "@ + path + ": "@ + e),
            cache: s.cache.push((path, Seq::empty())),
            ..s
        },
    }
}

/// What a click in the library asks for.
pub enum ClickStep {
    Nothing,
    /// List the folder, unless that is at hand.
    Load(String),
    Open(RemoteEntry),
}

/// The content of a [`ClickStep`].
pub enum ClickStepView {
    Nothing,
    Load(Seq<char>),
    Open(RemoteEntryView),
}

impl DeepView for ClickStep {
    type V = ClickStepView;

    open spec fn deep_view(&self) -> ClickStepView {
        match self {
            ClickStep::Nothing => ClickStepView::Nothing,
            ClickStep::Load(path) => ClickStepView::Load(path@),
            ClickStep::Open(entry) => ClickStepView::Open(entry.deep_view()),
        }
    }
}

/// A click on a row: it is selected; a folder is folded or unfolded, a file that
/// is clicked twice is opened.
pub open spec fn row_clicked(s: LibraryView, entry: RemoteEntryView, clicks: usize) -> (
    LibraryView,
    ClickStepView,
) {
    let chosen = LibraryView { selected_path: Some(entry.path), ..s };
    if entry.entry_type == RemoteEntryType::Folder {
        (
            LibraryView { expanded: toggled(s.expanded, entry.path), ..chosen },
            if s.expanded.contains(entry.path) {
                ClickStepView::Nothing
            } else {
                ClickStepView::Load(entry.path)
            },
        )
    } else if clicks >= 2 {
        (chosen, ClickStepView::Open(entry))
    } else {
        (chosen, ClickStepView::Nothing)
    }
}

/// Something that was dropped on the window.
pub enum DroppedFile {
    /// It is no file and is left out.
    NoFile,
    /// It has no name that is text.
    NoName,
    /// A file: where it is, and its name.
    File { local: String, name: String },
}

/// What a transfer ends with: a message, if any, and whether the library is to be
/// loaded again.
pub struct TransferOutcome {
    pub message: Option<String>,
    pub should_reload: bool,
}

/// How an import goes on.
pub enum ImportStep {
    /// Upload the file to the path.
    Upload(String, String),
    Done(TransferOutcome),
}

/// The content of an [`ImportStep`].
pub enum ImportStepView {
    Upload(Seq<char>, Seq<char>),
    Done(Option<Seq<char>>, bool),
}

impl DeepView for ImportStep {
    type V = ImportStepView;

    open spec fn deep_view(&self) -> ImportStepView {
        match self {
            ImportStep::Upload(local, remote) => ImportStepView::Upload(local@, remote@),
            ImportStep::Done(outcome) => ImportStepView::Done(
                outcome.message.deep_view(),
                outcome.should_reload,
            ),
        }
    }
}

/// What an import of so many uploaded and so many failed files ends with.
pub open spec fn import_end(uploaded: nat, failed: nat) -> ImportStepView {
    if failed > 0 {
        ImportStepView::Done(
            Some("Error: import completed with "@ + decimal(failed) + " failed file(s)."@),
            uploaded > 0,
        )
    } else if uploaded == 0 {
        ImportStepView::Done(Some("Error: no files were imported."@), false)
    } else {
        ImportStepView::Done(None, true)
    }
}

/// An import of what was dropped, from the first on, after so many uploads of
/// which `uploaded` went well, and `failed` failures: each file is uploaded into
/// the folder under its name, and a failure does not end the import.
pub open spec fn import_run(
    dropped: Seq<DroppedFile>,
    folder: Seq<char>,
    results: Seq<bool>,
    at: nat,
    uploaded: nat,
    failed: nat,
) -> ImportStepView
    decreases dropped.len(),
{
    if dropped.len() == 0 {
        import_end(uploaded, failed)
    } else {
        match dropped[0] {
            DroppedFile::NoFile => import_run(
                dropped.skip(1),
                folder,
                results,
                at,
                uploaded,
                failed,
            ),
            DroppedFile::NoName => import_run(
                dropped.skip(1),
                folder,
                results,
                at,
                uploaded,
                failed + 1,
            ),
            DroppedFile::File { local, name } => if results.len() <= at {
                ImportStepView::Upload(local@, inside(folder, name@))
            } else if results[at as int] {
                import_run(dropped.skip(1), folder, results, at + 1, uploaded + 1, failed)
            } else {
                import_run(dropped.skip(1), folder, results, at + 1, uploaded, failed + 1)
            },
        }
    }
}

/// The next step of an import, with the outcome of the uploads so far.
pub fn perform_transfer_sync(dropped: &Vec<DroppedFile>, folder: &str, results: &Vec<bool>) -> (r:
    ImportStep)
    ensures
        r.deep_view() == import_run(dropped@, folder@, results@, 0, 0, 0),
{
    let mut at: usize = 0;
    let mut uploaded: usize = 0;
    let mut failed: usize = 0;
    let total: usize = dropped.len();
    assert(dropped@.skip(0) =~= dropped@);
    for i in 0..total
        invariant
            total == dropped@.len(),
            at <= i,
            uploaded <= i,
            failed <= i,
            import_run(dropped@, folder@, results@, 0, 0, 0) == import_run(
                dropped@.skip(i as int),
                folder@,
                results@,
                at as nat,
                uploaded as nat,
                failed as nat,
            ),
    {
        assert(dropped@.skip(i as int)[0] == dropped@[i as int]);
        assert(dropped@.skip(i as int).skip(1) =~= dropped@.skip(i + 1));
        match &dropped[i] {
            DroppedFile::NoFile => {},
            DroppedFile::NoName => {
                failed = failed + 1;
            },
            DroppedFile::File { local, name } => {
                if results.len() <= at {
                    return ImportStep::Upload(
                        local.as_str().to_owned(),
                        path_inside(folder, name.as_str()),
                    );
                }
                if results[at] {
                    uploaded = uploaded + 1;
                } else {
                    failed = failed + 1;
                }
                at = at + 1;
            },
        }
    }
    let outcome = if failed > 0 {
        let message = cat3(
            "Error: import completed with ",
            number_text(failed as u64).as_str(),
            " failed file(s).",
        );
        TransferOutcome { message: Some(message), should_reload: uploaded > 0 }
    } else if uploaded == 0 {
        TransferOutcome {
            message: Some("Error: no files were imported.".to_owned()),
            should_reload: false,
        }
    } else {
        TransferOutcome { message: None, should_reload: true }
    };
    ImportStep::Done(outcome)
}

/// An import makes no more uploads than things were dropped.
pub proof fn import_ends(
    dropped: Seq<DroppedFile>,
    folder: Seq<char>,
    results: Seq<bool>,
    at: nat,
    uploaded: nat,
    failed: nat,
)
    ensures
        import_run(dropped, folder, results, at, uploaded, failed) is Upload ==> results.len() < at
            + dropped.len(),
    decreases dropped.len(),
{
    if dropped.len() > 0 {
        match dropped[0] {
            DroppedFile::NoFile => import_ends(
                dropped.skip(1),
                folder,
                results,
                at,
                uploaded,
                failed,
            ),
            DroppedFile::NoName => import_ends(
                dropped.skip(1),
                folder,
                results,
                at,
                uploaded,
                failed + 1,
            ),
            DroppedFile::File { .. } => if results.len() > at {
                if results[at as int] {
                    import_ends(dropped.skip(1), folder, results, at + 1, uploaded + 1, failed);
                } else {
                    import_ends(dropped.skip(1), folder, results, at + 1, uploaded, failed + 1);
                }
            },
        }
    }
}

/// What an export ends with.
pub fn export_outcome(failure: Option<String>) -> (r: TransferOutcome)
    ensures
        !r.should_reload,
        r.message.deep_view() == match failure {
            Some(e) => Some("Error: export failed: "@ + e@),
            None => None,
        },
{
    let message = match failure {
        Some(e) => Some(cat2("Error: export failed: ", e.as_str())),
        None => None,
    };
    TransferOutcome { message, should_reload: false }
}

/// What opening a file ends with.
pub fn open_outcome(end: &crate::tui::events::CopyEnd) -> (r: TransferOutcome)
    ensures
        !r.should_reload,
        r.message.deep_view() == match *end {
            crate::tui::events::CopyEnd::NoFolder(e) => Some(
                "Error: open failed: cannot create temp dir: "@ + e@,
            ),
            crate::tui::events::CopyEnd::NoDownload(e) => Some("Error: download failed: "@ + e@),
            crate::tui::events::CopyEnd::Shown(crate::tui::events::HelperEnd::Success) => None,
            crate::tui::events::CopyEnd::Shown(crate::tui::events::HelperEnd::Code(code)) => Some(
                "Error: open failed with status "@ + code@,
            ),
            crate::tui::events::CopyEnd::Shown(crate::tui::events::HelperEnd::Unstarted(e)) => Some(
                "Error: open failed: "@ + e@,
            ),
        },
{
    let message = match end {
        crate::tui::events::CopyEnd::NoFolder(e) => Some(
            cat2("Error: open failed: cannot create temp dir: ", e.as_str()),
        ),
        crate::tui::events::CopyEnd::NoDownload(e) => Some(
            cat2("Error: download failed: ", e.as_str()),
        ),
        crate::tui::events::CopyEnd::Shown(crate::tui::events::HelperEnd::Success) => None,
        crate::tui::events::CopyEnd::Shown(crate::tui::events::HelperEnd::Code(code)) => Some(
            cat2("Error: open failed with status ", code.as_str()),
        ),
        crate::tui::events::CopyEnd::Shown(crate::tui::events::HelperEnd::Unstarted(e)) => Some(
            cat2("Error: open failed: ", e.as_str()),
        ),
    };
    TransferOutcome { message, should_reload: false }
}

/// The folder that files dropped on an entry go into: the folder itself, the
/// file's folder, or the root where the file has none.
pub open spec fn drop_target(entry: RemoteEntryView, root: Seq<char>) -> Seq<char> {
    if entry.entry_type == RemoteEntryType::Folder {
        entry.path
    } else if entry.path.contains('/') {
        parent_of(entry.path)
    } else {
        root
    }
}

/// What the line at the bottom of the library says of the device.
pub open spec fn footer(status: Option<DeviceStatusView>) -> Seq<char> {
    match status {
        Some(s) => (match s.battery.level_percent {
            Some(level) => "Battery "@ + decimal(level as nat) + "%"@,
            None => "Battery unknown"@,
        }) + ", Wi-Fi "@ + wifi_text(status) + ", firmware "@ + text_or(
            s.firmware_version,
            "unknown"@,
        ) + ", owner "@ + text_or(s.owner, "unknown"@),
        None => "Device info unavailable"@,
    }
}

/// Characters of a name after which a line may break.
pub open spec fn breaks_after(c: char) -> bool {
    c == '_' || c == '-' || c == '.' || c == '/' || c == '，' || c == '。' || c == '：' || c == '；'
}

/// A name with a break opportunity after each separator.
pub open spec fn breakable(name: Seq<char>) -> Seq<char>
    decreases name.len(),
{
    if name.len() == 0 {
        Seq::empty()
    } else {
        let front = breakable(name.drop_last()).push(name.last());
        if breaks_after(name.last()) {
            front.push('\u{200B}')
        } else {
            front
        }
    }
}

/// A name with a break opportunity after each separator.
pub fn wrap_name_for_ui(name: &str) -> (r: String)
    ensures
        r@ == breakable(name@),
{
    let chars = chars_of(name);
    let mut out = String::new();
    proof {
        assert(name@.take(0) =~= Seq::<char>::empty());
        assert(out@ =~= breakable(name@.take(0)));
    }
    for i in 0..chars.len()
        invariant
            chars@ == name@,
            out@ == breakable(name@.take(i as int)),
    {
        assert(name@.take(i + 1).drop_last() =~= name@.take(i as int));
        let c = chars[i];
        out.push(c);
        if c == '_' || c == '-' || c == '.' || c == '/' || c == '，' || c == '。' || c == '：' || c
            == '；' {
            out.push('\u{200B}');
        }
    }
    assert(name@.take(name@.len() as int) =~= name@);
    out
}

/// Leaving out the break opportunities gives the name back.
pub proof fn breaks_change_nothing_else(name: Seq<char>)
    requires
        !name.contains('\u{200B}'),
    ensures
        breakable(name).filter(|c: char| c != '\u{200B}') == name,
    decreases name.len(),
{
    reveal(Seq::filter);
    let keep = |c: char| c != '\u{200B}';
    if name.len() > 0 {
        let init = name.drop_last();
        if init.contains('\u{200B}') {
            let k = choose|k: int| 0 <= k < init.len() && init[k] == '\u{200B}';
            assert(name[k] == '\u{200B}');
        }
        assert(name[name.len() - 1] != '\u{200B}');
        breaks_change_nothing_else(init);
        let front = breakable(init).push(name.last());
        assert(front.drop_last() =~= breakable(init));
        assert(front.filter(keep) =~= init.push(name.last()));
        assert(init.push(name.last()) =~= name);
        if breaks_after(name.last()) {
            assert(front.push('\u{200B}').drop_last() =~= front);
        }
    } else {
        assert(breakable(name).filter(keep) =~= name);
    }
}

/// A row as the window shows it.
pub struct GuiRow {
    pub icon: String,
    pub name: String,
    pub meta: EntryMeta,
    pub depth: usize,
    pub selected: bool,
    /// Whether the row's menu offers to open and export the entry.
    pub is_file: bool,
    pub drop_target: String,
}

/// Whether a row is shown as it is to be.
pub open spec fn shows_row(shown: GuiRow, row: RowView, s: LibraryView) -> bool {
    let folder = row.entry.entry_type == RemoteEntryType::Folder;
    &&& shown.icon@ == if folder {
        "📁"@
    } else {
        "📄"@
    }
    &&& shown.name@ == breakable(row.entry.name)
    &&& shown.meta == match row.entry.size {
        _ if folder => EntryMeta::Folder,
        Some(bytes) if bytes > 0 => EntryMeta::Bytes(bytes),
        _ => EntryMeta::File,
    }
    &&& shown.depth == row.depth
    &&& shown.selected == (s.selected_path == Some(row.entry.path))
    &&& shown.is_file == !folder
    &&& shown.drop_target@ == drop_target(row.entry, s.root_path)
}

impl LibraryState {
    /// A library that was just opened.
    pub fn new(device: DeviceSummary) -> (r: LibraryState)
        ensures
            r.deep_view() == new_library(device.deep_view()),
    {
        LibraryState {
            device,
            root_path: "Document".to_owned(),
            children_cache: ListingCache::new(),
            expanded_folders: TextSet::with("Document"),
            status: None,
            message: None,
            selected_path: None,
            rename_target: None,
            transfer_modal: None,
        }
    }

    /// The visible rows.
    pub fn visible_nodes(&self) -> (r: Vec<TreeRow>)
        ensures
            row_views(r@) == self.deep_view().rows(),
    {
        let mut out: Vec<TreeRow> = Vec::new();
        assert(row_views(out@) =~= Seq::<RowView>::empty());
        let fuel: usize = self.children_cache.listings.len();
        walk_tree(
            &self.children_cache,
            &self.expanded_folders,
            self.root_path.as_str(),
            0,
            fuel,
            &mut out,
        );
        proof {
            let rows = self.deep_view().rows();
            assert(Seq::<RowView>::empty() + rows =~= rows);
        }
        out
    }

    /// The next folder whose listing the visible rows lack.
    pub fn missing_folder(&self) -> (r: Option<String>)
        ensures
            r.deep_view() == if self.deep_view().cache.len() < usize::MAX {
                first_missing(
                    self.deep_view().cache,
                    self.deep_view().expanded,
                    Set::empty(),
                    self.deep_view().root_path,
                    self.deep_view().cache.len() + 1,
                )
            } else {
                None
            },
    {
        let count: usize = self.children_cache.listings.len();
        assert(count == self.children_cache@.len());
        if count == usize::MAX {
            return None;
        }
        let none = TextSet { items: Vec::new() };
        assert(none@ =~= Set::<Seq<char>>::empty());
        find_missing(
            &self.children_cache,
            &self.expanded_folders,
            &none,
            self.root_path.as_str(),
            count + 1,
        )
    }

    /// Whether a folder's listing is at hand.
    pub fn has_listing(&self, path: &str) -> (r: bool)
        ensures
            r == (listing_of(self.deep_view().cache, path@) is Some),
    {
        self.children_cache.get(path).is_some()
    }

    /// Takes over a folder's listing, unless one is at hand.
    pub fn load_children(&mut self, path: &str, listing: Result<Vec<RemoteEntry>, String>)
        ensures
            final(self).deep_view() == if listing_of(old(self).deep_view().cache, path@) is Some {
                old(self).deep_view()
            } else {
                folder_listed(
                    old(self).deep_view(),
                    path@,
                    crate::tui::events::listing_view(listing),
                )
            },
    {
        if self.children_cache.get(path).is_some() {
            return;
        }
        match listing {
            Ok(list) => {
                self.message = None;
                self.children_cache.add(path, list);
            },
            Err(e) => {
                self.message = Some(cat4("Error: failed to load ", path, ": ", e.as_str()));
                let none: Vec<RemoteEntry> = Vec::new();
                assert(entries(none@) =~= Seq::<RemoteEntryView>::empty());
                self.children_cache.add(path, none);
            },
        }
    }

    /// Loads the library again: its folders are forgotten but for the root.
    pub fn reload(
        &mut self,
        listing: Result<Vec<RemoteEntry>, String>,
        status: Option<DeviceStatus>,
    )
        ensures
            final(self).deep_view() == (LibraryView {
                status: status.deep_view(),
                ..folder_listed(
                    LibraryView { cache: Seq::empty(), ..old(self).deep_view() },
                    old(self).deep_view().root_path,
                    crate::tui::events::listing_view(listing),
                )
            }),
    {
        self.children_cache = ListingCache::new();
        let root = self.root_path.as_str().to_owned();
        self.load_children(root.as_str(), listing);
        self.status = status;
    }

    /// Takes over a click on a row.
    pub fn on_row_click(&mut self, entry: &RemoteEntry, click_count: usize) -> (r: ClickStep)
        ensures
            (final(self).deep_view(), r.deep_view()) == row_clicked(
                old(self).deep_view(),
                entry.deep_view(),
                click_count,
            ),
    {
        self.selected_path = Some(entry.path.as_str().to_owned());
        if entry.entry_type == RemoteEntryType::Folder {
            let folds = self.expanded_folders.contains(entry.path.as_str());
            self.expanded_folders.toggle(entry.path.as_str());
            if folds {
                ClickStep::Nothing
            } else {
                ClickStep::Load(entry.path.as_str().to_owned())
            }
        } else if click_count >= 2 {
            ClickStep::Open(entry.clone())
        } else {
            ClickStep::Nothing
        }
    }

    /// The folder that files dropped on an entry go into.
    pub fn drop_target_for_entry(&self, entry: &RemoteEntry) -> (r: String)
        ensures
            r@ == drop_target(entry.deep_view(), self.root_path@),
    {
        if entry.entry_type == RemoteEntryType::Folder {
            entry.path.as_str().to_owned()
        } else if has_char(entry.path.as_str(), '/') {
            parent_path(entry.path.as_str())
        } else {
            self.root_path.as_str().to_owned()
        }
    }

    /// The folder that files dropped on the window go into: the selected folder,
    /// where the last entry that was selected anywhere is it, else the root.
    pub fn target_folder(&self, selected: &Option<RemoteEntry>) -> (r: String)
        ensures
            r@ == match selected.deep_view() {
                Some(entry) if self.deep_view().selected_path == Some(entry.path)
                    && entry.entry_type == RemoteEntryType::Folder => entry.path,
                _ => self.root_path@,
            },
    {
        if let Some(entry) = selected {
            if same_option(&self.selected_path, entry.path.as_str()) && entry.entry_type
                == RemoteEntryType::Folder {
                return entry.path.as_str().to_owned();
            }
        }
        self.root_path.as_str().to_owned()
    }

    /// Notes that so many files are being uploaded; does nothing without files.
    pub fn on_external_drop(&mut self, folder: &str, count: usize) -> (r: bool)
        ensures
            r == (count > 0),
            final(self).deep_view() == if count == 0 {
                old(self).deep_view()
            } else {
                old(self).deep_view().busy(
                    "Importing Files"@,
                    "Uploading "@ + decimal(count as nat) + " file(s) to "@ + folder@ + "…"@,
                )
            },
    {
        if count == 0 {
            return false;
        }
        let detail = cat5(
            "Uploading ",
            number_text(count as u64).as_str(),
            " file(s) to ",
            folder,
            "…",
        );
        self.transfer_modal = Some(modal("Importing Files", detail));
        true
    }

    /// Whether an entry can be exported: of a folder that is refused.
    pub fn may_export(&mut self, entry: &RemoteEntry) -> (r: bool)
        ensures
            r == (entry.entry_type != RemoteEntryType::Folder),
            final(self).deep_view() == if r {
                old(self).deep_view()
            } else {
                old(self).deep_view().saying("Error: export only supports files."@)
            },
    {
        if entry.entry_type == RemoteEntryType::Folder {
            self.message = Some("Error: export only supports files.".to_owned());
            return false;
        }
        true
    }

    /// Notes that an entry is being exported.
    pub fn on_export_entry(&mut self, entry: &RemoteEntry)
        ensures
            final(self).deep_view() == old(self).deep_view().busy(
                "Exporting File"@,
                "Saving "@ + entry.name@ + "…"@,
            ),
    {
        self.transfer_modal = Some(
            modal("Exporting File", cat3("Saving ", entry.name.as_str(), "…")),
        );
    }

    /// Notes that an entry is being opened: of a folder that is refused.
    pub fn on_open_entry(&mut self, entry: &RemoteEntry) -> (r: bool)
        ensures
            r == (entry.entry_type != RemoteEntryType::Folder),
            final(self).deep_view() == if r {
                old(self).deep_view().busy(
                    "Opening File"@,
                    "Downloading "@ + entry.name@ + "…"@,
                )
            } else {
                old(self).deep_view().saying("Error: open works for files only."@)
            },
    {
        if entry.entry_type == RemoteEntryType::Folder {
            self.message = Some("Error: open works for files only.".to_owned());
            return false;
        }
        self.transfer_modal = Some(
            modal("Opening File", cat3("Downloading ", entry.name.as_str(), "…")),
        );
        true
    }

    /// Takes over the end of a transfer, once the library has been loaded again
    /// where that was due.
    pub fn transferred(&mut self, outcome: TransferOutcome)
        ensures
            final(self).deep_view() == (LibraryView {
                message: outcome.message.deep_view(),
                modal: None,
                ..old(self).deep_view()
            }),
    {
        self.message = outcome.message;
        self.transfer_modal = None;
    }

    /// Asks for a new name of an entry; gives the name to start from.
    pub fn on_begin_rename(&mut self, path: &str, name: &str) -> (r: String)
        ensures
            r@ == name@,
            final(self).deep_view() == (LibraryView {
                rename_target: Some(path@),
                ..old(self).deep_view().saying("Enter a new name, then click Apply Rename."@)
            }),
    {
        self.rename_target = Some(path.to_owned());
        self.message = Some("Enter a new name, then click Apply Rename.".to_owned());
        name.to_owned()
    }

    /// Asks for a new name of the selected entry where a renaming is pending, which
    /// it then no longer is; gives the name to start from.
    pub fn maybe_handle_pending_rename(
        &mut self,
        pending: &mut bool,
        selected: &Option<RemoteEntry>,
    ) -> (r: Option<String>)
        ensures
            !*final(pending),
            !*old(pending) ==> r is None && final(self).deep_view() == old(self).deep_view(),
            *old(pending) ==> match selected.deep_view() {
                Some(entry) => r.deep_view() == Some(entry.name) && final(self).deep_view() == (
                LibraryView {
                    rename_target: Some(entry.path),
                    ..old(self).deep_view().saying("Enter a new name, then click Apply Rename."@)
                }),
                None => r is None && final(self).deep_view() == old(self).deep_view().saying(
                    "Select a file or folder first, then use Rename."@,
                ),
            },
    {
        if !*pending {
            return None;
        }
        *pending = false;
        match selected {
            Some(entry) => Some(self.on_begin_rename(entry.path.as_str(), entry.name.as_str())),
            None => {
                self.message = Some("Select a file or folder first, then use Rename.".to_owned());
                None
            },
        }
    }

    /// Asks for the renaming of an entry; gives its path and the new name.
    pub fn on_apply_rename(&mut self, typed: &str) -> (r: Option<(String, String)>)
        ensures
            match old(self).deep_view().rename_target {
                None => r is None && final(self).deep_view() == old(self).deep_view(),
                Some(path) => if trimmed(typed@).len() == 0 {
                    &&& r is None
                    &&& final(self).deep_view() == old(self).deep_view().saying(
                        "Error: rename failed: name cannot be empty"@,
                    )
                } else {
                    &&& r matches Some(asked) && asked.0@ == path && asked.1@ == trimmed(typed@)
                    &&& final(self).deep_view() == old(self).deep_view().busy(
                        "Renaming"@,
                        "Renaming to "@ + trimmed(typed@) + "…"@,
                    )
                },
            },
    {
        let path = match &self.rename_target {
            None => {
                return None;
            },
            Some(path) => path.as_str().to_owned(),
        };
        let new_name = trim(typed);
        if is_blank(new_name.as_str()) {
            self.message = Some("Error: rename failed: name cannot be empty".to_owned());
            return None;
        }
        self.transfer_modal = Some(
            modal("Renaming", cat3("Renaming to ", new_name.as_str(), "…")),
        );
        Some((path, new_name))
    }

    /// Takes over the end of a renaming, once the library has been loaded again
    /// where it went well.
    pub fn renamed(&mut self, failure: Option<String>)
        ensures
            final(self).deep_view() == match failure {
                None => LibraryView {
                    modal: None,
                    rename_target: None,
                    message: None,
                    ..old(self).deep_view()
                },
                Some(e) => LibraryView {
                    modal: None,
                    ..old(self).deep_view().saying("Error: rename failed: "@ + e@)
                },
            },
    {
        self.transfer_modal = None;
        match failure {
            None => {
                self.rename_target = None;
                self.message = None;
            },
            Some(e) => {
                self.message = Some(cat2("Error: rename failed: ", e.as_str()));
            },
        }
    }

    /// Notes that an entry is being deleted.
    pub fn on_delete_entry(&mut self)
        ensures
            final(self).deep_view() == old(self).deep_view().busy(
                "Deleting"@,
                "Removing the selected item…"@,
            ),
    {
        self.transfer_modal = Some(modal("Deleting", "Removing the selected item…".to_owned()));
    }

    /// Takes over the end of a deletion, once the library has been loaded again
    /// where it went well.
    pub fn deleted(&mut self, failure: Option<String>)
        ensures
            final(self).deep_view() == (LibraryView {
                modal: None,
                message: match failure {
                    None => None,
                    Some(e) => Some("Error: delete failed: "@ + e@),
                },
                ..old(self).deep_view()
            }),
    {
        self.transfer_modal = None;
        self.message = match failure {
            None => None,
            Some(e) => Some(cat2("Error: delete failed: ", e.as_str())),
        };
    }

    /// What the line at the bottom of the library says of the device.
    pub fn footer_text(&self) -> (r: String)
        ensures
            r@ == footer(self.deep_view().status),
    {
        let status = match &self.status {
            None => {
                return "Device info unavailable".to_owned();
            },
            Some(status) => status,
        };
        let battery = match status.battery.level_percent {
            Some(level) => cat3("Battery ", number_text(level as u64).as_str(), "%"),
            None => "Battery unknown".to_owned(),
        };
        let wifi = if status.wifi_enabled {
            "on"
        } else {
            "off"
        };
        let firmware = match &status.firmware_version {
            Some(version) => version.as_str(),
            None => "unknown",
        };
        let owner = match &status.owner {
            Some(owner) => owner.as_str(),
            None => "unknown",
        };
        let first = cat5(battery.as_str(), ", Wi-Fi ", wifi, ", firmware ", firmware);
        cat3(first.as_str(), ", owner ", owner)
    }

    /// What the line at the bottom of the library says: the message, or else the
    /// state of the device.
    pub fn bottom_line(&self) -> (r: String)
        ensures
            r@ == match self.deep_view().message {
                Some(message) => message,
                None => footer(self.deep_view().status),
            },
    {
        match &self.message {
            Some(message) => message.as_str().to_owned(),
            None => self.footer_text(),
        }
    }

    /// The rows as the window shows them, and how many it says there are.
    pub fn render(&self) -> (r: (Vec<GuiRow>, String))
        ensures
            r.0@.len() == self.deep_view().rows().len(),
            forall|i: int|
                0 <= i < r.0@.len() ==> shows_row(
                    #[trigger] r.0@[i],
                    self.deep_view().rows()[i],
                    self.deep_view(),
                ),
            r.1@ == decimal(self.deep_view().rows().len()) + " items"@,
    {
        let rows = self.visible_nodes();
        let ghost views = row_views(rows@);
        let ghost state = self.deep_view();
        let mut out: Vec<GuiRow> = Vec::new();
        for i in 0..rows.len()
            invariant
                views == row_views(rows@),
                state == self.deep_view(),
                out@.len() == i,
                forall|k: int| 0 <= k < i ==> shows_row(#[trigger] out@[k], views[k], state),
        {
            let row = &rows[i];
            assert(views[i as int] == row.deep_view());
            let folder = row.entry.entry_type == RemoteEntryType::Folder;
            let icon = if folder {
                "📁"
            } else {
                "📄"
            };
            let meta = if folder {
                EntryMeta::Folder
            } else {
                match row.entry.size {
                    Some(bytes) if bytes > 0 => EntryMeta::Bytes(bytes),
                    _ => EntryMeta::File,
                }
            };
            let shown = GuiRow {
                icon: icon.to_owned(),
                name: wrap_name_for_ui(row.entry.name.as_str()),
                meta,
                depth: row.depth,
                selected: same_option(&self.selected_path, row.entry.path.as_str()),
                is_file: !folder,
                drop_target: self.drop_target_for_entry(&row.entry),
            };
            assert(shows_row(shown, views[i as int], state));
            out.push(shown);
        }
        let count = cat2(number_text(rows.len() as u64).as_str(), " items");
        (out, count)
    }
}

/// An import uploads the dropped files in their order, each into the folder under
/// its name, whatever became of those before it, and then ends: with nothing to
/// tell where all went well, and with the library loaded again where any did.
pub proof fn dropped_files_are_uploaded(
    dropped: Seq<DroppedFile>,
    remote: Seq<char>,
    folder: Seq<char>,
    results: Seq<bool>,
)
    requires
        names_folder(remote, folder),
        forall|k: int| 0 <= k < dropped.len() ==> #[trigger] dropped[k] is File,
    ensures
        ({
            let step = import_run(dropped, remote, results, 0, 0, 0);
            &&& results.len() < dropped.len() ==> step == ImportStepView::Upload(
                dropped[results.len() as int]->local@,
                folder + seq!['/'] + dropped[results.len() as int]->File_name@,
            )
            &&& results.len() >= dropped.len() > 0 && (forall|k: int|
                0 <= k < dropped.len() ==> #[trigger] results[k]) ==> step == ImportStepView::Done(
                None,
                true,
            )
            &&& results.len() >= dropped.len() && (exists|k: int|
                0 <= k < dropped.len() && !#[trigger] results[k]) ==> {
                &&& step is Done && step->Done_0 is Some
                &&& step->Done_1 <==> exists|k: int| 0 <= k < dropped.len() && #[trigger] results[k]
            }
        }),
{
    files_are_uploaded_from(dropped, remote, folder, results, 0, 0, 0);
}

/// The same from upload `at` on.
proof fn files_are_uploaded_from(
    dropped: Seq<DroppedFile>,
    remote: Seq<char>,
    folder: Seq<char>,
    results: Seq<bool>,
    at: nat,
    uploaded: nat,
    failed: nat,
)
    requires
        names_folder(remote, folder),
        at <= results.len(),
        forall|k: int| 0 <= k < dropped.len() ==> #[trigger] dropped[k] is File,
    ensures
        ({
            let step = import_run(dropped, remote, results, at, uploaded, failed);
            let end = at + dropped.len();
            &&& results.len() < end ==> step == ImportStepView::Upload(
                dropped[results.len() - at]->local@,
                folder + seq!['/'] + dropped[results.len() - at]->File_name@,
            )
            &&& results.len() >= end && failed == 0 && end > at && (forall|k: int|
                at <= k < end ==> #[trigger] results[k]) ==> step == ImportStepView::Done(
                None,
                true,
            )
            &&& results.len() >= end && dropped.len() == 0 ==> step == import_end(uploaded, failed)
            &&& results.len() >= end && (failed > 0 || exists|k: int|
                at <= k < end && !#[trigger] results[k]) ==> {
                &&& step is Done && step->Done_0 is Some
                &&& step->Done_1 <==> uploaded > 0 || exists|k: int|
                    at <= k < end && #[trigger] results[k]
            }
        }),
    decreases dropped.len(),
{
    if dropped.len() > 0 {
        let rest = dropped.skip(1);
        assert(dropped[0] is File);
        inside_is_behind_one_slash(remote, folder, dropped[0]->File_name@);
        assert forall|k: int| 0 <= k < rest.len() implies #[trigger] rest[k] is File by {
            assert(rest[k] == dropped[k + 1]);
        }
        if results.len() > at {
            if results[at as int] {
                files_are_uploaded_from(rest, remote, folder, results, at + 1, uploaded + 1, failed);
            } else {
                files_are_uploaded_from(rest, remote, folder, results, at + 1, uploaded, failed + 1);
            }
            if results.len() < at + dropped.len() {
                assert(rest[results.len() - at - 1] == dropped[results.len() - at]);
            }
        }
    }
}

/// What is dropped on a folder goes into it, and what is dropped on a file goes
/// into the folder in which the file stands.
pub proof fn dropped_files_go_to_the_folder(
    entry: RemoteEntryView,
    root: Seq<char>,
    folder: Seq<char>,
    name: Seq<char>,
)
    requires
        !name.contains('/'),
    ensures
        entry.entry_type == RemoteEntryType::Folder ==> drop_target(entry, root) == entry.path,
        entry.entry_type != RemoteEntryType::Folder && entry.path == folder + seq!['/'] + name
            ==> drop_target(entry, root) == folder,
        entry.entry_type != RemoteEntryType::Folder && entry.path == name ==> drop_target(
            entry,
            root,
        ) == root,
{
    cut_at_the_last_slash(folder, name);
    assert((folder + seq!['/'] + name)[folder.len() as int] == '/');
}

/// A click selects its row; on a folder it folds or unfolds that one alone, and a
/// folder that is unfolded is listed; on a file the second one opens it.
pub proof fn clicked_entry_is_selected(s: LibraryView, entry: RemoteEntryView)
    ensures
        ({
            let (once, first) = row_clicked(s, entry, 1);
            let (twice, second) = row_clicked(s, entry, 2);
            &&& once.selected_path == Some(entry.path)
            &&& once.cache == s.cache
            &&& entry.entry_type != RemoteEntryType::Folder ==> {
                &&& first is Nothing
                &&& second == ClickStepView::Open(entry)
                &&& once.expanded == s.expanded
            }
            &&& entry.entry_type == RemoteEntryType::Folder ==> {
                &&& once.expanded.contains(entry.path) <==> !s.expanded.contains(entry.path)
                &&& once.expanded.contains(entry.path) ==> first == ClickStepView::Load(entry.path)
                &&& forall|path: Seq<char>|
                    path != entry.path ==> #[trigger] once.expanded.contains(path)
                        == s.expanded.contains(path)
            }
        }),
{
}

/// A folder that was not known yet and is listed is known by its listing, and one
/// whose listing failed counts as empty.
pub proof fn listed_folder_is_known(
    s: LibraryView,
    path: Seq<char>,
    listing: Result<Seq<RemoteEntryView>, Seq<char>>,
)
    requires
        forall|k: int| 0 <= k < s.cache.len() ==> (#[trigger] s.cache[k]).0 != path,
    ensures
        ({
            let next = folder_listed(s, path, listing);
            &&& listing is Ok ==> listing_of(next.cache, path) == Some(listing->Ok_0)
                && next.message is None
            &&& listing is Err ==> listing_of(next.cache, path) == Some(
                Seq::<RemoteEntryView>::empty(),
            ) && next.message is Some
        }),
{
    crate::tree::rows::added_listing_is_found(
        s.cache,
        path,
        match listing {
            Ok(list) => list,
            Err(_) => Seq::empty(),
        },
    );
}

} // verus!
