//! Device operations that take several calls, as functions of the answers so far.
//!
//! Each program looks at the answers to what it has asked for, in order, and
//! tells what to ask for next, or how it ends.
use crate::bytes::{quote_plus, quoted};
use crate::entries::{
    device_status, find_template, status_of, template_id, template_is_found_by_its_name,
    unknown_template_is_not_found, ALL_ENTRIES,
};
use crate::domain::{DeviceStatus, DeviceStatusView};
use crate::errors::{internal, ErrorView, RustProviderError};
use crate::json::{
    empty_object, json_text, json_value, json_values, list_member, no_fields, put_text, set_member,
    show_json, text_is, text_member, texts_value, text_list, JsonView,
};
use crate::paths::{
    basename, cut_at_the_last_slash, inside, inside_is_behind_one_slash, name_of, names_folder,
    parent_and_name, parent_of, parent_path, path_inside, path_names_a_folder,
};
use crate::provider::RustNativeProvider;
use crate::session::{ApiCall, ApiCallView, ApiValue};
use crate::text::{
    cat2, cat3, cat4, ends_with, is_blank, lists, replace_char, replaced, same, texts,
};
use vstd::prelude::*;
use vstd::string::*;
use vstd::utf8::encode_utf8;

verus! {

/// What a device says of the entry at a path.
pub struct ResolveEntry {
    pub entry_id: String,
    pub entry_type: String,
}

/// The content of a [`ResolveEntry`].
#[verifier::ext_equal]
pub struct ResolveEntryView {
    pub entry_id: Seq<char>,
    pub entry_type: Seq<char>,
}

impl DeepView for ResolveEntry {
    type V = ResolveEntryView;

    open spec fn deep_view(&self) -> ResolveEntryView {
        ResolveEntryView { entry_id: self.entry_id@, entry_type: self.entry_type@ }
    }
}

/// What a program asks for.
pub enum Ask {
    /// A call of the device's interface.
    Call(ApiCall),
    /// What the device says of the entry at a path.
    Resolve(String),
    /// The upload of a local file to a path on the device.
    Upload(String, String),
}

/// The content of an [`Ask`].
pub enum AskView {
    Call(ApiCallView),
    Resolve(Seq<char>),
    Upload(Seq<char>, Seq<char>),
}

impl DeepView for Ask {
    type V = AskView;

    open spec fn deep_view(&self) -> AskView {
        match self {
            Ask::Call(call) => AskView::Call(call.deep_view()),
            Ask::Resolve(path) => AskView::Resolve(path@),
            Ask::Upload(local, remote) => AskView::Upload(local@, remote@),
        }
    }
}

/// What was given for something asked for.
pub enum Given {
    Value(ApiValue),
    Entry(ResolveEntry),
}

/// An answer: what was given, or why nothing was.
pub type Answer = Result<Given, RustProviderError>;

/// The endpoint that resolves a path.
pub open spec fn resolve_endpoint_of(path: Seq<char>) -> Seq<char> {
    "/resolve/entry/path/"@ + quoted(encode_utf8(path))
}

/// The endpoint that resolves a path.
pub fn resolve_endpoint(path: &str) -> (r: String)
    ensures
        r@ == resolve_endpoint_of(path@),
{
    cat2("/resolve/entry/path/", quote_plus(path).as_str())
}

/// Different paths are resolved at different endpoints.
pub proof fn endpoints_differ(a: Seq<char>, b: Seq<char>)
    requires
        resolve_endpoint_of(a) == resolve_endpoint_of(b),
    ensures
        a == b,
{
    let n = "/resolve/entry/path/"@.len() as int;
    assert(resolve_endpoint_of(a).skip(n) =~= quoted(encode_utf8(a)));
    assert(resolve_endpoint_of(b).skip(n) =~= quoted(encode_utf8(b)));
    crate::bytes::quoting_is_injective(a, b);
}

/// The endpoint that resolves a path carries the whole path, and nothing else.
pub proof fn endpoint_carries_the_path(path: Seq<char>)
    ensures
        ({
            let n = "/resolve/entry/path/"@.len() as int;
            &&& resolve_endpoint_of(path).len() >= n
            &&& resolve_endpoint_of(path).take(n) == "/resolve/entry/path/"@
            &&& crate::bytes::decoded_text(
                crate::bytes::unquoted(resolve_endpoint_of(path).skip(n)),
            ) == Some(path)
        }),
{
    let n = "/resolve/entry/path/"@.len() as int;
    assert(resolve_endpoint_of(path).take(n) =~= "/resolve/entry/path/"@);
    assert(resolve_endpoint_of(path).skip(n) =~= quoted(encode_utf8(path)));
    crate::bytes::quoted_path_is_read_back(path);
}

/// The failure of a reply that is no entry, with the given error text.
pub fn resolve_failure(path: &str, e: &str) -> (r: RustProviderError)
    ensures
        r.deep_view() == ErrorView::Internal("resolve object parse failed for "@ + path@ + ": "@ + e@),
{
    RustProviderError::Internal(cat4("resolve object parse failed for ", path, ": ", e))
}

/// The entry in an answer.
pub open spec fn entry_in(answer: Answer) -> Result<ResolveEntryView, ErrorView> {
    match answer {
        Ok(Given::Entry(entry)) => Ok(entry.deep_view()),
        Ok(_) => Err(ErrorView::Internal("unexpected answer"@)),
        Err(e) => Err(e.deep_view()),
    }
}

/// The JSON tree in an answer.
pub open spec fn json_in(answer: Answer) -> Result<JsonView, ErrorView> {
    match answer {
        Ok(Given::Value(ApiValue::Json(value))) => Ok(json_value(value)),
        Ok(_) => Err(ErrorView::Internal("unexpected answer"@)),
        Err(e) => Err(e.deep_view()),
    }
}

/// The bytes in an answer.
pub open spec fn bytes_in(answer: Answer) -> Result<Seq<u8>, ErrorView> {
    match answer {
        Ok(Given::Value(ApiValue::Bytes(data))) => Ok(data@),
        Ok(_) => Err(ErrorView::Internal("unexpected answer"@)),
        Err(e) => Err(e.deep_view()),
    }
}

fn read_entry(answer: &Answer) -> (r: Result<&ResolveEntry, RustProviderError>)
    ensures
        entry_in(*answer) == match r {
            Ok(entry) => Ok(entry.deep_view()),
            Err(e) => Err(e.deep_view()),
        },
{
    match answer {
        Ok(Given::Entry(entry)) => Ok(entry),
        Ok(_) => Err(internal("unexpected answer")),
        Err(e) => Err(e.clone()),
    }
}

fn read_json(answer: &Answer) -> (r: Result<&serde_json::Value, RustProviderError>)
    ensures
        json_in(*answer) == match r {
            Ok(value) => Ok(json_value(*value)),
            Err(e) => Err(e.deep_view()),
        },
{
    match answer {
        Ok(Given::Value(ApiValue::Json(value))) => Ok(value),
        Ok(_) => Err(internal("unexpected answer")),
        Err(e) => Err(e.clone()),
    }
}

/// How a program stands: it asks for something, has failed, or has gone through
/// with a value after so many answers.
pub enum Run<T> {
    Ask(Ask),
    Failed(RustProviderError),
    Done(T, usize),
}

/// The content of a [`Run`].
pub enum RunView<T> {
    Ask(AskView),
    Failed(ErrorView),
    Done(T, nat),
}

impl<T: DeepView> DeepView for Run<T> {
    type V = RunView<T::V>;

    open spec fn deep_view(&self) -> RunView<T::V> {
        match self {
            Run::Ask(ask) => RunView::Ask(ask.deep_view()),
            Run::Failed(e) => RunView::Failed(e.deep_view()),
            Run::Done(value, n) => RunView::Done(value.deep_view(), *n as nat),
        }
    }
}

/// What is sent to create a folder.
pub open spec fn folder_payload(name: Seq<char>, parent_id: Seq<char>) -> JsonView {
    JsonView::Object(
        no_fields().insert("folder_name"@, JsonView::Text(name)).insert(
            "parent_folder_id"@,
            JsonView::Text(parent_id),
        ),
    )
}

/// Making sure that a folder exists, from answer `at` on: nothing is done where
/// the path is resolved or is at the top; else the parent is made sure of and
/// resolved, and the folder is created in it.
pub open spec fn new_folder_run(path: Seq<char>, answers: Seq<Answer>, at: nat) -> RunView<()>
    decreases path.len(),
{
    if path.len() == 0 {
        RunView::Done((), at)
    } else if answers.len() <= at {
        RunView::Ask(AskView::Resolve(path))
    } else if entry_in(answers[at as int]) is Ok || parent_of(path).len() == 0 {
        RunView::Done((), at + 1)
    } else {
        proof {
            parent_and_name(path);
        }
        match new_folder_run(parent_of(path), answers, at + 1) {
            RunView::Ask(ask) => RunView::Ask(ask),
            RunView::Failed(e) => RunView::Failed(e),
            RunView::Done(_, n) => if answers.len() <= n {
                RunView::Ask(AskView::Resolve(parent_of(path)))
            } else {
                match entry_in(answers[n as int]) {
                    Err(e) => RunView::Failed(e),
                    Ok(parent) => if answers.len() <= n + 1 {
                        RunView::Ask(
                            AskView::Call(
                                ApiCallView::PostJson(
                                    "/folders2"@,
                                    folder_payload(name_of(path), parent.entry_id),
                                ),
                            ),
                        )
                    } else {
                        match json_in(answers[n as int + 1]) {
                            Err(e) => RunView::Failed(e),
                            Ok(_) => RunView::Done((), n + 2),
                        }
                    },
                }
            },
        }
    }
}

/// A program gets to the end of making sure of a folder within three answers for
/// each character of the path, whatever the answers are.
pub proof fn new_folder_ends(path: Seq<char>, answers: Seq<Answer>, at: nat)
    ensures
        match new_folder_run(path, answers, at) {
            RunView::Ask(_) => answers.len() < at + 3 * path.len(),
            RunView::Failed(_) => true,
            RunView::Done(_, n) => at <= n <= at + 3 * path.len() && (n > at ==> n
                <= answers.len()),
        },
    decreases path.len(),
{
    if path.len() > 0 && answers.len() > at {
        parent_and_name(path);
        if parent_of(path).len() > 0 && entry_in(answers[at as int]) is Err {
            new_folder_ends(parent_of(path), answers, at + 1);
        }
    }
}

/// Makes sure that a folder exists, from answer `at` on.
pub fn new_folder(path: &str, answers: &Vec<Answer>, at: usize) -> (r: Run<()>)
    requires
        at <= answers@.len(),
    ensures
        r.deep_view() == new_folder_run(path@, answers@, at as nat),
        r matches Run::Done(_, n) ==> at <= n <= answers@.len(),
    decreases path@.len(),
{
    proof {
        parent_and_name(path@);
        new_folder_ends(path@, answers@, at as nat);
    }
    let total: usize = answers.len();
    if is_blank(path) {
        return Run::Done((), at);
    }
    if total <= at {
        return Run::Ask(Ask::Resolve(path.to_owned()));
    }
    let found = match read_entry(&answers[at]) {
        Ok(_) => true,
        Err(_) => false,
    };
    let parent = parent_path(path);
    if found || is_blank(parent.as_str()) {
        return Run::Done((), at + 1);
    }
    match new_folder(parent.as_str(), answers, at + 1) {
        Run::Ask(ask) => Run::Ask(ask),
        Run::Failed(e) => Run::Failed(e),
        Run::Done(_, n) => {
            if total <= n {
                return Run::Ask(Ask::Resolve(parent));
            }
            let entry = match read_entry(&answers[n]) {
                Ok(entry) => entry,
                Err(e) => {
                    return Run::Failed(e);
                },
            };
            if total - n <= 1 {
                let mut payload = empty_object();
                put_text(&mut payload, "folder_name", basename(path).as_str());
                put_text(&mut payload, "parent_folder_id", entry.entry_id.as_str());
                return Run::Ask(Ask::Call(ApiCall::PostJson("/folders2".to_owned(), payload)));
            }
            match read_json(&answers[n + 1]) {
                Ok(_) => Run::Done((), n + 2),
                Err(e) => Run::Failed(e),
            }
        },
    }
}

/// Whether a path is a folder, from answer `at` on: one that ends in a slash is;
/// one that is not there is not.
pub open spec fn is_folder_run(path: Seq<char>, answers: Seq<Answer>, at: nat) -> RunView<bool> {
    if path.len() > 0 && path.last() == '/' {
        RunView::Done(true, at)
    } else if answers.len() <= at {
        RunView::Ask(AskView::Resolve(path))
    } else {
        match entry_in(answers[at as int]) {
            Ok(entry) => RunView::Done(entry.entry_type == "folder"@, at + 1),
            Err(ErrorView::DeviceNotFound) => RunView::Done(false, at + 1),
            Err(e) => RunView::Failed(e),
        }
    }
}

/// Finds out whether a path is a folder, from answer `at` on.
pub fn path_is_folder(path: &str, answers: &Vec<Answer>, at: usize) -> (r: Run<bool>)
    requires
        at <= answers@.len(),
    ensures
        r.deep_view() == is_folder_run(path@, answers@, at as nat),
        r matches Run::Done(_, n) ==> at <= n <= answers@.len(),
{
    if ends_with(path, '/') {
        return Run::Done(true, at);
    }
    if answers.len() <= at {
        return Run::Ask(Ask::Resolve(path.to_owned()));
    }
    match read_entry(&answers[at]) {
        Ok(entry) => Run::Done(same(entry.entry_type.as_str(), "folder"), at + 1),
        Err(RustProviderError::DeviceNotFound) => Run::Done(false, at + 1),
        Err(e) => Run::Failed(e),
    }
}

impl RustNativeProvider {
    /// Finds out whether a path is a folder.
    pub fn path_is_folder_public(path: &str, answers: &Vec<Answer>) -> (r: Run<bool>)
        ensures
            r.deep_view() == is_folder_run(path@, answers@, 0),
    {
        path_is_folder(path, answers, 0)
    }

    /// Makes sure that a folder exists.
    pub fn create_folder(path: &str, answers: &Vec<Answer>) -> (r: Run<()>)
        ensures
            r.deep_view() == new_folder_run(path@, answers@, 0),
    {
        new_folder(path, answers, 0)
    }
}

/// Whether there is an entry at a path.
pub open spec fn exists_run(path: Seq<char>, answers: Seq<Answer>) -> RunView<bool> {
    if answers.len() == 0 {
        RunView::Ask(AskView::Resolve(path))
    } else {
        match entry_in(answers[0]) {
            Ok(_) => RunView::Done(true, 1),
            Err(ErrorView::DeviceNotFound) => RunView::Done(false, 1),
            Err(e) => RunView::Failed(e),
        }
    }
}

impl RustNativeProvider {
    /// Finds out whether there is an entry at a path.
    pub fn path_exists(path: &str, answers: &Vec<Answer>) -> (r: Run<bool>)
        ensures
            r.deep_view() == exists_run(path@, answers@),
    {
        if answers.len() == 0 {
            return Run::Ask(Ask::Resolve(path.to_owned()));
        }
        match read_entry(&answers[0]) {
            Ok(_) => Run::Done(true, 1),
            Err(RustProviderError::DeviceNotFound) => Run::Done(false, 1),
            Err(e) => Run::Failed(e),
        }
    }
}

/// What is sent to create a document.
pub open spec fn document_payload(name: Seq<char>, parent_id: Seq<char>) -> JsonView {
    JsonView::Object(
        no_fields().insert("file_name"@, JsonView::Text(name)).insert(
            "parent_folder_id"@,
            JsonView::Text(parent_id),
        ).insert("document_source"@, JsonView::Text(""@)),
    )
}

/// The document to write at a path, from answer `at` on: the one that is there,
/// else one created in the parent folder, which is made sure of first.
pub open spec fn document_run(target: Seq<char>, answers: Seq<Answer>, at: nat) -> RunView<
    Seq<char>,
> {
    if answers.len() <= at {
        RunView::Ask(AskView::Resolve(target))
    } else if entry_in(answers[at as int]) is Ok && entry_in(answers[at as int])->Ok_0.entry_type
        == "document"@ {
        RunView::Done(entry_in(answers[at as int])->Ok_0.entry_id, at + 1)
    } else {
        let parent = parent_of(target);
        match new_folder_run(parent, answers, at + 1) {
            RunView::Ask(ask) => RunView::Ask(ask),
            RunView::Failed(e) => RunView::Failed(e),
            RunView::Done(_, n) => if answers.len() <= n {
                RunView::Ask(AskView::Resolve(parent))
            } else {
                match entry_in(answers[n as int]) {
                    Err(e) => RunView::Failed(e),
                    Ok(folder) => if answers.len() <= n + 1 {
                        RunView::Ask(
                            AskView::Call(
                                ApiCallView::PostJson(
                                    "/documents2"@,
                                    document_payload(name_of(target), folder.entry_id),
                                ),
                            ),
                        )
                    } else {
                        match json_in(answers[n as int + 1]) {
                            Err(e) => RunView::Failed(e),
                            Ok(created) => match created.text_at("document_id"@) {
                                Some(id) => RunView::Done(id, n + 2),
                                None => RunView::Failed(
                                    ErrorView::Internal("missing document_id from create"@),
                                ),
                            },
                        }
                    },
                }
            },
        }
    }
}

/// Finds or creates the document to write at a path, from answer `at` on.
fn document_at(target: &str, answers: &Vec<Answer>, at: usize) -> (r: Run<String>)
    requires
        at <= answers@.len(),
    ensures
        r.deep_view() == document_run(target@, answers@, at as nat),
        r matches Run::Done(_, n) ==> at <= n <= answers@.len(),
{
    let total: usize = answers.len();
    if total <= at {
        return Run::Ask(Ask::Resolve(target.to_owned()));
    }
    if let Ok(entry) = read_entry(&answers[at]) {
        if same(entry.entry_type.as_str(), "document") {
            return Run::Done(entry.entry_id.as_str().to_owned(), at + 1);
        }
    }
    let parent = parent_path(target);
    match new_folder(parent.as_str(), answers, at + 1) {
        Run::Ask(ask) => Run::Ask(ask),
        Run::Failed(e) => Run::Failed(e),
        Run::Done(_, n) => {
            if total <= n {
                return Run::Ask(Ask::Resolve(parent));
            }
            let folder = match read_entry(&answers[n]) {
                Ok(folder) => folder,
                Err(e) => {
                    return Run::Failed(e);
                },
            };
            if total - n <= 1 {
                let mut payload = empty_object();
                put_text(&mut payload, "file_name", basename(target).as_str());
                put_text(&mut payload, "parent_folder_id", folder.entry_id.as_str());
                put_text(&mut payload, "document_source", "");
                return Run::Ask(Ask::Call(ApiCall::PostJson("/documents2".to_owned(), payload)));
            }
            let created = match read_json(&answers[n + 1]) {
                Ok(created) => created,
                Err(e) => {
                    return Run::Failed(e);
                },
            };
            match text_member(created, "document_id") {
                Some(id) => Run::Done(id.to_owned(), n + 2),
                None => Run::Failed(internal("missing document_id from create")),
            }
        },
    }
}

/// Where an upload goes: into the folder that is given, under the local file's
/// name, or to the given path.
pub open spec fn upload_target(
    remote: Seq<char>,
    local_name: Option<Seq<char>>,
    folder: bool,
) -> Result<Seq<char>, ErrorView> {
    if !folder {
        Ok(remote)
    } else {
        match local_name {
            Some(name) => Ok(inside(remote, name)),
            None => Err(ErrorView::Internal("invalid local filename"@)),
        }
    }
}

/// Uploading a file that has been read; gives the path that was written.
pub open spec fn upload_run(
    remote: Seq<char>,
    local_name: Option<Seq<char>>,
    answers: Seq<Answer>,
) -> RunView<Seq<char>> {
    match is_folder_run(remote, answers, 0) {
        RunView::Ask(ask) => RunView::Ask(ask),
        RunView::Failed(e) => RunView::Failed(e),
        RunView::Done(folder, at) => match upload_target(remote, local_name, folder) {
            Err(e) => RunView::Failed(e),
            Ok(target) => match document_run(target, answers, at) {
                RunView::Ask(ask) => RunView::Ask(ask),
                RunView::Failed(e) => RunView::Failed(e),
                RunView::Done(id, n) => if answers.len() <= n {
                    RunView::Ask(
                        AskView::Call(
                            ApiCallView::PutFile(
                                "/documents/"@ + id + "/file"@,
                                name_of(target),
                            ),
                        ),
                    )
                } else {
                    match answers[n as int] {
                        Err(e) => RunView::Failed(e.deep_view()),
                        Ok(_) => RunView::Done(target, n + 1),
                    }
                },
            },
        },
    }
}

impl RustNativeProvider {
    /// Uploads a file that has been read. `local_name` is the local file's name,
    /// where it has one that is text.
    pub fn upload(remote_path: &str, local_name: &Option<String>, answers: &Vec<Answer>) -> (r: Run<
        String,
    >)
        ensures
            r.deep_view() == upload_run(remote_path@, local_name.deep_view(), answers@),
    {
        let (folder, at) = match path_is_folder(remote_path, answers, 0) {
            Run::Ask(ask) => {
                return Run::Ask(ask);
            },
            Run::Failed(e) => {
                return Run::Failed(e);
            },
            Run::Done(folder, at) => (folder, at),
        };
        let target = if folder {
            match local_name {
                Some(name) => path_inside(remote_path, name.as_str()),
                None => {
                    return Run::Failed(internal("invalid local filename"));
                },
            }
        } else {
            remote_path.to_owned()
        };
        match document_at(target.as_str(), answers, at) {
            Run::Ask(ask) => Run::Ask(ask),
            Run::Failed(e) => Run::Failed(e),
            Run::Done(id, n) => {
                if answers.len() <= n {
                    return Run::Ask(
                        Ask::Call(
                            ApiCall::PutFile(
                                cat3("/documents/", id.as_str(), "/file"),
                                basename(target.as_str()),
                            ),
                        ),
                    );
                }
                match &answers[n] {
                    Err(e) => Run::Failed(e.clone()),
                    Ok(_) => Run::Done(target, n + 1),
                }
            },
        }
    }
}

/// Downloading a document; gives its bytes.
pub open spec fn download_run(path: Seq<char>, answers: Seq<Answer>) -> RunView<Seq<u8>> {
    if answers.len() == 0 {
        RunView::Ask(AskView::Resolve(path))
    } else {
        match entry_in(answers[0]) {
            Err(e) => RunView::Failed(e),
            Ok(entry) => if entry.entry_type != "document"@ {
                RunView::Failed(ErrorView::Internal("download target is not document"@))
            } else if answers.len() == 1 {
                RunView::Ask(
                    AskView::Call(
                        ApiCallView::GetBytes("/documents/"@ + entry.entry_id + "/file"@),
                    ),
                )
            } else {
                match bytes_in(answers[1]) {
                    Err(e) => RunView::Failed(e),
                    Ok(data) => RunView::Done(data, 2),
                }
            },
        }
    }
}

/// A program that gives bytes, by the content of its bytes.
pub open spec fn bytes_run(run: Run<Vec<u8>>) -> RunView<Seq<u8>> {
    match run {
        Run::Ask(ask) => RunView::Ask(ask.deep_view()),
        Run::Failed(e) => RunView::Failed(e.deep_view()),
        Run::Done(data, n) => RunView::Done(data@, n as nat),
    }
}

impl RustNativeProvider {
    /// Downloads a document.
    pub fn download(path: &str, answers: &Vec<Answer>) -> (r: Run<Vec<u8>>)
        ensures
            bytes_run(r) == download_run(path@, answers@),
    {
        if answers.len() == 0 {
            return Run::Ask(Ask::Resolve(path.to_owned()));
        }
        let entry = match read_entry(&answers[0]) {
            Ok(entry) => entry,
            Err(e) => {
                return Run::Failed(e);
            },
        };
        if !same(entry.entry_type.as_str(), "document") {
            return Run::Failed(internal("download target is not document"));
        }
        if answers.len() == 1 {
            let endpoint = cat3("/documents/", entry.entry_id.as_str(), "/file");
            return Run::Ask(Ask::Call(ApiCall::GetBytes(endpoint)));
        }
        match &answers[1] {
            Ok(Given::Value(ApiValue::Bytes(data))) => Run::Done(
                crate::bytes::copy_bytes(data.as_slice()),
                2,
            ),
            Ok(_) => Run::Failed(internal("unexpected answer")),
            Err(e) => Run::Failed(e.clone()),
        }
    }
}

/// Where an entry is changed: folders and everything else have endpoints of their own.
pub open spec fn entry_endpoint_of(entry: ResolveEntryView) -> Seq<char> {
    if entry.entry_type == "folder"@ {
        "/folders/"@ + entry.entry_id
    } else {
        "/documents/"@ + entry.entry_id
    }
}

fn entry_endpoint(entry: &ResolveEntry) -> (r: String)
    ensures
        r@ == entry_endpoint_of(entry.deep_view()),
{
    if same(entry.entry_type.as_str(), "folder") {
        cat2("/folders/", entry.entry_id.as_str())
    } else {
        cat2("/documents/", entry.entry_id.as_str())
    }
}

/// The end of a program with an answer that only has to be there.
pub open spec fn ended(answers: Seq<Answer>, at: nat) -> RunView<()> {
    match answers[at as int] {
        Err(e) => RunView::Failed(e.deep_view()),
        Ok(_) => RunView::Done((), at + 1),
    }
}

fn end_at(answers: &Vec<Answer>, at: usize) -> (r: Run<()>)
    requires
        at < answers@.len(),
    ensures
        r.deep_view() == ended(answers@, at as nat),
{
    let total: usize = answers.len();
    assert(at < total);
    match &answers[at] {
        Err(e) => Run::Failed(e.clone()),
        Ok(_) => Run::Done((), at + 1),
    }
}

/// Deleting the entry at a path.
pub open spec fn delete_run(path: Seq<char>, answers: Seq<Answer>) -> RunView<()> {
    if answers.len() == 0 {
        RunView::Ask(AskView::Resolve(path))
    } else {
        match entry_in(answers[0]) {
            Err(e) => RunView::Failed(e),
            Ok(entry) => if answers.len() == 1 {
                RunView::Ask(AskView::Call(ApiCallView::Delete(entry_endpoint_of(entry))))
            } else {
                ended(answers, 1)
            },
        }
    }
}

impl RustNativeProvider {
    /// Deletes the entry at a path.
    pub fn delete(path: &str, answers: &Vec<Answer>) -> (r: Run<()>)
        ensures
            r.deep_view() == delete_run(path@, answers@),
    {
        if answers.len() == 0 {
            return Run::Ask(Ask::Resolve(path.to_owned()));
        }
        match read_entry(&answers[0]) {
            Err(e) => Run::Failed(e),
            Ok(entry) => if answers.len() == 1 {
                Run::Ask(Ask::Call(ApiCall::Delete(entry_endpoint(entry))))
            } else {
                end_at(answers, 1)
            },
        }
    }
}

/// A destination: the identifier of a folder, and the new name where the
/// destination is not itself a folder that is there.
pub struct Destination {
    pub folder_id: String,
    pub name: Option<String>,
}

/// The content of a [`Destination`].
#[verifier::ext_equal]
pub struct DestinationView {
    pub folder_id: Seq<char>,
    pub name: Option<Seq<char>>,
}

impl DeepView for Destination {
    type V = DestinationView;

    open spec fn deep_view(&self) -> DestinationView {
        DestinationView { folder_id: self.folder_id@, name: self.name.deep_view() }
    }
}

/// A destination whose parent is resolved by answer `at`.
pub open spec fn parent_destination(dst: Seq<char>, answers: Seq<Answer>, at: nat) -> RunView<
    DestinationView,
> {
    if answers.len() <= at {
        RunView::Ask(AskView::Resolve(parent_of(dst)))
    } else {
        match entry_in(answers[at as int]) {
            Err(e) => RunView::Failed(e),
            Ok(folder) => RunView::Done(
                DestinationView { folder_id: folder.entry_id, name: Some(name_of(dst)) },
                at + 1,
            ),
        }
    }
}

fn resolve_parent(dst: &str, answers: &Vec<Answer>, at: usize) -> (r: Run<Destination>)
    requires
        at <= answers@.len(),
    ensures
        r.deep_view() == parent_destination(dst@, answers@, at as nat),
        r matches Run::Done(_, n) ==> n <= answers@.len(),
{
    if answers.len() <= at {
        return Run::Ask(Ask::Resolve(parent_path(dst)));
    }
    match read_entry(&answers[at]) {
        Err(e) => Run::Failed(e),
        Ok(folder) => Run::Done(
            Destination {
                folder_id: folder.entry_id.as_str().to_owned(),
                name: Some(basename(dst)),
            },
            at + 1,
        ),
    }
}

/// Where an entry is moved, from answer `at` on: into the folder at the
/// destination, else into the destination's parent under a new name.
pub open spec fn move_destination(dst: Seq<char>, answers: Seq<Answer>, at: nat) -> RunView<
    DestinationView,
> {
    if answers.len() <= at {
        RunView::Ask(AskView::Resolve(dst))
    } else if entry_in(answers[at as int]) is Ok && entry_in(answers[at as int])->Ok_0.entry_type
        == "folder"@ {
        RunView::Done(
            DestinationView { folder_id: entry_in(answers[at as int])->Ok_0.entry_id, name: None },
            at + 1,
        )
    } else {
        parent_destination(dst, answers, at + 1)
    }
}

fn find_move_destination(dst: &str, answers: &Vec<Answer>, at: usize) -> (r: Run<Destination>)
    requires
        at <= answers@.len(),
    ensures
        r.deep_view() == move_destination(dst@, answers@, at as nat),
        r matches Run::Done(_, n) ==> n <= answers@.len(),
{
    if answers.len() <= at {
        return Run::Ask(Ask::Resolve(dst.to_owned()));
    }
    if let Ok(entry) = read_entry(&answers[at]) {
        if same(entry.entry_type.as_str(), "folder") {
            return Run::Done(
                Destination { folder_id: entry.entry_id.as_str().to_owned(), name: None },
                at + 1,
            );
        }
    }
    resolve_parent(dst, answers, at + 1)
}

/// What is sent to put an entry somewhere, with its new name, if any, under `key`.
pub open spec fn placement(destination: DestinationView, key: Seq<char>) -> JsonView {
    let base = no_fields().insert("parent_folder_id"@, JsonView::Text(destination.folder_id));
    match destination.name {
        Some(name) => JsonView::Object(base.insert(key, JsonView::Text(name))),
        None => JsonView::Object(base),
    }
}

fn placement_value(destination: &Destination, key: &str) -> (r: serde_json::Value)
    ensures
        json_value(r) == placement(destination.deep_view(), key@),
{
    let mut payload = empty_object();
    put_text(&mut payload, "parent_folder_id", destination.folder_id.as_str());
    if let Some(name) = &destination.name {
        put_text(&mut payload, key, name.as_str());
    }
    payload
}

/// Moving an entry to a destination.
pub open spec fn move_run(src: Seq<char>, dst: Seq<char>, answers: Seq<Answer>) -> RunView<()> {
    if answers.len() == 0 {
        RunView::Ask(AskView::Resolve(src))
    } else {
        match entry_in(answers[0]) {
            Err(e) => RunView::Failed(e),
            Ok(entry) => match move_destination(dst, answers, 1) {
                RunView::Ask(ask) => RunView::Ask(ask),
                RunView::Failed(e) => RunView::Failed(e),
                RunView::Done(destination, n) => if answers.len() <= n {
                    RunView::Ask(
                        AskView::Call(
                            ApiCallView::PutJson(
                                entry_endpoint_of(entry),
                                placement(
                                    destination,
                                    if entry.entry_type == "folder"@ {
                                        "folder_name"@
                                    } else {
                                        "file_name"@
                                    },
                                ),
                            ),
                        ),
                    )
                } else {
                    ended(answers, n)
                },
            },
        }
    }
}

impl RustNativeProvider {
    /// Moves an entry to a destination.
    pub fn move_entry(src: &str, dst: &str, answers: &Vec<Answer>) -> (r: Run<()>)
        ensures
            r.deep_view() == move_run(src@, dst@, answers@),
    {
        if answers.len() == 0 {
            return Run::Ask(Ask::Resolve(src.to_owned()));
        }
        let entry = match read_entry(&answers[0]) {
            Ok(entry) => entry,
            Err(e) => {
                return Run::Failed(e);
            },
        };
        match find_move_destination(dst, answers, 1) {
            Run::Ask(ask) => Run::Ask(ask),
            Run::Failed(e) => Run::Failed(e),
            Run::Done(destination, n) => {
                if answers.len() <= n {
                    let key = if same(entry.entry_type.as_str(), "folder") {
                        "folder_name"
                    } else {
                        "file_name"
                    };
                    let payload = placement_value(&destination, key);
                    return Run::Ask(Ask::Call(ApiCall::PutJson(entry_endpoint(entry), payload)));
                }
                end_at(answers, n)
            },
        }
    }
}

/// Where an entry is renamed to: the new name in the same folder.
pub open spec fn renamed(path: Seq<char>, new_name: Seq<char>) -> Seq<char> {
    parent_of(path) + "/"@ + new_name
}

/// Where an entry is renamed to.
pub fn rename_target(path: &str, new_name: &str) -> (r: String)
    ensures
        r@ == renamed(path@, new_name@),
{
    cat3(parent_path(path).as_str(), "/", new_name)
}

impl RustNativeProvider {
    /// Renames an entry: a move to the new name in the same folder.
    pub fn rename_entry(path: &str, new_name: &str, answers: &Vec<Answer>) -> (r: Run<()>)
        ensures
            r.deep_view() == move_run(path@, renamed(path@, new_name@), answers@),
    {
        let dst = rename_target(path, new_name);
        Self::move_entry(path, dst.as_str(), answers)
    }
}

/// Where an entry is copied, from answer 1 on: into the folder at the
/// destination, else into the destination's parent under a new name; where
/// nothing is at the destination, its parent is made sure of first.
pub open spec fn copy_destination(dst: Seq<char>, answers: Seq<Answer>) -> RunView<
    DestinationView,
> {
    if answers.len() <= 1 {
        RunView::Ask(AskView::Resolve(dst))
    } else {
        match entry_in(answers[1]) {
            Ok(entry) => if entry.entry_type == "folder"@ {
                RunView::Done(DestinationView { folder_id: entry.entry_id, name: None }, 2)
            } else {
                parent_destination(dst, answers, 2)
            },
            Err(ErrorView::DeviceNotFound) => match new_folder_run(parent_of(dst), answers, 2) {
                RunView::Ask(ask) => RunView::Ask(ask),
                RunView::Failed(e) => RunView::Failed(e),
                RunView::Done(_, n) => parent_destination(dst, answers, n),
            },
            Err(e) => RunView::Failed(e),
        }
    }
}

fn find_copy_destination(dst: &str, answers: &Vec<Answer>) -> (r: Run<Destination>)
    ensures
        r.deep_view() == copy_destination(dst@, answers@),
        r matches Run::Done(_, n) ==> n <= answers@.len(),
{
    if answers.len() <= 1 {
        return Run::Ask(Ask::Resolve(dst.to_owned()));
    }
    match read_entry(&answers[1]) {
        Ok(entry) => if same(entry.entry_type.as_str(), "folder") {
            Run::Done(Destination { folder_id: entry.entry_id.as_str().to_owned(), name: None }, 2)
        } else {
            resolve_parent(dst, answers, 2)
        },
        Err(RustProviderError::DeviceNotFound) => match new_folder(
            parent_path(dst).as_str(),
            answers,
            2,
        ) {
            Run::Ask(ask) => Run::Ask(ask),
            Run::Failed(e) => Run::Failed(e),
            Run::Done(_, n) => resolve_parent(dst, answers, n),
        },
        Err(e) => Run::Failed(e),
    }
}

/// Copying a document to a destination.
pub open spec fn copy_run(src: Seq<char>, dst: Seq<char>, answers: Seq<Answer>) -> RunView<()> {
    if answers.len() == 0 {
        RunView::Ask(AskView::Resolve(src))
    } else {
        match entry_in(answers[0]) {
            Err(e) => RunView::Failed(e),
            Ok(entry) => match copy_destination(dst, answers) {
                RunView::Ask(ask) => RunView::Ask(ask),
                RunView::Failed(e) => RunView::Failed(e),
                RunView::Done(destination, n) => if answers.len() <= n {
                    RunView::Ask(
                        AskView::Call(
                            ApiCallView::PostJson(
                                "/documents/"@ + entry.entry_id + "/copy"@,
                                placement(destination, "file_name"@),
                            ),
                        ),
                    )
                } else {
                    ended(answers, n)
                },
            },
        }
    }
}

impl RustNativeProvider {
    /// Copies a document to a destination.
    pub fn copy_entry(src: &str, dst: &str, answers: &Vec<Answer>) -> (r: Run<()>)
        ensures
            r.deep_view() == copy_run(src@, dst@, answers@),
    {
        if answers.len() == 0 {
            return Run::Ask(Ask::Resolve(src.to_owned()));
        }
        let entry = match read_entry(&answers[0]) {
            Ok(entry) => entry,
            Err(e) => {
                return Run::Failed(e);
            },
        };
        match find_copy_destination(dst, answers) {
            Run::Ask(ask) => Run::Ask(ask),
            Run::Failed(e) => Run::Failed(e),
            Run::Done(destination, n) => {
                if answers.len() <= n {
                    let payload = placement_value(&destination, "file_name");
                    let endpoint = cat3("/documents/", entry.entry_id.as_str(), "/copy");
                    return Run::Ask(Ask::Call(ApiCall::PostJson(endpoint, payload)));
                }
                end_at(answers, n)
            },
        }
    }
}

/// A program that calls an endpoint for a JSON tree at answer `at`.
pub open spec fn get_run(endpoint: Seq<char>, answers: Seq<Answer>, at: nat) -> RunView<JsonView> {
    if answers.len() <= at {
        RunView::Ask(AskView::Call(ApiCallView::GetJson(endpoint)))
    } else {
        match json_in(answers[at as int]) {
            Err(e) => RunView::Failed(e),
            Ok(value) => RunView::Done(value, at + 1),
        }
    }
}

/// The next of several endpoints that is called, with the answers so far.
pub open spec fn get_all(endpoints: Seq<Seq<char>>, answers: Seq<Answer>, at: nat) -> Option<
    RunView<DeviceStatusView>,
>
    decreases endpoints.len(),
{
    if endpoints.len() == 0 {
        None
    } else {
        match get_run(endpoints[0], answers, at) {
            RunView::Ask(ask) => Some(RunView::Ask(ask)),
            RunView::Failed(e) => Some(RunView::Failed(e)),
            RunView::Done(_, n) => get_all(endpoints.skip(1), answers, n),
        }
    }
}

/// The endpoints that tell the state of a device, in the order they are called.
pub open spec fn status_endpoints() -> Seq<Seq<char>> {
    seq![
        "/system/status/battery"@,
        "/system/status/storage"@,
        "/system/status/firmware_version"@,
        "/system/configs/owner"@,
        "/system/configs/wifi"@,
    ]
}

/// Reading the state of a device.
pub open spec fn device_info_run(answers: Seq<Answer>) -> RunView<DeviceStatusView> {
    match get_all(status_endpoints(), answers, 0) {
        Some(run) => run,
        None => RunView::Done(
            device_status(
                json_in(answers[0])->Ok_0,
                json_in(answers[1])->Ok_0,
                json_in(answers[2])->Ok_0,
                json_in(answers[3])->Ok_0,
                json_in(answers[4])->Ok_0,
            ),
            5,
        ),
    }
}

impl RustNativeProvider {
    /// Reads the state of a device.
    pub fn device_info(answers: &Vec<Answer>) -> (r: Run<DeviceStatus>)
        ensures
            r.deep_view() == device_info_run(answers@),
    {
        let endpoints: Vec<&str> = vec![
            "/system/status/battery",
            "/system/status/storage",
            "/system/status/firmware_version",
            "/system/configs/owner",
            "/system/configs/wifi",
        ];
        let ghost names = status_endpoints();
        assert(names.skip(0) =~= names);
        for i in 0..5usize
            invariant
                endpoints@.len() == 5,
                names == status_endpoints(),
                forall|k: int| 0 <= k < 5 ==> (#[trigger] endpoints@[k])@ == names[k],
                get_all(names, answers@, 0) == get_all(names.skip(i as int), answers@, i as nat),
                i <= answers@.len(),
                forall|k: int| 0 <= k < i ==> json_in(#[trigger] answers@[k]) is Ok,
        {
            assert(names.skip(i as int)[0] == names[i as int]);
            if answers.len() <= i {
                return Run::Ask(Ask::Call(ApiCall::GetJson(endpoints[i].to_owned())));
            }
            match read_json(&answers[i]) {
                Err(e) => {
                    return Run::Failed(e);
                },
                Ok(_) => {},
            }
            assert(names.skip(i as int).skip(1) =~= names.skip(i + 1));
        }
        match (
            read_json(&answers[0]),
            read_json(&answers[1]),
            read_json(&answers[2]),
            read_json(&answers[3]),
            read_json(&answers[4]),
        ) {
            (Ok(battery), Ok(storage), Ok(firmware), Ok(owner), Ok(wifi)) => Run::Done(
                status_of(battery, storage, firmware, owner, wifi),
                5,
            ),
            _ => {
                assert(false);
                Run::Failed(internal("unexpected answer"))
            },
        }
    }
}

/// What is sent to create a note template.
pub open spec fn template_payload(name: Seq<char>) -> JsonView {
    JsonView::Object(
        no_fields().insert("templateName"@, JsonView::Text(name)).insert(
            "document_source"@,
            JsonView::Text(""@),
        ),
    )
}

/// Where note templates are listed and created.
pub const TEMPLATES: &'static str = "/viewer/configs/note_templates";

/// Uploading a note template.
pub open spec fn upload_template_run(remote: Seq<char>, answers: Seq<Answer>) -> RunView<()> {
    let name = name_of(remote);
    if answers.len() == 0 {
        RunView::Ask(AskView::Call(ApiCallView::PostJson(TEMPLATES@, template_payload(name))))
    } else {
        match json_in(answers[0]) {
            Err(e) => RunView::Failed(e),
            Ok(created) => match created.text_at("note_template_id"@) {
                None => RunView::Failed(ErrorView::Internal("missing note_template_id"@)),
                Some(id) => if answers.len() == 1 {
                    RunView::Ask(
                        AskView::Call(
                            ApiCallView::PutFile(TEMPLATES@ + "/"@ + id + "/file"@, name),
                        ),
                    )
                } else {
                    ended(answers, 1)
                },
            },
        }
    }
}

impl RustNativeProvider {
    /// Uploads a note template.
    pub fn upload_template(remote_path: &str, answers: &Vec<Answer>) -> (r: Run<()>)
        ensures
            r.deep_view() == upload_template_run(remote_path@, answers@),
    {
        let name = basename(remote_path);
        if answers.len() == 0 {
            let mut payload = empty_object();
            put_text(&mut payload, "templateName", name.as_str());
            put_text(&mut payload, "document_source", "");
            return Run::Ask(Ask::Call(ApiCall::PostJson(TEMPLATES.to_owned(), payload)));
        }
        match read_json(&answers[0]) {
            Err(e) => Run::Failed(e),
            Ok(created) => match text_member(created, "note_template_id") {
                None => Run::Failed(internal("missing note_template_id")),
                Some(id) => if answers.len() == 1 {
                    Run::Ask(Ask::Call(ApiCall::PutFile(cat4(TEMPLATES, "/", id, "/file"), name)))
                } else {
                    end_at(answers, 1)
                },
            },
        }
    }
}

/// Deleting the note template with a given name.
pub open spec fn delete_template_run(name: Seq<char>, answers: Seq<Answer>) -> RunView<()> {
    match get_run(TEMPLATES@, answers, 0) {
        RunView::Ask(ask) => RunView::Ask(ask),
        RunView::Failed(e) => RunView::Failed(e),
        RunView::Done(templates, _) => match template_id(
            templates.list_at("template_list"@),
            name,
        ) {
            None => RunView::Failed(ErrorView::DeviceNotFound),
            Some(id) => if answers.len() == 1 {
                RunView::Ask(AskView::Call(ApiCallView::Delete(TEMPLATES@ + "/"@ + id)))
            } else {
                ended(answers, 1)
            },
        },
    }
}

impl RustNativeProvider {
    /// Deletes the note template with a given name.
    pub fn delete_template(name: &str, answers: &Vec<Answer>) -> (r: Run<()>)
        ensures
            r.deep_view() == delete_template_run(name@, answers@),
    {
        if answers.len() == 0 {
            return Run::Ask(Ask::Call(ApiCall::GetJson(TEMPLATES.to_owned())));
        }
        match read_json(&answers[0]) {
            Err(e) => Run::Failed(e),
            Ok(templates) => match find_template(templates, name) {
                None => Run::Failed(RustProviderError::DeviceNotFound),
                Some(id) => if answers.len() == 1 {
                    Run::Ask(Ask::Call(ApiCall::Delete(cat3(TEMPLATES, "/", id.as_str()))))
                } else {
                    end_at(answers, 1)
                },
            },
        }
    }
}

/// Whether a device is ready for new firmware.
pub open spec fn precheck_passed(value: JsonView) -> bool {
    value.text_at("battery"@) == Some("ok"@) && value.text_at("image_file"@) == Some("ok"@)
}

/// Updating the firmware with a file that has been read: it is installed only
/// after the device has found its battery and the file in order.
pub open spec fn update_firmware_run(answers: Seq<Answer>) -> RunView<()> {
    if answers.len() == 0 {
        RunView::Ask(
            AskView::Call(
                ApiCallView::PutFile("/system/controls/update_firmware/file"@, "FwUpdater.pkg"@),
            ),
        )
    } else if answers[0] is Err {
        RunView::Failed(answers[0]->Err_0.deep_view())
    } else {
        match get_run("/system/controls/update_firmware/precheck"@, answers, 1) {
            RunView::Ask(ask) => RunView::Ask(ask),
            RunView::Failed(e) => RunView::Failed(e),
            RunView::Done(precheck, _) => if !precheck_passed(precheck) {
                RunView::Failed(
                    ErrorView::Internal("firmware precheck failed: "@ + json_text(precheck)),
                )
            } else if answers.len() == 2 {
                RunView::Ask(
                    AskView::Call(
                        ApiCallView::PutJson(
                            "/system/controls/update_firmware"@,
                            JsonView::Object(no_fields()),
                        ),
                    ),
                )
            } else {
                ended(answers, 2)
            },
        }
    }
}

impl RustNativeProvider {
    /// Updates the firmware with a file that has been read.
    pub fn update_firmware(answers: &Vec<Answer>) -> (r: Run<()>)
        ensures
            r.deep_view() == update_firmware_run(answers@),
    {
        if answers.len() == 0 {
            return Run::Ask(
                Ask::Call(
                    ApiCall::PutFile(
                        "/system/controls/update_firmware/file".to_owned(),
                        "FwUpdater.pkg".to_owned(),
                    ),
                ),
            );
        }
        if let Err(e) = &answers[0] {
            return Run::Failed(e.clone());
        }
        if answers.len() == 1 {
            return Run::Ask(
                Ask::Call(ApiCall::GetJson("/system/controls/update_firmware/precheck".to_owned())),
            );
        }
        let precheck = match read_json(&answers[1]) {
            Ok(precheck) => precheck,
            Err(e) => {
                return Run::Failed(e);
            },
        };
        if !text_is(precheck, "battery", "ok") || !text_is(precheck, "image_file", "ok") {
            return Run::Failed(
                RustProviderError::Internal(
                    cat2("firmware precheck failed: ", show_json(precheck).as_str()),
                ),
            );
        }
        if answers.len() == 2 {
            return Run::Ask(
                Ask::Call(
                    ApiCall::PutJson("/system/controls/update_firmware".to_owned(), empty_object()),
                ),
            );
        }
        end_at(answers, 2)
    }
}

/// A local file: where it is, and its path below the folder that is synchronised.
pub struct LocalFile {
    pub path: String,
    pub relative: String,
}

/// Where a local file goes: below the remote folder, with slashes throughout.
pub open spec fn sync_target(remote: Seq<char>, file: LocalFile) -> Seq<char> {
    inside(remote, replaced(file.relative@, '\\', '/'))
}

/// The paths of the documents in a listing.
pub open spec fn document_paths(list: Seq<JsonView>) -> Seq<Seq<char>>
    decreases list.len(),
{
    if list.len() == 0 {
        Seq::empty()
    } else {
        let before = document_paths(list.drop_last());
        if list.last().text_at("entry_type"@) == Some("document"@) && list.last().text_at(
            "entry_path"@,
        ) is Some {
            before.push(list.last().text_at("entry_path"@)->Some_0)
        } else {
            before
        }
    }
}

/// The paths of the documents in a listing.
pub fn list_document_paths(value: &serde_json::Value) -> (r: Vec<String>)
    ensures
        texts(r@) == document_paths(json_value(*value).list_at("entry_list"@)),
{
    let list = list_member(value, "entry_list");
    let ghost all = json_values(list@);
    let mut out: Vec<String> = Vec::new();
    proof {
        assert(all.take(0) =~= Seq::<JsonView>::empty());
        assert(texts(out@) =~= document_paths(all.take(0)));
    }
    for i in 0..list.len()
        invariant
            all == json_values(list@),
            texts(out@) == document_paths(all.take(i as int)),
    {
        let ghost was = texts(out@);
        proof {
            assert(all.take(i + 1).drop_last() =~= all.take(i as int));
            assert(all.take(i + 1).last() == json_value(list@[i as int]));
        }
        if text_is(&list[i], "entry_type", "document") {
            if let Some(path) = text_member(&list[i], "entry_path") {
                out.push(path.to_owned());
                assert(texts(out@) =~= was.push(path@));
            }
        }
    }
    assert(all.take(all.len() as int) =~= all);
    out
}

/// What a synchronisation did: what it uploaded, and what it left alone because
/// the device had it.
pub struct SyncReport {
    pub uploaded: Vec<String>,
    pub skipped: Vec<String>,
}

/// The content of a [`SyncReport`].
#[verifier::ext_equal]
pub struct SyncReportView {
    pub uploaded: Seq<Seq<char>>,
    pub skipped: Seq<Seq<char>>,
}

impl DeepView for SyncReport {
    type V = SyncReportView;

    open spec fn deep_view(&self) -> SyncReportView {
        SyncReportView { uploaded: texts(self.uploaded@), skipped: texts(self.skipped@) }
    }
}

/// Synchronising the files from the first on, from answer `at` on, after what
/// has been done already: a file that the device has is left alone, another one
/// is uploaded; the first failed upload ends it.
pub open spec fn sync_files(
    files: Seq<LocalFile>,
    remote: Seq<char>,
    documents: Seq<Seq<char>>,
    answers: Seq<Answer>,
    at: nat,
    done: SyncReportView,
) -> RunView<SyncReportView>
    decreases files.len(),
{
    if files.len() == 0 {
        RunView::Done(done, at)
    } else {
        let target = sync_target(remote, files[0]);
        if documents.contains(target) {
            sync_files(
                files.skip(1),
                remote,
                documents,
                answers,
                at,
                SyncReportView { skipped: done.skipped.push(target), ..done },
            )
        } else if answers.len() <= at {
            RunView::Ask(AskView::Upload(files[0].path@, target))
        } else {
            match answers[at as int] {
                Err(e) => RunView::Failed(e.deep_view()),
                Ok(_) => sync_files(
                    files.skip(1),
                    remote,
                    documents,
                    answers,
                    at + 1,
                    SyncReportView { uploaded: done.uploaded.push(target), ..done },
                ),
            }
        }
    }
}

/// Nothing done yet.
pub open spec fn nothing_synced() -> SyncReportView {
    SyncReportView { uploaded: Seq::empty(), skipped: Seq::empty() }
}

/// Synchronising local files to a remote folder: the folder is made sure of, the
/// device's documents are listed, and the files follow in order.
pub open spec fn sync_run(files: Seq<LocalFile>, remote: Seq<char>, answers: Seq<Answer>) -> RunView<
    SyncReportView,
> {
    match new_folder_run(remote, answers, 0) {
        RunView::Ask(ask) => RunView::Ask(ask),
        RunView::Failed(e) => RunView::Failed(e),
        RunView::Done(_, n) => match get_run(ALL_ENTRIES@, answers, n) {
            RunView::Ask(ask) => RunView::Ask(ask),
            RunView::Failed(e) => RunView::Failed(e),
            RunView::Done(listing, m) => sync_files(
                files,
                remote,
                document_paths(listing.list_at("entry_list"@)),
                answers,
                m,
                nothing_synced(),
            ),
        },
    }
}

impl RustNativeProvider {
    /// Synchronises local files to a remote folder.
    pub fn sync_folder(files: &Vec<LocalFile>, remote_path: &str, answers: &Vec<Answer>) -> (r: Run<
        SyncReport,
    >)
        ensures
            r.deep_view() == sync_run(files@, remote_path@, answers@),
    {
        let n = match new_folder(remote_path, answers, 0) {
            Run::Ask(ask) => {
                return Run::Ask(ask);
            },
            Run::Failed(e) => {
                return Run::Failed(e);
            },
            Run::Done(_, n) => n,
        };
        let total: usize = answers.len();
        if total <= n {
            return Run::Ask(Ask::Call(ApiCall::GetJson(ALL_ENTRIES.to_owned())));
        }
        let listing = match read_json(&answers[n]) {
            Ok(listing) => listing,
            Err(e) => {
                return Run::Failed(e);
            },
        };
        let documents = list_document_paths(listing);
        let mut done = SyncReport { uploaded: Vec::new(), skipped: Vec::new() };
        let mut at: usize = n + 1;
        let ghost docs = texts(documents@);
        proof {
            assert(files@.skip(0) =~= files@);
            assert(done.deep_view() =~= nothing_synced());
        }
        for i in 0..files.len()
            invariant
                total == answers@.len(),
                at <= total,
                docs == texts(documents@),
                sync_run(files@, remote_path@, answers@) == sync_files(
                    files@.skip(i as int),
                    remote_path@,
                    docs,
                    answers@,
                    at as nat,
                    done.deep_view(),
                ),
        {
            let ghost was = done.deep_view();
            let file = &files[i];
            proof {
                assert(files@.skip(i as int)[0] == files@[i as int]);
                assert(files@.skip(i as int).skip(1) =~= files@.skip(i + 1));
            }
            let target = import_target_below(remote_path, file);
            let ghost text = target@;
            if lists(&documents, target.as_str()) {
                done.skipped.push(target);
                assert(texts(done.skipped@) =~= was.skipped.push(text));
            } else {
                if total <= at {
                    return Run::Ask(Ask::Upload(file.path.as_str().to_owned(), target));
                }
                if let Err(e) = &answers[at] {
                    return Run::Failed(e.clone());
                }
                at = at + 1;
                done.uploaded.push(target);
                assert(texts(done.uploaded@) =~= was.uploaded.push(text));
            }
        }
        Run::Done(done, at)
    }
}

/// What a synchronisation uploads was not on the device, what it leaves alone
/// was, and between them they are all files.
pub proof fn sync_splits_the_files(
    files: Seq<LocalFile>,
    remote: Seq<char>,
    documents: Seq<Seq<char>>,
    answers: Seq<Answer>,
    at: nat,
    done: SyncReportView,
)
    requires
        sync_files(files, remote, documents, answers, at, done) is Done,
        forall|k: int|
            0 <= k < done.uploaded.len() ==> !documents.contains(#[trigger] done.uploaded[k]),
        forall|k: int| 0 <= k < done.skipped.len() ==> documents.contains(#[trigger] done.skipped[k]),
    ensures
        ({
            let report = sync_files(files, remote, documents, answers, at, done)->Done_0;
            &&& forall|k: int|
                0 <= k < report.uploaded.len() ==> !documents.contains(#[trigger] report.uploaded[k])
            &&& forall|k: int|
                0 <= k < report.skipped.len() ==> documents.contains(#[trigger] report.skipped[k])
            &&& report.uploaded.len() + report.skipped.len() == done.uploaded.len()
                + done.skipped.len() + files.len()
        }),
    decreases files.len(),
{
    if files.len() > 0 {
        let target = sync_target(remote, files[0]);
        if documents.contains(target) {
            let next = SyncReportView { skipped: done.skipped.push(target), ..done };
            sync_splits_the_files(files.skip(1), remote, documents, answers, at, next);
        } else {
            let next = SyncReportView { uploaded: done.uploaded.push(target), ..done };
            sync_splits_the_files(files.skip(1), remote, documents, answers, at + 1, next);
        }
    }
}

/// Whether a path is the folder that `remote` names, a slash, and then character
/// for character the relative path, with slashes for backslashes.
pub open spec fn is_place_below(
    remote: Seq<char>,
    folder: Seq<char>,
    relative: Seq<char>,
    place: Seq<char>,
) -> bool {
    let n = folder.len() + 1;
    &&& names_folder(remote, folder)
    &&& place.len() == n + relative.len()
    &&& place.take(n as int) == folder.push('/')
    &&& forall|i: int|
        0 <= i < relative.len() ==> #[trigger] place[n + i] == (if relative[i] == '\\' {
            '/'
        } else {
            relative[i]
        })
}

/// A file below a local folder keeps its whole relative path below the remote folder.
pub proof fn file_keeps_its_relative_path(
    remote: Seq<char>,
    folder: Seq<char>,
    file: LocalFile,
)
    requires
        names_folder(remote, folder),
    ensures
        is_place_below(remote, folder, file.relative@, sync_target(remote, file)),
        !file.relative@.contains('\\') ==> sync_target(remote, file) == folder + seq!['/']
            + file.relative@,
{
    let relative = file.relative@;
    let changed = replaced(relative, '\\', '/');
    inside_is_behind_one_slash(remote, folder, changed);
    let place = sync_target(remote, file);
    assert(place.take(folder.len() as int + 1) =~= folder.push('/'));
    if !relative.contains('\\') {
        assert forall|i: int| 0 <= i < relative.len() implies changed[i] == relative[i] by {
            assert(relative[i] != '\\');
        }
        assert(changed =~= relative);
    }
}

/// Files with different relative paths go to different places.
pub proof fn files_go_to_different_places(remote: Seq<char>, a: LocalFile, b: LocalFile)
    requires
        !a.relative@.contains('\\'),
        !b.relative@.contains('\\'),
        sync_target(remote, a) == sync_target(remote, b),
    ensures
        a.relative@ == b.relative@,
{
    let folder = crate::text::strip_back(remote, crate::text::CharClass::Only('/'));
    path_names_a_folder(remote);
    file_keeps_its_relative_path(remote, folder, a);
    file_keeps_its_relative_path(remote, folder, b);
    let n = (folder + seq!['/']).len() as int;
    assert(sync_target(remote, a).skip(n) =~= a.relative@);
    assert(sync_target(remote, b).skip(n) =~= b.relative@);
}

/// What an import or a synchronisation uploads is a local file, and goes to that
/// file's place below the remote folder, where the device has no document yet.
pub proof fn synced_file_goes_to_its_place(
    files: Seq<LocalFile>,
    remote: Seq<char>,
    folder: Seq<char>,
    documents: Seq<Seq<char>>,
    answers: Seq<Answer>,
    at: nat,
    done: SyncReportView,
    local: Seq<char>,
    target: Seq<char>,
)
    requires
        names_folder(remote, folder),
        sync_files(files, remote, documents, answers, at, done) == RunView::<SyncReportView>::Ask(
            AskView::Upload(local, target),
        ),
    ensures
        !documents.contains(target),
        exists|k: int|
            0 <= k < files.len() && (#[trigger] files[k]).path@ == local && is_place_below(
                remote,
                folder,
                files[k].relative@,
                target,
            ),
    decreases files.len(),
{
    let place = sync_target(remote, files[0]);
    file_keeps_its_relative_path(remote, folder, files[0]);
    if documents.contains(place) || answers.len() > at {
        let (next_at, next) = if documents.contains(place) {
            (at, SyncReportView { skipped: done.skipped.push(place), ..done })
        } else {
            (at + 1, SyncReportView { uploaded: done.uploaded.push(place), ..done })
        };
        synced_file_goes_to_its_place(
            files.skip(1),
            remote,
            folder,
            documents,
            answers,
            next_at,
            next,
            local,
            target,
        );
        let rest = files.skip(1);
        let k = choose|k: int|
            0 <= k < rest.len() && (#[trigger] rest[k]).path@ == local && is_place_below(
                remote,
                folder,
                rest[k].relative@,
                target,
            );
        assert(files[k + 1] == rest[k]);
    } else {
        assert(files[0].path@ == local);
    }
}

/// Once a synchronisation is done, every file's place below the remote folder is
/// told: as left alone where the device had a document there, else as uploaded.
pub proof fn every_file_is_told(
    files: Seq<LocalFile>,
    remote: Seq<char>,
    folder: Seq<char>,
    documents: Seq<Seq<char>>,
    answers: Seq<Answer>,
    at: nat,
    done: SyncReportView,
    report: SyncReportView,
    n: nat,
    k: int,
)
    requires
        names_folder(remote, folder),
        sync_files(files, remote, documents, answers, at, done) == RunView::Done(report, n),
        0 <= k < files.len(),
    ensures
        exists|place: Seq<char>| #[trigger]
            is_place_below(remote, folder, files[k].relative@, place) && if documents.contains(
                place,
            ) {
                report.skipped.contains(place)
            } else {
                report.uploaded.contains(place)
            },
    decreases files.len(),
{
    let place = sync_target(remote, files[0]);
    file_keeps_its_relative_path(remote, folder, files[0]);
    let (next_at, next) = if documents.contains(place) {
        (at, SyncReportView { skipped: done.skipped.push(place), ..done })
    } else {
        (at + 1, SyncReportView { uploaded: done.uploaded.push(place), ..done })
    };
    if k == 0 {
        if documents.contains(place) {
            assert(next.skipped[next.skipped.len() - 1] == place);
        } else {
            assert(next.uploaded[next.uploaded.len() - 1] == place);
        }
        told_stays_told(files.skip(1), remote, documents, answers, next_at, next, place);
    } else {
        every_file_is_told(
            files.skip(1),
            remote,
            folder,
            documents,
            answers,
            next_at,
            next,
            report,
            n,
            k - 1,
        );
        assert(files.skip(1)[k - 1] == files[k]);
    }
}

proof fn told_stays_told(
    files: Seq<LocalFile>,
    remote: Seq<char>,
    documents: Seq<Seq<char>>,
    answers: Seq<Answer>,
    at: nat,
    done: SyncReportView,
    place: Seq<char>,
)
    requires
        sync_files(files, remote, documents, answers, at, done) is Done,
    ensures
        ({
            let report = sync_files(files, remote, documents, answers, at, done)->Done_0;
            &&& done.skipped.contains(place) ==> report.skipped.contains(place)
            &&& done.uploaded.contains(place) ==> report.uploaded.contains(place)
        }),
    decreases files.len(),
{
    if files.len() > 0 {
        let other = sync_target(remote, files[0]);
        let (next_at, next) = if documents.contains(other) {
            (at, SyncReportView { skipped: done.skipped.push(other), ..done })
        } else {
            (at + 1, SyncReportView { uploaded: done.uploaded.push(other), ..done })
        };
        if done.skipped.contains(place) {
            let i = choose|i: int| 0 <= i < done.skipped.len() && done.skipped[i] == place;
            assert(next.skipped[i] == place);
        }
        if done.uploaded.contains(place) {
            let i = choose|i: int| 0 <= i < done.uploaded.len() && done.uploaded[i] == place;
            assert(next.uploaded[i] == place);
        }
        told_stays_told(files.skip(1), remote, documents, answers, next_at, next, place);
    }
}

/// The device has a document at a path exactly where an item of its listing is a
/// document with that path.
pub proof fn documents_are_those_listed(list: Seq<JsonView>, path: Seq<char>)
    ensures
        document_paths(list).contains(path) <==> exists|i: int|
            0 <= i < list.len() && (#[trigger] list[i]).text_at("entry_type"@) == Some("document"@)
                && list[i].text_at("entry_path"@) == Some(path),
    decreases list.len(),
{
    if list.len() > 0 {
        let init = list.drop_last();
        let before = document_paths(init);
        let all = document_paths(list);
        documents_are_those_listed(init, path);
        if all.contains(path) {
            let k = choose|k: int| 0 <= k < all.len() && all[k] == path;
            if k < before.len() {
                assert(before[k] == path);
                let i = choose|i: int|
                    0 <= i < init.len() && (#[trigger] init[i]).text_at("entry_type"@) == Some(
                        "document"@,
                    ) && init[i].text_at("entry_path"@) == Some(path);
                assert(list[i] == init[i]);
            } else {
                assert(list[list.len() - 1].text_at("entry_path"@) == Some(path));
            }
        }
        if exists|i: int|
            0 <= i < list.len() && (#[trigger] list[i]).text_at("entry_type"@) == Some("document"@)
                && list[i].text_at("entry_path"@) == Some(path) {
            let i = choose|i: int|
                0 <= i < list.len() && (#[trigger] list[i]).text_at("entry_type"@) == Some(
                    "document"@,
                ) && list[i].text_at("entry_path"@) == Some(path);
            if i < init.len() {
                assert(init[i] == list[i]);
                let k = choose|k: int| 0 <= k < before.len() && before[k] == path;
                assert(all[k] == path);
            } else {
                assert(all[all.len() - 1] == path);
            }
        }
    } else {
        assert(document_paths(list) =~= Seq::<Seq<char>>::empty());
    }
}

/// Renaming keeps the folder: the new name stands where the old one stood.
pub proof fn new_name_stands_in_the_same_folder(
    folder: Seq<char>,
    name: Seq<char>,
    new_name: Seq<char>,
)
    requires
        !name.contains('/'),
    ensures
        renamed(folder + seq!['/'] + name, new_name) == folder + seq!['/'] + new_name,
        !new_name.contains('/') ==> parent_of(renamed(folder + seq!['/'] + name, new_name))
            == folder && name_of(renamed(folder + seq!['/'] + name, new_name)) == new_name,
{
    cut_at_the_last_slash(folder, name);
    reveal_strlit("/");
    assert(renamed(folder + seq!['/'] + name, new_name) =~= folder + seq!['/'] + new_name);
    if !new_name.contains('/') {
        cut_at_the_last_slash(folder, new_name);
    }
}

/// A synchronisation as it is told: what was left alone counts as conflicts too.
pub open spec fn sync_message(report: SyncReportView) -> JsonView {
    JsonView::Object(
        no_fields().insert("uploaded"@, text_list(report.uploaded)).insert(
            "skipped"@,
            text_list(report.skipped),
        ).insert("conflicts"@, text_list(report.skipped)),
    )
}

/// A synchronisation as it is told.
pub fn sync_report_value(report: &SyncReport) -> (r: serde_json::Value)
    ensures
        json_value(r) == sync_message(report.deep_view()),
{
    let mut value = empty_object();
    set_member(&mut value, "uploaded", texts_value(&report.uploaded));
    set_member(&mut value, "skipped", texts_value(&report.skipped));
    set_member(&mut value, "conflicts", texts_value(&report.skipped));
    value
}

/// What is at a local path.
pub enum LocalKind {
    /// A file, with its name where it has one that is text.
    File(Option<String>),
    /// A folder, with all files below it.
    Folder(Vec<LocalFile>),
    /// Neither.
    Missing,
}

/// An upload that is to be made: from where, and to where.
pub struct PlannedUpload {
    pub local: String,
    pub remote: String,
}

/// The contents of planned uploads.
pub open spec fn plans(list: Seq<PlannedUpload>) -> Seq<(Seq<char>, Seq<char>)> {
    list.map_values(|p: PlannedUpload| (p.local@, p.remote@))
}

/// The uploads that an import takes: a file goes into the folder under its name,
/// or a made-up one where it has none; the files below a local folder go below
/// the remote folder.
pub open spec fn import_plan(local: Seq<char>, kind: LocalKind, folder: Seq<char>) -> Option<
    Seq<(Seq<char>, Seq<char>)>,
> {
    match kind {
        LocalKind::File(name) => Some(
            seq![
                (
                    local,
                    inside(
                        folder,
                        match name {
                            Some(name) => name@,
                            None => "upload.pdf"@,
                        },
                    ),
                ),
            ],
        ),
        LocalKind::Folder(files) => Some(
            files@.map_values(|f: LocalFile| (f.path@, sync_target(folder, f))),
        ),
        LocalKind::Missing => None,
    }
}

/// Plans the uploads that an import takes.
pub fn import_path(local: &str, kind: &LocalKind, folder: &str) -> (r: Result<
    Vec<PlannedUpload>,
    String,
>)
    ensures
        match r {
            Ok(list) => import_plan(local@, *kind, folder@) == Some(plans(list@)),
            Err(message) => import_plan(local@, *kind, folder@) is None && message@
                == "local path does not exist"@,
        },
{
    let mut out: Vec<PlannedUpload> = Vec::new();
    match kind {
        LocalKind::File(name) => {
            let remote = match name {
                Some(name) => path_inside(folder, name.as_str()),
                None => path_inside(folder, "upload.pdf"),
            };
            out.push(PlannedUpload { local: local.to_owned(), remote });
            assert(plans(out@) =~= import_plan(local@, *kind, folder@)->Some_0);
        },
        LocalKind::Folder(files) => {
            for i in 0..files.len()
                invariant
                    out@.len() == i,
                    forall|k: int|
                        0 <= k < i ==> (#[trigger] out@[k]).local@ == files@[k].path@
                            && out@[k].remote@ == sync_target(folder@, files@[k]),
            {
                let remote = import_target_below(folder, &files[i]);
                out.push(PlannedUpload { local: files[i].path.as_str().to_owned(), remote });
            }
            assert(plans(out@) =~= files@.map_values(
                |f: LocalFile| (f.path@, sync_target(folder@, f)),
            ));
        },
        LocalKind::Missing => {
            return Err("local path does not exist".to_owned());
        },
    }
    Ok(out)
}

/// Where a file below a local folder goes: below the remote folder, with slashes
/// throughout.
pub fn import_target_below(folder: &str, file: &LocalFile) -> (r: String)
    ensures
        r@ == sync_target(folder@, *file),
{
    let relative = replace_char(file.relative.as_str(), '\\', '/');
    path_inside(folder, relative.as_str())
}

/// Finding or creating a document ends within three answers for each character of
/// its path and three more, whatever the answers are.
pub proof fn document_ends(target: Seq<char>, answers: Seq<Answer>, at: nat)
    ensures
        match document_run(target, answers, at) {
            RunView::Ask(_) => answers.len() < at + 3 * target.len() + 3,
            RunView::Failed(_) => true,
            RunView::Done(_, n) => at < n <= at + 3 * target.len() + 3,
        },
{
    parent_and_name(target);
    new_folder_ends(parent_of(target), answers, at + 1);
}

/// Stripping characters off the end makes no text longer.
proof fn strip_back_shortens(s: Seq<char>, class: crate::text::CharClass)
    ensures
        crate::text::strip_back(s, class).len() <= s.len(),
    decreases s.len(),
{
    if s.len() > 0 && class.has(s.last()) {
        strip_back_shortens(s.drop_last(), class);
    }
}

/// An upload ends within three answers for each character of the path that it
/// writes and five more, whatever the answers are.
pub proof fn upload_ends(remote: Seq<char>, local_name: Option<Seq<char>>, answers: Seq<Answer>)
    ensures
        upload_run(remote, local_name, answers) is Ask ==> answers.len() < 3 * (remote.len() + 1
            + match local_name {
            Some(name) => name.len(),
            None => 0,
        }) + 5,
{
    match is_folder_run(remote, answers, 0) {
        RunView::Done(folder, at) => {
            if let Ok(target) = upload_target(remote, local_name, folder) {
                strip_back_shortens(remote, crate::text::CharClass::Only('/'));
                reveal_strlit("/");
                document_ends(target, answers, at);
            }
        },
        _ => {},
    }
}

/// Copying ends within three answers for each character of the destination and
/// four more, whatever the answers are.
pub proof fn copy_ends(src: Seq<char>, dst: Seq<char>, answers: Seq<Answer>)
    ensures
        copy_run(src, dst, answers) is Ask ==> answers.len() < 3 * dst.len() + 4,
{
    parent_and_name(dst);
    new_folder_ends(parent_of(dst), answers, 2);
}

/// Moving ends within four answers, whatever they are.
pub proof fn move_ends(src: Seq<char>, dst: Seq<char>, answers: Seq<Answer>)
    ensures
        move_run(src, dst, answers) is Ask ==> answers.len() < 4,
{
}

/// A synchronisation ends within three answers for each character of the remote
/// folder, one for the listing and one for each file, whatever the answers are.
pub proof fn sync_ends(files: Seq<LocalFile>, remote: Seq<char>, answers: Seq<Answer>)
    ensures
        sync_run(files, remote, answers) is Ask ==> answers.len() < 3 * remote.len() + 1
            + files.len(),
{
    new_folder_ends(remote, answers, 0);
    if let RunView::Done(_, n) = new_folder_run(remote, answers, 0) {
        if let RunView::Done(listing, m) = get_run(ALL_ENTRIES@, answers, n) {
            sync_files_end(
                files,
                remote,
                document_paths(listing.list_at("entry_list"@)),
                answers,
                m,
                nothing_synced(),
            );
        }
    }
}

proof fn sync_files_end(
    files: Seq<LocalFile>,
    remote: Seq<char>,
    documents: Seq<Seq<char>>,
    answers: Seq<Answer>,
    at: nat,
    done: SyncReportView,
)
    ensures
        sync_files(files, remote, documents, answers, at, done) is Ask ==> answers.len() < at
            + files.len(),
    decreases files.len(),
{
    if files.len() > 0 {
        let target = sync_target(remote, files[0]);
        if documents.contains(target) {
            let next = SyncReportView { skipped: done.skipped.push(target), ..done };
            sync_files_end(files.skip(1), remote, documents, answers, at, next);
        } else if at < answers.len() {
            let next = SyncReportView { uploaded: done.uploaded.push(target), ..done };
            sync_files_end(files.skip(1), remote, documents, answers, at + 1, next);
        }
    }
}

/// New firmware is installed only once the device has found its battery and the
/// file in order.
pub proof fn firmware_is_checked_first(answers: Seq<Answer>, endpoint: Seq<char>, value: JsonView)
    requires
        update_firmware_run(answers) == RunView::<()>::Ask(
            AskView::Call(ApiCallView::PutJson(endpoint, value)),
        ),
    ensures
        answers.len() == 2,
        answers[0] is Ok,
        json_in(answers[1]) is Ok,
        precheck_passed(json_in(answers[1])->Ok_0),
{
}

/// Making sure of a folder uploads nothing.
proof fn folder_needs_no_upload(path: Seq<char>, answers: Seq<Answer>, at: nat)
    ensures
        new_folder_run(path, answers, at) matches RunView::Ask(ask) ==> !(ask is Upload),
    decreases path.len(),
{
    if path.len() > 0 {
        parent_and_name(path);
        if parent_of(path).len() > 0 {
            folder_needs_no_upload(parent_of(path), answers, at + 1);
        }
    }
}

/// A synchronisation uploads only local files, each to its place below the remote
/// folder, and none over a document that the device lists.
pub proof fn sync_uploads_what_the_device_lacks(
    files: Seq<LocalFile>,
    remote: Seq<char>,
    folder: Seq<char>,
    answers: Seq<Answer>,
    local: Seq<char>,
    target: Seq<char>,
)
    requires
        names_folder(remote, folder),
        sync_run(files, remote, answers) == RunView::<SyncReportView>::Ask(
            AskView::Upload(local, target),
        ),
    ensures
        exists|m: int|
            0 <= m < answers.len() && json_in(#[trigger] answers[m]) is Ok && forall|i: int|
                0 <= i < json_in(answers[m])->Ok_0.list_at("entry_list"@).len() ==> !({
                    let item = #[trigger] json_in(answers[m])->Ok_0.list_at("entry_list"@)[i];
                    item.text_at("entry_type"@) == Some("document"@) && item.text_at("entry_path"@)
                        == Some(target)
                }),
        exists|k: int|
            0 <= k < files.len() && (#[trigger] files[k]).path@ == local && is_place_below(
                remote,
                folder,
                files[k].relative@,
                target,
            ),
{
    new_folder_ends(remote, answers, 0);
    folder_needs_no_upload(remote, answers, 0);
    let m = new_folder_run(remote, answers, 0)->Done_1;
    let list = json_in(answers[m as int])->Ok_0.list_at("entry_list"@);
    synced_file_goes_to_its_place(
        files,
        remote,
        folder,
        document_paths(list),
        answers,
        m + 1,
        nothing_synced(),
        local,
        target,
    );
    documents_are_those_listed(list, target);
    assert(json_in(answers[m as int]) is Ok);
}

/// An import takes a file into the folder under its name, and the files below a
/// local folder, in their order, each to its place below the remote folder.
pub proof fn import_keeps_names_and_relative_paths(
    local: Seq<char>,
    kind: LocalKind,
    remote: Seq<char>,
    folder: Seq<char>,
)
    requires
        names_folder(remote, folder),
    ensures
        match kind {
            LocalKind::File(Some(name)) => import_plan(local, kind, remote) == Some(
                seq![(local, folder + seq!['/'] + name@)],
            ),
            LocalKind::File(None) => import_plan(local, kind, remote) is Some,
            LocalKind::Folder(files) => {
                &&& import_plan(local, kind, remote) is Some
                &&& import_plan(local, kind, remote)->Some_0.len() == files@.len()
                &&& forall|k: int|
                    0 <= k < files@.len() ==> (#[trigger] import_plan(local, kind, remote)->Some_0[k]).0
                        == files@[k].path@ && is_place_below(
                        remote,
                        folder,
                        files@[k].relative@,
                        import_plan(local, kind, remote)->Some_0[k].1,
                    )
            },
            LocalKind::Missing => import_plan(local, kind, remote) is None,
        },
{
    match kind {
        LocalKind::File(Some(name)) => {
            inside_is_behind_one_slash(remote, folder, name@);
        },
        LocalKind::Folder(files) => {
            assert forall|k: int| 0 <= k < files@.len() implies is_place_below(
                remote,
                folder,
                files@[k].relative@,
                (#[trigger] import_plan(local, kind, remote)->Some_0[k]).1,
            ) by {
                file_keeps_its_relative_path(remote, folder, files@[k]);
            }
        },
        _ => {},
    }
}

/// The state of a device is asked for in five calls, and is made of their replies.
pub proof fn status_takes_five_calls(answers: Seq<Answer>)
    requires
        answers.len() <= 5,
        forall|k: int| 0 <= k < answers.len() ==> json_in(#[trigger] answers[k]) is Ok,
    ensures
        ({
            let asks = |endpoint: Seq<char>|
                RunView::<DeviceStatusView>::Ask(AskView::Call(ApiCallView::GetJson(endpoint)));
            let run = device_info_run(answers);
            &&& answers.len() == 0 ==> run == asks("/system/status/battery"@)
            &&& answers.len() == 1 ==> run == asks("/system/status/storage"@)
            &&& answers.len() == 2 ==> run == asks("/system/status/firmware_version"@)
            &&& answers.len() == 3 ==> run == asks("/system/configs/owner"@)
            &&& answers.len() == 4 ==> run == asks("/system/configs/wifi"@)
            &&& answers.len() == 5 ==> run is Done
            &&& answers.len() == 5 ==> run->Done_0.storage.free_bytes == json_in(
                answers[1],
            )->Ok_0.whole_at("free"@)
            &&& answers.len() == 5 ==> run->Done_0.firmware_version == json_in(
                answers[2],
            )->Ok_0.text_at("value"@)
            &&& answers.len() == 5 ==> run->Done_0.owner == json_in(answers[3])->Ok_0.text_at(
                "value"@,
            )
            &&& answers.len() == 5 ==> (run->Done_0.wifi_enabled <==> json_in(
                answers[4],
            )->Ok_0.text_at("value"@) == Some("on"@))
        }),
{
    reveal_with_fuel(get_all, 6);
    let names = status_endpoints();
    assert(names.skip(1).skip(1) =~= names.skip(2));
    assert(names.skip(2).skip(1) =~= names.skip(3));
    assert(names.skip(3).skip(1) =~= names.skip(4));
    assert(names.skip(4).skip(1) =~= names.skip(5));
    assert(names.skip(5) =~= Seq::<Seq<char>>::empty());
}

/// A template is created under the name at the end of its path, and its file goes
/// to what the device has created.
pub proof fn template_keeps_its_name(
    folder: Seq<char>,
    name: Seq<char>,
    answer: Answer,
    id: Seq<char>,
)
    requires
        !name.contains('/'),
        json_in(answer) is Ok,
        json_in(answer)->Ok_0.text_at("note_template_id"@) == Some(id),
    ensures
        ({
            let remote = folder + seq!['/'] + name;
            let first = upload_template_run(remote, Seq::empty());
            &&& first is Ask && first->Ask_0 is Call && first->Ask_0->Call_0 is PostJson
            &&& first->Ask_0->Call_0->PostJson_0 == TEMPLATES@
            &&& first->Ask_0->Call_0->PostJson_1.text_at("templateName"@) == Some(name)
            &&& upload_template_run(remote, seq![answer]) == RunView::<()>::Ask(
                AskView::Call(ApiCallView::PutFile(TEMPLATES@ + "/"@ + id + "/file"@, name)),
            )
        }),
{
    cut_at_the_last_slash(folder, name);
    reveal_strlit("templateName");
    reveal_strlit("document_source");
    assert("templateName"@.len() != "document_source"@.len());
}

/// The template that is deleted is the first one that the device lists with the
/// name; with none of that name nothing is deleted.
pub proof fn named_template_is_deleted(name: Seq<char>, answer: Answer, i: int)
    requires
        json_in(answer) is Ok,
    ensures
        ({
            let list = json_in(answer)->Ok_0.list_at("template_list"@);
            let run = delete_template_run(name, seq![answer]);
            &&& (0 <= i < list.len() && list[i].text_at("template_name"@) == Some(name)
                && list[i].text_at("note_template_id"@) is Some && forall|k: int|
                0 <= k < i ==> (#[trigger] list[k]).text_at("template_name"@) != Some(name))
                ==> run == RunView::<()>::Ask(
                AskView::Call(
                    ApiCallView::Delete(
                        TEMPLATES@ + "/"@ + list[i].text_at("note_template_id"@)->Some_0,
                    ),
                ),
            )
            &&& (forall|k: int|
                0 <= k < list.len() ==> (#[trigger] list[k]).text_at("template_name"@) != Some(
                    name,
                )) ==> run is Failed
        }),
{
    let list = json_in(answer)->Ok_0.list_at("template_list"@);
    if 0 <= i < list.len() && list[i].text_at("template_name"@) == Some(name) && forall|k: int|
        0 <= k < i ==> (#[trigger] list[k]).text_at("template_name"@) != Some(name) {
        template_is_found_by_its_name(list, name, i);
    }
    if forall|k: int|
        0 <= k < list.len() ==> (#[trigger] list[k]).text_at("template_name"@) != Some(name) {
        unknown_template_is_not_found(list, name);
    }
}

/// Once a synchronisation is done, the place of every file below the remote folder
/// is told: as left alone where the device listed a document there, else as
/// uploaded.
pub proof fn sync_tells_every_file(
    files: Seq<LocalFile>,
    remote: Seq<char>,
    folder: Seq<char>,
    answers: Seq<Answer>,
    report: SyncReportView,
    n: nat,
    k: int,
)
    requires
        names_folder(remote, folder),
        sync_run(files, remote, answers) == RunView::Done(report, n),
        0 <= k < files.len(),
    ensures
        exists|m: int, place: Seq<char>|
            0 <= m < answers.len() && json_in(#[trigger] answers[m]) is Ok
                && #[trigger] is_place_below(remote, folder, files[k].relative@, place) && if exists|
                i: int,
            |
                0 <= i < json_in(answers[m])->Ok_0.list_at("entry_list"@).len() && ({
                    let item = #[trigger] json_in(answers[m])->Ok_0.list_at("entry_list"@)[i];
                    item.text_at("entry_type"@) == Some("document"@) && item.text_at("entry_path"@)
                        == Some(place)
                }) {
                report.skipped.contains(place)
            } else {
                report.uploaded.contains(place)
            },
{
    new_folder_ends(remote, answers, 0);
    let m = new_folder_run(remote, answers, 0)->Done_1;
    let list = json_in(answers[m as int])->Ok_0.list_at("entry_list"@);
    let documents = document_paths(list);
    every_file_is_told(
        files,
        remote,
        folder,
        documents,
        answers,
        m + 1,
        nothing_synced(),
        report,
        n,
        k,
    );
    let place = choose|place: Seq<char>| #[trigger]
        is_place_below(remote, folder, files[k].relative@, place) && if documents.contains(place) {
            report.skipped.contains(place)
        } else {
            report.uploaded.contains(place)
        };
    documents_are_those_listed(list, place);
    assert(json_in(answers[m as int]) is Ok);
}

/// A synchronisation into a folder that the device has does not fail where all that
/// it asks for goes well.
pub proof fn sync_goes_through(files: Seq<LocalFile>, remote: Seq<char>, answers: Seq<Answer>)
    requires
        remote.len() > 0,
        forall|k: int| 0 <= k < answers.len() ==> #[trigger] answers[k] is Ok,
        answers.len() > 0 ==> entry_in(answers[0]) is Ok,
        answers.len() > 1 ==> json_in(answers[1]) is Ok,
    ensures
        !(sync_run(files, remote, answers) is Failed),
        answers.len() >= files.len() + 2 ==> sync_run(files, remote, answers) is Done,
{
    if answers.len() > 1 {
        files_go_through(
            files,
            remote,
            document_paths(json_in(answers[1])->Ok_0.list_at("entry_list"@)),
            answers,
            2,
            nothing_synced(),
        );
    }
}

proof fn files_go_through(
    files: Seq<LocalFile>,
    remote: Seq<char>,
    documents: Seq<Seq<char>>,
    answers: Seq<Answer>,
    at: nat,
    done: SyncReportView,
)
    requires
        forall|k: int| 0 <= k < answers.len() ==> #[trigger] answers[k] is Ok,
    ensures
        !(sync_files(files, remote, documents, answers, at, done) is Failed),
        answers.len() >= files.len() + at ==> sync_files(
            files,
            remote,
            documents,
            answers,
            at,
            done,
        ) is Done,
    decreases files.len(),
{
    if files.len() > 0 {
        let target = sync_target(remote, files[0]);
        if documents.contains(target) {
            let next = SyncReportView { skipped: done.skipped.push(target), ..done };
            files_go_through(files.skip(1), remote, documents, answers, at, next);
        } else if at < answers.len() {
            let next = SyncReportView { uploaded: done.uploaded.push(target), ..done };
            files_go_through(files.skip(1), remote, documents, answers, at + 1, next);
        }
    }
}

/// New firmware takes three calls: the file is sent, the device is asked whether it
/// is ready, and, where its battery and the file are in order, it is told to install.
pub proof fn firmware_takes_three_calls(sent: Answer, ready: Answer, told: Answer)
    requires
        sent is Ok,
        told is Ok,
        json_in(ready) is Ok,
        json_in(ready)->Ok_0.text_at("battery"@) == Some("ok"@),
        json_in(ready)->Ok_0.text_at("image_file"@) == Some("ok"@),
    ensures
        update_firmware_run(Seq::empty()) matches RunView::Ask(
            AskView::Call(ApiCallView::PutFile(endpoint, _)),
        ) && endpoint == "/system/controls/update_firmware/file"@,
        update_firmware_run(seq![sent]) == RunView::<()>::Ask(
            AskView::Call(ApiCallView::GetJson("/system/controls/update_firmware/precheck"@)),
        ),
        update_firmware_run(seq![sent, ready]) matches RunView::Ask(
            AskView::Call(ApiCallView::PutJson(endpoint, _)),
        ) && endpoint == "/system/controls/update_firmware"@,
        update_firmware_run(seq![sent, ready, told]) is Done,
{
}

} // verus!
