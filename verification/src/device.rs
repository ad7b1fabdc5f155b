//! A model of a device's documents, and what the operations do to them.
//!
//! The model holds an item at each path. It answers what programs ask for, and
//! changes as the device would. The laws say what has become of the items once a
//! program has gone through.
use crate::errors::ErrorView;
use crate::json::{json_value, JsonView};
use crate::paths::{
    cut_at_the_last_slash, inside_is_behind_one_slash, name_of, names_folder, parent_and_name,
    parent_of,
};
use crate::programs::{
    copy_destination, copy_run, delete_run, document_ends, document_run, download_run, entry_in,
    exists_run, is_folder_run, move_run, new_folder_ends, new_folder_run, renamed, upload_run,
    Answer, AskView, Given, ResolveEntryView, RunView,
};
use crate::session::{ApiCallView, ApiValue};
use vstd::prelude::*;

verus! {

/// What the device holds at a path: how it is known, and its bytes.
pub struct Item {
    pub entry: ResolveEntryView,
    pub data: Seq<u8>,
}

/// The items of a device by their paths.
pub type Store = Map<Seq<char>, Item>;

/// Whether no two items go by the same identifier.
pub open spec fn ids_differ(store: Store) -> bool {
    forall|a: Seq<char>, b: Seq<char>| #[trigger]
        store.contains_key(a) && #[trigger] store.contains_key(b) && store[a].entry.entry_id
            == store[b].entry.entry_id ==> a == b
}

/// Whether there is a folder at a path.
pub open spec fn holds_folder(store: Store, path: Seq<char>) -> bool {
    store.contains_key(path) && store[path].entry.entry_type == "folder"@
}

/// Whether there is a document at a path.
pub open spec fn holds_document(store: Store, path: Seq<char>) -> bool {
    store.contains_key(path) && store[path].entry.entry_type == "document"@
}

/// Whether a path lies below another one.
pub open spec fn is_under(path: Seq<char>, top: Seq<char>) -> bool {
    path.len() > top.len() && path.take(top.len() as int) == top && path[top.len() as int] == '/'
}

/// The path of a name in a folder.
pub open spec fn path_in(folder: Seq<char>, name: Seq<char>) -> Seq<char> {
    folder + seq!['/'] + name
}

/// Whether an endpoint is the one of an item: folders and documents have their own.
pub open spec fn is_endpoint(endpoint: Seq<char>, item: Item) -> bool {
    endpoint == (if item.entry.entry_type == "folder"@ {
        "/folders/"@
    } else {
        "/documents/"@
    }) + item.entry.entry_id
}

/// Whether the item at `from` now stands at `to`, and nothing else has changed but
/// below the two.
pub open spec fn moved_to(before: Store, after: Store, from: Seq<char>, to: Seq<char>) -> bool {
    &&& before.contains_key(from)
    &&& after.contains_key(to) && after[to] == before[from]
    &&& from != to ==> !after.contains_key(from)
    &&& forall|p: Seq<char>|
        #![trigger after.contains_key(p)]
        p != from && p != to && !is_under(p, from) && !is_under(p, to) ==> (after.contains_key(p)
            <==> before.contains_key(p)) && (before.contains_key(p) ==> after[p] == before[p])
}

/// Whether there is a new item at `to`, and nothing else has changed.
pub open spec fn added_at(before: Store, after: Store, to: Seq<char>, kind: Seq<char>) -> bool {
    &&& after == before.insert(to, after[to])
    &&& after[to].entry.entry_type == kind
}

/// Whether the item at `gone` and all below it are gone, and nothing else.
pub open spec fn removed_at(before: Store, after: Store, gone: Seq<char>) -> bool {
    forall|p: Seq<char>|
        #![trigger after.contains_key(p)]
        (after.contains_key(p) <==> before.contains_key(p) && p != gone && !is_under(p, gone)) && (
        after.contains_key(p) ==> after[p] == before[p])
}

/// Whether a folder is the one that a message names by its identifier.
pub open spec fn is_named_in(before: Store, folder: Seq<char>, message: JsonView) -> bool {
    holds_folder(before, folder) && message.text_at("parent_folder_id"@) == Some(
        before[folder].entry.entry_id,
    )
}

/// What a folder or document that is to be created becomes.
pub open spec fn creates(
    before: Store,
    message: JsonView,
    key: Seq<char>,
    kind: Seq<char>,
    after: Store,
    folder: Seq<char>,
) -> bool {
    &&& is_named_in(before, folder, message)
    &&& message.text_at(key) matches Some(name) && added_at(
        before,
        after,
        path_in(folder, name),
        kind,
    )
}

/// The name that an item gets: the one in the message, else the one that it has.
pub open spec fn name_for(message: JsonView, key: Seq<char>, from: Seq<char>) -> Seq<char> {
    match message.text_at(key) {
        Some(name) => name,
        None => name_of(from),
    }
}

/// What a move becomes.
pub open spec fn moves(
    before: Store,
    endpoint: Seq<char>,
    message: JsonView,
    after: Store,
    from: Seq<char>,
    folder: Seq<char>,
) -> bool {
    &&& before.contains_key(from)
    &&& is_endpoint(endpoint, before[from])
    &&& is_named_in(before, folder, message)
    &&& moved_to(
        before,
        after,
        from,
        path_in(
            folder,
            name_for(
                message,
                if before[from].entry.entry_type == "folder"@ {
                    "folder_name"@
                } else {
                    "file_name"@
                },
                from,
            ),
        ),
    )
}

/// What a copy becomes.
pub open spec fn copies(
    before: Store,
    endpoint: Seq<char>,
    message: JsonView,
    after: Store,
    from: Seq<char>,
    folder: Seq<char>,
) -> bool {
    let to = path_in(folder, name_for(message, "file_name"@, from));
    &&& before.contains_key(from)
    &&& endpoint == "/documents/"@ + before[from].entry.entry_id + "/copy"@
    &&& is_named_in(before, folder, message)
    &&& added_at(before, after, to, before[from].entry.entry_type)
    &&& after[to].data == before[from].data
}

/// What an upload of bytes becomes.
pub open spec fn writes(
    before: Store,
    endpoint: Seq<char>,
    file: Seq<u8>,
    after: Store,
    at: Seq<char>,
) -> bool {
    &&& before.contains_key(at)
    &&& endpoint == "/documents/"@ + before[at].entry.entry_id + "/file"@
    &&& after == before.insert(at, Item { data: file, ..before[at] })
}

/// Whether the device gives an answer, and what it holds afterwards. `file` is the
/// content of the local file that is uploaded, if one is.
pub open spec fn gives(
    before: Store,
    file: Seq<u8>,
    ask: AskView,
    answer: Answer,
    after: Store,
) -> bool {
    match ask {
        AskView::Resolve(path) => {
            &&& after == before
            &&& match answer {
                Ok(Given::Entry(entry)) => before.contains_key(path) && entry.deep_view()
                    == before[path].entry,
                Ok(_) => false,
                Err(e) => e.deep_view() == ErrorView::DeviceNotFound && !before.contains_key(path),
            }
        },
        AskView::Call(ApiCallView::PostJson(endpoint, message)) => {
            &&& answer matches Ok(Given::Value(ApiValue::Json(value))) && if endpoint
                == "/folders2"@ {
                exists|folder: Seq<char>| #[trigger]
                    creates(before, message, "folder_name"@, "folder"@, after, folder)
            } else if endpoint == "/documents2"@ {
                exists|folder: Seq<char>| #[trigger]
                    creates(before, message, "file_name"@, "document"@, after, folder) && json_value(
                        value,
                    ).text_at("document_id"@) == Some(
                        after[path_in(folder, message.text_at("file_name"@)->Some_0)].entry.entry_id,
                    )
            } else {
                exists|from: Seq<char>, folder: Seq<char>| #[trigger]
                    copies(before, endpoint, message, after, from, folder)
            }
        },
        AskView::Call(ApiCallView::PutJson(endpoint, message)) => {
            &&& answer is Ok
            &&& exists|from: Seq<char>, folder: Seq<char>| #[trigger]
                moves(before, endpoint, message, after, from, folder)
        },
        AskView::Call(ApiCallView::Delete(endpoint)) => {
            &&& answer is Ok
            &&& exists|gone: Seq<char>| #[trigger]
                before.contains_key(gone) && is_endpoint(endpoint, before[gone]) && removed_at(
                    before,
                    after,
                    gone,
                )
        },
        AskView::Call(ApiCallView::GetBytes(endpoint)) => {
            &&& after == before
            &&& answer matches Ok(Given::Value(ApiValue::Bytes(data))) && exists|at: Seq<char>| #[trigger]
                before.contains_key(at) && endpoint == "/documents/"@ + before[at].entry.entry_id
                    + "/file"@ && data@ == before[at].data
        },
        AskView::Call(ApiCallView::PutFile(endpoint, _)) => {
            &&& answer is Ok
            &&& exists|at: Seq<char>| #[trigger] writes(before, endpoint, file, after, at)
        },
        AskView::Call(ApiCallView::GetJson(_)) => after == before,
        AskView::Upload(_, _) => false,
    }
}

/// Whether the device answered what a program asked for with `k` answers at hand.
pub open spec fn played<T>(
    program: spec_fn(Seq<Answer>) -> RunView<T>,
    file: Seq<u8>,
    stores: Seq<Store>,
    answers: Seq<Answer>,
    k: int,
) -> bool {
    &&& ids_differ(stores[k])
    &&& program(answers.take(k)) matches RunView::Ask(ask) && gives(
        stores[k],
        file,
        ask,
        answers[k],
        stores[k + 1],
    )
}

/// Whether the device gave all answers to a program, starting from `stores[0]`.
pub open spec fn plays<T>(
    program: spec_fn(Seq<Answer>) -> RunView<T>,
    file: Seq<u8>,
    stores: Seq<Store>,
    answers: Seq<Answer>,
) -> bool {
    &&& stores.len() == answers.len() + 1
    &&& ids_differ(stores.last())
    &&& forall|k: int|
        0 <= k < answers.len() ==> #[trigger] played(program, file, stores, answers, k)
}

/// Whether the device gave the answers from `from` to before `to` to a program.
pub open spec fn plays_between<T>(
    program: spec_fn(Seq<Answer>) -> RunView<T>,
    file: Seq<u8>,
    stores: Seq<Store>,
    answers: Seq<Answer>,
    from: nat,
    to: nat,
) -> bool {
    forall|k: int| from <= k < to ==> #[trigger] played(program, file, stores, answers, k)
}

proof fn endpoints_name_items(a: Item, b: Item, endpoint: Seq<char>)
    requires
        is_endpoint(endpoint, a),
        is_endpoint(endpoint, b),
    ensures
        a.entry.entry_id == b.entry.entry_id,
{
    reveal_strlit("/folders/");
    reveal_strlit("/documents/");
    let fa = a.entry.entry_type == "folder"@;
    let fb = b.entry.entry_type == "folder"@;
    if fa != fb {
        assert(("/folders/"@ + a.entry.entry_id)[1] == 'f');
        assert(("/documents/"@ + a.entry.entry_id)[1] == 'd');
        assert(("/folders/"@ + b.entry.entry_id)[1] == 'f');
        assert(("/documents/"@ + b.entry.entry_id)[1] == 'd');
    }
    let n = if fa {
        "/folders/"@.len() as int
    } else {
        "/documents/"@.len() as int
    };
    assert(endpoint.skip(n) =~= a.entry.entry_id);
    assert(endpoint.skip(n) =~= b.entry.entry_id);
}

proof fn middles_agree(front: Seq<char>, a: Seq<char>, b: Seq<char>, back: Seq<char>)
    requires
        front + a + back == front + b + back,
    ensures
        a == b,
{
    let s = front + a + back;
    let t = front + b + back;
    assert(s.len() == t.len());
    assert(s.subrange(front.len() as int, s.len() - back.len()) =~= a);
    assert(t.subrange(front.len() as int, t.len() - back.len()) =~= b);
}

/// Whether there is something at a path is found out.
pub proof fn existence_is_found_out(
    path: Seq<char>,
    file: Seq<u8>,
    stores: Seq<Store>,
    answers: Seq<Answer>,
)
    requires
        plays(|a: Seq<Answer>| exists_run(path, a), file, stores, answers),
    ensures
        answers.len() <= 1,
        answers.len() == 1 ==> exists_run(path, answers) == RunView::Done(
            stores[0].contains_key(path),
            1,
        ) && stores[1] == stores[0],
{
    let program = |a: Seq<Answer>| exists_run(path, a);
    if answers.len() > 0 {
        assert(answers.take(0) =~= Seq::<Answer>::empty());
        assert(played(program, file, stores, answers, 0));
        if answers.len() > 1 {
            assert(played(program, file, stores, answers, 1));
            assert(answers.take(1)[0] == answers[0]);
        }
    }
}

/// Whether a path is a folder is found out: where it ends in a slash, it is one;
/// else where the device has one there.
pub proof fn folders_are_told_apart(
    path: Seq<char>,
    file: Seq<u8>,
    stores: Seq<Store>,
    answers: Seq<Answer>,
    is_folder: bool,
    n: nat,
)
    requires
        plays(|a: Seq<Answer>| is_folder_run(path, a, 0), file, stores, answers),
        is_folder_run(path, answers, 0) == RunView::Done(is_folder, n),
    ensures
        n == answers.len() <= 1,
        stores.last() == stores[0],
        is_folder <==> (path.len() > 0 && path.last() == '/') || holds_folder(stores[0], path),
        n == 0 <==> path.len() > 0 && path.last() == '/',
{
    let program = |a: Seq<Answer>| is_folder_run(path, a, 0);
    if answers.len() > 0 {
        assert(answers.take(0) =~= Seq::<Answer>::empty());
        assert(played(program, file, stores, answers, 0));
        if answers.len() > 1 {
            assert(played(program, file, stores, answers, 1));
            assert(answers.take(1)[0] == answers[0]);
        }
    } else {
    }
}

/// Deleting a path removes what the device holds at exactly that path, and what
/// is below it, and nothing else.
pub proof fn delete_removes_what_is_at_the_path(
    path: Seq<char>,
    file: Seq<u8>,
    stores: Seq<Store>,
    answers: Seq<Answer>,
    n: nat,
)
    requires
        plays(|a: Seq<Answer>| delete_run(path, a), file, stores, answers),
        delete_run(path, answers) == RunView::Done((), n),
    ensures
        stores[0].contains_key(path),
        removed_at(stores[0], stores.last(), path),
{
    let program = |a: Seq<Answer>| delete_run(path, a);
    assert(answers.len() >= 2);
    assert(answers.take(0) =~= Seq::<Answer>::empty());
    assert(played(program, file, stores, answers, 0));
    assert(answers.take(1)[0] == answers[0]);
    assert(played(program, file, stores, answers, 1));
    if answers.len() > 2 {
        assert(played(program, file, stores, answers, 2));
        assert(answers.take(2)[0] == answers[0]);
        assert(answers.take(2)[1] == answers[1]);
    }
    let entry = entry_in(answers[0])->Ok_0;
    let endpoint = crate::programs::entry_endpoint_of(entry);
    assert(is_endpoint(endpoint, stores[1][path]));
    let gone = choose|gone: Seq<char>| #[trigger]
        stores[1].contains_key(gone) && is_endpoint(endpoint, stores[1][gone]) && removed_at(
            stores[1],
            stores[2],
            gone,
        );
    endpoints_name_items(stores[1][path], stores[1][gone], endpoint);
}

/// Deleting a path at which there is nothing fails, and changes nothing.
pub proof fn delete_needs_something_at_the_path(
    path: Seq<char>,
    file: Seq<u8>,
    stores: Seq<Store>,
    answers: Seq<Answer>,
)
    requires
        plays(|a: Seq<Answer>| delete_run(path, a), file, stores, answers),
        !stores[0].contains_key(path),
        answers.len() > 0,
    ensures
        delete_run(path, answers) == RunView::<()>::Failed(ErrorView::DeviceNotFound),
        stores.last() == stores[0],
{
    let program = |a: Seq<Answer>| delete_run(path, a);
    assert(answers.take(0) =~= Seq::<Answer>::empty());
    assert(played(program, file, stores, answers, 0));
    if answers.len() > 1 {
        assert(played(program, file, stores, answers, 1));
        assert(answers.take(1)[0] == answers[0]);
    }
}

/// A download gives the bytes of the document at exactly the path, and changes nothing.
pub proof fn download_gives_what_is_at_the_path(
    path: Seq<char>,
    file: Seq<u8>,
    stores: Seq<Store>,
    answers: Seq<Answer>,
    data: Seq<u8>,
    n: nat,
)
    requires
        plays(|a: Seq<Answer>| download_run(path, a), file, stores, answers),
        download_run(path, answers) == RunView::Done(data, n),
    ensures
        holds_document(stores[0], path),
        data == stores[0][path].data,
        stores.last() == stores[0],
{
    let program = |a: Seq<Answer>| download_run(path, a);
    assert(answers.len() >= 2);
    assert(answers.take(0) =~= Seq::<Answer>::empty());
    assert(played(program, file, stores, answers, 0));
    assert(answers.take(1)[0] == answers[0]);
    assert(played(program, file, stores, answers, 1));
    if answers.len() > 2 {
        assert(played(program, file, stores, answers, 2));
        assert(answers.take(2)[0] == answers[0]);
        assert(answers.take(2)[1] == answers[1]);
    }
    let id = stores[0][path].entry.entry_id;
    let endpoint = "/documents/"@ + id + "/file"@;
    let at = choose|at: Seq<char>| #[trigger]
        stores[1].contains_key(at) && endpoint == "/documents/"@ + stores[1][at].entry.entry_id
            + "/file"@ && crate::programs::bytes_in(answers[1])->Ok_0 == stores[1][at].data;
    middles_agree("/documents/"@, id, stores[1][at].entry.entry_id, "/file"@);
}

/// Where an item goes that is moved or copied to a path: into the folder that is
/// there, under its own name, else to the path itself.
pub open spec fn destination(store: Store, src: Seq<char>, dst: Seq<char>) -> Seq<char> {
    if holds_folder(store, dst) {
        path_in(dst, name_of(src))
    } else {
        dst
    }
}

proof fn keys_differ()
    ensures
        "parent_folder_id"@ != "file_name"@,
        "parent_folder_id"@ != "folder_name"@,
        "parent_folder_id"@ != "document_source"@,
        "file_name"@ != "document_source"@,
        "folder_name"@ != "file_name"@,
        "folder"@ != "document"@,
        "/folders2"@ != "/documents2"@,
{
    reveal_strlit("parent_folder_id");
    reveal_strlit("file_name");
    reveal_strlit("folder_name");
    reveal_strlit("document_source");
    reveal_strlit("folder");
    reveal_strlit("document");
    reveal_strlit("/folders2");
    reveal_strlit("/documents2");
    assert("parent_folder_id"@.len() == 16);
    assert("file_name"@.len() == 9);
    assert("folder_name"@.len() == 11);
    assert("document_source"@.len() == 15);
    assert("folder"@.len() == 6);
    assert("document"@.len() == 8);
    assert("/folders2"@.len() == 9);
    assert("/documents2"@.len() == 11);
}

proof fn path_is_parent_and_name(path: Seq<char>)
    requires
        parent_of(path).len() > 0,
    ensures
        path_in(parent_of(path), name_of(path)) == path,
{
    parent_and_name(path);
    assert(path_in(parent_of(path), name_of(path)) =~= path);
}

/// Moving a path moves what the device holds at exactly that path: into the folder
/// at the destination, else to the destination.
pub proof fn move_puts_the_item_at_its_destination(
    src: Seq<char>,
    dst: Seq<char>,
    file: Seq<u8>,
    stores: Seq<Store>,
    answers: Seq<Answer>,
    n: nat,
)
    requires
        plays(|a: Seq<Answer>| move_run(src, dst, a), file, stores, answers),
        move_run(src, dst, answers) == RunView::Done((), n),
        holds_folder(stores[0], dst) || parent_of(dst).len() > 0,
    ensures
        moved_to(stores[0], stores.last(), src, destination(stores[0], src, dst)),
{
    let program = |a: Seq<Answer>| move_run(src, dst, a);
    let s = stores[0];
    assert(answers.len() >= 3);
    assert(answers.take(0) =~= Seq::<Answer>::empty());
    assert(played(program, file, stores, answers, 0));
    assert(answers.take(1)[0] == answers[0]);
    assert(played(program, file, stores, answers, 1));
    assert(answers.take(2)[0] == answers[0]);
    assert(answers.take(2)[1] == answers[1]);
    assert(played(program, file, stores, answers, 2));
    assert(stores[2] == s);
    let entry = entry_in(answers[0])->Ok_0;
    let endpoint = crate::programs::entry_endpoint_of(entry);
    assert(is_endpoint(endpoint, s[src]));
    let key = if entry.entry_type == "folder"@ {
        "folder_name"@
    } else {
        "file_name"@
    };
    keys_differ();
    let last: int = if holds_folder(s, dst) {
        2
    } else {
        3
    };
    if last == 3 {
        assert(answers.len() >= 4);
        assert(answers.take(3)[0] == answers[0]);
        assert(answers.take(3)[1] == answers[1]);
        assert(answers.take(3)[2] == answers[2]);
        assert(played(program, file, stores, answers, 3));
        assert(stores[3] == s);
        path_is_parent_and_name(dst);
    }
    if answers.len() > last + 1 {
        assert(played(program, file, stores, answers, last + 1));
        assert(answers.take(last + 1)[0] == answers[0]);
        assert(answers.take(last + 1)[1] == answers[1]);
        assert(answers.take(last + 1)[2] == answers[2]);
        assert(answers.take(last + 1)[last] == answers[last]);
        assert(false);
    }
    let folder_id = if last == 2 {
        s[dst].entry.entry_id
    } else {
        s[parent_of(dst)].entry.entry_id
    };
    let placed = crate::programs::DestinationView {
        folder_id,
        name: if last == 2 {
            None
        } else {
            Some(name_of(dst))
        },
    };
    let message = crate::programs::placement(placed, key);
    assert(message.text_at("parent_folder_id"@) == Some(folder_id));
    assert(message.text_at(key) == placed.name);
    assert(program(answers.take(last)) == RunView::<()>::Ask(
        AskView::Call(ApiCallView::PutJson(endpoint, message)),
    ));
    let (from, folder) = choose|from: Seq<char>, folder: Seq<char>| #[trigger]
        moves(s, endpoint, message, stores[last + 1], from, folder);
    endpoints_name_items(s[src], s[from], endpoint);
    assert(from == src);
    assert(folder == if last == 2 {
        dst
    } else {
        parent_of(dst)
    });
}

/// Renaming an entry keeps it in its folder, under the new name.
pub proof fn rename_keeps_the_folder(
    folder: Seq<char>,
    name: Seq<char>,
    new_name: Seq<char>,
    file: Seq<u8>,
    stores: Seq<Store>,
    answers: Seq<Answer>,
    n: nat,
)
    requires
        folder.len() > 0,
        !name.contains('/'),
        !new_name.contains('/'),
        plays(
            |a: Seq<Answer>|
                move_run(
                    path_in(folder, name),
                    renamed(path_in(folder, name), new_name),
                    a,
                ),
            file,
            stores,
            answers,
        ),
        move_run(path_in(folder, name), renamed(path_in(folder, name), new_name), answers)
            == RunView::Done((), n),
        !holds_folder(stores[0], path_in(folder, new_name)),
    ensures
        renamed(path_in(folder, name), new_name) == path_in(folder, new_name),
        moved_to(stores[0], stores.last(), path_in(folder, name), path_in(folder, new_name)),
{
    cut_at_the_last_slash(folder, name);
    cut_at_the_last_slash(folder, new_name);
    reveal_strlit("/");
    assert(renamed(path_in(folder, name), new_name) =~= path_in(folder, new_name));
    move_puts_the_item_at_its_destination(
        path_in(folder, name),
        path_in(folder, new_name),
        file,
        stores,
        answers,
        n,
    );
}

/// What a program decides with some answers, it decides with more.
proof fn prefix_decides_a_folder(path: Seq<char>, answers: Seq<Answer>, k: int, at: nat)
    requires
        0 <= k <= answers.len(),
    ensures
        match new_folder_run(path, answers.take(k), at) {
            RunView::Ask(_) => true,
            RunView::Failed(e) => new_folder_run(path, answers, at) == RunView::<()>::Failed(e),
            RunView::Done(_, n) => new_folder_run(path, answers, at) == RunView::Done((), n),
        },
    decreases path.len(),
{
    let some = answers.take(k);
    if path.len() > 0 && k > at {
        assert(some[at as int] == answers[at as int]);
        if entry_in(some[at as int]) is Err && parent_of(path).len() > 0 {
            parent_and_name(path);
            prefix_decides_a_folder(parent_of(path), answers, k, at + 1);
            if let RunView::Done(_, m) = new_folder_run(parent_of(path), some, at + 1) {
                if k > m {
                    assert(some[m as int] == answers[m as int]);
                    if k > m + 1 {
                        assert(some[m as int + 1] == answers[m as int + 1]);
                    }
                }
            }
        }
    }
}

/// Whether all that was there still is, and what is new are folders on the way to
/// a path, or at it.
pub open spec fn only_folders_added(before: Store, after: Store, path: Seq<char>) -> bool {
    forall|p: Seq<char>|
        #![trigger after.contains_key(p)]
        #![trigger before.contains_key(p)]
        (before.contains_key(p) ==> after.contains_key(p) && after[p] == before[p]) && (
        after.contains_key(p) && !before.contains_key(p) ==> holds_folder(after, p) && (p == path
            || is_under(path, p)))
}

proof fn under_the_parent(path: Seq<char>, p: Seq<char>)
    requires
        parent_of(path).len() > 0,
        p == parent_of(path) || is_under(parent_of(path), p),
    ensures
        is_under(path, p),
{
    path_is_parent_and_name(path);
    let parent = parent_of(path);
    assert(path.take(parent.len() as int) =~= parent);
    assert(path.take(p.len() as int) =~= parent.take(p.len() as int));
    if p == parent {
        assert(parent.take(p.len() as int) =~= parent);
    } else {
        assert(path[p.len() as int] == parent[p.len() as int]);
    }
}

/// Making sure of a folder, from answer `at` on: it is there afterwards, all that
/// was there still is, and nothing is new but folders on the way to it.
pub proof fn folder_is_made_sure_of(
    path: Seq<char>,
    file: Seq<u8>,
    stores: Seq<Store>,
    answers: Seq<Answer>,
    at: nat,
    n: nat,
)
    requires
        stores.len() == answers.len() + 1,
        at <= answers.len(),
        new_folder_run(path, answers, at) == RunView::Done((), n),
        plays_between(
            |a: Seq<Answer>| new_folder_run(path, a, at),
            file,
            stores,
            answers,
            at,
            n,
        ),
    ensures
        at <= n <= answers.len(),
        only_folders_added(stores[at as int], stores[n as int], path),
        parent_of(path).len() > 0 ==> stores[n as int].contains_key(path),
    decreases path.len(),
{
    let program = |a: Seq<Answer>| new_folder_run(path, a, at);
    let first = stores[at as int];
    let last = stores[n as int];
    new_folder_ends(path, answers, at);
    parent_and_name(path);
    if path.len() > 0 {
        new_folder_ends(parent_of(path), answers, at + 1);
        assert(at < n);
        assert(played(program, file, stores, answers, at as int));
        assert(stores[at as int + 1] == first);
        if entry_in(answers[at as int]) is Ok || parent_of(path).len() == 0 {
            assert(n == at + 1);
        } else {
            let parent = parent_of(path);
            let inner = |a: Seq<Answer>| new_folder_run(parent, a, at + 1);
            let m = new_folder_run(parent, answers, at + 1)->Done_1;
            assert forall|k: int| at + 1 <= k < m implies #[trigger] played(
                inner,
                file,
                stores,
                answers,
                k,
            ) by {
                assert(played(program, file, stores, answers, k));
                let some = answers.take(k);
                assert(some[at as int] == answers[at as int]);
                prefix_decides_a_folder(parent, answers, k, at + 1);
                new_folder_ends(parent, some, at + 1);
            }
            folder_is_made_sure_of(parent, file, stores, answers, at + 1, m);
            assert forall|k: int| m <= k < n implies {
                &&& answers.take(k)[at as int] == answers[at as int]
                &&& new_folder_run(parent, answers.take(k), at + 1) == RunView::Done((), m)
            } by {
                folder_needs_no_more(parent, answers, k, at + 1, m);
            }
            assert(n == m + 2);
            assert(played(program, file, stores, answers, m as int));
            assert(played(program, file, stores, answers, m as int + 1));
            assert(answers.take(m as int + 1)[m as int] == answers[m as int]);
            let before = stores[m as int + 1];
            assert(before == stores[m as int]);
            let message = crate::programs::folder_payload(
                name_of(path),
                entry_in(answers[m as int])->Ok_0.entry_id,
            );
            keys_differ();
            assert(message.text_at("folder_name"@) == Some(name_of(path)));
            assert(message.text_at("parent_folder_id"@) == Some(before[parent].entry.entry_id));
            let folder = choose|folder: Seq<char>| #[trigger]
                creates(before, message, "folder_name"@, "folder"@, last, folder);
            assert(folder == parent);
            path_is_parent_and_name(path);
            assert(last == before.insert(path, last[path]));
            assert forall|p: Seq<char>|
                #![trigger last.contains_key(p)]
                #![trigger first.contains_key(p)]
                (first.contains_key(p) ==> last.contains_key(p) && last[p] == first[p]) && (
                last.contains_key(p) && !first.contains_key(p) ==> holds_folder(last, p) && (p
                    == path || is_under(path, p))) by {
                assert(before.contains_key(p) || !before.contains_key(p));
                if before.contains_key(p) && !first.contains_key(p) {
                    under_the_parent(path, p);
                }
            }
        }
    }
}

/// Making sure of a folder that was done after `n` answers is done with any `k` from `n` on.
proof fn folder_needs_no_more(path: Seq<char>, answers: Seq<Answer>, k: int, at: nat, n: nat)
    requires
        at <= n <= k <= answers.len(),
        new_folder_run(path, answers, at) == RunView::Done((), n),
    ensures
        new_folder_run(path, answers.take(k), at) == RunView::Done((), n),
    decreases path.len(),
{
    let some = answers.take(k);
    if path.len() > 0 && answers.len() > at {
        parent_and_name(path);
        if k > at {
            assert(some[at as int] == answers[at as int]);
        }
        if entry_in(answers[at as int]) is Err && parent_of(path).len() > 0 {
            let m = new_folder_run(parent_of(path), answers, at + 1)->Done_1;
            new_folder_ends(parent_of(path), answers, at + 1);
            folder_needs_no_more(parent_of(path), answers, k, at + 1, m);
            assert(some[m as int] == answers[m as int]);
            assert(some[m as int + 1] == answers[m as int + 1]);
        }
    }
}

/// A folder that is created is there afterwards. All that was there still is, and
/// nothing is new but folders on the way to it.
pub proof fn created_folder_is_there(
    folder: Seq<char>,
    name: Seq<char>,
    file: Seq<u8>,
    stores: Seq<Store>,
    answers: Seq<Answer>,
    n: nat,
)
    requires
        folder.len() > 0,
        !name.contains('/'),
        plays(
            |a: Seq<Answer>| new_folder_run(path_in(folder, name), a, 0),
            file,
            stores,
            answers,
        ),
        new_folder_run(path_in(folder, name), answers, 0) == RunView::Done((), n),
    ensures
        stores[n as int].contains_key(path_in(folder, name)),
        only_folders_added(stores[0], stores[n as int], path_in(folder, name)),
{
    let path = path_in(folder, name);
    cut_at_the_last_slash(folder, name);
    new_folder_ends(path, answers, 0);
    let program = |a: Seq<Answer>| new_folder_run(path, a, 0);
    assert forall|k: int| 0 <= k < n implies #[trigger] played(
        program,
        file,
        stores,
        answers,
        k,
    ) by {}
    folder_is_made_sure_of(path, file, stores, answers, 0, n);
}

proof fn prefix_decides_a_document(target: Seq<char>, answers: Seq<Answer>, k: int, at: nat)
    requires
        0 <= k <= answers.len(),
    ensures
        match document_run(target, answers.take(k), at) {
            RunView::Ask(_) => true,
            RunView::Failed(e) => document_run(target, answers, at) == RunView::<
                Seq<char>,
            >::Failed(e),
            RunView::Done(id, n) => document_run(target, answers, at) == RunView::Done(id, n) && n
                <= k,
        },
{
    let some = answers.take(k);
    if k > at {
        assert(some[at as int] == answers[at as int]);
        prefix_decides_a_folder(parent_of(target), answers, k, at + 1);
        if let RunView::Done(_, m) = new_folder_run(parent_of(target), some, at + 1) {
            if k > m {
                assert(some[m as int] == answers[m as int]);
                if k > m + 1 {
                    assert(some[m as int + 1] == answers[m as int + 1]);
                }
            }
        }
    }
}

proof fn document_needs_no_more(
    target: Seq<char>,
    answers: Seq<Answer>,
    k: int,
    at: nat,
    id: Seq<char>,
    n: nat,
)
    requires
        at <= n <= k <= answers.len(),
        document_run(target, answers, at) == RunView::Done(id, n),
    ensures
        document_run(target, answers.take(k), at) == RunView::Done(id, n),
{
    let some = answers.take(k);
    let parent = parent_of(target);
    document_ends(target, answers, at);
    assert(some[at as int] == answers[at as int]);
    if !(entry_in(answers[at as int]) is Ok && entry_in(answers[at as int])->Ok_0.entry_type
        == "document"@) {
        let m = new_folder_run(parent, answers, at + 1)->Done_1;
        new_folder_ends(parent, answers, at + 1);
        folder_needs_no_more(parent, answers, k, at + 1, m);
        assert(some[m as int] == answers[m as int]);
        assert(some[m as int + 1] == answers[m as int + 1]);
    }
}

/// Whether all that was there still is, but at a path, and what is new are folders
/// on the way to that path.
pub open spec fn only_changed_at(before: Store, after: Store, path: Seq<char>) -> bool {
    forall|p: Seq<char>|
        #![trigger after.contains_key(p)]
        #![trigger before.contains_key(p)]
        p != path ==> (before.contains_key(p) ==> after.contains_key(p) && after[p] == before[p])
            && (after.contains_key(p) && !before.contains_key(p) ==> holds_folder(after, p)
            && is_under(path, p))
}

proof fn added_behind_its_parent(
    first: Store,
    before: Store,
    last: Store,
    path: Seq<char>,
)
    requires
        parent_of(path).len() > 0,
        only_folders_added(first, before, parent_of(path)),
        last == before.insert(path, last[path]),
    ensures
        only_changed_at(first, last, path),
{
    assert forall|p: Seq<char>|
        #![trigger last.contains_key(p)]
        #![trigger first.contains_key(p)]
        p != path implies (first.contains_key(p) ==> last.contains_key(p) && last[p] == first[p])
        && (last.contains_key(p) && !first.contains_key(p) ==> holds_folder(last, p) && is_under(
        path,
        p,
    )) by {
        assert(before.contains_key(p) || !before.contains_key(p));
        if before.contains_key(p) && !first.contains_key(p) {
            under_the_parent(path, p);
        }
    }
}

/// The document to write at a path, from answer `at` on, is the one that the
/// device holds at exactly that path afterwards.
proof fn document_is_found_or_made(
    target: Seq<char>,
    file: Seq<u8>,
    stores: Seq<Store>,
    answers: Seq<Answer>,
    at: nat,
    id: Seq<char>,
    n: nat,
)
    requires
        stores.len() == answers.len() + 1,
        at <= answers.len(),
        parent_of(target).len() > 0,
        document_run(target, answers, at) == RunView::Done(id, n),
        plays_between(
            |a: Seq<Answer>| document_run(target, a, at),
            file,
            stores,
            answers,
            at,
            n,
        ),
    ensures
        at < n <= answers.len(),
        holds_document(stores[n as int], target),
        stores[n as int][target].entry.entry_id == id,
        only_changed_at(stores[at as int], stores[n as int], target),
{
    let program = |a: Seq<Answer>| document_run(target, a, at);
    let first = stores[at as int];
    let last = stores[n as int];
    let parent = parent_of(target);
    document_ends(target, answers, at);
    assert(played(program, file, stores, answers, at as int));
    assert(stores[at as int + 1] == first);
    if entry_in(answers[at as int]) is Ok && entry_in(answers[at as int])->Ok_0.entry_type
        == "document"@ {
        assert(n == at + 1);
    } else {
        let inner = |a: Seq<Answer>| new_folder_run(parent, a, at + 1);
        let m = new_folder_run(parent, answers, at + 1)->Done_1;
        new_folder_ends(parent, answers, at + 1);
        assert forall|k: int| at + 1 <= k < m implies #[trigger] played(
            inner,
            file,
            stores,
            answers,
            k,
        ) by {
            assert(played(program, file, stores, answers, k));
            assert(answers.take(k)[at as int] == answers[at as int]);
            prefix_decides_a_folder(parent, answers, k, at + 1);
            new_folder_ends(parent, answers.take(k), at + 1);
        }
        folder_is_made_sure_of(parent, file, stores, answers, at + 1, m);
        assert forall|k: int| m <= k < n implies {
            &&& answers.take(k)[at as int] == answers[at as int]
            &&& new_folder_run(parent, answers.take(k), at + 1) == RunView::Done((), m)
        } by {
            folder_needs_no_more(parent, answers, k, at + 1, m);
        }
        assert(n == m + 2);
        assert(played(program, file, stores, answers, m as int));
        assert(played(program, file, stores, answers, m as int + 1));
        assert(answers.take(m as int + 1)[m as int] == answers[m as int]);
        let before = stores[m as int + 1];
        assert(before == stores[m as int]);
        let message = crate::programs::document_payload(
            name_of(target),
            entry_in(answers[m as int])->Ok_0.entry_id,
        );
        keys_differ();
        assert(message.text_at("file_name"@) == Some(name_of(target)));
        assert(message.text_at("parent_folder_id"@) == Some(before[parent].entry.entry_id));
        let folder = choose|folder: Seq<char>| #[trigger]
            creates(before, message, "file_name"@, "document"@, last, folder)
                && crate::programs::json_in(answers[m as int + 1])->Ok_0.text_at("document_id"@)
                == Some(
                last[path_in(folder, message.text_at("file_name"@)->Some_0)].entry.entry_id,
            );
        assert(folder == parent);
        path_is_parent_and_name(target);
        added_behind_its_parent(first, before, last, target);
    }
}

/// Where an upload goes: into the folder that is named, be it by a slash at its
/// end, under the local file's name, else to the path itself.
pub open spec fn upload_place(
    store: Store,
    remote: Seq<char>,
    local_name: Seq<char>,
    target: Seq<char>,
) -> bool {
    if (remote.len() > 0 && remote.last() == '/') || holds_folder(store, remote) {
        exists|folder: Seq<char>| #[trigger]
            names_folder(remote, folder) && target == path_in(folder, local_name)
    } else {
        target == remote
    }
}

/// An upload that has gone through left the local file's bytes in the document at
/// the place where it was to go, and nothing else has changed but for folders made
/// on the way to it.
pub proof fn upload_leaves_the_file_at_its_place(
    remote: Seq<char>,
    local_name: Option<Seq<char>>,
    file: Seq<u8>,
    stores: Seq<Store>,
    answers: Seq<Answer>,
    target: Seq<char>,
    n: nat,
)
    requires
        plays(
            |a: Seq<Answer>| upload_run(remote, local_name, a),
            file,
            stores,
            answers,
        ),
        upload_run(remote, local_name, answers) == RunView::Done(target, n),
        parent_of(target).len() > 0,
    ensures
        local_name matches Some(name) ==> upload_place(stores[0], remote, name, target),
        holds_document(stores[n as int], target),
        stores[n as int][target].data == file,
        only_changed_at(stores[0], stores[n as int], target),
{
    let program = |a: Seq<Answer>| upload_run(remote, local_name, a);
    let s = stores[0];
    let f: nat = is_folder_run(remote, answers, 0)->Done_1;
    let is_folder = is_folder_run(remote, answers, 0)->Done_0;
    if f == 1 {
        assert(answers.take(0) =~= Seq::<Answer>::empty());
        assert(played(program, file, stores, answers, 0));
        assert(stores[1] == s);
    }
    assert(stores[f as int] == s);
    assert(is_folder <==> (remote.len() > 0 && remote.last() == '/') || holds_folder(s, remote));
    if is_folder {
        if let Some(name) = local_name {
            let base = crate::text::strip_back(remote, crate::text::CharClass::Only('/'));
            crate::paths::path_names_a_folder(remote);
            inside_is_behind_one_slash(remote, base, name);
            assert(names_folder(remote, base));
        }
    }
    let id = document_run(target, answers, f)->Done_0;
    let d = document_run(target, answers, f)->Done_1;
    prefix_decides_a_document(target, answers, answers.len() as int, f);
    assert(answers.take(answers.len() as int) =~= answers);
    document_ends(target, answers, f);
    let inner = |a: Seq<Answer>| document_run(target, a, f);
    assert forall|k: int| f <= k < d implies #[trigger] played(
        inner,
        file,
        stores,
        answers,
        k,
    ) by {
        assert(played(program, file, stores, answers, k));
        if f == 1 {
            assert(answers.take(k)[0] == answers[0]);
        }
        prefix_decides_a_document(target, answers, k, f);
    }
    document_is_found_or_made(target, file, stores, answers, f, id, d);
    assert(n == d + 1);
    assert(played(program, file, stores, answers, d as int));
    document_needs_no_more(target, answers, d as int, f, id, d);
    if f == 1 {
        assert(answers.take(d as int)[0] == answers[0]);
    }
    let before = stores[d as int];
    let after = stores[d as int + 1];
    let endpoint = "/documents/"@ + id + "/file"@;
    let at = choose|at: Seq<char>| #[trigger] writes(before, endpoint, file, after, at);
    middles_agree("/documents/"@, id, before[at].entry.entry_id, "/file"@);
    assert(at == target);
    assert forall|p: Seq<char>|
        #![trigger after.contains_key(p)]
        #![trigger s.contains_key(p)]
        p != target implies (s.contains_key(p) ==> after.contains_key(p) && after[p] == s[p]) && (
    after.contains_key(p) && !s.contains_key(p) ==> holds_folder(after, p) && is_under(target, p)) by {
        assert(before.contains_key(p) || !before.contains_key(p));
    }
}

/// Copying a path puts the bytes of what the device holds at exactly that path into
/// the folder at the destination, else at the destination. The source stays, and
/// nothing else changes but for folders made on the way.
pub proof fn copy_puts_the_bytes_at_the_destination(
    src: Seq<char>,
    dst: Seq<char>,
    file: Seq<u8>,
    stores: Seq<Store>,
    answers: Seq<Answer>,
    n: nat,
)
    requires
        plays(|a: Seq<Answer>| copy_run(src, dst, a), file, stores, answers),
        copy_run(src, dst, answers) == RunView::Done((), n),
        parent_of(dst).len() > 0,
    ensures
        ({
            let to = destination(stores[0], src, dst);
            let after = stores[n as int];
            &&& stores[0].contains_key(src)
            &&& after.contains_key(to)
            &&& after[to].data == stores[0][src].data
            &&& after[to].entry.entry_type == stores[0][src].entry.entry_type
            &&& forall|p: Seq<char>|
                #![trigger stores[0].contains_key(p)]
                p != to && stores[0].contains_key(p) ==> after.contains_key(p) && after[p]
                    == stores[0][p]
            &&& forall|p: Seq<char>|
                #![trigger after.contains_key(p)]
                p != to && after.contains_key(p) && !stores[0].contains_key(p) ==> holds_folder(
                    after,
                    p,
                ) && is_under(dst, p)
        }),
{
    let program = |a: Seq<Answer>| copy_run(src, dst, a);
    let s = stores[0];
    let parent = parent_of(dst);
    assert(answers.len() >= 3) by {
        if answers.len() <= 2 {
            new_folder_ends(parent, answers, 2);
        }
    }
    assert(answers.take(0) =~= Seq::<Answer>::empty());
    assert(played(program, file, stores, answers, 0));
    assert(answers.take(1)[0] == answers[0]);
    assert(played(program, file, stores, answers, 1));
    assert(stores[2] == s);
    path_is_parent_and_name(dst);
    keys_differ();
    let c = copy_destination(dst, answers)->Done_1;
    let found = entry_in(answers[1]);
    // The store once the destination is known, and what is new in it.
    if found is Err {
        let m = new_folder_run(parent, answers, 2)->Done_1;
        let inner = |a: Seq<Answer>| new_folder_run(parent, a, 2);
        new_folder_ends(parent, answers, 2);
        assert forall|k: int| 2 <= k < m implies #[trigger] played(
            inner,
            file,
            stores,
            answers,
            k,
        ) by {
            assert(played(program, file, stores, answers, k));
            assert(answers.take(k)[0] == answers[0]);
            assert(answers.take(k)[1] == answers[1]);
            prefix_decides_a_folder(parent, answers, k, 2);
            new_folder_ends(parent, answers.take(k), 2);
        }
        folder_is_made_sure_of(parent, file, stores, answers, 2, m);
        assert forall|k: int| m <= k <= m + 1 implies new_folder_run(
            parent,
            #[trigger] answers.take(k),
            2,
        ) == RunView::Done((), m) by {
            folder_needs_no_more(parent, answers, k, 2, m);
        }
        assert(c == m + 1);
        assert(answers.take(m as int)[0] == answers[0]);
        assert(answers.take(m as int)[1] == answers[1]);
        assert(played(program, file, stores, answers, m as int));
        assert(stores[c as int] == stores[m as int]);
        assert(answers.take(c as int)[m as int] == answers[m as int]);
    } else if found->Ok_0.entry_type == "folder"@ {
        assert(c == 2);
        assert(only_folders_added(s, stores[c as int], parent));
    } else {
        assert(c == 3);
        assert(answers.take(2)[0] == answers[0]);
        assert(answers.take(2)[1] == answers[1]);
        assert(played(program, file, stores, answers, 2));
        assert(stores[3] == s);
        assert(answers.take(3)[2] == answers[2]);
        assert(only_folders_added(s, stores[c as int], parent));
    }
    assert(answers.take(c as int)[0] == answers[0]);
    assert(answers.take(c as int)[1] == answers[1]);
    assert(n == c + 1);
    assert(played(program, file, stores, answers, c as int));
    let before = stores[c as int];
    let after = stores[n as int];
    assert(s.contains_key(src) && before.contains_key(src));
    let id = s[src].entry.entry_id;
    let endpoint = "/documents/"@ + id + "/copy"@;
    let placed = copy_destination(dst, answers)->Done_0;
    let message = crate::programs::placement(placed, "file_name"@);
    let into = if holds_folder(s, dst) {
        dst
    } else {
        parent
    };
    assert(message.text_at("parent_folder_id"@) == Some(placed.folder_id));
    assert(message.text_at("file_name"@) == placed.name);
    assert(endpoint != "/folders2"@ && endpoint != "/documents2"@) by {
        reveal_strlit("/documents/");
        reveal_strlit("/folders2");
        reveal_strlit("/documents2");
        assert(endpoint[10] == '/');
        assert(endpoint[1] == 'd');
        assert("/documents2"@[10] == '2');
        assert("/folders2"@[1] == 'f');
    }
    assert(program(answers.take(c as int)) == RunView::<()>::Ask(
        AskView::Call(ApiCallView::PostJson(endpoint, message)),
    ));
    let (from, folder) = choose|from: Seq<char>, folder: Seq<char>| #[trigger]
        copies(before, endpoint, message, after, from, folder);
    middles_agree("/documents/"@, id, before[from].entry.entry_id, "/copy"@);
    assert(from == src);
    assert(placed.folder_id == before[into].entry.entry_id && before.contains_key(into));
    assert(folder == into);
    let to = destination(s, src, dst);
    assert(after == before.insert(to, after[to]));
    assert forall|p: Seq<char>|
        #![trigger s.contains_key(p)]
        p != to && s.contains_key(p) implies after.contains_key(p) && after[p] == s[p] by {
        assert(before.contains_key(p));
    }
    assert forall|p: Seq<char>|
        #![trigger after.contains_key(p)]
        p != to && after.contains_key(p) && !s.contains_key(p) implies holds_folder(after, p)
        && is_under(dst, p) by {
        assert(before.contains_key(p));
        under_the_parent(dst, p);
    }
}

/// Deleting what the device holds goes through: it is resolved, its own endpoint is
/// called, and that is all.
pub proof fn delete_goes_through(
    path: Seq<char>,
    file: Seq<u8>,
    stores: Seq<Store>,
    answers: Seq<Answer>,
)
    requires
        plays(|a: Seq<Answer>| delete_run(path, a), file, stores, answers),
        stores[0].contains_key(path),
    ensures
        match delete_run(path, answers) {
            RunView::Ask(AskView::Resolve(p)) => answers.len() == 0 && p == path,
            RunView::Ask(AskView::Call(ApiCallView::Delete(endpoint))) => answers.len() == 1
                && is_endpoint(endpoint, stores[0][path]),
            RunView::Done(_, n) => n == answers.len() == 2,
            _ => false,
        },
{
    let program = |a: Seq<Answer>| delete_run(path, a);
    if answers.len() > 0 {
        assert(answers.take(0) =~= Seq::<Answer>::empty());
        assert(played(program, file, stores, answers, 0));
    }
    if answers.len() > 1 {
        assert(answers.take(1)[0] == answers[0]);
        assert(played(program, file, stores, answers, 1));
    }
    if answers.len() > 2 {
        assert(answers.take(2)[0] == answers[0]);
        assert(answers.take(2)[1] == answers[1]);
        assert(played(program, file, stores, answers, 2));
    }
}

/// Downloading a document that the device holds goes through: it is resolved, its
/// file is read, and that is all.
pub proof fn download_goes_through(
    path: Seq<char>,
    file: Seq<u8>,
    stores: Seq<Store>,
    answers: Seq<Answer>,
)
    requires
        plays(|a: Seq<Answer>| download_run(path, a), file, stores, answers),
        holds_document(stores[0], path),
    ensures
        match download_run(path, answers) {
            RunView::Ask(AskView::Resolve(p)) => answers.len() == 0 && p == path,
            RunView::Ask(AskView::Call(ApiCallView::GetBytes(endpoint))) => answers.len() == 1
                && endpoint == "/documents/"@ + stores[0][path].entry.entry_id + "/file"@,
            RunView::Done(_, n) => n == answers.len() == 2,
            _ => false,
        },
{
    let program = |a: Seq<Answer>| download_run(path, a);
    if answers.len() > 0 {
        assert(answers.take(0) =~= Seq::<Answer>::empty());
        assert(played(program, file, stores, answers, 0));
    }
    if answers.len() > 1 {
        assert(answers.take(1)[0] == answers[0]);
        assert(played(program, file, stores, answers, 1));
    }
    if answers.len() > 2 {
        assert(answers.take(2)[0] == answers[0]);
        assert(answers.take(2)[1] == answers[1]);
        assert(played(program, file, stores, answers, 2));
    }
}

/// Moving what the device holds goes through where there is a folder at the
/// destination or above it: the one call that changes something is made at the
/// item's own endpoint.
pub proof fn move_goes_through(
    src: Seq<char>,
    dst: Seq<char>,
    file: Seq<u8>,
    stores: Seq<Store>,
    answers: Seq<Answer>,
)
    requires
        plays(|a: Seq<Answer>| move_run(src, dst, a), file, stores, answers),
        stores[0].contains_key(src),
        holds_folder(stores[0], dst) || holds_folder(stores[0], parent_of(dst)),
    ensures
        match move_run(src, dst, answers) {
            RunView::Ask(AskView::Resolve(p)) => answers.len() <= 2 && (p == src || p == dst || p
                == parent_of(dst)),
            RunView::Ask(AskView::Call(ApiCallView::PutJson(endpoint, _))) => 2 <= answers.len()
                <= 3 && is_endpoint(endpoint, stores[0][src]),
            RunView::Done(_, n) => n == answers.len() <= 4,
            _ => false,
        },
{
    let program = |a: Seq<Answer>| move_run(src, dst, a);
    let s = stores[0];
    if answers.len() > 0 {
        assert(answers.take(0) =~= Seq::<Answer>::empty());
        assert(played(program, file, stores, answers, 0));
        assert(stores[1] == s);
    }
    if answers.len() > 1 {
        assert(answers.take(1)[0] == answers[0]);
        assert(played(program, file, stores, answers, 1));
        assert(stores[2] == s);
    }
    if answers.len() > 2 {
        assert(answers.take(2)[0] == answers[0]);
        assert(answers.take(2)[1] == answers[1]);
        assert(played(program, file, stores, answers, 2));
    }
    if answers.len() > 3 {
        assert(answers.take(3)[0] == answers[0]);
        assert(answers.take(3)[1] == answers[1]);
        assert(answers.take(3)[2] == answers[2]);
        assert(played(program, file, stores, answers, 3));
    }
    if answers.len() > 4 {
        assert(answers.take(4)[0] == answers[0]);
        assert(answers.take(4)[1] == answers[1]);
        assert(answers.take(4)[2] == answers[2]);
        assert(answers.take(4)[3] == answers[3]);
        assert(played(program, file, stores, answers, 4));
    }
}

/// Whether the device holds something at a path that lies above another one.
pub open spec fn holds_above(store: Store, top: Seq<char>, path: Seq<char>) -> bool {
    top.len() > 0 && store.contains_key(top) && is_under(path, top)
}

proof fn above_is_above_the_parent(path: Seq<char>, top: Seq<char>)
    requires
        top.len() > 0,
        is_under(path, top),
    ensures
        parent_of(path).len() > 0,
        top == parent_of(path) || is_under(parent_of(path), top),
{
    parent_and_name(path);
    let parent = parent_of(path);
    let name = name_of(path);
    assert(path[top.len() as int] == '/');
    assert(path =~= parent.push('/') + name);
    if top.len() > parent.len() {
        assert(name[top.len() - parent.len() - 1] == '/');
    }
    assert(parent.take(top.len() as int) =~= path.take(top.len() as int));
    if top.len() == parent.len() {
        assert(parent.take(top.len() as int) =~= parent);
    } else {
        assert(parent[top.len() as int] == path[top.len() as int]);
    }
}

/// Making sure of a folder, from answer `at` on, does not fail where the device
/// holds something on the way to it.
pub proof fn folder_goes_through(
    path: Seq<char>,
    file: Seq<u8>,
    stores: Seq<Store>,
    answers: Seq<Answer>,
    at: nat,
    top: Seq<char>,
)
    requires
        stores.len() == answers.len() + 1,
        at <= answers.len(),
        top.len() > 0,
        stores[at as int].contains_key(top),
        path == top || is_under(path, top),
        plays_between(
            |a: Seq<Answer>| new_folder_run(path, a, at),
            file,
            stores,
            answers,
            at,
            answers.len(),
        ),
    ensures
        !(new_folder_run(path, answers, at) is Failed),
    decreases path.len(),
{
    let program = |a: Seq<Answer>| new_folder_run(path, a, at);
    if new_folder_run(path, answers, at) is Failed {
        let first = stores[at as int];
        parent_and_name(path);
        assert(played(program, file, stores, answers, at as int));
        assert(stores[at as int + 1] == first);
        assert(entry_in(answers[at as int]) is Err);
        assert(path != top);
        above_is_above_the_parent(path, top);
        let parent = parent_of(path);
        let inner = |a: Seq<Answer>| new_folder_run(parent, a, at + 1);
        let end: nat = match new_folder_run(parent, answers, at + 1) {
            RunView::Done(_, m) => m,
            _ => answers.len(),
        };
        new_folder_ends(parent, answers, at + 1);
        assert forall|k: int| at + 1 <= k < end implies #[trigger] played(
            inner,
            file,
            stores,
            answers,
            k,
        ) by {
            assert(played(program, file, stores, answers, k));
            assert(answers.take(k)[at as int] == answers[at as int]);
            prefix_decides_a_folder(parent, answers, k, at + 1);
            new_folder_ends(parent, answers.take(k), at + 1);
        }
        if new_folder_run(parent, answers, at + 1) is Failed {
            folder_goes_through(parent, file, stores, answers, at + 1, top);
        } else {
            let m = end;
            folder_is_made_sure_of(parent, file, stores, answers, at + 1, m);
            if parent_of(parent).len() == 0 {
                if is_under(parent, top) {
                    above_is_above_the_parent(parent, top);
                }
                assert(first.contains_key(parent));
            }
            assert(stores[m as int].contains_key(parent));
            assert forall|k: int| m <= k <= answers.len() implies {
                &&& answers.take(k)[at as int] == answers[at as int]
                &&& new_folder_run(parent, answers.take(k), at + 1) == RunView::Done((), m)
            } by {
                folder_needs_no_more(parent, answers, k, at + 1, m);
            }
            assert(played(program, file, stores, answers, m as int));
            assert(entry_in(answers[m as int]) is Ok);
            assert(played(program, file, stores, answers, m as int + 1));
            assert(answers.take(m as int + 1)[m as int] == answers[m as int]);
        }
    }
}

/// Finding or making the document to write at a path, from answer `at` on, does not
/// fail where the device holds something above it.
proof fn document_goes_through(
    target: Seq<char>,
    file: Seq<u8>,
    stores: Seq<Store>,
    answers: Seq<Answer>,
    at: nat,
    top: Seq<char>,
)
    requires
        stores.len() == answers.len() + 1,
        at <= answers.len(),
        holds_above(stores[at as int], top, target),
        plays_between(
            |a: Seq<Answer>| document_run(target, a, at),
            file,
            stores,
            answers,
            at,
            answers.len(),
        ),
    ensures
        !(document_run(target, answers, at) is Failed),
{
    let program = |a: Seq<Answer>| document_run(target, a, at);
    if document_run(target, answers, at) is Failed {
        let first = stores[at as int];
        let parent = parent_of(target);
        above_is_above_the_parent(target, top);
        assert(played(program, file, stores, answers, at as int));
        assert(stores[at as int + 1] == first);
        let inner = |a: Seq<Answer>| new_folder_run(parent, a, at + 1);
        let end: nat = match new_folder_run(parent, answers, at + 1) {
            RunView::Done(_, m) => m,
            _ => answers.len(),
        };
        new_folder_ends(parent, answers, at + 1);
        assert forall|k: int| at + 1 <= k < end implies #[trigger] played(
            inner,
            file,
            stores,
            answers,
            k,
        ) by {
            assert(played(program, file, stores, answers, k));
            assert(answers.take(k)[at as int] == answers[at as int]);
            prefix_decides_a_folder(parent, answers, k, at + 1);
            new_folder_ends(parent, answers.take(k), at + 1);
        }
        if new_folder_run(parent, answers, at + 1) is Failed {
            folder_goes_through(parent, file, stores, answers, at + 1, top);
        } else {
            let m = end;
            folder_is_made_sure_of(parent, file, stores, answers, at + 1, m);
            if parent_of(parent).len() == 0 {
                if is_under(parent, top) {
                    above_is_above_the_parent(parent, top);
                }
                assert(first.contains_key(parent));
            }
            assert(stores[m as int].contains_key(parent));
            assert forall|k: int| m <= k <= answers.len() implies {
                &&& answers.take(k)[at as int] == answers[at as int]
                &&& new_folder_run(parent, answers.take(k), at + 1) == RunView::Done((), m)
            } by {
                folder_needs_no_more(parent, answers, k, at + 1, m);
            }
            assert(played(program, file, stores, answers, m as int));
            assert(entry_in(answers[m as int]) is Ok);
            assert(played(program, file, stores, answers, m as int + 1));
            assert(answers.take(m as int + 1)[m as int] == answers[m as int]);
            keys_differ();
        }
    }
}

/// An upload does not fail where the local file has a name and the device holds
/// something above the place where it is to go.
pub proof fn upload_goes_through(
    remote: Seq<char>,
    name: Seq<char>,
    file: Seq<u8>,
    stores: Seq<Store>,
    answers: Seq<Answer>,
    target: Seq<char>,
    top: Seq<char>,
)
    requires
        plays(
            |a: Seq<Answer>| upload_run(remote, Some(name), a),
            file,
            stores,
            answers,
        ),
        upload_place(stores[0], remote, name, target),
        holds_above(stores[0], top, target),
    ensures
        !(upload_run(remote, Some(name), answers) is Failed),
{
    let program = |a: Seq<Answer>| upload_run(remote, Some(name), a);
    let s = stores[0];
    if upload_run(remote, Some(name), answers) is Failed {
        if answers.len() > 0 {
            assert(answers.take(0) =~= Seq::<Answer>::empty());
            assert(played(program, file, stores, answers, 0));
        }
        let f: nat = is_folder_run(remote, answers, 0)->Done_1;
        assert(is_folder_run(remote, answers, 0) is Done);
        assert(stores[f as int] == s);
        let is_folder = is_folder_run(remote, answers, 0)->Done_0;
        if is_folder {
            let base = choose|base: Seq<char>| #[trigger]
                names_folder(remote, base) && target == path_in(base, name);
            inside_is_behind_one_slash(remote, base, name);
        }
        let inner = |a: Seq<Answer>| document_run(target, a, f);
        let run = document_run(target, answers, f);
        if run is Failed {
            assert forall|k: int| f <= k < answers.len() implies #[trigger] played(
                inner,
                file,
                stores,
                answers,
                k,
            ) by {
                assert(played(program, file, stores, answers, k));
                if f == 1 {
                    assert(answers.take(k)[0] == answers[0]);
                }
                prefix_decides_a_document(target, answers, k, f);
            }
            document_goes_through(target, file, stores, answers, f, top);
        } else {
            let id = run->Done_0;
            let d = run->Done_1;
            document_ends(target, answers, f);
            document_needs_no_more(target, answers, d as int, f, id, d);
            if f == 1 {
                assert(answers.take(d as int)[0] == answers[0]);
            }
            assert(played(program, file, stores, answers, d as int));
        }
    }
}

/// A copy does not fail where the device holds the source, and a folder at the
/// destination or something above it.
pub proof fn copy_goes_through(
    src: Seq<char>,
    dst: Seq<char>,
    file: Seq<u8>,
    stores: Seq<Store>,
    answers: Seq<Answer>,
    top: Seq<char>,
)
    requires
        plays(|a: Seq<Answer>| copy_run(src, dst, a), file, stores, answers),
        stores[0].contains_key(src),
        holds_folder(stores[0], dst) || stores[0].contains_key(parent_of(dst)) || (
        !stores[0].contains_key(dst) && holds_above(stores[0], top, dst)),
    ensures
        !(copy_run(src, dst, answers) is Failed),
{
    let program = |a: Seq<Answer>| copy_run(src, dst, a);
    let s = stores[0];
    let parent = parent_of(dst);
    if copy_run(src, dst, answers) is Failed {
        assert(answers.take(0) =~= Seq::<Answer>::empty());
        assert(played(program, file, stores, answers, 0));
        assert(answers.take(1)[0] == answers[0]);
        assert(stores[1] == s);
        assert(played(program, file, stores, answers, 1));
        assert(stores[2] == s);
        let end: nat = if entry_in(answers[1]) is Ok {
            2
        } else {
            match new_folder_run(parent, answers, 2) {
                RunView::Done(_, m) => m,
                _ => answers.len(),
            }
        };
        if entry_in(answers[1]) is Err {
            let inner = |a: Seq<Answer>| new_folder_run(parent, a, 2);
            new_folder_ends(parent, answers, 2);
            assert forall|k: int| 2 <= k < end implies #[trigger] played(
                inner,
                file,
                stores,
                answers,
                k,
            ) by {
                assert(played(program, file, stores, answers, k));
                assert(answers.take(k)[0] == answers[0]);
                assert(answers.take(k)[1] == answers[1]);
                prefix_decides_a_folder(parent, answers, k, 2);
                new_folder_ends(parent, answers.take(k), 2);
            }
            let held = if s.contains_key(parent) && parent.len() > 0 {
                parent
            } else {
                top
            };
            if held == top && parent.len() > 0 && !s.contains_key(parent) {
                above_is_above_the_parent(dst, top);
            }
            if new_folder_run(parent, answers, 2) is Failed {
                folder_goes_through(parent, file, stores, answers, 2, held);
            } else if new_folder_run(parent, answers, 2) is Done {
                folder_is_made_sure_of(parent, file, stores, answers, 2, end);
                if !s.contains_key(parent) {
                    above_is_above_the_parent(dst, top);
                    if parent_of(parent).len() == 0 && is_under(parent, top) {
                        above_is_above_the_parent(parent, top);
                    }
                }
                assert(stores[end as int].contains_key(parent));
                assert forall|k: int| end <= k <= answers.len() implies new_folder_run(
                    parent,
                    #[trigger] answers.take(k),
                    2,
                ) == RunView::Done((), end) by {
                    folder_needs_no_more(parent, answers, k, 2, end);
                }
            }
        }
        if answers.len() > end {
            assert(answers.take(end as int)[0] == answers[0]);
            assert(answers.take(end as int)[1] == answers[1]);
            assert(played(program, file, stores, answers, end as int));
        }
        if answers.len() > end + 1 {
            assert(answers.take(end as int + 1)[0] == answers[0]);
            assert(answers.take(end as int + 1)[1] == answers[1]);
            assert(answers.take(end as int + 1)[end as int] == answers[end as int]);
            assert(played(program, file, stores, answers, end as int + 1));
        }
    }
}

} // verus!
