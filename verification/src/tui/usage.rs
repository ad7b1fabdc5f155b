//! What a user gets from keys and clicks that follow one another.
use crate::domain::{RemoteEntryType, RemoteEntryView};
use crate::paths::cut_at_the_last_slash;
use crate::text::trimmed;
use crate::tui::keys::{key_pressed, text_pasted, Outcome};
use crate::tui::mouse::{menu_area, mouse_used, LIST_TOP};
use crate::tui::state::{
    action_buttons, is_control, pasted, ActionView, BrowserView, EffectView, Key, Label, MenuView,
    Mouse, MouseKind, PromptView, Screen, TuiView,
};
use vstd::prelude::*;
use vstd::string::*;

verus! {

/// Keys pressed one after the other: the last state, and what the last key asks for.
pub open spec fn keys_pressed(s: TuiView, keys: Seq<Key>) -> Outcome
    decreases keys.len(),
{
    if keys.len() == 0 {
        (s, EffectView::Nothing)
    } else {
        key_pressed(keys_pressed(s, keys.drop_last()).0, keys.last())
    }
}

/// Whether keys type a text, which holds no control character.
pub open spec fn types(keys: Seq<Key>, text: Seq<char>) -> bool {
    &&& keys.len() == text.len()
    &&& forall|i: int|
        0 <= i < keys.len() ==> #[trigger] keys[i] == Key::Char(text[i]) && !is_control(text[i])
}

/// Whether the library is shown, with nothing in front of it and no search being
/// typed.
pub open spec fn shows_the_library(s: TuiView, b: BrowserView) -> bool {
    &&& s.screen == Screen::Browser
    &&& s.browser == Some(b)
    &&& s.prompt is None
    &&& s.context_menu is None
    &&& !b.search_mode
}

/// What is typed into a prompt stands behind what it held, and nothing else
/// changes.
pub proof fn prompt_takes_what_is_typed(
    s: TuiView,
    prompt: PromptView,
    keys: Seq<Key>,
    text: Seq<char>,
)
    requires
        s.prompt == Some(prompt),
        types(keys, text),
    ensures
        keys_pressed(s, keys).0 == (TuiView {
            prompt: Some(PromptView { input: prompt.input + text, ..prompt }),
            ..s
        }),
        keys_pressed(s, keys).1 == EffectView::Nothing,
    decreases text.len(),
{
    if text.len() == 0 {
        assert(prompt.input + text =~= prompt.input);
    } else {
        let less = text.drop_last();
        assert(types(keys.drop_last(), less)) by {
            assert forall|i: int| 0 <= i < less.len() implies #[trigger] keys.drop_last()[i]
                == Key::Char(less[i]) && !is_control(less[i]) by {
                assert(keys[i] == Key::Char(text[i]));
            }
        }
        prompt_takes_what_is_typed(s, prompt, keys.drop_last(), less);
        assert(keys.last() == Key::Char(text.last()));
        assert((prompt.input + less).push(text.last()) =~= prompt.input + text);
    }
}

/// Pasting a text into a prompt does what typing it without what surrounds it does.
pub proof fn pasting_is_typing(s: TuiView, keys: Seq<Key>, text: Seq<char>)
    requires
        s.prompt is Some,
        types(keys, pasted(text)),
    ensures
        text_pasted(s, text) == keys_pressed(s, keys),
{
    prompt_takes_what_is_typed(s, s.prompt->Some_0, keys, pasted(text));
}

/// Taking the last character back undoes typing it.
pub proof fn backspace_undoes_typing(s: TuiView, c: char)
    requires
        s.prompt is Some,
        !is_control(c),
    ensures
        key_pressed(key_pressed(s, Key::Char(c)).0, Key::Backspace).0 == s,
{
    let input = s.prompt->Some_0.input;
    assert(input.push(c).drop_last() =~= input);
}

/// Renaming the selected entry: the prompt offers its name, what is typed stands
/// behind it, and the entry at its path gets that name.
pub proof fn selected_entry_is_renamed(
    s: TuiView,
    b: BrowserView,
    entry: RemoteEntryView,
    keys: Seq<Key>,
    text: Seq<char>,
)
    requires
        shows_the_library(s, b),
        b.selected() == Some(entry),
        types(keys, text),
        trimmed(entry.name + text).len() > 0,
        trimmed(entry.name + text) != entry.name,
    ensures
        ({
            let asked = key_pressed(s, Key::Char('r')).0;
            let typed = keys_pressed(asked, keys).0;
            key_pressed(typed, Key::Enter) == (
                s,
                EffectView::Rename(entry.path, trimmed(entry.name + text)),
            )
        }),
{
    let asked = key_pressed(s, Key::Char('r')).0;
    prompt_takes_what_is_typed(asked, asked.prompt->Some_0, keys, text);
    let typed = keys_pressed(asked, keys).0;
    assert(key_pressed(typed, Key::Enter).0 =~= s);
}

/// Deleting the selected entry: it goes where the word is typed, and stays where
/// anything else is.
pub proof fn selected_entry_is_deleted(
    s: TuiView,
    b: BrowserView,
    entry: RemoteEntryView,
    keys: Seq<Key>,
    text: Seq<char>,
)
    requires
        shows_the_library(s, b),
        b.selected() == Some(entry),
        types(keys, text),
    ensures
        ({
            let asked = key_pressed(s, Key::Char('d')).0;
            let typed = keys_pressed(asked, keys).0;
            &&& asked.prompt is Some
            &&& trimmed(text) == "DELETE"@ ==> key_pressed(typed, Key::Enter) == (
                s,
                EffectView::Delete(entry.path),
            )
            &&& trimmed(text) != "DELETE"@ ==> key_pressed(typed, Key::Enter).1
                == EffectView::Nothing
        }),
{
    reveal_strlit("");
    let asked = key_pressed(s, Key::Char('d')).0;
    let prompt = asked.prompt->Some_0;
    prompt_takes_what_is_typed(asked, prompt, keys, text);
    assert(prompt.input + text =~= text);
    let typed = keys_pressed(asked, keys).0;
    if trimmed(text) == "DELETE"@ {
        assert(key_pressed(typed, Key::Enter).0 =~= s);
    }
}

/// Importing: what is typed goes into the selected folder, into the folder in
/// which the selected file stands, or into the root where nothing is selected.
pub proof fn import_goes_where_the_cursor_is(
    s: TuiView,
    b: BrowserView,
    folder: Seq<char>,
    name: Seq<char>,
    keys: Seq<Key>,
    text: Seq<char>,
)
    requires
        shows_the_library(s, b),
        types(keys, text),
        !name.contains('/'),
        match b.selected() {
            None => folder == b.root_path,
            Some(entry) => if entry.entry_type == RemoteEntryType::Folder {
                folder == entry.path
            } else {
                entry.path == folder + seq!['/'] + name
            },
        },
    ensures
        ({
            let asked = key_pressed(s, Key::Char('i')).0;
            let typed = keys_pressed(asked, keys).0;
            key_pressed(typed, Key::Enter) == (s, EffectView::Import(trimmed(text), folder))
        }),
{
    reveal_strlit("");
    cut_at_the_last_slash(folder, name);
    let asked = key_pressed(s, Key::Char('i')).0;
    let prompt = asked.prompt->Some_0;
    prompt_takes_what_is_typed(asked, prompt, keys, text);
    assert(prompt.input + text =~= text);
    let typed = keys_pressed(asked, keys).0;
    assert(key_pressed(typed, Key::Enter).0 =~= s);
}

/// Exporting the selected file: it is saved under its own name with what was
/// typed behind it. A folder is not exported.
pub proof fn selected_file_is_exported(
    s: TuiView,
    b: BrowserView,
    entry: RemoteEntryView,
    keys: Seq<Key>,
    text: Seq<char>,
)
    requires
        shows_the_library(s, b),
        b.selected() == Some(entry),
        types(keys, text),
        trimmed(entry.name + text).len() > 0,
    ensures
        ({
            let asked = key_pressed(s, Key::Char('e')).0;
            let typed = keys_pressed(asked, keys).0;
            &&& entry.entry_type == RemoteEntryType::Folder ==> asked.prompt is None
            &&& entry.entry_type != RemoteEntryType::Folder ==> key_pressed(typed, Key::Enter) == (
                s,
                EffectView::Export(entry.path, trimmed(entry.name + text)),
            )
        }),
{
    let asked = key_pressed(s, Key::Char('e')).0;
    if entry.entry_type != RemoteEntryType::Folder {
        prompt_takes_what_is_typed(asked, asked.prompt->Some_0, keys, text);
        let typed = keys_pressed(asked, keys).0;
        assert(key_pressed(typed, Key::Enter).0 =~= s);
    }
}

/// Entering what is selected: a file is opened; a folder is loaded, and is
/// unfolded if it was folded.
pub proof fn selected_entry_is_entered(s: TuiView, b: BrowserView, entry: RemoteEntryView)
    requires
        shows_the_library(s, b),
        b.selected() == Some(entry),
    ensures
        ({
            let (next, effect) = key_pressed(s, Key::Enter);
            if entry.entry_type == RemoteEntryType::Folder {
                &&& effect == EffectView::Load(entry.path)
                &&& next.browser is Some
                &&& next.browser->Some_0.expanded.contains(entry.path) == !b.expanded.contains(
                    entry.path,
                )
                &&& forall|path: Seq<char>|
                    path != entry.path ==> #[trigger] next.browser->Some_0.expanded.contains(path)
                        == b.expanded.contains(path)
            } else {
                effect == EffectView::OpenFile(entry) && next == s
            }
        }),
{
}

/// The cursor goes down to the next row and back up to the one it came from.
pub proof fn cursor_goes_row_by_row(s: TuiView, b: BrowserView)
    requires
        shows_the_library(s, b),
        b.selected_row + 1 < b.rows().len(),
        b.rows().len() <= usize::MAX,
    ensures
        ({
            let down = key_pressed(s, Key::Down).0.browser;
            let back = key_pressed(key_pressed(s, Key::Down).0, Key::Up).0.browser;
            &&& down is Some && back is Some
            &&& down->Some_0.selected() == Some(b.rows()[b.selected_row + 1].entry)
            &&& down->Some_0.selected_path == Some(b.rows()[b.selected_row + 1].entry.path)
            &&& back->Some_0.selected() == b.selected()
            &&& back->Some_0.selected_row == b.selected_row
        }),
{
    let down = key_pressed(s, Key::Down).0.browser->Some_0;
    assert(down.rows() == b.rows());
    let back = key_pressed(key_pressed(s, Key::Down).0, Key::Up).0.browser->Some_0;
    assert(back.rows() == b.rows());
}

/// What is typed into the search stands behind the query, and each key has the
/// whole query searched for below the root.
pub proof fn typed_query_is_searched(s: TuiView, b: BrowserView, c: char)
    requires
        s.screen == Screen::Browser,
        s.browser == Some(b),
        s.prompt is None,
        s.context_menu is None,
        b.search_mode,
        !is_control(c),
    ensures
        ({
            let (next, effect) = key_pressed(s, Key::Char(c));
            let query = b.search_query + seq![c];
            &&& next.browser is Some
            &&& next.browser->Some_0.search_query == query
            &&& next.browser->Some_0.search_mode
            &&& trimmed(query).len() > 0 ==> effect == EffectView::Search(
                b.root_path,
                trimmed(query),
            ) && next.searching
            &&& trimmed(query).len() == 0 ==> effect == EffectView::Nothing && !next.searching
        }),
{
    assert(b.search_query.push(c) =~= b.search_query + seq![c]);
}

/// Choosing a device: the library of a paired one is opened at the first of its
/// addresses; another one comes to the screen for pairing, with that address.
pub proof fn device_is_chosen(s: TuiView)
    requires
        s.screen == Screen::Launcher,
        s.prompt is None,
        s.context_menu is None,
        s.launcher_index < s.devices.len(),
        s.devices[s.launcher_index as int].reachable_addrs.len() > 0,
    ensures
        ({
            let device = s.devices[s.launcher_index as int];
            let addr = device.reachable_addrs[0];
            let (next, effect) = key_pressed(s, Key::Enter);
            if device.paired {
                &&& effect == EffectView::OpenLibrary(Some(addr))
                &&& next.screen == Screen::Browser
                &&& next.browser is Some
                &&& next.browser->Some_0.device == device
            } else {
                &&& effect == EffectView::Nothing
                &&& next.screen == Screen::AddDevice
                &&& next.add_ip == addr
                &&& next.browser == s.browser
            }
        }),
{
}

/// On the screen that adds a device, the address that was typed is connected to,
/// and the PIN that was typed is the one that pairs.
pub proof fn typed_fields_are_used(s: TuiView, c: char)
    requires
        s.screen == Screen::AddDevice,
        s.prompt is None,
        s.context_menu is None,
        !is_control(c),
        c != 'c' && c != 'p' && c != 'o',
    ensures
        ({
            let typed = key_pressed(s, Key::Char(c)).0;
            let effect = key_pressed(typed, Key::Enter).1;
            &&& s.add_field is Ip && trimmed(s.add_ip + seq![c]).len() > 0 ==> effect
                == EffectView::Connect(trimmed(s.add_ip + seq![c])) && typed.add_pin == s.add_pin
            &&& s.add_field is Pin && trimmed(s.add_pin + seq![c]).len() > 0 ==> effect
                == EffectView::Pair(trimmed(s.add_pin + seq![c])) && typed.add_ip == s.add_ip
        }),
{
    assert(s.add_ip.push(c) =~= s.add_ip + seq![c]);
    assert(s.add_pin.push(c) =~= s.add_pin + seq![c]);
}

/// Each button says what it does, and does it to what is selected.
pub proof fn buttons_act_on_the_selection(b: BrowserView, k: int)
    requires
        0 <= k < action_buttons(b).len(),
    ensures
        match action_buttons(b)[k].label {
            Label::Open => action_buttons(b)[k].action is OpenOrToggle,
            Label::Toggle => action_buttons(b)[k].action is OpenOrToggle,
            Label::Back => action_buttons(b)[k].action is Back,
            Label::Reload => action_buttons(b)[k].action is Reload,
            Label::Import => action_buttons(b)[k].action == ActionView::ImportInto(
                b.target_folder(),
            ),
            Label::Rename => b.selected() is Some && action_buttons(b)[k].action
                == ActionView::Rename(b.selected()->Some_0),
            Label::Delete => b.selected() is Some && action_buttons(b)[k].action
                == ActionView::Delete(b.selected()->Some_0),
            Label::Export => b.selected() is Some && action_buttons(b)[k].action
                == ActionView::Export(b.selected()->Some_0),
            Label::Reveal => b.selected() is Some && action_buttons(b)[k].action
                == ActionView::RevealLocalCopy(b.selected()->Some_0),
        },
{
}

/// A click on row `k` of the list selects that row.
pub proof fn clicked_row_is_selected(s: TuiView, b: BrowserView, mouse: Mouse, k: int, now: u64)
    requires
        shows_the_library(s, b),
        0 <= k < b.rows().len(),
        mouse.kind == MouseKind::Left,
        mouse.row == LIST_TOP + 1 + k,
    ensures
        ({
            let next = mouse_used(s, mouse, None, now).0;
            &&& next.browser is Some
            &&& s.last_browser_click is None ==> {
                &&& next.browser->Some_0.selected() == Some(b.rows()[k].entry)
                &&& mouse_used(s, mouse, None, now).1 == EffectView::Nothing
            }
        }),
{
    let next = mouse_used(s, mouse, None, now).0;
    if s.last_browser_click is None {
        assert(next.browser->Some_0.rows() == b.rows());
    }
}

/// Two clicks at once on a file open it.
pub proof fn double_click_opens_the_file(
    s: TuiView,
    b: BrowserView,
    mouse: Mouse,
    k: int,
    now: u64,
)
    requires
        shows_the_library(s, b),
        s.last_browser_click is None,
        0 <= k < b.rows().len(),
        b.rows()[k].entry.entry_type != RemoteEntryType::Folder,
        mouse.kind == MouseKind::Left,
        mouse.row == LIST_TOP + 1 + k,
    ensures
        ({
            let once = mouse_used(s, mouse, None, now).0;
            mouse_used(once, mouse, None, now).1 == EffectView::OpenFile(b.rows()[k].entry)
        }),
{
    let once = mouse_used(s, mouse, None, now).0;
    assert(once.browser->Some_0.rows() == b.rows());
    let twice = mouse_used(once, mouse, None, now).0;
    assert(twice.browser->Some_0.rows() == b.rows());
}

/// A click on line `k` of a menu does what the button there is for, as the enter
/// key does once the cursor stands on it.
pub proof fn clicked_button_is_run(s: TuiView, menu: MenuView, mouse: Mouse, k: int, now: u64)
    requires
        s.prompt is None,
        s.context_menu == Some(menu),
        0 <= k < menu.buttons.len() <= 100,
        mouse.kind == MouseKind::Left,
        0 < menu.x == mouse.column < 1000,
        0 < menu.y < 1000,
        mouse.row == menu.y + k,
    ensures
        mouse_used(s, mouse, None, now) == key_pressed(
            TuiView { context_menu: Some(MenuView { selected: k as usize, ..menu }), ..s },
            Key::Enter,
        ),
{
    assert(menu_area(menu).y + 1 == menu.y);
}

} // verus!
