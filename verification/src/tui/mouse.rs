//! What clicks and scrolling do.
use crate::text::same;
use crate::tree::collections::row_views;
use crate::tui::keys::{
    above, action_run, below, chosen, open_menu, open_or_toggle, quiet, row_above, row_below,
    selection_kept, with_browser, Outcome,
};
use crate::tui::state::{
    action_buttons, button_views, ActionButton, ActionView, Area, BrowserAction, BrowserView,
    ButtonView, ContextMenuState, Effect, MenuView, Mouse, MouseKind, Screen, TuiApp, TuiView,
};
use vstd::prelude::*;

verus! {

/// The item of a framed list that starts at row `top` which a click hits.
pub open spec fn hit(top: u16, row: u16, count: nat) -> Option<nat> {
    let first = if top == u16::MAX {
        top as int
    } else {
        top + 1
    };
    if row >= first && row - first < count {
        Some((row - first) as nat)
    } else {
        None
    }
}

/// The item of a framed list that starts at row `rect_y` which a click hits.
pub fn list_hit_index(rect_y: u16, row: u16, item_count: usize) -> (r: Option<usize>)
    ensures
        hit(rect_y, row, item_count as nat) == match r {
            Some(index) => Some(index as nat),
            None => None,
        },
{
    let first: u16 = if rect_y == u16::MAX {
        rect_y
    } else {
        rect_y + 1
    };
    if row < first {
        return None;
    }
    let index: usize = (row - first) as usize;
    if index < item_count {
        Some(index)
    } else {
        None
    }
}

/// The row at which the lists of the launcher and the library start.
pub const LIST_TOP: u16 = 3;

/// The device that a click on the launcher hits.
pub fn launcher_hit_index(row: u16, item_count: usize) -> (r: Option<usize>)
    ensures
        hit(LIST_TOP, row, item_count as nat) == match r {
            Some(index) => Some(index as nat),
            None => None,
        },
{
    list_hit_index(LIST_TOP, row, item_count)
}

/// The row of the library that a click hits.
pub fn browser_hit_index(row: u16, item_count: usize) -> (r: Option<usize>)
    ensures
        hit(LIST_TOP, row, item_count as nat) == match r {
            Some(index) => Some(index as nat),
            None => None,
        },
{
    list_hit_index(LIST_TOP, row, item_count)
}

/// The first of some buttons in a row, the first one at column `start`, that
/// covers a column. Each is shown in brackets and followed by a gap.
pub open spec fn button_at(buttons: Seq<ButtonView>, column: int, start: int) -> Option<ActionView>
    decreases buttons.len(),
{
    if buttons.len() == 0 {
        None
    } else {
        let end = start + buttons[0].label.shown().len() + 1;
        if start <= column <= end {
            Some(buttons[0].action)
        } else {
            button_at(buttons.skip(1), column, end + 2)
        }
    }
}

/// What the button that a click hits is for; the buttons stand in a frame.
pub open spec fn action_hit(buttons: Seq<ButtonView>, column: u16, row: u16, area: Area) -> Option<
    ActionView,
> {
    let inner_height = if area.height == 0 {
        0
    } else {
        area.height - 1
    };
    let inner_width = if area.width == 0 {
        0
    } else {
        area.width - 1
    };
    if row < area.y + 1 || row >= area.y + inner_height || column < area.x + 1 || column >= area.x
        + inner_width {
        None
    } else {
        button_at(buttons, column as int, area.x + 1)
    }
}

/// What the button that a click hits is for.
pub fn browser_action_hit(column: u16, row: u16, buttons: &Vec<ActionButton>, area: Area) -> (r:
    Option<BrowserAction>)
    ensures
        r.deep_view() == action_hit(button_views(buttons@), column, row, area),
{
    let inner_height: u32 = if area.height == 0 {
        0
    } else {
        area.height as u32 - 1
    };
    let inner_width: u32 = if area.width == 0 {
        0
    } else {
        area.width as u32 - 1
    };
    let (x, y, c, l) = (area.x as u32, area.y as u32, column as u32, row as u32);
    if l < y + 1 || l >= y + inner_height || c < x + 1 || c >= x + inner_width {
        return None;
    }
    let ghost all = button_views(buttons@);
    let mut start: u32 = x + 1;
    assert(all.skip(0) =~= all);
    for i in 0..buttons.len()
        invariant
            all == button_views(buttons@),
            c == column,
            c <= 65535,
            start <= 65545,
            action_hit(all, column, row, area) == button_at(
                all.skip(i as int),
                column as int,
                start as int,
            ),
    {
        assert(all.skip(i as int)[0] == buttons@[i as int].deep_view());
        assert(all.skip(i as int).skip(1) =~= all.skip(i + 1));
        let end: u32 = start + buttons[i].label.width() as u32 + 1;
        if start <= c && c <= end {
            let action = buttons[i].action.clone();
            assert(action.deep_view() == all[i as int].action);
            return Some(action);
        }
        if end + 2 > 65545 {
            proof {
                past_the_end(all.skip(i + 1), column as int, end + 2);
            }
            return None;
        }
        start = end + 2;
    }
    None
}

/// Buttons to the right of a column do not cover it.
proof fn past_the_end(buttons: Seq<ButtonView>, column: int, start: int)
    requires
        column < start,
    ensures
        button_at(buttons, column, start) is None,
    decreases buttons.len(),
{
    if buttons.len() > 0 {
        past_the_end(
            buttons.skip(1),
            column,
            start + buttons[0].label.shown().len() + 1 + 2,
        );
    }
}

/// The rectangle of a menu.
pub open spec fn menu_area(menu: MenuView) -> Area {
    Area {
        x: if menu.x == 0 {
            0
        } else {
            (menu.x - 1) as u16
        },
        y: if menu.y == 0 {
            0
        } else {
            (menu.y - 1) as u16
        },
        width: 16,
        height: if menu.buttons.len() <= 65533 {
            (menu.buttons.len() + 2) as u16
        } else {
            u16::MAX
        },
    }
}

/// The rectangle of a menu: wide enough for its longest label, and as high as it
/// has buttons, with a frame.
pub fn context_menu_rect(menu: &ContextMenuState) -> (r: Area)
    ensures
        r == menu_area(menu.deep_view()),
        forall|k: int|
            0 <= k < menu.buttons@.len() ==> (#[trigger] menu.buttons@[k]).label.shown().len() + 4
                <= r.width,
{
    let mut width: u16 = 16;
    for i in 0..menu.buttons.len()
        invariant
            width == 16,
            forall|k: int|
                0 <= k < i ==> (#[trigger] menu.buttons@[k]).label.shown().len() + 4 <= width,
    {
        let needed: u16 = menu.buttons[i].label.width() + 4;
        if needed > width {
            width = needed;
        }
    }
    let count: usize = menu.buttons.len();
    let height: u16 = if count <= 65533 {
        (count + 2) as u16
    } else {
        u16::MAX
    };
    Area {
        x: if menu.x == 0 {
            0
        } else {
            menu.x - 1
        },
        y: if menu.y == 0 {
            0
        } else {
            menu.y - 1
        },
        width,
        height,
    }
}

/// The button of a menu that a click hits.
pub open spec fn menu_hit(area: Area, column: u16, row: u16, count: nat) -> Option<nat> {
    if area.x <= column < area.x + area.width {
        hit(area.y, row, count)
    } else {
        None
    }
}

/// The button of a menu that a click hits.
pub fn menu_hit_index(area: Area, column: u16, row: u16, item_count: usize) -> (r: Option<usize>)
    ensures
        menu_hit(area, column, row, item_count as nat) == match r {
            Some(index) => Some(index as nat),
            None => None,
        },
{
    if column < area.x || column as u32 >= area.x as u32 + area.width as u32 {
        None
    } else {
        list_hit_index(area.y, row, item_count)
    }
}

/// Whether a click at `now`, in milliseconds, comes soon enough after another one.
pub open spec fn is_double(at: u64, now: u64) -> bool {
    now <= at || now - at <= 500
}

fn comes_soon(at: u64, now: u64) -> (r: bool)
    ensures
        r == is_double(at, now),
{
    now <= at || now - at <= 500
}

/// The mouse on the launcher: scrolling moves the selection, a click selects,
/// and a second one soon after it chooses.
pub open spec fn launcher_mouse(s: TuiView, mouse: Mouse, now: u64) -> Outcome {
    if s.devices.len() == 0 {
        quiet(s)
    } else {
        match mouse.kind {
            MouseKind::ScrollDown => quiet(
                TuiView { launcher_index: row_below(s.launcher_index, s.devices.len()), ..s },
            ),
            MouseKind::ScrollUp => quiet(
                TuiView { launcher_index: row_above(s.launcher_index), ..s },
            ),
            MouseKind::Left => match hit(LIST_TOP, mouse.row, s.devices.len()) {
                None => quiet(s),
                Some(index) => {
                    let next = TuiView {
                        launcher_index: index as usize,
                        last_launcher_click: Some((index as usize, now)),
                        ..s
                    };
                    match s.last_launcher_click {
                        Some((last, at)) if last == index && is_double(at, now) => chosen(
                            next,
                            s.devices[index as int],
                        ),
                        _ => quiet(next),
                    }
                },
            },
            _ => quiet(s),
        }
    }
}

/// The library with a row selected.
pub open spec fn row_selected(b: BrowserView, index: nat) -> BrowserView {
    BrowserView {
        selected_row: index as usize,
        selected_path: Some(b.rows()[index as int].entry.path),
        ..b
    }
}

/// The mouse in the library: scrolling moves the selection; a click on a button
/// does what it is for; a click on a row selects it, and a second one soon after
/// it opens, folds or unfolds it; the other button opens the menu.
pub open spec fn library_mouse(
    s: TuiView,
    b: BrowserView,
    mouse: Mouse,
    buttons_area: Option<Area>,
    now: u64,
) -> Outcome {
    let rows = b.rows();
    let pressed = match buttons_area {
        Some(area) => action_hit(action_buttons(b), mouse.column, mouse.row, area),
        None => None,
    };
    match mouse.kind {
        MouseKind::ScrollDown => quiet(
            with_browser(
                s,
                selection_kept(
                    if rows.len() > 0 {
                        BrowserView { selected_row: row_below(b.selected_row, rows.len()), ..b }
                    } else {
                        b
                    },
                ),
            ),
        ),
        MouseKind::ScrollUp => quiet(
            with_browser(
                s,
                selection_kept(BrowserView { selected_row: row_above(b.selected_row), ..b }),
            ),
        ),
        MouseKind::Left => match pressed {
            Some(action) => action_run(s, action),
            None => match hit(LIST_TOP, mouse.row, rows.len()) {
                None => quiet(s),
                Some(index) => {
                    let path = rows[index as int].entry.path;
                    let next = TuiView {
                        last_browser_click: Some((path, now)),
                        ..with_browser(s, row_selected(b, index))
                    };
                    match s.last_browser_click {
                        Some((last, at)) if last == path && is_double(at, now) => open_or_toggle(
                            next,
                            row_selected(b, index),
                        ),
                        _ => quiet(next),
                    }
                },
            },
        },
        MouseKind::Right => match hit(LIST_TOP, mouse.row, rows.len()) {
            Some(index) => quiet(
                open_menu(
                    with_browser(s, row_selected(b, index)),
                    row_selected(b, index),
                    mouse.column,
                    mouse.row,
                ),
            ),
            None => quiet(
                if pressed is Some {
                    open_menu(s, b, mouse.column, mouse.row)
                } else {
                    s
                },
            ),
        },
        _ => quiet(s),
    }
}

/// The mouse on a menu: a click on a button does what it is for, any other click
/// closes the menu, scrolling moves the selection.
pub open spec fn menu_mouse(s: TuiView, menu: MenuView, mouse: Mouse) -> Outcome {
    let closed = TuiView { context_menu: None, ..s };
    match mouse.kind {
        MouseKind::Left => match menu_hit(
            menu_area(menu),
            mouse.column,
            mouse.row,
            menu.buttons.len(),
        ) {
            Some(index) => action_run(closed, menu.buttons[index as int].action),
            None => quiet(closed),
        },
        MouseKind::Right => quiet(closed),
        MouseKind::ScrollDown => quiet(
            if menu.buttons.len() > 0 {
                TuiView {
                    context_menu: Some(
                        MenuView { selected: row_below(menu.selected, menu.buttons.len()), ..menu },
                    ),
                    ..s
                }
            } else {
                s
            },
        ),
        MouseKind::ScrollUp => quiet(
            TuiView {
                context_menu: Some(MenuView { selected: row_above(menu.selected), ..menu }),
                ..s
            },
        ),
        _ => quiet(s),
    }
}

/// The mouse: a prompt keeps it off, a menu takes it, else the screen does.
pub open spec fn mouse_used(
    s: TuiView,
    mouse: Mouse,
    buttons_area: Option<Area>,
    now: u64,
) -> Outcome {
    if s.prompt is Some {
        quiet(s)
    } else {
        match s.context_menu {
            Some(menu) => menu_mouse(s, menu, mouse),
            None => match s.screen {
                Screen::Launcher => launcher_mouse(s, mouse, now),
                Screen::AddDevice => quiet(s),
                Screen::Browser => match s.browser {
                    Some(b) => library_mouse(s, b, mouse, buttons_area, now),
                    None => quiet(s),
                },
            },
        }
    }
}

impl TuiApp {
    /// Handles the mouse on the launcher.
    pub fn handle_launcher_mouse(&mut self, mouse: Mouse, now: u64) -> (r: Effect)
        ensures
            (final(self).deep_view(), r.deep_view()) == launcher_mouse(
                old(self).deep_view(),
                mouse,
                now,
            ),
    {
        let count: usize = self.devices.len();
        if count == 0 {
            return Effect::Nothing;
        }
        match mouse.kind {
            MouseKind::ScrollDown => {
                self.launcher_index = below(self.launcher_index, count);
                Effect::Nothing
            },
            MouseKind::ScrollUp => {
                self.launcher_index = above(self.launcher_index);
                Effect::Nothing
            },
            MouseKind::Left => {
                let index = match launcher_hit_index(mouse.row, count) {
                    None => {
                        return Effect::Nothing;
                    },
                    Some(index) => index,
                };
                let activate = match self.last_launcher_click {
                    Some((last, at)) => last == index && comes_soon(at, now),
                    None => false,
                };
                let device = self.devices[index].clone();
                assert(device.deep_view() == self.deep_view().devices[index as int]);
                self.launcher_index = index;
                self.last_launcher_click = Some((index, now));
                if activate {
                    self.choose_device(device)
                } else {
                    Effect::Nothing
                }
            },
            _ => Effect::Nothing,
        }
    }

    /// Selects a row of the library.
    fn select_row(&mut self, index: usize, path: &str)
        requires
            old(self).browser is Some,
            index < old(self).deep_view().browser->Some_0.rows().len(),
            path@ == old(self).deep_view().browser->Some_0.rows()[index as int].entry.path,
        ensures
            final(self).deep_view() == with_browser(
                old(self).deep_view(),
                row_selected(old(self).deep_view().browser->Some_0, index as nat),
            ),
            final(self).browser is Some,
    {
        if let Some(mut b) = self.browser.take() {
            b.selected_row = index;
            b.selected_path = Some(path.to_owned());
            self.browser = Some(b);
        }
    }

    /// The row of the library that a click hits, and the path of its entry.
    fn clicked_row(&self, row: u16) -> (r: Option<(usize, String)>)
        requires
            self.browser is Some,
        ensures
            ({
                let rows = self.deep_view().browser->Some_0.rows();
                match r {
                    Some((index, path)) => hit(LIST_TOP, row, rows.len()) == Some(index as nat)
                        && path@ == rows[index as int].entry.path && index < rows.len(),
                    None => hit(LIST_TOP, row, rows.len()) is None,
                }
            }),
    {
        let rows = match &self.browser {
            Some(b) => b.visible_nodes(),
            None => Vec::new(),
        };
        let ghost views = row_views(rows@);
        match browser_hit_index(row, rows.len()) {
            Some(index) => {
                assert(views[index as int] == rows@[index as int].deep_view());
                Some((index, rows[index].entry.path.as_str().to_owned()))
            },
            None => None,
        }
    }

    /// Handles the mouse in the library.
    fn handle_browser_mouse(
        &mut self,
        mouse: Mouse,
        buttons_area: Option<Area>,
        now: u64,
    ) -> (r: Effect)
        requires
            old(self).browser is Some,
        ensures
            (final(self).deep_view(), r.deep_view()) == library_mouse(
                old(self).deep_view(),
                old(self).deep_view().browser->Some_0,
                mouse,
                buttons_area,
                now,
            ),
    {
        match mouse.kind {
            MouseKind::ScrollDown => {
                if let Some(mut b) = self.browser.take() {
                    let count: usize = b.visible_nodes().len();
                    assert(count == b.deep_view().rows().len());
                    if count > 0 {
                        b.selected_row = below(b.selected_row, count);
                    }
                    b.sync_browser_selection();
                    self.browser = Some(b);
                }
                Effect::Nothing
            },
            MouseKind::ScrollUp => {
                if let Some(mut b) = self.browser.take() {
                    b.selected_row = above(b.selected_row);
                    b.sync_browser_selection();
                    self.browser = Some(b);
                }
                Effect::Nothing
            },
            MouseKind::Left => {
                if let Some(action) = self.pressed_button(mouse, buttons_area) {
                    return self.run_browser_action(action);
                }
                let (index, path) = match self.clicked_row(mouse.row) {
                    None => {
                        return Effect::Nothing;
                    },
                    Some(found) => found,
                };
                let activate = match &self.last_browser_click {
                    Some((last, at)) => same(last.as_str(), path.as_str()) && comes_soon(*at, now),
                    None => false,
                };
                self.select_row(index, path.as_str());
                self.last_browser_click = Some((path, now));
                if activate {
                    self.open_selected()
                } else {
                    Effect::Nothing
                }
            },
            MouseKind::Right => {
                match self.clicked_row(mouse.row) {
                    Some((index, path)) => {
                        self.select_row(index, path.as_str());
                        self.open_browser_context_menu(mouse.column, mouse.row);
                    },
                    None => {
                        if self.pressed_button(mouse, buttons_area).is_some() {
                            self.open_browser_context_menu(mouse.column, mouse.row);
                        }
                    },
                }
                Effect::Nothing
            },
            _ => Effect::Nothing,
        }
    }

    /// What the button of the library that a click hits is for.
    fn pressed_button(&self, mouse: Mouse, buttons_area: Option<Area>) -> (r: Option<BrowserAction>)
        requires
            self.browser is Some,
        ensures
            r.deep_view() == match buttons_area {
                Some(area) => action_hit(
                    action_buttons(self.deep_view().browser->Some_0),
                    mouse.column,
                    mouse.row,
                    area,
                ),
                None => None,
            },
    {
        match (&self.browser, buttons_area) {
            (Some(b), Some(area)) => {
                let buttons = b.browser_action_buttons();
                browser_action_hit(mouse.column, mouse.row, &buttons, area)
            },
            _ => None,
        }
    }

    /// Handles the mouse on a menu.
    fn handle_context_menu_mouse(&mut self, mouse: Mouse) -> (r: Effect)
        requires
            old(self).context_menu is Some,
        ensures
            (final(self).deep_view(), r.deep_view()) == menu_mouse(
                old(self).deep_view(),
                old(self).deep_view().context_menu->Some_0,
                mouse,
            ),
    {
        let mut menu = match self.context_menu.take() {
            Some(menu) => menu,
            None => {
                return Effect::Nothing;
            },
        };
        let ghost buttons = button_views(menu.buttons@);
        match mouse.kind {
            MouseKind::Left => {
                let area = context_menu_rect(&menu);
                match menu_hit_index(area, mouse.column, mouse.row, menu.buttons.len()) {
                    Some(index) => {
                        assert(buttons[index as int] == menu.buttons@[index as int].deep_view());
                        let action = menu.buttons[index].action.clone();
                        assert(action.deep_view() == buttons[index as int].action);
                        self.run_browser_action(action)
                    },
                    None => Effect::Nothing,
                }
            },
            MouseKind::Right => Effect::Nothing,
            MouseKind::ScrollDown => {
                if menu.buttons.len() > 0 {
                    menu.selected = below(menu.selected, menu.buttons.len());
                }
                self.context_menu = Some(menu);
                Effect::Nothing
            },
            MouseKind::ScrollUp => {
                menu.selected = above(menu.selected);
                self.context_menu = Some(menu);
                Effect::Nothing
            },
            _ => {
                self.context_menu = Some(menu);
                Effect::Nothing
            },
        }
    }

    /// Handles the mouse. `buttons_area` is where the library's buttons stand,
    /// if that is known, and `now` the time in milliseconds.
    pub fn handle_mouse(&mut self, mouse: Mouse, buttons_area: Option<Area>, now: u64) -> (r: Effect)
        ensures
            (final(self).deep_view(), r.deep_view()) == mouse_used(
                old(self).deep_view(),
                mouse,
                buttons_area,
                now,
            ),
    {
        if self.prompt.is_some() {
            return Effect::Nothing;
        }
        if self.context_menu.is_some() {
            return self.handle_context_menu_mouse(mouse);
        }
        match self.screen {
            Screen::Launcher => self.handle_launcher_mouse(mouse, now),
            Screen::AddDevice => Effect::Nothing,
            Screen::Browser => {
                if self.browser.is_some() {
                    self.handle_browser_mouse(mouse, buttons_area, now)
                } else {
                    Effect::Nothing
                }
            },
        }
    }
}

} // verus!
