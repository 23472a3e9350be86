//! What holds of the window: what each answer, press, click and dialog changes, what it asks of the
//! worker, and what it leaves as it was.

use vstd::prelude::*;

use crate::accounts;
use crate::accounts::{AccountRow, RowView, Tone};
use crate::gui;
use crate::gui::{
    AuthDialog, AuthView, ClicksView, GuiState, GuiView, Request, RequestView, Response, RowClicks,
    TopButton, WorkDone,
};
use crate::icon;
use crate::icon::Pixel;

verus! {

// ---------------------------------------------------------------------------
// What the worker tells
// ---------------------------------------------------------------------------

/// What was done is told as good news, in the words of who did it; what failed is told as bad news,
/// with what it was and why.
pub proof fn work_is_told(words: String, id: String)
    ensures
        gui::work_message(WorkDone::Refreshed) is None,
        gui::work_message(WorkDone::Imported(Ok(words))) == Some((words@, Tone::Good)),
        gui::work_message(WorkDone::Swapped(Ok(words))) == Some((words@, Tone::Good)),
        gui::work_message(WorkDone::Renamed(Ok(words))) == Some((words@, Tone::Good)),
        gui::work_message(WorkDone::ExpirySet(Ok(words))) == Some((words@, Tone::Good)),
        gui::work_message(WorkDone::RoutingSet(Ok(words))) == Some((words@, Tone::Good)),
        gui::work_message(WorkDone::Authorized(Ok(words))) == Some((words@, Tone::Good)),
        gui::work_message(WorkDone::Removed { id, result: Ok(()) }) == Some(
            ("已删除 "@ + id@, Tone::Good),
        ),
        gui::work_message(WorkDone::Imported(Err(words))) == Some((words@, Tone::Bad)),
        gui::work_message(WorkDone::Swapped(Err(words))) == Some((words@, Tone::Bad)),
        gui::work_message(WorkDone::Authorized(Err(words))) == Some((words@, Tone::Bad)),
        gui::work_message(WorkDone::Renamed(Err(words))) == Some(
            ("重命名失败: "@ + words@, Tone::Bad),
        ),
        gui::work_message(WorkDone::ExpirySet(Err(words))) == Some(
            ("保存订阅到期日失败: "@ + words@, Tone::Bad),
        ),
        gui::work_message(WorkDone::RoutingSet(Err(words))) == Some(
            ("更新路由状态失败: "@ + words@, Tone::Bad),
        ),
        gui::work_message(WorkDone::Removed { id, result: Err(words) }) == Some(
            ("删除失败: "@ + words@, Tone::Bad),
        ),
{
    assert(Seq::<char>::empty() + words@ =~= words@);
}

/// A list of accounts is shown in place of the rows before, ends the work and the logging in, and
/// replaces the message before, by its own or by none; nothing else changes.
pub proof fn lists_are_shown(gui: GuiView, rows: Vec<AccountRow>, words: String, tone: Tone, i: int)
    ensures
        ({
            let after = gui::responded(
                gui,
                Response::List { rows, message: Some((words, tone)) },
            );
            &&& after.rows.len() == rows@.len()
            &&& 0 <= i < rows@.len() ==> after.rows[i] == rows@[i]@
            &&& after == (GuiView {
                rows: after.rows,
                busy: false,
                loaded: true,
                auth_dialog: None,
                status: words@,
                status_tone: tone,
                ..gui
            })
        }),
        ({
            let after = gui::responded(gui, Response::List { rows, message: None });
            &&& after.rows.len() == rows@.len()
            &&& 0 <= i < rows@.len() ==> after.rows[i] == rows@[i]@
            &&& after.status.len() == 0
            &&& after == (GuiView {
                rows: after.rows,
                busy: false,
                loaded: true,
                auth_dialog: None,
                status: after.status,
                ..gui
            })
        }),
{
}

/// A link to log in at is shown in the dialog that is open, which keeps its flag, or in a new one with
/// a flag of its own; nothing else changes.
pub proof fn links_are_shown(gui: GuiView, url: String, user_code: String, dialog: AuthView)
    ensures
        ({
            let after = gui::responded(gui, Response::AuthLink { url, user_code });
            &&& gui.auth_dialog == Some(dialog) ==> after == (GuiView {
                auth_dialog: Some(
                    AuthView { url: url@, user_code: user_code@, cancel: dialog.cancel },
                ),
                ..gui
            })
            &&& gui.auth_dialog is None ==> {
                &&& after == (GuiView {
                    auth_dialog: Some(
                        AuthView { url: url@, user_code: user_code@, cancel: after.flags },
                    ),
                    flags: after.flags,
                    ..gui
                })
                &&& gui.flags < u64::MAX ==> after.flags == gui.flags + 1
                &&& gui.flags == u64::MAX ==> after.flags == 0
            }
        }),
{
}

/// Where the worker cannot work, that is told as bad news and the work is over; the rows and the
/// dialogs stay.
pub proof fn worker_failures_are_shown(gui: GuiView, words: String)
    ensures
        gui::responded(gui, Response::Fatal(words)) == (GuiView {
            busy: false,
            loaded: true,
            status: words@,
            status_tone: Tone::Bad,
            ..gui
        }),
{
}

/// The window opens while the worker is at work, without rows, dialogs or flags, in the look that it is
/// given.
pub proof fn windows_open_empty(dark_mode: bool)
    ensures
        ({
            let fresh = gui::fresh_view(dark_mode);
            &&& fresh.rows.len() == 0
            &&& fresh.busy
            &&& !fresh.loaded
            &&& fresh.status == "加载中…"@
            &&& fresh.status_tone == Tone::Info
            &&& fresh.pending_delete is None
            &&& fresh.rename_target is None
            &&& fresh.subscription_expiry_target is None
            &&& fresh.auth_dialog is None
            &&& fresh.dark_mode == dark_mode
            &&& !fresh.exit_requested
            &&& fresh.flags == 0
        }),
        gui::REFRESH_SECONDS == 5 * 60,
        gui::show_entry() == "show-window"@,
        gui::exit_entry() == "exit-app"@,
{
}

/// While the worker is at work on a request that is told, and nothing else changes.
pub proof fn work_is_announced(gui: GuiView, status: Seq<char>)
    ensures
        gui.sending(status) == (GuiView { busy: true, status, status_tone: Tone::Info, ..gui }),
        gui.flags < u64::MAX ==> gui.next_flag() == gui.flags + 1,
        gui.flags == u64::MAX ==> gui.next_flag() == 0,
{
}

// ---------------------------------------------------------------------------
// Presses and clicks
// ---------------------------------------------------------------------------

/// Each button above the rows asks the worker for its own thing, while the worker is idle; while it is
/// not, a button does nothing. To add an account opens an empty dialog with a flag of its own, which
/// the worker is given too.
pub proof fn buttons_ask_for_their_own_thing(gui: GuiView, button: TopButton)
    ensures
        gui.busy ==> gui::pressed(gui, button).0 == gui && gui::pressed(gui, button).1 is None,
        !gui.busy ==> {
            &&& gui::pressed(gui, TopButton::Refresh).1 == Some(RequestView::Refresh)
            &&& gui::pressed(gui, TopButton::Refresh).0 == (GuiView {
                busy: true,
                status: "正在刷新额度…"@,
                status_tone: Tone::Info,
                ..gui
            })
            &&& gui::pressed(gui, TopButton::Import).1 == Some(RequestView::Import)
            &&& gui::pressed(gui, TopButton::Import).0 == (GuiView {
                busy: true,
                status: "正在导入…"@,
                status_tone: Tone::Info,
                ..gui
            })
            &&& gui::pressed(gui, TopButton::AddAccount).1 matches Some(
                RequestView::StartDeviceAuth(flag),
            ) && {
                &&& gui.flags < u64::MAX ==> flag == gui.flags + 1
                &&& gui.flags == u64::MAX ==> flag == 0
                &&& gui::pressed(gui, TopButton::AddAccount).0 == (GuiView {
                    busy: true,
                    status: "正在获取授权链接…"@,
                    status_tone: Tone::Info,
                    auth_dialog: Some(
                        AuthView { url: Seq::empty(), user_code: Seq::empty(), cancel: flag },
                    ),
                    flags: flag,
                    ..gui
                })
            }
        },
{
}

/// The row of an account is the first with its id.
pub proof fn first_row_of_an_account_counts(rows: Seq<RowView>, id: Seq<char>, i: int)
    ensures
        0 <= i < rows.len() && rows[i].id == id && (forall|j: int|
            0 <= j < i ==> (#[trigger] rows[j]).id != id) ==> gui::row_with(rows, id) == Some(
            rows[i],
        ),
        (forall|j: int| 0 <= j < rows.len() ==> (#[trigger] rows[j]).id != id) ==> gui::row_with(
            rows,
            id,
        ) is None,
    decreases rows.len(),
{
    if rows.len() > 0 {
        let rest = rows.drop_first();
        first_row_of_an_account_counts(rest, id, i - 1);
        if 0 < i < rows.len() {
            assert(rest[i - 1] == rows[i]);
            if forall|j: int| 0 <= j < i ==> (#[trigger] rows[j]).id != id {
                assert forall|j: int| 0 <= j < i - 1 implies (#[trigger] rest[j]).id != id by {
                    assert(rest[j] == rows[j + 1]);
                }
                assert(rows[0].id != id);
            }
        }
        if forall|j: int| 0 <= j < rows.len() ==> (#[trigger] rows[j]).id != id {
            assert forall|j: int| 0 <= j < rest.len() implies (#[trigger] rest[j]).id != id by {
                assert(rest[j] == rows[j + 1]);
            }
            assert(rows[0].id != id);
        }
    }
}

/// A click on switch asks the worker to switch to that account, one on routing to let it take part or
/// not; the other clicks ask for nothing.
pub proof fn clicks_ask_for_their_own_thing(
    clicks: ClicksView,
    id: Seq<char>,
    other: Seq<char>,
    enabled: bool,
)
    ensures
        ({
            let asked = gui::click_requests(clicks);
            &&& clicks.swap is None && clicks.routing is None ==> asked.len() == 0
            &&& clicks.swap == Some(id) && clicks.routing is None ==> asked.len() == 1 && asked[0]
                == RequestView::Swap(id)
            &&& clicks.swap is None && clicks.routing == Some((other, enabled)) ==> asked.len() == 1
                && asked[0] == (RequestView::SetRoutingEnabled { id: other, enabled })
            &&& clicks.swap == Some(id) && clicks.routing == Some((other, enabled)) ==> asked.len()
                == 2 && asked[0] == RequestView::Swap(id) && asked[1] == (
            RequestView::SetRoutingEnabled { id: other, enabled })
        }),
{
}

/// A click on remove, on rename or on the last day opens that dialog for that account, filled with what
/// its row shows; a click on switch or on routing announces the work. What was not clicked stays.
pub proof fn clicks_open_their_own_dialog(
    gui: GuiView,
    clicks: ClicksView,
    id: Seq<char>,
    row: RowView,
)
    ensures
        ({
            let after = gui::clicked(gui, clicks);
            &&& after.rows == gui.rows
            &&& after.loaded == gui.loaded
            &&& after.auth_dialog == gui.auth_dialog
            &&& after.dark_mode == gui.dark_mode
            &&& after.exit_requested == gui.exit_requested
            &&& after.flags == gui.flags
            &&& clicks.delete == Some(id) ==> after.pending_delete == Some(id)
            &&& clicks.delete is None ==> after.pending_delete == gui.pending_delete
            &&& clicks.rename is None ==> after.rename_target == gui.rename_target
            &&& clicks.rename == Some(id) && gui::row_with(gui.rows, id) == Some(row)
                ==> after.rename_target == Some((id, row.label))
            &&& clicks.rename == Some(id) && gui::row_with(gui.rows, id) is None
                ==> after.rename_target == Some((id, Seq::<char>::empty()))
            &&& clicks.expiry is None ==> after.subscription_expiry_target
                == gui.subscription_expiry_target
            &&& clicks.expiry == Some(id) && gui::row_with(gui.rows, id) == Some(row)
                ==> after.subscription_expiry_target == Some(
                (
                    id,
                    match row.subscription_expires_on {
                        Some(day) => day,
                        None => Seq::<char>::empty(),
                    },
                ),
            )
            &&& clicks.expiry == Some(id) && gui::row_with(gui.rows, id) is None
                ==> after.subscription_expiry_target == Some((id, Seq::<char>::empty()))
            &&& clicks.swap is None && clicks.routing is None ==> after.busy == gui.busy
                && after.status == gui.status && after.status_tone == gui.status_tone
            &&& clicks.swap == Some(id) && clicks.routing is None ==> after.busy && after.status
                == "正在切换到 "@ + id + "…"@ && after.status_tone == Tone::Info
            &&& clicks.routing is Some ==> after.busy && after.status == "正在更新路由状态…"@
                && after.status_tone == Tone::Info
        }),
{
}

// ---------------------------------------------------------------------------
// Dialogs
// ---------------------------------------------------------------------------

/// A name that is confirmed is handed to the worker as it was edited, for the account that is named,
/// and the dialog is over; one that is not is kept while the dialog is open, and dropped when it is
/// closed. Without a dialog nothing happens, and nothing else ever changes.
pub proof fn names_are_confirmed(
    gui: GuiView,
    id: Seq<char>,
    before: Seq<char>,
    label: Seq<char>,
    open: bool,
    confirmed: bool,
)
    ensures
        gui.rename_target == Some((id, before)) ==> {
            &&& gui::rename_edited(gui, label, true, open).1 == Some(
                RequestView::Rename { id, label },
            )
            &&& gui::rename_edited(gui, label, true, open).0 == (GuiView {
                rename_target: None,
                busy: true,
                status: "正在重命名…"@,
                status_tone: Tone::Info,
                ..gui
            })
            &&& gui::rename_edited(gui, label, false, open).1 is None
            &&& gui::rename_edited(gui, label, false, true).0 == (GuiView {
                rename_target: Some((id, label)),
                ..gui
            })
            &&& gui::rename_edited(gui, label, false, false).0 == (GuiView {
                rename_target: None,
                ..gui
            })
        },
        gui.rename_target is None ==> gui::rename_edited(gui, label, confirmed, open).0 == gui
            && gui::rename_edited(gui, label, confirmed, open).1 is None,
{
}

/// A day that is confirmed, or none, is handed to the worker as it was edited, for the account that it
/// is noted of, and the dialog is over; what is no day is told and edited on. What is not confirmed is
/// kept while the dialog is open and not given up, and dropped otherwise. Nothing else changes.
pub proof fn last_days_are_confirmed(
    gui: GuiView,
    id: Seq<char>,
    before: Seq<char>,
    expires_on: Seq<char>,
    confirmed: bool,
    cancelled: bool,
    open: bool,
)
    ensures
        gui.subscription_expiry_target == Some((id, before)) ==> {
            &&& accounts::expiry_in(expires_on) is Some ==> {
                &&& gui::expiry_edited(gui, expires_on, true, cancelled, open).1 == Some(
                    RequestView::SetSubscriptionExpiry { id, expires_on },
                )
                &&& gui::expiry_edited(gui, expires_on, true, cancelled, open).0 == (GuiView {
                    subscription_expiry_target: None,
                    busy: true,
                    status: "正在保存订阅到期日…"@,
                    status_tone: Tone::Info,
                    ..gui
                })
            }
            &&& accounts::expiry_in(expires_on) is None ==> {
                &&& gui::expiry_edited(gui, expires_on, true, cancelled, open).1 is None
                &&& gui::expiry_edited(gui, expires_on, true, cancelled, open).0 == (GuiView {
                    subscription_expiry_target: Some((id, expires_on)),
                    status: "日期格式无效，请使用 YYYY-MM-DD，例如 2026-09-30"@,
                    status_tone: Tone::Bad,
                    ..gui
                })
            }
            &&& gui::expiry_edited(gui, expires_on, false, cancelled, open).1 is None
            &&& gui::expiry_edited(gui, expires_on, false, false, true).0 == (GuiView {
                subscription_expiry_target: Some((id, expires_on)),
                ..gui
            })
            &&& gui::expiry_edited(gui, expires_on, false, true, open).0 == (GuiView {
                subscription_expiry_target: None,
                ..gui
            })
            &&& gui::expiry_edited(gui, expires_on, false, cancelled, false).0 == (GuiView {
                subscription_expiry_target: None,
                ..gui
            })
        },
        gui.subscription_expiry_target is None ==> gui::expiry_edited(
            gui,
            expires_on,
            confirmed,
            cancelled,
            open,
        ).0 == gui && gui::expiry_edited(gui, expires_on, confirmed, cancelled, open).1 is None,
{
}

/// A removal that is confirmed is handed to the worker for the account that was clicked, and the dialog
/// is over; one that is given up is dropped, and otherwise the dialog stays. Nothing else changes.
pub proof fn removals_are_confirmed(
    gui: GuiView,
    id: Seq<char>,
    confirmed: bool,
    cancelled: bool,
    open: bool,
)
    ensures
        gui.pending_delete == Some(id) ==> {
            &&& gui::delete_answered(gui, true, cancelled, open).1 == Some(RequestView::Remove(id))
            &&& gui::delete_answered(gui, true, cancelled, open).0 == (GuiView {
                pending_delete: None,
                busy: true,
                status: "正在删除 "@ + id + "…"@,
                status_tone: Tone::Info,
                ..gui
            })
            &&& gui::delete_answered(gui, false, cancelled, open).1 is None
            &&& gui::delete_answered(gui, false, true, open).0 == (GuiView {
                pending_delete: None,
                ..gui
            })
            &&& gui::delete_answered(gui, false, cancelled, false).0 == (GuiView {
                pending_delete: None,
                ..gui
            })
            &&& gui::delete_answered(gui, false, false, true).0 == gui
        },
        gui.pending_delete is None ==> gui::delete_answered(gui, confirmed, cancelled, open).0
            == gui && gui::delete_answered(gui, confirmed, cancelled, open).1 is None,
{
}

// ---------------------------------------------------------------------------
// What is held and what it says
// ---------------------------------------------------------------------------

/// A request says what it holds.
pub proof fn requests_say_what_they_hold(
    flag: u64,
    id: String,
    edited: String,
    enabled: bool,
    request: Request,
    all: Seq<Request>,
    i: int,
)
    ensures
        Request::Refresh@ == RequestView::Refresh,
        Request::StartDeviceAuth(flag)@ == RequestView::StartDeviceAuth(flag),
        Request::Import@ == RequestView::Import,
        Request::Swap(id)@ == RequestView::Swap(id@),
        Request::Remove(id)@ == RequestView::Remove(id@),
        (Request::Rename { id, label: edited })@ == (RequestView::Rename {
            id: id@,
            label: edited@,
        }),
        (Request::SetSubscriptionExpiry { id, expires_on: edited })@ == (
        RequestView::SetSubscriptionExpiry { id: id@, expires_on: edited@ }),
        (Request::SetRoutingEnabled { id, enabled })@ == (RequestView::SetRoutingEnabled {
            id: id@,
            enabled,
        }),
        gui::request_view(Some(request)) == Some(request@),
        gui::request_view(None) is None,
        gui::requests_view(all).len() == all.len(),
        0 <= i < all.len() ==> gui::requests_view(all)[i] == all[i]@,
{
}

/// A window says what it holds.
pub proof fn windows_say_what_they_hold(
    state: GuiState,
    clicks: RowClicks,
    words: String,
    tone: Tone,
    dialog: AuthDialog,
)
    ensures
        state@.rows == accounts::rows_view(state.rows@),
        state@.busy == state.busy,
        state@.loaded == state.loaded,
        state@.status == state.status@,
        state@.status_tone == state.status_tone,
        state@.dark_mode == state.dark_mode,
        state@.exit_requested == state.exit_requested,
        state@.flags == state.flags,
        state.pending_delete matches Some(id) ==> state@.pending_delete == Some(id@),
        state.pending_delete is None ==> state@.pending_delete is None,
        state.rename_target matches Some((id, edited)) ==> state@.rename_target == Some(
            (id@, edited@),
        ),
        state.rename_target is None ==> state@.rename_target is None,
        state.subscription_expiry_target matches Some((id, edited))
            ==> state@.subscription_expiry_target == Some((id@, edited@)),
        state.subscription_expiry_target is None ==> state@.subscription_expiry_target is None,
        state.auth_dialog matches Some(open) ==> state@.auth_dialog == Some(open@),
        state.auth_dialog is None ==> state@.auth_dialog is None,
        dialog@.url == dialog.url@,
        dialog@.user_code == dialog.user_code@,
        dialog@.cancel == dialog.cancel,
        clicks.swap matches Some(id) ==> clicks@.swap == Some(id@),
        clicks.swap is None ==> clicks@.swap is None,
        clicks.delete matches Some(id) ==> clicks@.delete == Some(id@),
        clicks.delete is None ==> clicks@.delete is None,
        clicks.rename matches Some(id) ==> clicks@.rename == Some(id@),
        clicks.rename is None ==> clicks@.rename is None,
        clicks.expiry matches Some(id) ==> clicks@.expiry == Some(id@),
        clicks.expiry is None ==> clicks@.expiry is None,
        clicks.routing matches Some((id, enabled)) ==> clicks@.routing == Some((id@, enabled)),
        clicks.routing is None ==> clicks@.routing is None,
        gui::message_view(Some((words, tone))) == Some((words@, tone)),
        gui::message_view(None) is None,
{
}

// ---------------------------------------------------------------------------
// The picture
// ---------------------------------------------------------------------------

/// The upper arrow, line by line: a shaft of three lines from the left, and a head that narrows to the
/// right; the lower one is the same, turned around.
pub proof fn arrows_line_by_line(x: int, y: int)
    ensures
        icon::in_upper_arrow(x, y) <==> (y == 12 && 9 <= x <= 24) || ((y == 11 || y == 13) && 9
            <= x <= 23) || ((y == 10 || y == 14) && 21 <= x <= 22) || ((y == 9 || y == 15) && x
            == 21),
        icon::in_lower_arrow(x, y) <==> (y == 20 && 8 <= x <= 23) || ((y == 19 || y == 21) && 9
            <= x <= 23) || ((y == 18 || y == 22) && 10 <= x <= 11) || ((y == 17 || y == 23) && x
            == 11),
{
}

/// The square fills its picture but for the corners, which a circle of eight pixels rounds.
pub proof fn corners_are_rounded(x: int, y: int)
    requires
        0 <= x < 32,
        0 <= y < 32,
    ensures
        8 <= x <= 23 ==> icon::in_square(x, y),
        8 <= y <= 23 ==> icon::in_square(x, y),
        x < 8 && y < 8 ==> (icon::in_square(x, y) <==> (15 - 2 * x) * (15 - 2 * x) + (15 - 2 * y)
            * (15 - 2 * y) < 16 * 16),
        icon::in_square(x, y) == icon::in_square(31 - x, y),
        icon::in_square(x, y) == icon::in_square(x, 31 - y),
{
    icon::square_is_symmetric(x, y);
    let across = icon::overhang(x);
    let down = icon::overhang(y);
    assert(across * across <= 225) by (nonlinear_arith)
        requires
            0 <= across <= 15,
    ;
    assert(down * down <= 225) by (nonlinear_arith)
        requires
            0 <= down <= 15,
    ;
}

/// The arrows are white, the rest of the square is blue, and outside of it nothing is seen.
pub proof fn pixels_have_their_colour(x: int, y: int)
    ensures
        icon::in_upper_arrow(x, y) || icon::in_lower_arrow(x, y) ==> icon::pixel_of(x, y) == (Pixel {
            red: 255,
            green: 255,
            blue: 255,
            alpha: 255,
        }),
        !icon::in_upper_arrow(x, y) && !icon::in_lower_arrow(x, y) && icon::in_square(x, y)
            ==> icon::pixel_of(x, y) == (Pixel { red: 88, green: 166, blue: 255, alpha: 255 }),
        !icon::in_upper_arrow(x, y) && !icon::in_lower_arrow(x, y) && !icon::in_square(x, y)
            ==> icon::pixel_of(x, y) == (Pixel { red: 0, green: 0, blue: 0, alpha: 0 }),
{
}

/// Pixels are numbered row by row, from the left, and each is four bytes: red, green, blue, and how
/// opaque it is.
pub proof fn pixels_are_numbered_row_by_row(
    x: int,
    y: int,
    rgba: Seq<u8>,
    at: int,
    pixel: Pixel,
)
    requires
        0 <= x < 32,
        0 <= y < 32,
        0 <= at <= rgba.len() - 4,
    ensures
        icon::column(32 * y + x) == x,
        icon::row(32 * y + x) == y,
        icon::holds_pixel(rgba, at, pixel) <==> rgba.subrange(at, at + 4) == seq![
            pixel.red,
            pixel.green,
            pixel.blue,
            pixel.alpha,
        ],
{
    let bytes = rgba.subrange(at, at + 4);
    let colour = seq![pixel.red, pixel.green, pixel.blue, pixel.alpha];
    assert(bytes[0] == rgba[at] && bytes[1] == rgba[at + 1] && bytes[2] == rgba[at + 2] && bytes[3]
        == rgba[at + 3]);
    if icon::holds_pixel(rgba, at, pixel) {
        assert(bytes =~= colour);
    }
    if bytes == colour {
        assert(colour[0] == bytes[0] && colour[1] == bytes[1] && colour[2] == bytes[2] && colour[3]
            == bytes[3]);
    }
}

}
