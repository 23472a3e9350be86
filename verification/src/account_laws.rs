//! What holds of the accounts: what is noted of them, how they are shown, and what a change leaves as
//! it was.

use vstd::prelude::*;

use crate::accounts;
use crate::accounts::{
    Account, AccountRow, AccountView, Change, ChangeView, Quota, QuotaLine, QuotaView, QuotaWindow,
    RemovalStep, RowView,
};
use crate::clock;
use crate::control::{AccountSnapshot, QuotaSnapshot};
use crate::json;
use crate::json::JsonView;
use crate::kimi_user;
use crate::text;
use crate::text_laws;

verus! {

// ---------------------------------------------------------------------------
// What is noted
// ---------------------------------------------------------------------------

/// An account says what it holds.
pub proof fn accounts_say_what_they_hold(account: Account, all: Seq<Account>, i: int)
    ensures
        account@.id == account.id@,
        account@.label == account.label@,
        account@.active == account.active,
        account@.manual_only == account.manual_only,
        account@.extra == json::fields_view(account.extra@),
        accounts::accounts_view(all).len() == all.len(),
        0 <= i < all.len() ==> accounts::accounts_view(all)[i] == all[i]@,
        accounts::found_view(Some(account)) == Some(account@),
        accounts::found_view(None) is None,
{
}

/// What is noted of an account is read from the note of that name: its nickname and its last day
/// where the note is a text, and whether it takes part in routing where the note says so. Without
/// such a note an account takes part, unless it is kept out for good.
pub proof fn notes_are_read_by_name(account: AccountView, string: Seq<char>)
    ensures
        (account.nickname() == Some(string)) <==> account.extra.contains_key("nickname"@)
            && account.extra["nickname"@] == JsonView::Text(string),
        (account.expires_on() == Some(string)) <==> account.extra.contains_key(
            "subscription_expires_on"@,
        ) && account.extra["subscription_expires_on"@] == JsonView::Text(string),
        account.routing_enabled() <==> !account.manual_only && !(account.extra.contains_key(
            "routing_enabled"@,
        ) && account.extra["routing_enabled"@] == JsonView::Bool(false)),
{
}

/// An account is shown by the name that the user gave it, else by its nickname, else by its id; only
/// in the last case the account service is asked for a name.
pub proof fn names_are_chosen_in_order(account: AccountView)
    ensures
        account.label != account.id ==> account.shown_label() == account.label
            && !account.wants_nickname(),
        account.label == account.id ==> (match account.nickname() {
            Some(name) => account.shown_label() == name && !account.wants_nickname(),
            None => account.shown_label() == account.id && account.wants_nickname(),
        }),
{
}

/// To set or to take away a note changes that note and nothing else.
pub proof fn notes_change_one_by_one(
    account: AccountView,
    key: Seq<char>,
    value: JsonView,
    other: Seq<char>,
)
    ensures
        ({
            let set = account.with_note(key, value);
            let cleared = account.without_note(key);
            &&& set.id == account.id && set.label == account.label && set.active == account.active
                && set.manual_only == account.manual_only
            &&& cleared.id == account.id && cleared.label == account.label && cleared.active
                == account.active && cleared.manual_only == account.manual_only
            &&& set.extra.contains_key(key) && set.extra[key] == value
            &&& !cleared.extra.contains_key(key)
            &&& other != key ==> {
                &&& set.extra.contains_key(other) == account.extra.contains_key(other)
                &&& cleared.extra.contains_key(other) == account.extra.contains_key(other)
                &&& account.extra.contains_key(other) ==> set.extra[other] == account.extra[other]
                    && cleared.extra[other] == account.extra[other]
            }
        }),
{
}

// ---------------------------------------------------------------------------
// Changes
// ---------------------------------------------------------------------------

/// Whether two accounts agree in all but their name.
pub open spec fn same_but_label(before: AccountView, after: AccountView) -> bool {
    &&& after.id == before.id
    &&& after.active == before.active
    &&& after.manual_only == before.manual_only
    &&& forall|key: Seq<char>| #[trigger]
        after.extra.contains_key(key) == before.extra.contains_key(key)
    &&& forall|key: Seq<char>| #[trigger]
        before.extra.contains_key(key) ==> after.extra[key] == before.extra[key]
}

/// Whether two accounts agree in all but one note.
pub open spec fn same_but_note(before: AccountView, after: AccountView, note: Seq<char>) -> bool {
    &&& after.id == before.id
    &&& after.label == before.label
    &&& after.active == before.active
    &&& after.manual_only == before.manual_only
    &&& forall|key: Seq<char>|
        key != note ==> #[trigger] after.extra.contains_key(key) == before.extra.contains_key(key)
    &&& forall|key: Seq<char>|
        key != note && #[trigger] before.extra.contains_key(key) ==> after.extra[key]
            == before.extra[key]
}

/// To give an account a name changes its name and nothing else: every note of it stays, and so do its
/// nickname, its last day and whether it takes part in routing.
pub proof fn renaming_changes_the_label_only(
    found: Option<AccountView>,
    id: Seq<char>,
    label: Seq<char>,
)
    ensures
        accounts::renamed(found, id, label) matches Ok(
            ChangeView::Store { account: stored, message },
        ) ==> (found matches Some(account) && {
            &&& same_but_label(account, stored)
            &&& stored.extra == account.extra
            &&& stored.nickname() == account.nickname()
            &&& stored.expires_on() == account.expires_on()
            &&& stored.routing_enabled() == account.routing_enabled()
            &&& stored.label != account.label
        }),
{
}

/// A name is taken without the white space around it. A blank name, or the one that the account has,
/// changes nothing, and the user is told so; any other is stored; an account that is not there is
/// reported.
pub proof fn names_are_taken_without_white_space(
    account: AccountView,
    id: Seq<char>,
    lead: Seq<char>,
    name: Seq<char>,
    trail: Seq<char>,
)
    requires
        text_laws::is_blank(lead),
        text_laws::is_blank(trail),
        name.len() > 0 ==> !text::is_white(name[0]) && !text::is_white(name.last()),
    ensures
        ({
            let change = accounts::renamed(Some(account), id, lead + name + trail);
            &&& name.len() == 0 || name == account.label ==> change == Ok::<ChangeView, Seq<char>>(
                ChangeView::Keep { message: "别名未变化"@ },
            )
            &&& name.len() > 0 && name != account.label ==> (change matches Ok(
                ChangeView::Store { account: stored, message },
            ) && stored.label == name && same_but_label(account, stored) && message == "已把 "@
                + id + " 重命名为「"@ + name + "」"@)
            &&& accounts::renamed(None, id, lead + name + trail) == Err::<ChangeView, Seq<char>>(
                "账号 "@ + id + " 不存在"@,
            )
        }),
{
    text_laws::trimming_takes_off_white_space(lead, name, trail);
}

/// To note the last day of a subscription, or to take the note away, changes that note and nothing
/// else.
pub proof fn last_day_changes_one_note(
    found: Option<AccountView>,
    id: Seq<char>,
    expires_on: Seq<char>,
)
    ensures
        accounts::with_expiry(found, id, expires_on) matches Ok(change) ==> (change matches
            ChangeView::Store { account: stored, message } && found matches Some(account)
            && same_but_note(account, stored, "subscription_expires_on"@)),
        accounts::with_expiry(found, id, expires_on) is Ok <==> found is Some
            && accounts::expiry_in(expires_on) is Some,
{
}

/// A day is taken without the white space around it: it is noted as it is written in one way. Without
/// a day the note is taken away. What is no day is refused, and an account that is not there is
/// reported.
pub proof fn last_days_are_taken_without_white_space(
    account: AccountView,
    id: Seq<char>,
    lead: Seq<char>,
    day: Seq<char>,
    trail: Seq<char>,
)
    requires
        text_laws::is_blank(lead),
        text_laws::is_blank(trail),
        day.len() > 0 ==> !text::is_white(day[0]) && !text::is_white(day.last()),
    ensures
        ({
            let value = lead + day + trail;
            let change = accounts::with_expiry(Some(account), id, value);
            &&& day.len() == 0 ==> {
                &&& accounts::expiry_in(value) == Some(None::<Seq<char>>)
                &&& change matches Ok(ChangeView::Store { account: stored, message })
                    && !stored.extra.contains_key("subscription_expires_on"@) && message
                    == "已清除 "@ + id + " 的订阅到期日"@
            }
            &&& day.len() > 0 ==> match clock::parsed_date(day) {
                Some(date) => {
                    let noted = clock::date_text(
                        date.year as int,
                        date.month as int,
                        date.day as int,
                    );
                    &&& accounts::expiry_in(value) == Some(Some(noted))
                    &&& change matches Ok(ChangeView::Store { account: stored, message })
                        && stored.extra.contains_key("subscription_expires_on"@)
                        && stored.extra["subscription_expires_on"@] == JsonView::Text(noted)
                        && message == "已记录 "@ + id + " 的订阅到期日："@ + noted
                },
                None => {
                    &&& accounts::expiry_in(value) is None
                    &&& change == Err::<ChangeView, Seq<char>>(
                        "日期格式无效，请使用 YYYY-MM-DD，例如 2026-09-30"@,
                    )
                },
            }
            &&& accounts::with_expiry(None, id, value) == Err::<ChangeView, Seq<char>>(
                "账号 "@ + id + " 不存在"@,
            )
        }),
{
    text_laws::trimming_takes_off_white_space(lead, day, trail);
}

/// To let an account take part in routing, or not, notes that and changes nothing else; an account
/// that is not there is reported.
pub proof fn routing_changes_one_note(account: AccountView, id: Seq<char>, enabled: bool)
    ensures
        accounts::with_routing(Some(account), id, enabled) matches Ok(
            ChangeView::Store { account: stored, message },
        ) && {
            &&& same_but_note(account, stored, "routing_enabled"@)
            &&& stored.extra.contains_key("routing_enabled"@)
            &&& stored.extra["routing_enabled"@] == JsonView::Bool(enabled)
            &&& enabled ==> message == id + " 已加入自动路由"@
            &&& !enabled ==> message == id + " 已暂停自动路由"@
        },
        accounts::with_routing(None, id, enabled) == Err::<ChangeView, Seq<char>>(
            "账号 "@ + id + " 不存在"@,
        ),
{
}

/// Changes of different kinds do not touch each other: what one of them noted stays when another is
/// made, and in whatever order they are made, the account is the same.
pub proof fn changes_do_not_touch_each_other(account: AccountView, day: JsonView, enabled: bool)
    ensures
        account.with_note("subscription_expires_on"@, day).with_note(
            "routing_enabled"@,
            JsonView::Bool(enabled),
        ) =~= account.with_note("routing_enabled"@, JsonView::Bool(enabled)).with_note(
            "subscription_expires_on"@,
            day,
        ),
{
    reveal_strlit("subscription_expires_on");
    reveal_strlit("routing_enabled");
    assert("subscription_expires_on"@.len() != "routing_enabled"@.len());
}

/// A change says what it holds.
pub proof fn changes_say_what_they_hold(account: Account, words: String, change: Change)
    ensures
        (Change::Keep { message: words })@ == (ChangeView::Keep { message: words@ }),
        (Change::Store { account, message: words })@ == (ChangeView::Store {
            account: account@,
            message: words@,
        }),
        accounts::change_view(Ok(change)) == Ok::<ChangeView, Seq<char>>(change@),
        accounts::change_view(Err(words)) == Err::<ChangeView, Seq<char>>(words@),
{
}

/// The active accounts, and the others, each stay in their order: one more account goes last among
/// its like, and changes nothing among the others.
pub proof fn order_among_alike_stays(all: Seq<AccountView>, account: AccountView, active: bool)
    ensures
        accounts::only(all.push(account), active) == (if account.active == active {
            accounts::only(all, active).push(account)
        } else {
            accounts::only(all, active)
        }),
        accounts::only(Seq::empty(), active) == Seq::<AccountView>::empty(),
{
    assert(all.push(account).drop_last() =~= all);
}

/// A removal takes its steps in this order, and only the first two can stop it.
pub proof fn removal_goes_step_by_step()
    ensures
        accounts::following(RemovalStep::Unregister) == Some(RemovalStep::MarkRemoved),
        accounts::following(RemovalStep::MarkRemoved) == Some(RemovalStep::DeleteCredentials),
        accounts::following(RemovalStep::DeleteCredentials) == Some(RemovalStep::ForgetQuota),
        accounts::following(RemovalStep::ForgetQuota) == Some(RemovalStep::Audit),
        accounts::following(RemovalStep::Audit) is None,
        accounts::stops_removal(RemovalStep::Unregister),
        accounts::stops_removal(RemovalStep::MarkRemoved),
        !accounts::stops_removal(RemovalStep::DeleteCredentials),
        !accounts::stops_removal(RemovalStep::ForgetQuota),
        !accounts::stops_removal(RemovalStep::Audit),
{
}

// ---------------------------------------------------------------------------
// Quotas
// ---------------------------------------------------------------------------

/// A quota is shown with the name of its window, what is used of what there is, the part in percent
/// where it is known, and when it is reset where that is known.
pub proof fn quotas_are_shown(quota: Quota)
    ensures
        ({
            let line = accounts::quota_line(quota);
            &&& quota.window == QuotaWindow::FiveHour ==> line.window == "5小时"@
            &&& quota.window == QuotaWindow::SevenDay ==> line.window == "7天"@
            &&& quota.window == QuotaWindow::Other ==> line.window == "其他"@
            &&& quota.ratio matches Some((number, percent)) ==> line.ratio == Some(number)
                && line.text == percent@ + "% ("@ + (quota.used@ + "/"@ + quota.limit@) + ")"@
            &&& quota.ratio is None ==> line.ratio is None && line.text == quota.used@ + "/"@
                + quota.limit@
            &&& quota.reset matches Some(at) ==> line.reset == Some("重置 "@ + at@)
            &&& quota.reset is None ==> line.reset is None
        }),
{
}

/// All quotas are shown, in their order, but for those of a month.
pub proof fn quotas_of_a_month_are_left_out(quotas: Seq<Quota>, quota: Quota)
    ensures
        accounts::quota_lines(Seq::empty()) == Seq::<QuotaLine>::empty(),
        quota.window != QuotaWindow::Month ==> accounts::quota_lines(quotas.push(quota))
            == accounts::quota_lines(quotas).push(accounts::quota_line(quota)),
        quota.window == QuotaWindow::Month ==> accounts::quota_lines(quotas.push(quota))
            == accounts::quota_lines(quotas),
{
    assert(quotas.push(quota).drop_last() =~= quotas);
}

/// Where none of the quotas is of a month, each is shown at its position.
pub proof fn quotas_are_shown_at_their_positions(quotas: Seq<Quota>)
    requires
        forall|i: int|
            0 <= i < quotas.len() ==> (#[trigger] quotas[i]).window != QuotaWindow::Month,
    ensures
        accounts::quota_lines(quotas).len() == quotas.len(),
        forall|i: int|
            0 <= i < quotas.len() ==> #[trigger] accounts::quota_lines(quotas)[i]
                == accounts::quota_line(quotas[i]),
    decreases quotas.len(),
{
    if quotas.len() > 0 {
        let front = quotas.drop_last();
        assert forall|i: int| 0 <= i < front.len() implies (#[trigger] front[i]).window
            != QuotaWindow::Month by {
            assert(front[i] == quotas[i]);
        }
        quotas_are_shown_at_their_positions(front);
        assert(quotas[quotas.len() - 1].window != QuotaWindow::Month);
        assert forall|i: int| 0 <= i < quotas.len() implies #[trigger] accounts::quota_lines(
            quotas,
        )[i] == accounts::quota_line(quotas[i]) by {
            if i < front.len() {
                assert(accounts::quota_lines(quotas)[i] == accounts::quota_lines(front)[i]);
            }
        }
    }
}

/// A quota that is shown says what it holds.
pub proof fn shown_quotas_say_what_they_hold(quota: QuotaView, all: Seq<QuotaView>, i: int)
    ensures
        quota@.window == quota.window@,
        quota@.ratio == quota.ratio,
        quota@.text == quota.text@,
        quota.reset matches Some(at) ==> quota@.reset == Some(at@),
        quota.reset is None ==> quota@.reset is None,
        accounts::lines_view(all).len() == all.len(),
        0 <= i < all.len() ==> accounts::lines_view(all)[i] == all[i]@,
{
}

// ---------------------------------------------------------------------------
// Membership and errors
// ---------------------------------------------------------------------------

/// A membership is shown without the word that it may begin with, its first character in upper case
/// and the others in lower case.
pub proof fn memberships_are_shown_as_words(first: char, rest: Seq<char>)
    ensures
        accounts::pretty_level("LEVEL_"@ + (seq![first] + rest)) == accounts::upper_case(first)
            + accounts::lower_case(rest),
        !text::begins_with(seq![first] + rest, "LEVEL_"@) ==> accounts::pretty_level(
            seq![first] + rest,
        ) == accounts::upper_case(first) + accounts::lower_case(rest),
        accounts::pretty_level("LEVEL_"@).len() == 0,
        accounts::pretty_level(Seq::empty()).len() == 0,
        accounts::pretty_ascii_level("LEVEL_"@ + (seq![first] + rest)) == seq![
            accounts::upper_ascii(first),
        ] + text::lowered_ascii(rest),
        !text::begins_with(seq![first] + rest, "LEVEL_"@) ==> accounts::pretty_ascii_level(
            seq![first] + rest,
        ) == seq![accounts::upper_ascii(first)] + text::lowered_ascii(rest),
        'a' <= first <= 'z' ==> accounts::upper_ascii(first) as u32 == first as u32 - 0x20,
        !('a' <= first <= 'z') ==> accounts::upper_ascii(first) == first,
{
    let bare = seq![first] + rest;
    let prefix = "LEVEL_"@;
    reveal_strlit("LEVEL_");
    assert((prefix + bare).take(prefix.len() as int) =~= prefix);
    assert((prefix + bare).skip(prefix.len() as int) =~= bare);
    assert(bare.skip(1) =~= rest);
    assert(prefix.take(prefix.len() as int) =~= prefix);
    assert(prefix.skip(prefix.len() as int) =~= Seq::<char>::empty());
}

/// A text is of ASCII where each of its characters is.
pub proof fn ascii_is_below_128(string: Seq<char>, i: int)
    ensures
        accounts::is_ascii(Seq::empty()),
        accounts::is_ascii(string) && 0 <= i < string.len() ==> string[i] <= '\u{7f}',
        !accounts::is_ascii(string) ==> exists|j: int|
            0 <= j < string.len() && '\u{7f}' < #[trigger] string[j],
{
}

/// The words of an error are shown character by character, an end of a line as a space; of more than
/// eighty characters, the first eighty and a mark.
pub proof fn errors_are_shown_on_one_line(error: Seq<char>, i: int)
    ensures
        ({
            let shown = accounts::shortened(error);
            let here = 0 <= i < error.len() && i < 80;
            &&& here && (error[i] == '\n' || error[i] == '\r') ==> shown[i] == ' '
            &&& here && error[i] != '\n' && error[i] != '\r' ==> shown[i] == error[i]
            &&& error.len() <= 80 ==> shown.len() == error.len()
            &&& error.len() > 80 ==> shown.len() == 81 && shown[80] == '…'
        }),
{
}

// ---------------------------------------------------------------------------
// Rows
// ---------------------------------------------------------------------------

/// The membership is told by the first quota that has a note.
pub proof fn first_note_tells(quotas: Seq<Quota>)
    ensures
        match accounts::first_note(quotas) {
            Some(level) => exists|i: int|
                {
                    &&& 0 <= i < quotas.len()
                    &&& (#[trigger] quotas[i]).note matches Some(note) && note@ == level
                    &&& forall|j: int| 0 <= j < i ==> (#[trigger] quotas[j]).note is None
                },
            None => forall|j: int|
                0 <= j < quotas.len() ==> (#[trigger] quotas[j]).note is None,
        },
    decreases quotas.len(),
{
    if quotas.len() > 0 && quotas[0].note is None {
        let rest = quotas.drop_first();
        first_note_tells(rest);
        match accounts::first_note(quotas) {
            Some(level) => {
                let i = choose|i: int|
                    {
                        &&& 0 <= i < rest.len()
                        &&& (#[trigger] rest[i]).note matches Some(note) && note@ == level
                        &&& forall|j: int| 0 <= j < i ==> (#[trigger] rest[j]).note is None
                    };
                assert(quotas[i + 1] == rest[i]);
                assert forall|j: int| 0 <= j < i + 1 implies (#[trigger] quotas[j]).note is None by {
                    if j > 0 {
                        assert(quotas[j] == rest[j - 1]);
                    }
                }
            },
            None => {
                assert forall|j: int| 0 <= j < quotas.len() implies (
                #[trigger] quotas[j]).note is None by {
                    if j > 0 {
                        assert(quotas[j] == rest[j - 1]);
                    }
                }
            },
        }
    } else if quotas.len() > 0 {
        assert(quotas[0].note is Some);
    }
}

/// A row shows what the account says, and what the query for its quotas gave: the quotas and the
/// membership, or the error and neither.
pub proof fn rows_show_their_account(
    account: AccountView,
    quotas: Vec<Quota>,
    error: String,
    answer: Result<Vec<Quota>, String>,
)
    ensures
        ({
            let row = accounts::row_of(account, answer);
            &&& row.id == account.id
            &&& row.label == account.shown_label()
            &&& row.subscription_expires_on == account.expires_on()
            &&& row.routing_enabled == account.routing_enabled()
            &&& row.active == account.active
        }),
        ({
            let row = accounts::row_of(account, Ok(quotas));
            &&& row.quotas == accounts::quota_lines(quotas@)
            &&& row.error is None
            &&& accounts::first_note(quotas@) matches Some(level) ==> row.membership == Some(
                accounts::pretty_level(level),
            )
            &&& accounts::first_note(quotas@) is None ==> row.membership is None
        }),
        ({
            let row = accounts::row_of(account, Err(error));
            &&& row.quotas.len() == 0
            &&& row.error == Some(accounts::shortened(error@))
            &&& row.membership is None
        }),
{
}

/// A row says what it holds.
pub proof fn rows_say_what_they_hold(row: AccountRow, all: Seq<AccountRow>, i: int)
    ensures
        row@.id == row.id@,
        row@.label == row.label@,
        row@.routing_enabled == row.routing_enabled,
        row@.active == row.active,
        row@.subscription_expires_on == (match row.subscription_expires_on {
            Some(day) => Some(day@),
            None => None,
        }),
        row@.membership == (match row.membership {
            Some(level) => Some(level@),
            None => None,
        }),
        row@.error == (match row.error {
            Some(words) => Some(words@),
            None => None,
        }),
        row@.quotas == accounts::lines_view(row.quotas@),
        accounts::rows_view(all).len() == all.len(),
        0 <= i < all.len() ==> accounts::rows_view(all)[i] == all[i]@,
{
}

/// The quota of seven days is the first with that name.
pub proof fn first_weekly_quota_counts(quotas: Seq<QuotaLine>)
    ensures
        match accounts::weekly_of(quotas) {
            Some(line) => exists|i: int|
                {
                    &&& 0 <= i < quotas.len()
                    &&& #[trigger] quotas[i] == line
                    &&& line.window == "7天"@
                    &&& forall|j: int| 0 <= j < i ==> (#[trigger] quotas[j]).window != "7天"@
                },
            None => forall|j: int| 0 <= j < quotas.len() ==> (#[trigger] quotas[j]).window != "7天"@,
        },
    decreases quotas.len(),
{
    if quotas.len() > 0 && quotas[0].window != "7天"@ {
        let rest = quotas.drop_first();
        first_weekly_quota_counts(rest);
        match accounts::weekly_of(quotas) {
            Some(line) => {
                let i = choose|i: int|
                    {
                        &&& 0 <= i < rest.len()
                        &&& #[trigger] rest[i] == line
                        &&& line.window == "7天"@
                        &&& forall|j: int| 0 <= j < i ==> (#[trigger] rest[j]).window != "7天"@
                    };
                assert(quotas[i + 1] == line);
                assert forall|j: int| 0 <= j < i + 1 implies (#[trigger] quotas[j]).window
                    != "7天"@ by {
                    if j > 0 {
                        assert(quotas[j] == rest[j - 1]);
                    }
                }
            },
            None => {
                assert forall|j: int| 0 <= j < quotas.len() implies (#[trigger] quotas[j]).window
                    != "7天"@ by {
                    if j > 0 {
                        assert(quotas[j] == rest[j - 1]);
                    }
                }
            },
        }
    } else if quotas.len() > 0 {
        assert(quotas[0] == quotas[0]);
    }
}

/// Above all rows stands the name of the first active account, or that none is chosen.
pub proof fn first_active_row_is_named(rows: Seq<RowView>, i: int)
    ensures
        0 <= i < rows.len() && rows[i].active && (forall|j: int|
            0 <= j < i ==> !(#[trigger] rows[j]).active) ==> accounts::active_label(rows)
            == rows[i].label,
        (forall|j: int| 0 <= j < rows.len() ==> !(#[trigger] rows[j]).active)
            ==> accounts::active_label(rows) == "未选择"@,
    decreases rows.len(),
{
    if rows.len() > 0 {
        let rest = rows.drop_first();
        first_active_row_is_named(rest, i - 1);
        if 0 < i < rows.len() {
            assert(rest[i - 1] == rows[i]);
            if forall|j: int| 0 <= j < i ==> !(#[trigger] rows[j]).active {
                assert forall|j: int| 0 <= j < i - 1 implies !(#[trigger] rest[j]).active by {
                    assert(rest[j] == rows[j + 1]);
                }
                assert(!rows[0].active);
            }
        }
        if forall|j: int| 0 <= j < rows.len() ==> !(#[trigger] rows[j]).active {
            assert forall|j: int| 0 <= j < rest.len() implies !(#[trigger] rest[j]).active by {
                assert(rest[j] == rows[j + 1]);
            }
            assert(!rows[0].active);
        }
    }
}

/// The number behind a mark's colour starts at nothing, and each byte adds itself to 31 times what was
/// there, as far as a machine word holds; there are five colours.
pub proof fn marks_depend_on_every_byte(bytes: Seq<u8>, byte: u8)
    ensures
        accounts::avatar_hash(Seq::empty()) == 0,
        accounts::avatar_hash(bytes.push(byte)) == (accounts::avatar_hash(bytes) * 31 + byte) % (
        usize::MAX + 1),
        accounts::AVATAR_COLORS == 5,
{
    let whole = bytes.push(byte);
    assert(whole.drop_last() =~= bytes);
    assert(whole.last() == byte);
    let before = accounts::avatar_hash(bytes);
    let product = before.wrapping_mul(31);
    let size = usize::MAX + 1;
    assert(product as int == (before * 31) % size);
    assert((before * 31) % size + byte == (before * 31) % size + byte);
    vstd::arithmetic::div_mod::lemma_add_mod_noop(before * 31, byte as int, size);
    vstd::arithmetic::div_mod::lemma_add_mod_noop(product as int, byte as int, size);
    vstd::arithmetic::div_mod::lemma_small_mod(product as nat, size as nat);
}

// ---------------------------------------------------------------------------
// Other programs
// ---------------------------------------------------------------------------

/// What other programs are told of a quota is what is shown.
pub proof fn told_quota_is_the_shown_one(told: QuotaSnapshot, shown: QuotaLine)
    requires
        accounts::same_quota(told, shown),
    ensures
        told.window@ == shown.window,
        told.used_ratio == shown.ratio,
        told.text@ == shown.text,
        told.reset_at matches Some(at) ==> shown.reset == Some(at@),
        told.reset_at is None ==> shown.reset is None,
{
}

/// What other programs are told of an account is what is shown, all of it.
pub proof fn told_account_is_the_shown_one(told: AccountSnapshot, shown: RowView, i: int)
    requires
        accounts::same_account(told, shown),
    ensures
        told.id@ == shown.id,
        told.label@ == shown.label,
        told.active == shown.active,
        told.routing_enabled == shown.routing_enabled,
        told.membership matches Some(level) ==> shown.membership == Some(level@),
        told.membership is None ==> shown.membership is None,
        told.subscription_expires_on matches Some(day) ==> shown.subscription_expires_on == Some(
            day@,
        ),
        told.subscription_expires_on is None ==> shown.subscription_expires_on is None,
        told.error matches Some(words) ==> shown.error == Some(words@),
        told.error is None ==> shown.error is None,
        told.quotas@.len() == shown.quotas.len(),
        0 <= i < shown.quotas.len() ==> ({
            let quota = told.quotas@[i];
            &&& quota.window@ == shown.quotas[i].window
            &&& quota.used_ratio == shown.quotas[i].ratio
            &&& quota.text@ == shown.quotas[i].text
            &&& quota.reset_at matches Some(at) ==> shown.quotas[i].reset == Some(at@)
            &&& quota.reset_at is None ==> shown.quotas[i].reset is None
        }),
{
    if 0 <= i < shown.quotas.len() {
        told_quota_is_the_shown_one(told.quotas@[i], shown.quotas[i]);
    }
}

// ---------------------------------------------------------------------------
// The account service
// ---------------------------------------------------------------------------

/// A name in a profile is a text with something in it, without the white space around it; a field that
/// is missing, blank or no text names nobody.
pub proof fn names_in_profiles(
    profile: JsonView,
    key: Seq<char>,
    lead: Seq<char>,
    name: Seq<char>,
    trail: Seq<char>,
)
    requires
        text_laws::is_blank(lead),
        text_laws::is_blank(trail),
        name.len() > 0 ==> !text::is_white(name[0]) && !text::is_white(name.last()),
    ensures
        profile.field(key) == Some(JsonView::Text(lead + name + trail)) ==> kimi_user::name_in(
            profile,
            key,
        ) == (if name.len() > 0 {
            Some(name)
        } else {
            None
        }),
        !(profile.field(key) matches Some(value) && value is Text) ==> kimi_user::name_in(
            profile,
            key,
        ) is None,
{
    text_laws::trimming_takes_off_white_space(lead, name, trail);
}

/// An account is named by its nickname, else by its user name, else by its mail address, else not at
/// all; a text that is no profile names nobody.
pub proof fn profiles_name_their_account(body: Seq<char>, profile: JsonView)
    ensures
        kimi_user::name_in(profile, "nickname"@) is Some ==> kimi_user::label_in(profile)
            == kimi_user::name_in(profile, "nickname"@),
        kimi_user::name_in(profile, "nickname"@) is None && kimi_user::name_in(
            profile,
            "username"@,
        ) is Some ==> kimi_user::label_in(profile) == kimi_user::name_in(profile, "username"@),
        kimi_user::name_in(profile, "nickname"@) is None && kimi_user::name_in(
            profile,
            "username"@,
        ) is None ==> kimi_user::label_in(profile) == kimi_user::name_in(profile, "email"@),
        json::parsed_json(body) == Ok::<JsonView, Seq<char>>(profile) ==> kimi_user::label_in_body(
            body,
        ) == kimi_user::label_in(profile),
        json::parsed_json(body) is Err ==> kimi_user::label_in_body(body) is None,
{
}

/// An address loses the slashes at its end, however many, and nothing else.
pub proof fn slashes_are_taken_off(base: Seq<char>, slashes: Seq<char>)
    requires
        base.len() > 0 ==> base.last() != '/',
        forall|i: int| 0 <= i < slashes.len() ==> #[trigger] slashes[i] == '/',
    ensures
        kimi_user::without_slashes(base + slashes) == base,
    decreases slashes.len(),
{
    let whole = base + slashes;
    if slashes.len() == 0 {
        assert(whole =~= base);
    } else {
        assert(whole.last() == slashes[slashes.len() - 1]);
        assert(whole.drop_last() =~= base + slashes.drop_last());
        assert forall|i: int| 0 <= i < slashes.drop_last().len() implies #[trigger]
            slashes.drop_last()[i] == '/' by {
            assert(slashes.drop_last()[i] == slashes[i]);
        }
        slashes_are_taken_off(base, slashes.drop_last());
    }
}

/// An answer other than success is told with its status and its body; an error that begins as that of
/// status 401 does, and no other, is taken for a token that was not accepted.
pub proof fn refusals_are_told(status_text: Seq<char>, body: Seq<char>, error: Seq<char>)
    ensures
        kimi_user::http_error(status_text, body) == "kimi user info HTTP "@ + status_text + ": "@
            + body,
        kimi_user::tells_unauthorized(error) <==> exists|rest: Seq<char>|
            error == #[trigger] ("kimi user info HTTP 401 "@ + rest),
{
    text_laws::parts_are_found(error, "kimi user info HTTP 401 "@);
}

/// A name that may be missing says what is there.
pub proof fn missing_names_are_told(name: String)
    ensures
        kimi_user::label_view(Some(name)) == Some(name@),
        kimi_user::label_view(None) is None,
        accounts::option_text(Some(name)) == Some(name@),
        accounts::option_text(None) is None,
{
}

}
