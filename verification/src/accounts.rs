//! The accounts as the user sees and changes them.

use vstd::prelude::*;

use crate::clock;
use crate::clock::CalendarDate;
use crate::control::{AccountSnapshot, Action, QuotaSnapshot, Reply};
use crate::json;
use crate::json::{Json, JsonView};
use crate::text;

verus! {

// ---------------------------------------------------------------------------
// Accounts
// ---------------------------------------------------------------------------

/// An account that is saved.
pub struct Account {
    pub id: String,
    /// The name that the user gave it; the id where the user gave none.
    pub label: String,
    pub active: bool,
    /// Whether the account is kept out of routing for good.
    pub manual_only: bool,
    /// What else is noted of it.
    pub extra: Vec<(String, Json)>,
}

/// What an account says.
#[verifier::ext_equal]
pub struct AccountView {
    pub id: Seq<char>,
    pub label: Seq<char>,
    pub active: bool,
    pub manual_only: bool,
    pub extra: Map<Seq<char>, JsonView>,
}

impl Account {
    pub open spec fn view(&self) -> AccountView {
        AccountView {
            id: self.id@,
            label: self.label@,
            active: self.active,
            manual_only: self.manual_only,
            extra: json::fields_view(self.extra@),
        }
    }
}

/// What a note of an account says.
pub open spec fn note(extra: Map<Seq<char>, JsonView>, key: Seq<char>) -> Option<JsonView> {
    if extra.contains_key(key) {
        Some(extra[key])
    } else {
        None
    }
}

impl AccountView {
    /// The name that the account service told of the account.
    pub open spec fn nickname(self) -> Option<Seq<char>> {
        json::text_in(note(self.extra, "nickname"@))
    }

    /// The name by which the account is shown: the one that the user gave it, else its nickname,
    /// else its id.
    pub open spec fn shown_label(self) -> Seq<char> {
        if self.label != self.id {
            self.label
        } else {
            match self.nickname() {
                Some(name) => name,
                None => self.id,
            }
        }
    }

    /// Whether the account service is to be asked for a name.
    pub open spec fn wants_nickname(self) -> bool {
        self.label == self.id && self.nickname() is None
    }

    /// The day on which its subscription ends, as the user noted it.
    pub open spec fn expires_on(self) -> Option<Seq<char>> {
        json::text_in(note(self.extra, "subscription_expires_on"@))
    }

    /// Whether the account takes part in routing; it does unless the user said otherwise.
    pub open spec fn routing_enabled(self) -> bool {
        !self.manual_only && (match note(self.extra, "routing_enabled"@) {
            Some(JsonView::Bool(enabled)) => enabled,
            _ => true,
        })
    }

    /// The account with a note set.
    pub open spec fn with_note(self, key: Seq<char>, value: JsonView) -> AccountView {
        AccountView { extra: self.extra.insert(key, value), ..self }
    }

    /// The account without a note.
    pub open spec fn without_note(self, key: Seq<char>) -> AccountView {
        AccountView { extra: self.extra.remove(key), ..self }
    }
}

/// What accounts say, one by one.
pub open spec fn accounts_view(accounts: Seq<Account>) -> Seq<AccountView> {
    accounts.map_values(|account: Account| account@)
}

/// Those of the accounts that are active, or those that are not.
pub open spec fn only(accounts: Seq<AccountView>, active: bool) -> Seq<AccountView>
    decreases accounts.len(),
{
    if accounts.len() == 0 {
        Seq::empty()
    } else {
        let front = only(accounts.drop_last(), active);
        if accounts.last().active == active {
            front.push(accounts.last())
        } else {
            front
        }
    }
}

/// The accounts, the active before the others, and otherwise in their order.
pub fn order_accounts(accounts: Vec<Account>) -> (ordered: Vec<Account>)
    ensures
        accounts_view(ordered@) == only(accounts_view(accounts@), true) + only(
            accounts_view(accounts@),
            false,
        ),
{
    let ghost all = accounts_view(accounts@);
    let ghost given = accounts@;
    let mut rest: Vec<Account> = accounts;
    let mut active: Vec<Account> = Vec::new();
    let mut others: Vec<Account> = Vec::new();
    let ghost mut done: int = 0;
    proof {
        assert(rest@ =~= given.skip(0));
        assert(accounts_view(active@) =~= only(all.take(0), true));
        assert(accounts_view(others@) =~= only(all.take(0), false));
    }
    while rest.len() > 0
        invariant
            all == accounts_view(given),
            0 <= done <= given.len(),
            rest@ == given.skip(done),
            accounts_view(active@) == only(all.take(done), true),
            accounts_view(others@) == only(all.take(done), false),
        decreases rest@.len(),
    {
        let ghost active_before = active@;
        let ghost others_before = others@;
        let account = rest.remove(0);
        proof {
            assert(account == given[done]);
            assert(rest@ =~= given.skip(done + 1));
            assert(all.take(done + 1).drop_last() =~= all.take(done));
            assert(all.take(done + 1).last() == account@);
        }
        if account.active {
            active.push(account);
            proof {
                assert(accounts_view(active@) =~= accounts_view(active_before).push(account@));
            }
        } else {
            others.push(account);
            proof {
                assert(accounts_view(others@) =~= accounts_view(others_before).push(account@));
            }
        }
        proof {
            done = done + 1;
        }
    }
    proof {
        assert(all.take(all.len() as int) =~= all);
    }
    let ghost first = active@;
    let ghost second = others@;
    active.append(&mut others);
    proof {
        assert(active@ =~= first + second);
        assert(accounts_view(active@) =~= accounts_view(first) + accounts_view(second));
    }
    active
}

fn text_note(extra: &Vec<(String, Json)>, key: &str) -> (found: Option<String>)
    ensures
        found is Some == json::text_in(note(json::fields_view(extra@), key@)) is Some,
        found matches Some(s) ==> json::text_in(note(json::fields_view(extra@), key@)) == Some(s@),
{
    match json::get_field(extra, key) {
        Some(tree) => tree.as_text(),
        None => None,
    }
}

impl Account {
    /// The name by which the account is shown.
    pub fn shown_label(&self) -> (label: String)
        ensures
            label@ == self@.shown_label(),
    {
        if !text::same_text(self.label.as_str(), self.id.as_str()) {
            return self.label.clone();
        }
        match text_note(&self.extra, "nickname") {
            Some(name) => name,
            None => self.id.clone(),
        }
    }

    /// Whether the account service is to be asked for a name.
    pub fn wants_nickname(&self) -> (wants: bool)
        ensures
            wants == self@.wants_nickname(),
    {
        text::same_text(self.label.as_str(), self.id.as_str()) && text_note(
            &self.extra,
            "nickname",
        ).is_none()
    }

    /// Notes the name that the account service told.
    pub fn learn_nickname(&mut self, name: &str)
        ensures
            final(self)@ == old(self)@.with_note("nickname"@, JsonView::Text(name@)),
    {
        let ghost before = self@;
        json::put_field(&mut self.extra, "nickname", Json::text(name));
        proof {
            assert(self@ =~= before.with_note("nickname"@, JsonView::Text(name@)));
        }
    }

    /// The day on which its subscription ends, as the user noted it.
    pub fn expires_on(&self) -> (day: Option<String>)
        ensures
            day is Some == self@.expires_on() is Some,
            day matches Some(d) ==> self@.expires_on() == Some(d@),
    {
        text_note(&self.extra, "subscription_expires_on")
    }

    /// Whether the account takes part in routing.
    pub fn routing_enabled(&self) -> (enabled: bool)
        ensures
            enabled == self@.routing_enabled(),
    {
        if self.manual_only {
            return false;
        }
        match json::get_field(&self.extra, "routing_enabled") {
            Some(Json::Bool(enabled)) => *enabled,
            _ => true,
        }
    }
}

// ---------------------------------------------------------------------------
// Quotas
// ---------------------------------------------------------------------------

/// The stretch of time that a quota is for.
#[derive(Debug, Clone, Copy, PartialEq, Eq, Structural)]
pub enum QuotaWindow {
    FiveHour,
    SevenDay,
    Month,
    Other,
}

/// A quota as it was queried.
pub struct Quota {
    pub window: QuotaWindow,
    /// What is used and what there is, in digits.
    pub used: String,
    pub limit: String,
    /// The part that is used, and the same in percent without a fraction, where it is known.
    pub ratio: Option<(serde_json::Number, String)>,
    /// When it is reset, as day and time of day where the user is.
    pub reset: Option<String>,
    /// The level of the membership, where it is told.
    pub note: Option<String>,
}

/// A quota as it is shown.
pub struct QuotaView {
    pub window: String,
    pub ratio: Option<serde_json::Number>,
    pub text: String,
    pub reset: Option<String>,
}

/// What a quota that is shown says.
pub struct QuotaLine {
    pub window: Seq<char>,
    pub ratio: Option<serde_json::Number>,
    pub text: Seq<char>,
    pub reset: Option<Seq<char>>,
}

/// The characters of an optional text.
pub open spec fn option_text(string: Option<String>) -> Option<Seq<char>> {
    match string {
        Some(s) => Some(s@),
        None => None,
    }
}

impl QuotaView {
    pub open spec fn view(&self) -> QuotaLine {
        QuotaLine {
            window: self.window@,
            ratio: self.ratio,
            text: self.text@,
            reset: option_text(self.reset),
        }
    }
}

/// What quotas that are shown say, one by one.
pub open spec fn lines_view(quotas: Seq<QuotaView>) -> Seq<QuotaLine> {
    quotas.map_values(|quota: QuotaView| quota@)
}

/// The name of a window.
pub open spec fn window_name(window: QuotaWindow) -> Seq<char> {
    match window {
        QuotaWindow::FiveHour => "5小时"@,
        QuotaWindow::SevenDay => "7天"@,
        _ => "其他"@,
    }
}

/// A quota as it is shown.
pub open spec fn quota_line(quota: Quota) -> QuotaLine {
    let amounts = quota.used@ + "/"@ + quota.limit@;
    QuotaLine {
        window: window_name(quota.window),
        ratio: match quota.ratio {
            Some((number, _)) => Some(number),
            None => None,
        },
        text: match quota.ratio {
            Some((_, percent)) => percent@ + "% ("@ + amounts + ")"@,
            None => amounts,
        },
        reset: match quota.reset {
            Some(at) => Some("重置 "@ + at@),
            None => None,
        },
    }
}

/// Quotas as they are shown, but for those of a month.
pub open spec fn quota_lines(quotas: Seq<Quota>) -> Seq<QuotaLine>
    decreases quotas.len(),
{
    if quotas.len() == 0 {
        Seq::empty()
    } else {
        let front = quota_lines(quotas.drop_last());
        if quotas.last().window == QuotaWindow::Month {
            front
        } else {
            front.push(quota_line(quotas.last()))
        }
    }
}

fn show_quota(quota: &Quota) -> (shown: QuotaView)
    ensures
        shown@ == quota_line(*quota),
{
    let window = match quota.window {
        QuotaWindow::FiveHour => "5小时".to_owned(),
        QuotaWindow::SevenDay => "7天".to_owned(),
        _ => "其他".to_owned(),
    };
    let amounts = text::join3(quota.used.as_str(), "/", quota.limit.as_str());
    let (ratio, text) = match &quota.ratio {
        Some((number, percent)) => {
            let mut text = text::join3(percent.as_str(), "% (", amounts.as_str());
            text.append(")");
            (Some(number.clone()), text)
        },
        None => (None, amounts),
    };
    let reset = match &quota.reset {
        Some(at) => Some(text::join("重置 ", at.as_str())),
        None => None,
    };
    QuotaView { window, ratio, text, reset }
}

/// Quotas as they are shown, but for those of a month.
pub fn quota_views(quotas: &Vec<Quota>) -> (shown: Vec<QuotaView>)
    ensures
        lines_view(shown@) == quota_lines(quotas@),
{
    let mut shown: Vec<QuotaView> = Vec::new();
    let mut at: usize = 0;
    proof {
        assert(lines_view(shown@) =~= quota_lines(quotas@.take(0)));
    }
    while at < quotas.len()
        invariant
            at <= quotas@.len(),
            lines_view(shown@) == quota_lines(quotas@.take(at as int)),
        decreases quotas@.len() - at,
    {
        let ghost before = shown@;
        proof {
            assert(quotas@.take(at + 1).drop_last() =~= quotas@.take(at as int));
        }
        if quotas[at].window != QuotaWindow::Month {
            let line = show_quota(&quotas[at]);
            shown.push(line);
            proof {
                assert(lines_view(shown@) =~= lines_view(before).push(line@));
            }
        }
        at += 1;
    }
    proof {
        assert(quotas@.take(quotas@.len() as int) =~= quotas@);
    }
    shown
}

// ---------------------------------------------------------------------------
// Membership and errors
// ---------------------------------------------------------------------------

/// What the standard library gives for a character in upper case.
pub uninterp spec fn upper_case(c: char) -> Seq<char>;

/// What the standard library gives for a text in lower case.
pub uninterp spec fn lower_case(string: Seq<char>) -> Seq<char>;

/// Calls `char::to_uppercase` of the standard library and puts its characters in a text. A letter
/// of ASCII becomes the capital letter, and any other character of ASCII stays.
#[verifier::external_body]
fn char_to_upper(c: char) -> (upper: String)
    ensures
        upper@ == upper_case(c),
        c <= '\u{7f}' ==> upper@ == seq![upper_ascii(c)],
{
    c.to_uppercase().to_string()
}

/// Calls `str::to_lowercase` of the standard library. In a text of ASCII alone, capital letters
/// become small ones and all else stays.
#[verifier::external_body]
fn text_to_lower(string: &str) -> (lower: String)
    ensures
        lower@ == lower_case(string@),
        is_ascii(string@) ==> lower@ == text::lowered_ascii(string@),
{
    string.to_lowercase()
}

/// The upper-case form of an ASCII letter; every other character unchanged.
pub open spec fn upper_ascii(c: char) -> char {
    if 'a' <= c <= 'z' {
        (c as u32 - 32) as char
    } else {
        c
    }
}

/// Whether a text is made of ASCII characters alone.
pub open spec fn is_ascii(string: Seq<char>) -> bool {
    forall|i: int| 0 <= i < string.len() ==> #[trigger] string[i] <= '\u{7f}'
}

/// The name of a membership without the word that it may begin with.
pub open spec fn bare_level(level: Seq<char>) -> Seq<char> {
    let prefix = "LEVEL_"@;
    if text::begins_with(level, prefix) {
        level.skip(prefix.len() as int)
    } else {
        level
    }
}

/// The name of a membership as it is shown: `LEVEL_INTERMEDIATE` as `Intermediate`.
pub open spec fn pretty_level(level: Seq<char>) -> Seq<char> {
    let bare = bare_level(level);
    if bare.len() == 0 {
        bare
    } else {
        upper_case(bare[0]) + lower_case(bare.skip(1))
    }
}

/// The name of a membership of ASCII letters as it is shown.
pub open spec fn pretty_ascii_level(level: Seq<char>) -> Seq<char> {
    let bare = bare_level(level);
    if bare.len() == 0 {
        bare
    } else {
        seq![upper_ascii(bare[0])] + text::lowered_ascii(bare.skip(1))
    }
}

/// The name of a membership as it is shown. In a name of ASCII alone, the first letter is a capital
/// and the others are not.
pub fn prettify_membership(level: &str) -> (pretty: String)
    ensures
        pretty@ == pretty_level(level@),
        is_ascii(level@) ==> pretty@ == pretty_ascii_level(level@),
{
    let bare = match text::strip_prefix(level, "LEVEL_") {
        Some(rest) => rest,
        None => level.to_owned(),
    };
    let length = bare.as_str().unicode_len();
    if length == 0 {
        proof {
            assert(bare@ =~= bare_level(level@));
        }
        return bare;
    }
    let first = bare.as_str().get_char(0);
    let rest = bare.as_str().substring_char(1, length);
    proof {
        assert(bare@ == bare_level(level@));
        assert(rest@ =~= bare@.skip(1));
        if is_ascii(level@) {
            let skipped = level@.len() - bare@.len();
            assert forall|i: int| 0 <= i < bare@.len() implies #[trigger] bare@[i] <= '\u{7f}' by {
                assert(level@[skipped + i] <= '\u{7f}');
            }
            assert(bare@[0] <= '\u{7f}');
            assert forall|i: int| 0 <= i < rest@.len() implies #[trigger] rest@[i] <= '\u{7f}' by {
                assert(bare@[i + 1] <= '\u{7f}');
            }
        }
    }
    let upper = char_to_upper(first);
    let lower = text_to_lower(rest);
    text::join(upper.as_str(), lower.as_str())
}

/// A text on one line.
pub open spec fn one_line(string: Seq<char>) -> Seq<char> {
    Seq::new(
        string.len(),
        |i: int|
            if string[i] == '\n' || string[i] == '\r' {
                ' '
            } else {
                string[i]
            },
    )
}

/// A text on one line, cut short where it has more than eighty characters.
pub open spec fn shortened(string: Seq<char>) -> Seq<char> {
    let line = one_line(string);
    if line.len() > 80 {
        line.take(80).push('…')
    } else {
        line
    }
}

/// The words of an error on one line, cut short where they are long.
pub fn compact_error(error: &str) -> (short: String)
    ensures
        short@ == shortened(error@),
{
    let chars = text::chars_of(error);
    let mut short = String::new();
    let mut at: usize = 0;
    let ghost line = one_line(error@);
    while at < chars.len() && at < 80
        invariant
            chars@ == error@,
            line == one_line(error@),
            at <= chars@.len(),
            at <= 80,
            short@ == line.take(at as int),
        decreases chars@.len() - at,
    {
        let c = chars[at];
        if c == '\n' || c == '\r' {
            short.push(' ');
        } else {
            short.push(c);
        }
        proof {
            assert(line.take(at + 1) =~= line.take(at as int).push(line[at as int]));
        }
        at += 1;
    }
    if chars.len() > 80 {
        short.push('…');
    } else {
        proof {
            assert(line.take(line.len() as int) =~= line);
        }
    }
    short
}

// ---------------------------------------------------------------------------
// Rows
// ---------------------------------------------------------------------------

/// An account as it is shown.
pub struct AccountRow {
    pub id: String,
    pub label: String,
    pub subscription_expires_on: Option<String>,
    pub routing_enabled: bool,
    pub active: bool,
    pub membership: Option<String>,
    pub quotas: Vec<QuotaView>,
    pub error: Option<String>,
}

/// What a row says.
#[verifier::ext_equal]
pub struct RowView {
    pub id: Seq<char>,
    pub label: Seq<char>,
    pub subscription_expires_on: Option<Seq<char>>,
    pub routing_enabled: bool,
    pub active: bool,
    pub membership: Option<Seq<char>>,
    pub quotas: Seq<QuotaLine>,
    pub error: Option<Seq<char>>,
}

impl AccountRow {
    pub open spec fn view(&self) -> RowView {
        RowView {
            id: self.id@,
            label: self.label@,
            subscription_expires_on: option_text(self.subscription_expires_on),
            routing_enabled: self.routing_enabled,
            active: self.active,
            membership: option_text(self.membership),
            quotas: lines_view(self.quotas@),
            error: option_text(self.error),
        }
    }
}

/// What rows say, one by one.
pub open spec fn rows_view(rows: Seq<AccountRow>) -> Seq<RowView> {
    rows.map_values(|row: AccountRow| row@)
}

/// The first note among quotas.
pub open spec fn first_note(quotas: Seq<Quota>) -> Option<Seq<char>>
    decreases quotas.len(),
{
    if quotas.len() == 0 {
        None
    } else {
        match quotas[0].note {
            Some(note) => Some(note@),
            None => first_note(quotas.drop_first()),
        }
    }
}

fn find_note(quotas: &Vec<Quota>) -> (found: Option<String>)
    ensures
        option_text(found) == first_note(quotas@),
{
    let mut at: usize = 0;
    proof {
        assert(quotas@.skip(0) =~= quotas@);
    }
    while at < quotas.len()
        invariant
            at <= quotas@.len(),
            first_note(quotas@) == first_note(quotas@.skip(at as int)),
        decreases quotas@.len() - at,
    {
        proof {
            assert(quotas@.skip(at as int)[0] == quotas@[at as int]);
            assert(quotas@.skip(at as int).drop_first() =~= quotas@.skip(at + 1));
        }
        match &quotas[at].note {
            Some(note) => {
                return Some(note.clone());
            },
            None => {},
        }
        at += 1;
    }
    None
}

/// An account as it is shown, with what the query for its quotas gave. A query that failed shows in
/// the row of its account and nowhere else.
pub open spec fn row_of(account: AccountView, quotas: Result<Vec<Quota>, String>) -> RowView {
    RowView {
        id: account.id,
        label: account.shown_label(),
        subscription_expires_on: account.expires_on(),
        routing_enabled: account.routing_enabled(),
        active: account.active,
        membership: match quotas {
            Ok(quotas) => match first_note(quotas@) {
                Some(level) => Some(pretty_level(level)),
                None => None,
            },
            Err(_) => None,
        },
        quotas: match quotas {
            Ok(quotas) => quota_lines(quotas@),
            Err(_) => Seq::empty(),
        },
        error: match quotas {
            Ok(_) => None,
            Err(error) => Some(shortened(error@)),
        },
    }
}

/// An account as it is shown, with what the query for its quotas gave.
pub fn account_row(account: &Account, quotas: Result<Vec<Quota>, String>) -> (row: AccountRow)
    ensures
        row@ == row_of(account@, quotas),
{
    let (membership, shown, error) = match &quotas {
        Ok(quotas) => {
            let membership = match find_note(quotas) {
                Some(level) => Some(prettify_membership(level.as_str())),
                None => None,
            };
            (membership, quota_views(quotas), None)
        },
        Err(error) => {
            let none: Vec<QuotaView> = Vec::new();
            proof {
                assert(lines_view(none@) =~= Seq::empty());
            }
            (None, none, Some(compact_error(error.as_str())))
        },
    };
    AccountRow {
        id: account.id.clone(),
        label: account.shown_label(),
        subscription_expires_on: account.expires_on(),
        routing_enabled: account.routing_enabled(),
        active: account.active,
        membership,
        quotas: shown,
        error,
    }
}

/// The quota of seven days in a row.
pub open spec fn weekly_of(quotas: Seq<QuotaLine>) -> Option<QuotaLine>
    decreases quotas.len(),
{
    if quotas.len() == 0 {
        None
    } else if quotas[0].window == "7天"@ {
        Some(quotas[0])
    } else {
        weekly_of(quotas.drop_first())
    }
}

impl AccountRow {
    /// The part that is used of the quota of seven days, where it is known.
    pub fn weekly_ratio(&self) -> (ratio: Option<serde_json::Number>)
        ensures
            ratio == (match weekly_of(self@.quotas) {
                Some(line) => line.ratio,
                None => None,
            }),
    {
        let ghost lines = lines_view(self.quotas@);
        let mut at: usize = 0;
        proof {
            assert(lines.skip(0) =~= lines);
        }
        while at < self.quotas.len()
            invariant
                at <= self.quotas@.len(),
                lines == lines_view(self.quotas@),
                weekly_of(lines) == weekly_of(lines.skip(at as int)),
            decreases self.quotas@.len() - at,
        {
            proof {
                assert(lines.skip(at as int)[0] == self.quotas@[at as int]@);
                assert(lines.skip(at as int).drop_first() =~= lines.skip(at + 1));
            }
            if text::same_text(self.quotas[at].window.as_str(), "7天") {
                return match &self.quotas[at].ratio {
                    Some(number) => Some(number.clone()),
                    None => None,
                };
            }
            at += 1;
        }
        None
    }
}

/// The name of the first active account among rows.
pub open spec fn active_label(rows: Seq<RowView>) -> Seq<char>
    decreases rows.len(),
{
    if rows.len() == 0 {
        "未选择"@
    } else if rows[0].active {
        rows[0].label
    } else {
        active_label(rows.drop_first())
    }
}

/// The name of the active account, and how many accounts there are, as they are shown above all
/// rows.
pub fn summary_labels(rows: &Vec<AccountRow>) -> (labels: (String, String))
    ensures
        labels.0@ == active_label(rows_view(rows@)),
        labels.1@ == text::decimal(rows@.len()) + " 个已保存账号"@,
{
    let ghost all = rows_view(rows@);
    let mut active = "未选择".to_owned();
    let mut at: usize = 0;
    let mut found = false;
    proof {
        assert(all.skip(0) =~= all);
    }
    while at < rows.len() && !found
        invariant
            at <= rows@.len(),
            all == rows_view(rows@),
            found ==> active@ == active_label(all),
            !found ==> active@ == "未选择"@ && active_label(all) == active_label(
                all.skip(at as int),
            ),
        decreases rows@.len() - at,
    {
        proof {
            assert(all.skip(at as int)[0] == rows@[at as int]@);
            assert(all.skip(at as int).drop_first() =~= all.skip(at + 1));
        }
        if rows[at].active {
            active = rows[at].label.clone();
            found = true;
        }
        at += 1;
    }
    let number = text::decimal_text(rows.len() as u64);
    (active, text::join(number.as_str(), " 个已保存账号"))
}

/// How many colours there are for the mark of an account.
pub const AVATAR_COLORS: usize = 5;

/// A number that depends on the bytes of an id.
pub open spec fn avatar_hash(bytes: Seq<u8>) -> usize
    decreases bytes.len(),
{
    if bytes.len() == 0 {
        0
    } else {
        avatar_hash(bytes.drop_last()).wrapping_mul(31).wrapping_add(bytes.last() as usize)
    }
}

/// The colour of the mark of an account, and the letter on it.
pub fn avatar(row: &AccountRow) -> (mark: (usize, char))
    ensures
        mark.0 == avatar_hash(vstd::utf8::encode_utf8(row.id@)) % AVATAR_COLORS,
        mark.0 < AVATAR_COLORS,
        mark.1 == if row.label@.len() > 0 {
            row.label@[0]
        } else {
            '?'
        },
{
    let bytes = row.id.as_str().as_bytes();
    let mut hash: usize = 0;
    let mut at: usize = 0;
    while at < bytes.len()
        invariant
            at <= bytes@.len(),
            hash == avatar_hash(bytes@.take(at as int)),
        decreases bytes@.len() - at,
    {
        proof {
            assert(bytes@.take(at + 1).drop_last() =~= bytes@.take(at as int));
        }
        hash = hash.wrapping_mul(31).wrapping_add(bytes[at] as usize);
        at += 1;
    }
    proof {
        assert(bytes@.take(bytes@.len() as int) =~= bytes@);
    }
    let initial = if row.label.as_str().unicode_len() > 0 {
        row.label.as_str().get_char(0)
    } else {
        '?'
    };
    (hash % AVATAR_COLORS, initial)
}

// ---------------------------------------------------------------------------
// Changes
// ---------------------------------------------------------------------------

/// What is told where a day is not given as it should be.
pub open spec fn bad_date() -> Seq<char> {
    "日期格式无效，请使用 YYYY-MM-DD，例如 2026-09-30"@
}

/// The day that a text gives, written in one way; no day where it is blank, and nothing where it is
/// something else.
pub open spec fn expiry_in(value: Seq<char>) -> Option<Option<Seq<char>>> {
    let short = text::trimmed(value);
    if short.len() == 0 {
        Some(None)
    } else {
        match clock::parsed_date(short) {
            Some(date) => Some(
                Some(clock::date_text(date.year as int, date.month as int, date.day as int)),
            ),
            None => None,
        }
    }
}

/// The day that a text gives, written in one way; no day where it is blank. A day as it is written
/// here is taken as it is.
pub fn normalize_subscription_expiry(value: &str) -> (expiry: Result<Option<String>, String>)
    ensures
        match expiry {
            Ok(day) => expiry_in(value@) == Some(option_text(day)),
            Err(words) => expiry_in(value@) is None && words@ == bad_date(),
        },
        expiry matches Ok(Some(day)) ==> clock::parsed_date(day@) == clock::parsed_date(
            text::trimmed(value@),
        ),
        forall|year: i32, month: u32, day: u32|
            0 <= year <= 9999 && month <= 99 && day <= 99 && text::trimmed(value@)
                == #[trigger] clock::date_text(year as int, month as int, day as int)
                ==> if clock::real_date(year as int, month as int, day as int) {
                expiry matches Ok(Some(d)) && d@ == text::trimmed(value@)
            } else {
                expiry is Err
            },
{
    let short = text::trim(value);
    if short.as_str().is_empty() {
        proof {
            assert forall|year: i32, month: u32, day: u32|
                text::trimmed(value@) == #[trigger] clock::date_text(
                    year as int,
                    month as int,
                    day as int,
                ) implies false by {
                assert(clock::date_text(year as int, month as int, day as int).len() >= 1);
            }
        }
        return Ok(None);
    }
    match CalendarDate::parse(short.as_str()) {
        Some(date) => Ok(Some(date.to_text())),
        None => Err("日期格式无效，请使用 YYYY-MM-DD，例如 2026-09-30".to_owned()),
    }
}

/// What comes of a change that the user asked for.
pub enum Change {
    /// Nothing is to be stored; this is told.
    Keep { message: String },
    /// The account is to be stored as it is here; this is then told.
    Store { account: Account, message: String },
}

/// What a change says.
pub enum ChangeView {
    Keep { message: Seq<char> },
    Store { account: AccountView, message: Seq<char> },
}

impl Change {
    pub open spec fn view(&self) -> ChangeView {
        match self {
            Change::Keep { message } => ChangeView::Keep { message: message@ },
            Change::Store { account, message } => ChangeView::Store {
                account: account@,
                message: message@,
            },
        }
    }
}

/// What a result of a change says.
pub open spec fn change_view(change: Result<Change, String>) -> Result<ChangeView, Seq<char>> {
    match change {
        Ok(change) => Ok(change@),
        Err(words) => Err(words@),
    }
}

/// What is told of an account that is not there.
pub open spec fn missing_account(id: Seq<char>) -> Seq<char> {
    "账号 "@ + id + " 不存在"@
}

fn missing_message(id: &str) -> (message: String)
    ensures
        message@ == missing_account(id@),
{
    text::join3("账号 ", id, " 不存在")
}

/// What an optional account says.
pub open spec fn found_view(found: Option<Account>) -> Option<AccountView> {
    match found {
        Some(account) => Some(account@),
        None => None,
    }
}

/// The user gives an account a name. A blank name, or the one that it has, changes nothing.
pub open spec fn renamed(found: Option<AccountView>, id: Seq<char>, label: Seq<char>) -> Result<
    ChangeView,
    Seq<char>,
> {
    let name = text::trimmed(label);
    match found {
        None => Err(missing_account(id)),
        Some(account) => if name.len() == 0 || name == account.label {
            Ok(ChangeView::Keep { message: "别名未变化"@ })
        } else {
            Ok(
                ChangeView::Store {
                    account: AccountView { label: name, ..account },
                    message: "已把 "@ + id + " 重命名为「"@ + name + "」"@,
                },
            )
        },
    }
}

/// The user gives an account a name.
pub fn rename(found: Option<Account>, id: &str, label: &str) -> (change: Result<Change, String>)
    ensures
        change_view(change) == renamed(found_view(found), id@, label@),
{
    let account = match found {
        Some(account) => account,
        None => {
            return Err(missing_message(id));
        },
    };
    let name = text::trim(label);
    if name.as_str().is_empty() || text::same_text(name.as_str(), account.label.as_str()) {
        return Ok(Change::Keep { message: "别名未变化".to_owned() });
    }
    let mut message = text::join3("已把 ", id, " 重命名为「");
    message.append(name.as_str());
    message.append("」");
    let ghost before = account@;
    let mut account = account;
    account.label = name;
    proof {
        assert(account@ =~= (AccountView { label: name@, ..before }));
    }
    Ok(Change::Store { account, message })
}

/// The user notes the day on which the subscription of an account ends, or takes the note away.
pub open spec fn with_expiry(
    found: Option<AccountView>,
    id: Seq<char>,
    expires_on: Seq<char>,
) -> Result<ChangeView, Seq<char>> {
    match found {
        None => Err(missing_account(id)),
        Some(account) => match expiry_in(expires_on) {
            None => Err(bad_date()),
            Some(Some(day)) => Ok(
                ChangeView::Store {
                    account: account.with_note("subscription_expires_on"@, JsonView::Text(day)),
                    message: "已记录 "@ + id + " 的订阅到期日："@ + day,
                },
            ),
            Some(None) => Ok(
                ChangeView::Store {
                    account: account.without_note("subscription_expires_on"@),
                    message: "已清除 "@ + id + " 的订阅到期日"@,
                },
            ),
        },
    }
}

/// Takes a note of an account away.
fn drop_note(extra: Vec<(String, Json)>, key: &str) -> (left: Vec<(String, Json)>)
    ensures
        json::fields_view(left@) == json::fields_view(extra@).remove(key@),
{
    let ghost given = extra@;
    let mut rest: Vec<(String, Json)> = extra;
    let mut left: Vec<(String, Json)> = Vec::new();
    let ghost mut done: int = 0;
    proof {
        assert(rest@ =~= given.skip(0));
        assert(json::fields_view(left@) =~= json::fields_view(given.take(0)).remove(key@));
    }
    while rest.len() > 0
        invariant
            0 <= done <= given.len(),
            rest@ == given.skip(done),
            json::fields_view(left@) == json::fields_view(given.take(done)).remove(key@),
        decreases rest@.len(),
    {
        let ghost before = left@;
        let field = rest.remove(0);
        proof {
            assert(field == given[done]);
            assert(rest@ =~= given.skip(done + 1));
            assert(given.take(done + 1).drop_last() =~= given.take(done));
            assert(given.take(done + 1).last() == field);
        }
        if !text::same_text(field.0.as_str(), key) {
            left.push(field);
            proof {
                assert(left@.drop_last() =~= before);
            }
        }
        proof {
            assert(json::fields_view(left@) =~= json::fields_view(given.take(done + 1)).remove(
                key@,
            ));
            done = done + 1;
        }
    }
    proof {
        assert(given.take(given.len() as int) =~= given);
    }
    left
}

/// The user notes the day on which the subscription of an account ends, or takes the note away.
pub fn set_subscription_expiry(found: Option<Account>, id: &str, expires_on: &str) -> (change: Result<
    Change,
    String,
>)
    ensures
        change_view(change) == with_expiry(found_view(found), id@, expires_on@),
{
    let account = match found {
        Some(account) => account,
        None => {
            return Err(missing_message(id));
        },
    };
    let ghost before = account@;
    let mut account = account;
    match normalize_subscription_expiry(expires_on) {
        Err(words) => Err(words),
        Ok(Some(day)) => {
            let mut message = text::join3("已记录 ", id, " 的订阅到期日：");
            message.append(day.as_str());
            json::put_field(
                &mut account.extra,
                "subscription_expires_on",
                Json::text(day.as_str()),
            );
            proof {
                assert(account@ =~= before.with_note(
                    "subscription_expires_on"@,
                    JsonView::Text(day@),
                ));
            }
            Ok(Change::Store { account, message })
        },
        Ok(None) => {
            let message = text::join3("已清除 ", id, " 的订阅到期日");
            let Account { id: name, label, active, manual_only, extra } = account;
            let extra = drop_note(extra, "subscription_expires_on");
            let account = Account { id: name, label, active, manual_only, extra };
            proof {
                assert(account@ =~= before.without_note("subscription_expires_on"@));
            }
            Ok(Change::Store { account, message })
        },
    }
}

/// The user lets an account take part in routing, or not.
pub open spec fn with_routing(
    found: Option<AccountView>,
    id: Seq<char>,
    enabled: bool,
) -> Result<ChangeView, Seq<char>> {
    match found {
        None => Err(missing_account(id)),
        Some(account) => Ok(
            ChangeView::Store {
                account: account.with_note("routing_enabled"@, JsonView::Bool(enabled)),
                message: id + (if enabled {
                    " 已加入自动路由"@
                } else {
                    " 已暂停自动路由"@
                }),
            },
        ),
    }
}

/// The user lets an account take part in routing, or not.
pub fn set_routing_enabled(found: Option<Account>, id: &str, enabled: bool) -> (change: Result<
    Change,
    String,
>)
    ensures
        change_view(change) == with_routing(found_view(found), id@, enabled),
{
    let account = match found {
        Some(account) => account,
        None => {
            return Err(missing_message(id));
        },
    };
    let ghost before = account@;
    let mut account = account;
    json::put_field(&mut account.extra, "routing_enabled", Json::Bool(enabled));
    proof {
        assert(account@ =~= before.with_note("routing_enabled"@, JsonView::Bool(enabled)));
    }
    let message = if enabled {
        text::join(id, " 已加入自动路由")
    } else {
        text::join(id, " 已暂停自动路由")
    };
    Ok(Change::Store { account, message })
}

// ---------------------------------------------------------------------------
// Import and removal
// ---------------------------------------------------------------------------

/// Whether the account that is logged in on this machine is taken over, given its id, if there is
/// one, and whether the user has removed it: an account that was removed does not come back by
/// itself.
pub fn after_live_account(live: &Option<String>, removed: bool) -> (sync: bool)
    ensures
        sync == (live is Some && !removed),
{
    live.is_some() && !removed
}

/// The steps by which an account is removed, in their order.
#[derive(Debug, Clone, Copy, PartialEq, Eq, Structural)]
pub enum RemovalStep {
    /// Take it out of the registry.
    Unregister,
    /// Note that it was removed, so that it is not imported again by itself.
    MarkRemoved,
    /// Delete its credentials.
    DeleteCredentials,
    /// Forget its quotas.
    ForgetQuota,
    /// Note the removal in the audit log.
    Audit,
}

/// How a removal goes on after a step.
pub enum RemovalNext {
    /// With another step.
    Perform(RemovalStep),
    /// Not at all: it failed, with these words.
    Stop(String),
    /// It is done.
    Done,
}

/// Whether a removal stops where a step fails. Credentials that cannot be deleted do not keep an
/// account from being removed.
pub open spec fn stops_removal(step: RemovalStep) -> bool {
    step == RemovalStep::Unregister || step == RemovalStep::MarkRemoved
}

/// The step after another.
pub open spec fn following(step: RemovalStep) -> Option<RemovalStep> {
    match step {
        RemovalStep::Unregister => Some(RemovalStep::MarkRemoved),
        RemovalStep::MarkRemoved => Some(RemovalStep::DeleteCredentials),
        RemovalStep::DeleteCredentials => Some(RemovalStep::ForgetQuota),
        RemovalStep::ForgetQuota => Some(RemovalStep::Audit),
        RemovalStep::Audit => None,
    }
}

/// How a removal goes on after a step, which may have failed.
pub fn after_removal_step(step: RemovalStep, failed: Option<String>) -> (next: RemovalNext)
    ensures
        next == (match (failed, following(step)) {
            (Some(words), _) if stops_removal(step) => RemovalNext::Stop(words),
            (_, Some(other)) => RemovalNext::Perform(other),
            (_, None) => RemovalNext::Done,
        }),
{
    match step {
        RemovalStep::Unregister => match failed {
            Some(words) => RemovalNext::Stop(words),
            None => RemovalNext::Perform(RemovalStep::MarkRemoved),
        },
        RemovalStep::MarkRemoved => match failed {
            Some(words) => RemovalNext::Stop(words),
            None => RemovalNext::Perform(RemovalStep::DeleteCredentials),
        },
        RemovalStep::DeleteCredentials => RemovalNext::Perform(RemovalStep::ForgetQuota),
        RemovalStep::ForgetQuota => RemovalNext::Perform(RemovalStep::Audit),
        RemovalStep::Audit => RemovalNext::Done,
    }
}

// ---------------------------------------------------------------------------
// The application behind the control interface
// ---------------------------------------------------------------------------

/// A quota as it is told to other programs.
pub open spec fn same_quota(told: QuotaSnapshot, shown: QuotaLine) -> bool {
    &&& told.window@ == shown.window
    &&& told.used_ratio == shown.ratio
    &&& told.text@ == shown.text
    &&& option_text(told.reset_at) == shown.reset
}

/// Whether an account is told to other programs as it is shown to the user.
pub open spec fn same_account(told: AccountSnapshot, shown: RowView) -> bool {
    &&& told.id@ == shown.id
    &&& told.label@ == shown.label
    &&& told.active == shown.active
    &&& option_text(told.membership) == shown.membership
    &&& option_text(told.subscription_expires_on) == shown.subscription_expires_on
    &&& told.routing_enabled == shown.routing_enabled
    &&& option_text(told.error) == shown.error
    &&& told.quotas@.len() == shown.quotas.len()
    &&& forall|i: int|
        0 <= i < shown.quotas.len() ==> same_quota(#[trigger] told.quotas@[i], shown.quotas[i])
}

fn copy_text(string: &Option<String>) -> (copy: Option<String>)
    ensures
        option_text(copy) == option_text(*string),
{
    match string {
        Some(s) => Some(s.clone()),
        None => None,
    }
}

/// An account as it is told to other programs.
pub fn control_snapshot(row: &AccountRow) -> (told: AccountSnapshot)
    ensures
        same_account(told, row@),
{
    let mut quotas: Vec<QuotaSnapshot> = Vec::new();
    let mut at: usize = 0;
    while at < row.quotas.len()
        invariant
            at <= row.quotas@.len(),
            quotas@.len() == at,
            forall|i: int|
                0 <= i < at ==> same_quota(#[trigger] quotas@[i], lines_view(row.quotas@)[i]),
        decreases row.quotas@.len() - at,
    {
        let quota = &row.quotas[at];
        quotas.push(
            QuotaSnapshot {
                window: quota.window.clone(),
                used_ratio: match &quota.ratio {
                    Some(number) => Some(number.clone()),
                    None => None,
                },
                text: quota.text.clone(),
                reset_at: copy_text(&quota.reset),
            },
        );
        at += 1;
    }
    AccountSnapshot {
        id: row.id.clone(),
        label: row.label.clone(),
        active: row.active,
        membership: copy_text(&row.membership),
        subscription_expires_on: copy_text(&row.subscription_expires_on),
        routing_enabled: row.routing_enabled,
        quotas,
        error: copy_text(&row.error),
    }
}

/// How a message is meant.
#[derive(Debug, Clone, Copy, PartialEq, Eq, Structural)]
pub enum Tone {
    Info,
    Good,
    Bad,
}

/// The next step for an action of another program.
pub enum ControlStep {
    /// Switch to an account, and go on with what comes of it.
    Swap(String),
    /// Load the rows, answer with them and the message, and show them to the user too where that is
    /// said.
    Load { message: Option<(String, Tone)>, refresh_ui: bool },
    /// Answer with an error.
    Refuse(String),
}

/// What an action of another program asks to be done.
pub fn handle_control_request(action: Action) -> (step: ControlStep)
    ensures
        match action {
            Action::List => step == (ControlStep::Load { message: None, refresh_ui: false }),
            Action::Refresh => step matches ControlStep::Load { message, refresh_ui } && message
                matches Some((words, tone)) && words@ == "已通过本地 API 刷新额度"@ && tone == Tone::Good
                && refresh_ui,
            Action::Activate(id) => step == ControlStep::Swap(id),
        },
{
    match action {
        Action::List => ControlStep::Load { message: None, refresh_ui: false },
        Action::Refresh => {
            let words = "已通过本地 API 刷新额度".to_owned();
            ControlStep::Load { message: Some((words, Tone::Good)), refresh_ui: true }
        },
        Action::Activate(id) => ControlStep::Swap(id),
    }
}

/// How an action goes on after the switch to an account.
pub fn after_swap(swapped: Result<String, String>) -> (step: ControlStep)
    ensures
        match swapped {
            Ok(words) => step == (ControlStep::Load {
                message: Some((words, Tone::Good)),
                refresh_ui: true,
            }),
            Err(words) => step == ControlStep::Refuse(words),
        },
{
    match swapped {
        Ok(words) => ControlStep::Load { message: Some((words, Tone::Good)), refresh_ui: true },
        Err(words) => ControlStep::Refuse(words),
    }
}

/// The answer to another program: the accounts as they are shown, and the message.
pub fn control_reply(rows: &Vec<AccountRow>, message: &Option<(String, Tone)>) -> (reply: Reply)
    ensures
        reply matches Reply::Accounts { accounts, message: told } && {
            &&& accounts@.len() == rows@.len()
            &&& forall|i: int|
                0 <= i < rows@.len() ==> same_account(#[trigger] accounts@[i], rows@[i]@)
            &&& option_text(told) == (match *message {
                Some((words, _)) => Some(words@),
                None => None,
            })
        },
{
    let mut accounts: Vec<AccountSnapshot> = Vec::new();
    let mut at: usize = 0;
    while at < rows.len()
        invariant
            at <= rows@.len(),
            accounts@.len() == at,
            forall|i: int| 0 <= i < at ==> same_account(#[trigger] accounts@[i], rows@[i]@),
        decreases rows@.len() - at,
    {
        accounts.push(control_snapshot(&rows[at]));
        at += 1;
    }
    let told = match message {
        Some((words, _)) => Some(words.clone()),
        None => None,
    };
    Reply::Accounts { accounts, message: told }
}

// ---------------------------------------------------------------------------
// Laws
// ---------------------------------------------------------------------------

/// A name that the account service told is asked for once: when it is noted, it is not wanted any
/// more, and it is the name that is shown.
pub proof fn nickname_is_asked_for_once(account: AccountView, name: Seq<char>)
    requires
        account.wants_nickname(),
    ensures
        !account.with_note("nickname"@, JsonView::Text(name)).wants_nickname(),
        account.with_note("nickname"@, JsonView::Text(name)).shown_label() == name,
{
}

/// A name that the user gave goes before every other.
pub proof fn given_name_comes_first(account: AccountView, id: Seq<char>, label: Seq<char>)
    ensures
        renamed(Some(account), id, label) matches Ok(ChangeView::Store { account: changed, .. })
            ==> changed.label == text::trimmed(label) && (text::trimmed(label) != account.id
            ==> changed.shown_label() == text::trimmed(label)),
{
}

/// A day that was noted is the one that is shown, and is none after the note was taken away; nothing
/// else about the account changes.
pub proof fn noted_day_is_shown(account: AccountView, id: Seq<char>, expires_on: Seq<char>)
    ensures
        with_expiry(Some(account), id, expires_on) matches Ok(
            ChangeView::Store { account: changed, .. },
        ) ==> {
            &&& Some(changed.expires_on()) == expiry_in(expires_on)
            &&& changed.shown_label() == account.shown_label()
            &&& changed.routing_enabled() == account.routing_enabled()
            &&& changed.active == account.active
        },
{
    reveal_strlit("subscription_expires_on");
    reveal_strlit("nickname");
    reveal_strlit("routing_enabled");
    assert("subscription_expires_on"@.len() != "nickname"@.len());
    assert("subscription_expires_on"@.len() != "routing_enabled"@.len());
}

/// An account that the user lets take part in routing does so, unless it is kept out for good, and
/// one that the user keeps out does not; nothing else about the account changes.
pub proof fn routing_follows_the_user(account: AccountView, id: Seq<char>, enabled: bool)
    ensures
        with_routing(Some(account), id, enabled) matches Ok(
            ChangeView::Store { account: changed, .. },
        ) ==> {
            &&& changed.routing_enabled() == (enabled && !account.manual_only)
            &&& changed.shown_label() == account.shown_label()
            &&& changed.expires_on() == account.expires_on()
            &&& changed.active == account.active
        },
{
    reveal_strlit("subscription_expires_on");
    reveal_strlit("nickname");
    reveal_strlit("routing_enabled");
    assert("routing_enabled"@.len() != "nickname"@.len());
    assert("subscription_expires_on"@.len() != "routing_enabled"@.len());
}

/// The words of an error, as they are shown, stand on one line and have at most 81 characters.
pub proof fn shown_errors_are_short(error: Seq<char>, i: int)
    ensures
        shortened(error).len() <= 81,
        0 <= i < shortened(error).len() ==> shortened(error)[i] != '\n' && shortened(error)[i]
            != '\r',
        error.len() <= 80 ==> shortened(error).len() == error.len(),
{
}

/// To order accounts loses none and adds none, and no other account comes before an active one.
pub proof fn ordering_keeps_accounts(accounts: Seq<AccountView>, account: AccountView)
    ensures
        (only(accounts, true) + only(accounts, false)).contains(account) == accounts.contains(
            account,
        ),
        only(accounts, true).len() + only(accounts, false).len() == accounts.len(),
        forall|i: int|
            0 <= i < only(accounts, true).len() ==> (#[trigger] only(accounts, true)[i]).active,
        forall|i: int|
            0 <= i < only(accounts, false).len() ==> !(
            #[trigger] only(accounts, false)[i]).active,
    decreases accounts.len(),
{
    let sorted = only(accounts, true) + only(accounts, false);
    if accounts.len() > 0 {
        let front = accounts.drop_last();
        ordering_keeps_accounts(front, account);
        let before = only(front, true) + only(front, false);
        let last = accounts.last();
        if before.contains(account) {
            let i = before.index_of(account);
            let j = front.index_of(account);
            assert(accounts[j] == account);
            if last.active && i >= only(front, true).len() {
                assert(sorted[i + 1] == account);
            } else {
                assert(sorted[i] == account);
            }
        }
        if last == account {
            assert(accounts[accounts.len() - 1] == account);
            if last.active {
                assert(sorted[only(front, true).len() as int] == account);
            } else {
                assert(sorted[sorted.len() - 1] == account);
            }
        }
        if sorted.contains(account) && account != last {
            let i = sorted.index_of(account);
            if last.active && i >= only(front, true).len() {
                assert(before[i - 1] == account);
            } else {
                assert(before[i] == account);
            }
        }
        if accounts.contains(account) && account != last {
            let j = accounts.index_of(account);
            assert(front[j] == account);
        }
    }
}

}
