//! A Telegram bot that guards groups by wallet: it links Telegram users to
//! wallets through a verification code, admits or removes new members by the
//! group's access requirements, answers commands and inline buttons, and
//! logs every admission decision.
use vstd::prelude::*;
use vstd::string::*;
use std::collections::HashMap;
use crate::strmap::StrMap;
use crate::text;

verus! {

broadcast use vstd::std_specs::hash::group_hash_axioms;

/// Where a wallet link stands.
#[derive(Debug, Clone, Copy, PartialEq, Eq, Structural)]
pub enum VerificationStatus {
    Pending,
    Verified,
    Rejected,
    Expired,
}

/// What a linked user may do.
#[derive(Debug, Clone, Copy, PartialEq, Eq, Structural)]
pub enum AccessLevel {
    Guest,
    Member,
    VIP,
    Admin,
}

/// A Telegram user linked to a wallet. The reputation is in tenths of a
/// point.
pub struct LinkedAccount {
    pub telegram_id: i64,
    pub telegram_username: Option<String>,
    pub wallet_address: String,
    pub user_id: String,
    pub linked_at: u64,
    pub verification_status: VerificationStatus,
    pub access_level: AccessLevel,
    pub reputation_score: u32,
    pub last_activity: u64,
}

/// A link waiting for its verification.
pub struct PendingLink {
    pub verification_code: String,
    pub telegram_id: i64,
    pub wallet_address: String,
    pub expires_at: u64,
    pub attempts: u32,
}

/// What a group asks of its members. The minimum reputation is in tenths of
/// a point.
pub struct AccessRequirements {
    pub min_balance: Option<u64>,
    pub required_tier: Option<String>,
    pub min_reputation: Option<u32>,
    pub required_verifications: Vec<String>,
    pub whitelist_wallets: Vec<String>,
    pub blacklist_wallets: Vec<String>,
}

/// How the bot treats a group.
pub struct GroupConfig {
    pub chat_id: i64,
    pub group_name: String,
    pub access_requirements: AccessRequirements,
    pub auto_kick_enabled: bool,
    pub welcome_message: Option<String>,
    pub rules_message: Option<String>,
    pub admin_notifications: bool,
}

/// One admission decision.
pub struct AccessLog {
    pub timestamp: u64,
    pub action: String,
    pub chat_id: i64,
    pub success: bool,
    pub reason: Option<String>,
}

/// An update from Telegram.
pub struct TelegramUpdate {
    pub update_id: i64,
    pub message: Option<TelegramMessage>,
    pub callback_query: Option<CallbackQuery>,
}

/// A message in a chat.
pub struct TelegramMessage {
    pub message_id: i64,
    pub from: Option<TelegramUser>,
    pub chat: TelegramChat,
    pub text: Option<String>,
    pub new_chat_members: Option<Vec<TelegramUser>>,
}

/// A Telegram user.
pub struct TelegramUser {
    pub id: i64,
    pub is_bot: bool,
    pub first_name: String,
    pub last_name: Option<String>,
    pub username: Option<String>,
}

/// A chat.
pub struct TelegramChat {
    pub id: i64,
    pub chat_type: String,
    pub title: Option<String>,
}

/// A press on an inline button.
pub struct CallbackQuery {
    pub id: String,
    pub from: TelegramUser,
    pub data: Option<String>,
}

/// An inline button.
pub struct InlineKeyboardButton {
    pub text: String,
    pub callback_data: Option<String>,
}

/// Rows of inline buttons.
pub struct InlineKeyboardMarkup {
    pub inline_keyboard: Vec<Vec<InlineKeyboardButton>>,
}

/// What the bot asks Telegram to do.
pub enum TelegramResponse {
    SendMessage { chat_id: i64, text: String, reply_markup: Option<InlineKeyboardMarkup> },
    KickChatMember { chat_id: i64, user_id: i64, reason: String },
    AnswerCallbackQuery { callback_query_id: String, text: Option<String> },
}

/// The characters of an optional string.
pub open spec fn opt_chars(o: Option<String>) -> Option<Seq<char>> {
    match o {
        Some(s) => Some(s@),
        None => None,
    }
}

/// The characters of a button.
pub struct ButtonView {
    pub text: Seq<char>,
    pub callback_data: Option<Seq<char>>,
}

impl View for InlineKeyboardButton {
    type V = ButtonView;

    open spec fn view(&self) -> ButtonView {
        ButtonView { text: self.text@, callback_data: opt_chars(self.callback_data) }
    }
}

/// The characters of each button, row by row.
pub open spec fn keyboard_view(rows: Seq<Vec<InlineKeyboardButton>>) -> Seq<Seq<ButtonView>> {
    rows.map_values(|r: Vec<InlineKeyboardButton>| r@.map_values(|b: InlineKeyboardButton| b@))
}

/// The characters of a response.
pub enum ResponseView {
    SendMessage { chat_id: i64, text: Seq<char>, reply_markup: Option<Seq<Seq<ButtonView>>> },
    KickChatMember { chat_id: i64, user_id: i64, reason: Seq<char> },
    AnswerCallbackQuery { callback_query_id: Seq<char>, text: Option<Seq<char>> },
}

impl View for TelegramResponse {
    type V = ResponseView;

    open spec fn view(&self) -> ResponseView {
        match self {
            TelegramResponse::SendMessage { chat_id, text, reply_markup } => ResponseView::SendMessage {
                chat_id: *chat_id,
                text: text@,
                reply_markup: match reply_markup {
                    Some(m) => Some(keyboard_view(m.inline_keyboard@)),
                    None => None,
                },
            },
            TelegramResponse::KickChatMember { chat_id, user_id, reason } => ResponseView::KickChatMember {
                chat_id: *chat_id,
                user_id: *user_id,
                reason: reason@,
            },
            TelegramResponse::AnswerCallbackQuery { callback_query_id, text } => ResponseView::AnswerCallbackQuery {
                callback_query_id: callback_query_id@,
                text: opt_chars(*text),
            },
        }
    }
}

/// The characters of each response.
pub open spec fn responses_view(rs: Seq<TelegramResponse>) -> Seq<ResponseView> {
    rs.map_values(|r: TelegramResponse| r@)
}

/// The characters of a log entry.
pub struct LogView {
    pub timestamp: u64,
    pub action: Seq<char>,
    pub chat_id: i64,
    pub success: bool,
    pub reason: Option<Seq<char>>,
}

impl View for AccessLog {
    type V = LogView;

    open spec fn view(&self) -> LogView {
        LogView {
            timestamp: self.timestamp,
            action: self.action@,
            chat_id: self.chat_id,
            success: self.success,
            reason: opt_chars(self.reason),
        }
    }
}

/// The characters of a linked account.
pub struct LinkedView {
    pub telegram_id: i64,
    pub telegram_username: Option<Seq<char>>,
    pub wallet_address: Seq<char>,
    pub user_id: Seq<char>,
    pub linked_at: u64,
    pub verification_status: VerificationStatus,
    pub access_level: AccessLevel,
    pub reputation_score: u32,
    pub last_activity: u64,
}

impl View for LinkedAccount {
    type V = LinkedView;

    open spec fn view(&self) -> LinkedView {
        LinkedView {
            telegram_id: self.telegram_id,
            telegram_username: opt_chars(self.telegram_username),
            wallet_address: self.wallet_address@,
            user_id: self.user_id@,
            linked_at: self.linked_at,
            verification_status: self.verification_status,
            access_level: self.access_level,
            reputation_score: self.reputation_score,
            last_activity: self.last_activity,
        }
    }
}

/// The characters of a pending link.
pub struct PendingView {
    pub verification_code: Seq<char>,
    pub telegram_id: i64,
    pub wallet_address: Seq<char>,
    pub expires_at: u64,
    pub attempts: u32,
}

impl View for PendingLink {
    type V = PendingView;

    open spec fn view(&self) -> PendingView {
        PendingView {
            verification_code: self.verification_code@,
            telegram_id: self.telegram_id,
            wallet_address: self.wallet_address@,
            expires_at: self.expires_at,
            attempts: self.attempts,
        }
    }
}

/// The bot's state.
pub struct TelegramBouncerBot {
    pub bot_token: String,
    pub linked_accounts: HashMap<i64, LinkedAccount>,
    pub pending_links: StrMap<PendingLink>,
    pub group_permissions: HashMap<i64, GroupConfig>,
    pub access_logs: HashMap<i64, Vec<AccessLog>>,
    pub webhook_url: String,
}

/// The bot's state as maps.
pub struct BotView {
    pub bot_token: Seq<char>,
    pub linked: Map<i64, LinkedView>,
    pub pending: Map<Seq<char>, PendingView>,
    pub groups: Map<i64, GroupConfig>,
    pub logs: Map<i64, Seq<LogView>>,
    pub webhook_url: Seq<char>,
}

impl View for TelegramBouncerBot {
    type V = BotView;

    open spec fn view(&self) -> BotView {
        BotView {
            bot_token: self.bot_token@,
            linked: self.linked_accounts@.map_values(|a: LinkedAccount| a@),
            pending: self.pending_links@.map_values(|p: PendingLink| p@),
            groups: self.group_permissions@,
            logs: self.access_logs@.map_values(|v: Vec<AccessLog>| v@.map_values(|l: AccessLog| l@)),
            webhook_url: self.webhook_url@,
        }
    }
}

/// The code a user gets for linking at `now`.
pub open spec fn verification_code_of(telegram_id: i64, now: i64) -> Seq<char> {
    "VERIFY_"@ + text::decimal((((telegram_id as u64) ^ (now as u64)) % 1000000) as nat)
}

/// The message that hands out a verification link.
pub open spec fn linking_reply(code: Seq<char>, wallet: Seq<char>) -> Seq<char> {
    "🔐 *Wallet Verification*\n\nClick this link to verify your wallet:\n"@
        + "https://node1.solfunmeme.com/verify-telegram?code="@ + code + "&wallet="@ + wallet
        + "\n\n⏰ Link expires in 5 minutes\n🔢 Verification code: `"@ + code + "`"@
}

/// A signature is accepted when it is longer than 10 bytes and holds both
/// the wallet address and the signed message.
pub open spec fn signature_ok(wallet: Seq<char>, signature: Seq<char>, message: Seq<char>) -> bool {
    &&& (vstd::utf8::encode_utf8(signature).len() as usize) > 10
    &&& text::contains_sub(signature, wallet)
    &&& text::contains_sub(signature, message)
}

/// The account made when a link completes at `now`.
pub open spec fn linked_from(p: PendingView, now: i64) -> LinkedView {
    LinkedView {
        telegram_id: p.telegram_id,
        telegram_username: None,
        wallet_address: p.wallet_address,
        user_id: "tg_"@ + text::signed_decimal(p.telegram_id as int),
        linked_at: now as u64,
        verification_status: VerificationStatus::Verified,
        access_level: AccessLevel::Member,
        reputation_score: 500,
        last_activity: now as u64,
    }
}

/// What completing a link with a code and a signed message at `now` does:
/// an unknown code is refused and changes nothing; a known one is used up,
/// then refused when expired or badly signed, else the account is linked.
pub open spec fn linking_completed(
    s: BotView,
    f: BotView,
    r: Result<String, String>,
    code: Seq<char>,
    signed: Seq<char>,
    now: i64,
) -> bool {
    if !s.pending.contains_key(code) {
        r is Err && r->Err_0@ == "Invalid or expired verification code"@ && f == s
    } else {
        let p = s.pending[code];
        let used = BotView { pending: s.pending.remove(code), ..s };
        if (now as u64) > p.expires_at {
            r is Err && r->Err_0@ == "Verification code expired"@ && f == used
        } else if !signature_ok(p.wallet_address, signed, code) {
            r is Err && r->Err_0@ == "Invalid wallet signature"@ && f == used
        } else {
            r is Ok && r->Ok_0@ == "✅ Wallet successfully linked to your Telegram account!"@ && f == (BotView {
                linked: used.linked.insert(p.telegram_id, linked_from(p, now)),
                ..used
            })
        }
    }
}

/// The list contains the string.
pub open spec fn lists(v: Seq<String>, s: Seq<char>) -> bool {
    exists|i: int| 0 <= i < v.len() && #[trigger] v[i]@ == s
}

/// The account meets the group's requirements: a minimum balance of at most
/// 1000, the minimum reputation, the whitelist (when there is one) and the
/// blacklist.
pub open spec fn access_ok(a: LinkedView, r: AccessRequirements) -> bool {
    &&& match r.min_balance {
        Some(b) => b <= 1000,
        None => true,
    }
    &&& match r.min_reputation {
        Some(m) => a.reputation_score >= m,
        None => true,
    }
    &&& (r.whitelist_wallets@.len() == 0 || lists(r.whitelist_wallets@, a.wallet_address))
    &&& !lists(r.blacklist_wallets@, a.wallet_address)
}

/// A log entry made at `now`.
pub open spec fn log_entry(now: i64, action: Seq<char>, chat_id: i64, success: bool, reason: Option<Seq<char>>) -> LogView {
    LogView { timestamp: now as u64, action, chat_id, success, reason }
}

/// The logs with an entry appended for a user.
pub open spec fn logged(logs: Map<i64, Seq<LogView>>, telegram_id: i64, e: LogView) -> Map<i64, Seq<LogView>> {
    logs.insert(
        telegram_id,
        if logs.contains_key(telegram_id) {
            logs[telegram_id]
        } else {
            Seq::empty()
        }.push(e),
    )
}

/// The welcome a verified member gets when the group sets none.
pub open spec fn default_welcome() -> Seq<char> {
    "Welcome! Your wallet is verified ✅"@
}

/// The message to a new member without a linked wallet.
pub open spec fn link_prompt(first_name: Seq<char>) -> Seq<char> {
    "👋 Welcome "@ + first_name
        + "!\n\n🔐 This group requires wallet verification.\nClick the button below to link your wallet.\n\n⏰ You have 5 minutes to verify or you'll be removed."@
}

/// The state and reply after a user joins a chat at `now`.
pub open spec fn member_step(s: BotView, member: TelegramUser, chat_id: i64, now: i64) -> (BotView, ResponseView) {
    if s.linked.contains_key(member.id) {
        if s.groups.contains_key(chat_id) {
            let config = s.groups[chat_id];
            if access_ok(s.linked[member.id], config.access_requirements) {
                (
                    BotView {
                        logs: logged(s.logs, member.id, log_entry(now, "join_approved"@, chat_id, true, None)),
                        ..s
                    },
                    ResponseView::SendMessage {
                        chat_id,
                        text: "👋 Welcome "@ + member.first_name@ + "!\n\n"@ + match config.welcome_message {
                            Some(w) => w@,
                            None => default_welcome(),
                        },
                        reply_markup: None,
                    },
                )
            } else {
                (
                    BotView {
                        logs: logged(
                            s.logs,
                            member.id,
                            log_entry(now, "join_denied"@, chat_id, false, Some("Insufficient wallet balance/tier"@)),
                        ),
                        ..s
                    },
                    ResponseView::KickChatMember {
                        chat_id,
                        user_id: member.id,
                        reason: "Wallet does not meet group requirements"@,
                    },
                )
            }
        } else {
            (s, ResponseView::SendMessage { chat_id, text: "Welcome!"@, reply_markup: None })
        }
    } else {
        (
            BotView {
                logs: logged(s.logs, member.id, log_entry(now, "join_pending"@, chat_id, false, Some("No linked wallet"@))),
                ..s
            },
            ResponseView::SendMessage {
                chat_id,
                text: link_prompt(member.first_name@),
                reply_markup: Some(
                    seq![
                        seq![
                            ButtonView {
                                text: "🔗 Link Wallet"@,
                                callback_data: Some("link_wallet_"@ + text::signed_decimal(member.id as int)),
                            },
                        ],
                    ],
                ),
            },
        )
    }
}

/// The state and replies after the users of `ms` that are not bots join.
pub open spec fn members_step(s: BotView, ms: Seq<TelegramUser>, chat_id: i64, now: i64) -> (BotView, Seq<ResponseView>)
    decreases ms.len(),
{
    if ms.len() == 0 {
        (s, Seq::empty())
    } else {
        let (s1, rs) = members_step(s, ms.drop_last(), chat_id, now);
        if ms.last().is_bot {
            (s1, rs)
        } else {
            let (s2, r) = member_step(s1, ms.last(), chat_id, now);
            (s2, rs.push(r))
        }
    }
}

/// The command list that `/start` and `/help` answer with.
pub open spec fn start_text() -> Seq<char> {
    "🤖 *ZOS Bouncer Bot*\n\nCommands:\n/link - Link your wallet\n/status - Check your verification status\n/balance - Check wallet balance\n/help - Show this help"@
}

/// `{:?}` of a verification status.
pub open spec fn status_name(v: VerificationStatus) -> Seq<char> {
    match v {
        VerificationStatus::Pending => "Pending"@,
        VerificationStatus::Verified => "Verified"@,
        VerificationStatus::Rejected => "Rejected"@,
        VerificationStatus::Expired => "Expired"@,
    }
}

/// `{:?}` of an access level.
pub open spec fn level_name(l: AccessLevel) -> Seq<char> {
    match l {
        AccessLevel::Guest => "Guest"@,
        AccessLevel::Member => "Member"@,
        AccessLevel::VIP => "VIP"@,
        AccessLevel::Admin => "Admin"@,
    }
}

/// A number of tenths with one decimal place (`{:.1}`).
pub open spec fn tenths_text(t: u32) -> Seq<char> {
    text::decimal((t / 10) as nat) + "."@ + text::decimal((t % 10) as nat)
}

/// What chrono writes for the moment `secs` seconds after the epoch, in UTC,
/// as `%Y-%m-%d %H:%M UTC`; for a moment out of chrono's range, the epoch.
pub uninterp spec fn utc_minute_text(secs: i64) -> Seq<char>;

#[verifier::external_body]
/// `chrono::DateTime::<Utc>::from_timestamp(secs, 0)`, the epoch where that
/// is out of range, formatted with `%Y-%m-%d %H:%M UTC`. The calendar
/// arithmetic is not restated: the result is named `utc_minute_text`.
fn format_utc_minute(secs: i64) -> (r: String)
    ensures
        r@ == utc_minute_text(secs),
{
    chrono::DateTime::from_timestamp(secs, 0).unwrap_or_default().format("%Y-%m-%d %H:%M UTC").to_string()
}

/// The `/status` reply for a linked account, given the text of its link
/// time.
pub open spec fn status_text(a: LinkedView, linked_text: Seq<char>) -> Seq<char> {
    "✅ *Verification Status*\n\nWallet: `"@ + a.wallet_address + "`\nStatus: "@ + status_name(
        a.verification_status,
    ) + "\nAccess Level: "@ + level_name(a.access_level) + "\nReputation: "@ + tenths_text(
        a.reputation_score,
    ) + "\nLinked: "@ + linked_text
}

/// Builds `status_text`.
pub fn status_reply(account: &LinkedAccount, linked_text: &str) -> (r: String)
    ensures
        r@ == status_text(account@, linked_text@),
{
    let mut r = String::from_str("✅ *Verification Status*\n\nWallet: `");
    r.append(account.wallet_address.as_str());
    r.append("`\nStatus: ");
    r.append(
        match account.verification_status {
            VerificationStatus::Pending => "Pending",
            VerificationStatus::Verified => "Verified",
            VerificationStatus::Rejected => "Rejected",
            VerificationStatus::Expired => "Expired",
        },
    );
    r.append("\nAccess Level: ");
    r.append(
        match account.access_level {
            AccessLevel::Guest => "Guest",
            AccessLevel::Member => "Member",
            AccessLevel::VIP => "VIP",
            AccessLevel::Admin => "Admin",
        },
    );
    r.append("\nReputation: ");
    r.append(text::decimal_string((account.reputation_score / 10) as u64).as_str());
    r.append(".");
    r.append(text::decimal_string((account.reputation_score % 10) as u64).as_str());
    r.append("\nLinked: ");
    r.append(linked_text);
    r
}

/// The command's words ask nothing the message lacks: a sender where
/// `/link` (with an address) and `/status` read one.
pub open spec fn command_ok(t: Seq<char>, msg: TelegramMessage) -> bool {
    let ws = text::words(t);
    (ws.len() >= 2 && ws[0] == "/link"@) || (ws.len() >= 1 && ws[0] == "/status"@) ==> msg.from is Some
}

/// The state and reply after a command at `now`.
pub open spec fn command_step(s: BotView, t: Seq<char>, msg: TelegramMessage, now: i64) -> (BotView, ResponseView) {
    let ws = text::words(t);
    let chat = msg.chat.id;
    if ws[0] == "/start"@ || ws[0] == "/help"@ {
        (s, ResponseView::SendMessage { chat_id: chat, text: start_text(), reply_markup: None })
    } else if ws[0] == "/link"@ {
        if ws.len() < 2 {
            (s, ResponseView::SendMessage { chat_id: chat, text: "Usage: /link <wallet_address>"@, reply_markup: None })
        } else {
            let user = msg.from.unwrap().id;
            let code = verification_code_of(user, now);
            (
                BotView {
                    pending: s.pending.insert(
                        code,
                        PendingView {
                            verification_code: code,
                            telegram_id: user,
                            wallet_address: ws[1],
                            expires_at: ((now as u64) + 300) as u64,
                            attempts: 0,
                        },
                    ),
                    ..s
                },
                ResponseView::SendMessage { chat_id: chat, text: linking_reply(code, ws[1]), reply_markup: None },
            )
        }
    } else if ws[0] == "/status"@ {
        let user = msg.from.unwrap().id;
        if s.linked.contains_key(user) {
            (
                s,
                ResponseView::SendMessage {
                    chat_id: chat,
                    text: status_text(s.linked[user], utc_minute_text(s.linked[user].linked_at as i64)),
                    reply_markup: None,
                },
            )
        } else {
            (
                s,
                ResponseView::SendMessage {
                    chat_id: chat,
                    text: "❌ No wallet linked. Use /link <wallet_address>"@,
                    reply_markup: None,
                },
            )
        }
    } else {
        (
            s,
            ResponseView::SendMessage {
                chat_id: chat,
                text: "Unknown command. Use /help for available commands."@,
                reply_markup: None,
            },
        )
    }
}

/// The reply to a button press.
pub open spec fn callback_step(cb: CallbackQuery) -> Result<ResponseView, Seq<char>> {
    match cb.data {
        Some(d) if text::has_prefix(d@, "link_wallet_"@) => if text::parses_as_i64(
            text::remove_all(d@, "link_wallet_"@),
        ) {
            Ok(
                ResponseView::SendMessage {
                    chat_id: cb.from.id,
                    text: "🔗 To link your wallet, send:\n/link <your_wallet_address>"@,
                    reply_markup: None,
                },
            )
        } else {
            Err("Invalid callback data"@)
        },
        _ => Ok(
            ResponseView::AnswerCallbackQuery {
                callback_query_id: cb.id@,
                text: Some("Processing..."@),
            },
        ),
    }
}

/// The message's text is a command.
pub open spec fn is_command(m: TelegramMessage) -> bool {
    match m.text {
        Some(t) => t@.len() > 0 && t@[0] == '/',
        None => false,
    }
}

/// The members that a message announces.
pub open spec fn announced(m: TelegramMessage) -> Seq<TelegramUser> {
    match m.new_chat_members {
        Some(v) => v@,
        None => Seq::empty(),
    }
}

/// The update asks nothing it lacks, and a link started at `now` can expire
/// within `u64`.
pub open spec fn update_ok(u: TelegramUpdate, now: i64) -> bool {
    &&& (now as u64) + 300 <= u64::MAX
    &&& match u.message {
        Some(m) => is_command(m) ==> command_ok(m.text.unwrap()@, m),
        None => true,
    }
}

/// The state and the replies (or the error) after an update at `now`: the
/// new members in order, then the command, then the button press.
pub open spec fn update_step(s: BotView, u: TelegramUpdate, now: i64) -> (BotView, Result<Seq<ResponseView>, Seq<char>>) {
    let (s1, rs1) = match u.message {
        Some(m) => members_step(s, announced(m), m.chat.id, now),
        None => (s, Seq::empty()),
    };
    let (s2, rs2) = match u.message {
        Some(m) => if is_command(m) {
            let (s2, r) = command_step(s1, m.text.unwrap()@, m, now);
            (s2, rs1.push(r))
        } else {
            (s1, rs1)
        },
        None => (s1, rs1),
    };
    match u.callback_query {
        Some(cb) => match callback_step(cb) {
            Ok(r) => (s2, Ok(rs2.push(r))),
            Err(e) => (s2, Err(e)),
        },
        None => (s2, Ok(rs2)),
    }
}

/// The string is in the list.
fn list_contains(v: &Vec<String>, s: &str) -> (r: bool)
    ensures
        r == lists(v@, s@),
{
    let mut i: usize = 0;
    while i < v.len()
        invariant
            i <= v@.len(),
            forall|j: int| 0 <= j < i ==> v@[j]@ != s@,
        decreases v@.len() - i,
    {
        if text::str_eq(v[i].as_str(), s) {
            return true;
        }
        i = i + 1;
    }
    false
}

/// Decides `access_ok`.
pub fn check_access_requirements(account: &LinkedAccount, requirements: &AccessRequirements) -> (r: bool)
    ensures
        r == access_ok(account@, *requirements),
{
    match requirements.min_balance {
        Some(b) => {
            if b > 1000 {
                return false;
            }
        },
        None => {},
    }
    match requirements.min_reputation {
        Some(m) => {
            if account.reputation_score < m {
                return false;
            }
        },
        None => {},
    }
    if requirements.whitelist_wallets.len() > 0 && !list_contains(
        &requirements.whitelist_wallets,
        account.wallet_address.as_str(),
    ) {
        return false;
    }
    !list_contains(&requirements.blacklist_wallets, account.wallet_address.as_str())
}

/// Decides `signature_ok`.
pub fn verify_wallet_signature(wallet_address: &str, signature: &str, message: &str) -> (r: bool)
    ensures
        r == signature_ok(wallet_address@, signature@, message@),
{
    signature.len() > 10 && text::contains_str(signature, wallet_address) && text::contains_str(
        signature,
        message,
    )
}

impl TelegramBouncerBot {
    /// The maps are well formed.
    pub open spec fn wf(&self) -> bool {
        self.pending_links.wf()
    }

    /// A bot with nothing linked, pending, configured or logged.
    pub fn new(bot_token: &str, webhook_url: &str) -> (b: Self)
        ensures
            b.wf(),
            b@.bot_token == bot_token@,
            b@.webhook_url == webhook_url@,
            b@.linked == Map::<i64, LinkedView>::empty(),
            b@.pending == Map::<Seq<char>, PendingView>::empty(),
            b@.groups == Map::<i64, GroupConfig>::empty(),
            b@.logs == Map::<i64, Seq<LogView>>::empty(),
    {
        let b = TelegramBouncerBot {
            bot_token: String::from_str(bot_token),
            linked_accounts: HashMap::new(),
            pending_links: StrMap::new(),
            group_permissions: HashMap::new(),
            access_logs: HashMap::new(),
            webhook_url: String::from_str(webhook_url),
        };
        assert(b@.linked =~= Map::<i64, LinkedView>::empty());
        assert(b@.pending =~= Map::<Seq<char>, PendingView>::empty());
        assert(b@.logs =~= Map::<i64, Seq<LogView>>::empty());
        b
    }

    /// Starts linking a user to a wallet at `now`: files a pending link that
    /// expires 300 seconds later and returns the message with the link.
    pub fn start_wallet_linking_at(&mut self, telegram_id: i64, wallet_address: &str, now: i64) -> (r:
        Result<String, String>)
        requires
            old(self).wf(),
            (now as u64) + 300 <= u64::MAX,
        ensures
            final(self).wf(),
            final(self)@ == (BotView {
                pending: old(self)@.pending.insert(
                    verification_code_of(telegram_id, now),
                    PendingView {
                        verification_code: verification_code_of(telegram_id, now),
                        telegram_id,
                        wallet_address: wallet_address@,
                        expires_at: ((now as u64) + 300) as u64,
                        attempts: 0,
                    },
                ),
                ..old(self)@
            }),
            r is Ok && r->Ok_0@ == linking_reply(verification_code_of(telegram_id, now), wallet_address@),
    {
        let number = ((telegram_id as u64) ^ (now as u64)) % 1000000;
        let code = String::from_str("VERIFY_").concat(text::decimal_string(number).as_str());
        let pending = PendingLink {
            verification_code: code.clone(),
            telegram_id,
            wallet_address: String::from_str(wallet_address),
            expires_at: (now as u64) + 300,
            attempts: 0,
        };
        let ghost before = self.pending_links@;
        let ghost pv = pending@;
        self.pending_links.insert(code.clone(), pending);
        assert(self@.pending =~= before.map_values(|p: PendingLink| p@).insert(code@, pv));
        let mut reply = String::from_str("🔐 *Wallet Verification*\n\nClick this link to verify your wallet:\n");
        reply.append("https://node1.solfunmeme.com/verify-telegram?code=");
        reply.append(code.as_str());
        reply.append("&wallet=");
        reply.append(wallet_address);
        reply.append("\n\n⏰ Link expires in 5 minutes\n🔢 Verification code: `");
        reply.append(code.as_str());
        reply.append("`");
        Ok(reply)
    }

    /// Completes a link at `now` with the code and the signed message. The
    /// pending link is used up whatever the outcome, once it is found.
    pub fn complete_wallet_linking_at(&mut self, verification_code: &str, signed_message: &str, now: i64) -> (r:
        Result<String, String>)
        requires
            old(self).wf(),
        ensures
            final(self).wf(),
            linking_completed(old(self)@, final(self)@, r, verification_code@, signed_message@, now),
    {
        let ghost before = self.pending_links@;
        let pending = match self.pending_links.remove(verification_code) {
            Some(p) => p,
            None => {
                assert(self.pending_links@ =~= before);
                return Err(String::from_str("Invalid or expired verification code"));
            },
        };
        assert(self@.pending =~= before.map_values(|p: PendingLink| p@).remove(verification_code@));
        if (now as u64) > pending.expires_at {
            return Err(String::from_str("Verification code expired"));
        }
        if !verify_wallet_signature(pending.wallet_address.as_str(), signed_message, verification_code) {
            return Err(String::from_str("Invalid wallet signature"));
        }
        let account = LinkedAccount {
            telegram_id: pending.telegram_id,
            telegram_username: None,
            wallet_address: pending.wallet_address.clone(),
            user_id: String::from_str("tg_").concat(text::signed_decimal_string(pending.telegram_id).as_str()),
            linked_at: now as u64,
            verification_status: VerificationStatus::Verified,
            access_level: AccessLevel::Member,
            reputation_score: 500,
            last_activity: now as u64,
        };
        let ghost linked_before = self.linked_accounts@;
        let ghost av = account@;
        self.linked_accounts.insert(pending.telegram_id, account);
        assert(self@.linked =~= linked_before.map_values(|a: LinkedAccount| a@).insert(pending.telegram_id, av));
        Ok(String::from_str("✅ Wallet successfully linked to your Telegram account!"))
    }

    /// Completes a link now.
    pub fn complete_wallet_linking(&mut self, verification_code: &str, signed_message: &str) -> (r: Result<
        String,
        String,
    >)
        requires
            old(self).wf(),
        ensures
            final(self).wf(),
            !old(self)@.pending.contains_key(verification_code@) ==> r is Err && r->Err_0@
                == "Invalid or expired verification code"@ && *final(self) == *old(self),
            old(self)@.pending.contains_key(verification_code@) ==> (r matches Err(e) && e@
                == crate::clock::clock_error() && *final(self) == *old(self)) || exists|now: i64| #[trigger]
                linking_completed(old(self)@, final(self)@, r, verification_code@, signed_message@, now),
    {
        if !self.pending_links.contains_key(verification_code) {
            return Err(String::from_str("Invalid or expired verification code"));
        }
        let now = match crate::clock::unix_timestamp() {
            Ok(t) => t,
            Err(e) => {
                return Err(e);
            },
        };
        self.complete_wallet_linking_at(verification_code, signed_message, now)
    }

    /// Appends an entry, made at `now`, to a user's log.
    fn log_access_at(&mut self, telegram_id: i64, chat_id: i64, action: &str, success: bool, reason: Option<String>, now: i64)
        requires
            old(self).wf(),
        ensures
            final(self).wf(),
            final(self)@ == (BotView {
                logs: logged(old(self)@.logs, telegram_id, log_entry(now, action@, chat_id, success, opt_chars(reason))),
                ..old(self)@
            }),
    {
        let entry = AccessLog { timestamp: now as u64, action: String::from_str(action), chat_id, success, reason };
        let ghost ev = entry@;
        let ghost eg = entry;
        let ghost logs_before = self.access_logs@;
        let mut list = match self.access_logs.remove(&telegram_id) {
            Some(v) => v,
            None => Vec::new(),
        };
        let ghost lv = list@;
        list.push(entry);
        self.access_logs.insert(telegram_id, list);
        proof {
            let f = |v: Vec<AccessLog>| v@.map_values(|l: AccessLog| l@);
            let old_logs = logs_before.map_values(f);
            assert(lv.map_values(|l: AccessLog| l@) == if old_logs.contains_key(telegram_id) {
                old_logs[telegram_id]
            } else {
                Seq::<LogView>::empty()
            });
            assert(lv.push(eg).map_values(|l: AccessLog| l@) =~= lv.map_values(|l: AccessLog| l@).push(ev));
            assert(self@.logs =~= logged(old_logs, telegram_id, ev));
        }
    }
    /// Handles a user joining a chat at `now`: a member with a linked
    /// wallet is welcomed or removed by the group's requirements, one without
    /// is asked to link; each decision is logged.
    fn handle_new_member_at(&mut self, member: &TelegramUser, chat: &TelegramChat, now: i64) -> (r: TelegramResponse)
        requires
            old(self).wf(),
        ensures
            final(self).wf(),
            (final(self)@, r@) == member_step(old(self)@, *member, chat.id, now),
    {
        let ghost s0 = self@;
        let decision: Option<(bool, String)> = match self.linked_accounts.get(&member.id) {
            Some(account) => match self.group_permissions.get(&chat.id) {
                Some(config) => {
                    let granted = check_access_requirements(account, &config.access_requirements);
                    let mut text = String::from_str("👋 Welcome ");
                    text.append(member.first_name.as_str());
                    text.append("!\n\n");
                    match &config.welcome_message {
                        Some(w) => text.append(w.as_str()),
                        None => text.append("Welcome! Your wallet is verified ✅"),
                    }
                    Some((granted, text))
                },
                None => {
                    return TelegramResponse::SendMessage {
                        chat_id: chat.id,
                        text: String::from_str("Welcome!"),
                        reply_markup: None,
                    };
                },
            },
            None => None,
        };
        match decision {
            Some((true, text)) => {
                self.log_access_at(member.id, chat.id, "join_approved", true, None, now);
                TelegramResponse::SendMessage { chat_id: chat.id, text, reply_markup: None }
            },
            Some((false, _)) => {
                self.log_access_at(
                    member.id,
                    chat.id,
                    "join_denied",
                    false,
                    Some(String::from_str("Insufficient wallet balance/tier")),
                    now,
                );
                TelegramResponse::KickChatMember {
                    chat_id: chat.id,
                    user_id: member.id,
                    reason: String::from_str("Wallet does not meet group requirements"),
                }
            },
            None => {
                self.log_access_at(
                    member.id,
                    chat.id,
                    "join_pending",
                    false,
                    Some(String::from_str("No linked wallet")),
                    now,
                );
                let mut text = String::from_str("👋 Welcome ");
                text.append(member.first_name.as_str());
                text.append(
                    "!\n\n🔐 This group requires wallet verification.\nClick the button below to link your wallet.\n\n⏰ You have 5 minutes to verify or you'll be removed.",
                );
                let button = InlineKeyboardButton {
                    text: String::from_str("🔗 Link Wallet"),
                    callback_data: Some(String::from_str("link_wallet_").concat(
                        text::signed_decimal_string(member.id).as_str(),
                    )),
                };
                let ghost bv = button@;
                assert(bv == ButtonView {
                    text: "🔗 Link Wallet"@,
                    callback_data: Some("link_wallet_"@ + text::signed_decimal(member.id as int)),
                });
                let mut row: Vec<InlineKeyboardButton> = Vec::new();
                row.push(button);
                assert(row@.map_values(|b: InlineKeyboardButton| b@) =~= seq![bv]);
                let ghost rowg = row;
                let mut rows: Vec<Vec<InlineKeyboardButton>> = Vec::new();
                rows.push(row);
                assert(rows@ =~= seq![rowg]);
                assert(keyboard_view(rows@) =~= seq![seq![bv]]);
                let r = TelegramResponse::SendMessage {
                    chat_id: chat.id,
                    text,
                    reply_markup: Some(InlineKeyboardMarkup { inline_keyboard: rows }),
                };
                r
            },
        }
    }

    /// Answers a command at `now`: `/start` and `/help` with the command
    /// list, `/link <wallet>`, `/status`, anything else as unknown.
    fn handle_command_at(&mut self, t: &str, message: &TelegramMessage, now: i64) -> (r: TelegramResponse)
        requires
            old(self).wf(),
            text::words(t@).len() > 0,
            command_ok(t@, *message),
            (now as u64) + 300 <= u64::MAX,
        ensures
            final(self).wf(),
            (final(self)@, r@) == command_step(old(self)@, t@, *message, now),
    {
        let ws = text::split_words(t);
        assert(text::string_views(ws@) == text::words(t@));
        let k = ws[0].as_str();
        assert(text::words(t@)[0] == k@);
        let chat = message.chat.id;
        if text::str_eq(k, "/start") || text::str_eq(k, "/help") {
            TelegramResponse::SendMessage {
                chat_id: chat,
                text: String::from_str(
                    "🤖 *ZOS Bouncer Bot*\n\nCommands:\n/link - Link your wallet\n/status - Check your verification status\n/balance - Check wallet balance\n/help - Show this help",
                ),
                reply_markup: None,
            }
        } else if text::str_eq(k, "/link") {
            if ws.len() < 2 {
                return TelegramResponse::SendMessage {
                    chat_id: chat,
                    text: String::from_str("Usage: /link <wallet_address>"),
                    reply_markup: None,
                };
            }
            assert(text::words(t@)[1] == ws@[1]@);
            let user = match &message.from {
                Some(u) => u.id,
                None => {
                    assert(false);
                    0
                },
            };
            let text = match self.start_wallet_linking_at(user, ws[1].as_str(), now) {
                Ok(m) => m,
                Err(e) => String::from_str("❌ Error: ").concat(e.as_str()),
            };
            TelegramResponse::SendMessage { chat_id: chat, text, reply_markup: None }
        } else if text::str_eq(k, "/status") {
            let user = match &message.from {
                Some(u) => u.id,
                None => {
                    assert(false);
                    0
                },
            };
            match self.linked_accounts.get(&user) {
                Some(account) => {
                    let linked = format_utc_minute(account.linked_at as i64);
                    TelegramResponse::SendMessage {
                        chat_id: chat,
                        text: status_reply(account, linked.as_str()),
                        reply_markup: None,
                    }
                },
                None => TelegramResponse::SendMessage {
                    chat_id: chat,
                    text: String::from_str("❌ No wallet linked. Use /link <wallet_address>"),
                    reply_markup: None,
                },
            }
        } else {
            TelegramResponse::SendMessage {
                chat_id: chat,
                text: String::from_str("Unknown command. Use /help for available commands."),
                reply_markup: None,
            }
        }
    }

    /// Answers a button press: the link-wallet button (whose number must
    /// read as an `i64`) with instructions, any other with an
    /// acknowledgement.
    pub fn handle_callback_query(&self, callback: &CallbackQuery) -> (r: Result<TelegramResponse, String>)
        ensures
            match r {
                Ok(x) => callback_step(*callback) == Ok::<ResponseView, Seq<char>>(x@),
                Err(e) => callback_step(*callback) == Err::<ResponseView, Seq<char>>(e@),
            },
    {
        proof {
            reveal_strlit("link_wallet_");
        }
        match &callback.data {
            Some(d) => {
                if text::starts_with(d.as_str(), "link_wallet_") {
                    let rest = text::remove_all_str(d.as_str(), "link_wallet_");
                    if text::parses_as_i64_str(rest.as_str()) {
                        return Ok(
                            TelegramResponse::SendMessage {
                                chat_id: callback.from.id,
                                text: String::from_str(
                                    "🔗 To link your wallet, send:\n/link <your_wallet_address>",
                                ),
                                reply_markup: None,
                            },
                        );
                    } else {
                        return Err(String::from_str("Invalid callback data"));
                    }
                }
            },
            None => {},
        }
        Ok(
            TelegramResponse::AnswerCallbackQuery {
                callback_query_id: callback.id.clone(),
                text: Some(String::from_str("Processing...")),
            },
        )
    }

    /// Handles an update at `now`: the announced members that are not bots
    /// in order, then a command, then a button press; a button press with
    /// bad data fails the whole update after the members and the command
    /// were handled.
    pub fn handle_telegram_update_at(&mut self, update: TelegramUpdate, now: i64) -> (r: Result<
        Vec<TelegramResponse>,
        String,
    >)
        requires
            old(self).wf(),
            update_ok(update, now),
        ensures
            final(self).wf(),
            final(self)@ == update_step(old(self)@, update, now).0,
            match r {
                Ok(v) => update_step(old(self)@, update, now).1 == Ok::<Seq<ResponseView>, Seq<char>>(
                    responses_view(v@),
                ),
                Err(e) => update_step(old(self)@, update, now).1 == Err::<Seq<ResponseView>, Seq<char>>(e@),
            },
    {
        let ghost s0 = self@;
        let mut responses: Vec<TelegramResponse> = Vec::new();
        match &update.message {
            Some(message) => {
                let ghost ms = announced(*message);
                match &message.new_chat_members {
                    Some(members) => {
                        let mut i: usize = 0;
                        assert(members@.take(0) =~= Seq::<TelegramUser>::empty());
                        assert(responses_view(responses@) =~= Seq::<ResponseView>::empty());
                        while i < members.len()
                            invariant
                                self.wf(),
                                i <= members@.len(),
                                (self@, responses_view(responses@)) == members_step(
                                    s0,
                                    members@.take(i as int),
                                    message.chat.id,
                                    now,
                                ),
                            decreases members@.len() - i,
                        {
                            assert(members@.take(i + 1).drop_last() =~= members@.take(i as int));
                            assert(members@.take(i + 1).last() == members@[i as int]);
                            if !members[i].is_bot {
                                let r = self.handle_new_member_at(&members[i], &message.chat, now);
                                let ghost before = responses@;
                                responses.push(r);
                                assert(responses_view(responses@) =~= responses_view(before).push(r@));
                            }
                            i = i + 1;
                        }
                        assert(members@.take(members@.len() as int) =~= members@);
                    },
                    None => {
                        assert(responses_view(responses@) =~= Seq::<ResponseView>::empty());
                    },
                }
                let ghost s1 = self@;
                let ghost rs1 = responses_view(responses@);
                assert((s1, rs1) == members_step(s0, announced(*message), message.chat.id, now));
                match &message.text {
                    Some(t) => {
                        if t.unicode_len() > 0 && t.get_char(0) == '/' {
                            proof {
                                text::lemma_words_nonempty_public(t@);
                            }
                            assert(is_command(*message));
                            let r = self.handle_command_at(t.as_str(), message, now);
                            let ghost before = responses@;
                            responses.push(r);
                            assert(responses_view(responses@) =~= responses_view(before).push(r@));
                            assert((self@, responses_view(responses@)) == (command_step(s1, t@, *message, now).0, rs1.push(command_step(s1, t@, *message, now).1)));
                        } else {
                            assert(!is_command(*message));
                        }
                    },
                    None => {
                        assert(!is_command(*message));
                    },
                }
            },
            None => {
                assert(responses_view(responses@) =~= Seq::<ResponseView>::empty());
            },
        }
        match &update.callback_query {
            Some(cb) => match self.handle_callback_query(cb) {
                Ok(r) => {
                    let ghost before = responses@;
                    responses.push(r);
                    assert(responses_view(responses@) =~= responses_view(before).push(r@));
                },
                Err(e) => {
                    return Err(e);
                },
            },
            None => {},
        }
        Ok(responses)
    }

    /// Sets how the bot treats a group.
    pub fn configure_group(&mut self, chat_id: i64, config: GroupConfig)
        requires
            old(self).wf(),
        ensures
            final(self).wf(),
            final(self)@ == (BotView { groups: old(self)@.groups.insert(chat_id, config), ..old(self)@ }),
    {
        self.group_permissions.insert(chat_id, config);
    }
}

} // verus!
