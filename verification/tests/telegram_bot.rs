use zos_server::telegram::{
    check_access_requirements, status_reply, verify_wallet_signature, AccessLevel, AccessRequirements,
    CallbackQuery, GroupConfig, LinkedAccount, TelegramBouncerBot, TelegramChat, TelegramMessage,
    TelegramResponse, TelegramUpdate, TelegramUser, VerificationStatus,
};

fn user(id: i64, name: &str) -> TelegramUser {
    TelegramUser { id, is_bot: false, first_name: name.to_string(), last_name: None, username: None }
}

fn chat(id: i64) -> TelegramChat {
    TelegramChat { id, chat_type: "group".to_string(), title: None }
}

fn command(from: i64, chat_id: i64, text: &str) -> TelegramUpdate {
    TelegramUpdate {
        update_id: 1,
        message: Some(TelegramMessage {
            message_id: 1,
            from: Some(user(from, "Ann")),
            chat: chat(chat_id),
            text: Some(text.to_string()),
            new_chat_members: None,
        }),
        callback_query: None,
    }
}

fn text_of(r: &TelegramResponse) -> &str {
    match r {
        TelegramResponse::SendMessage { text, .. } => text,
        _ => panic!("expected a message"),
    }
}

fn requirements() -> AccessRequirements {
    AccessRequirements {
        min_balance: None,
        required_tier: None,
        min_reputation: None,
        required_verifications: vec![],
        whitelist_wallets: vec![],
        blacklist_wallets: vec![],
    }
}

fn linked(wallet: &str, reputation: u32) -> LinkedAccount {
    LinkedAccount {
        telegram_id: 7,
        telegram_username: None,
        wallet_address: wallet.to_string(),
        user_id: "tg_7".to_string(),
        linked_at: 0,
        verification_status: VerificationStatus::Verified,
        access_level: AccessLevel::Member,
        reputation_score: reputation,
        last_activity: 0,
    }
}

#[test]
fn start_lists_the_commands() {
    let mut bot = TelegramBouncerBot::new("token", "https://hook");
    let rs = bot.handle_telegram_update_at(command(7, -100, "/start"), 1000).unwrap();
    assert_eq!(rs.len(), 1);
    assert!(text_of(&rs[0]).starts_with("🤖 *ZOS Bouncer Bot*\n\nCommands:\n/link - Link your wallet"));
    let start = text_of(&rs[0]).to_string();
    let rs = bot.handle_telegram_update_at(command(7, -100, "/help"), 1000).unwrap();
    assert_eq!(text_of(&rs[0]), start);
    let rs = bot.handle_telegram_update_at(command(7, -100, "/nope"), 1000).unwrap();
    assert_eq!(text_of(&rs[0]), "Unknown command. Use /help for available commands.");
    let rs = bot.handle_telegram_update_at(command(7, -100, "hello"), 1000).unwrap();
    assert!(rs.is_empty());
}

#[test]
fn linking_a_wallet_end_to_end() {
    let mut bot = TelegramBouncerBot::new("token", "https://hook");
    let rs = bot.handle_telegram_update_at(command(7, -100, "/link"), 1000).unwrap();
    assert_eq!(text_of(&rs[0]), "Usage: /link <wallet_address>");
    let rs = bot.handle_telegram_update_at(command(7, -100, "/link 0xWALLET"), 1000).unwrap();
    let code = format!("VERIFY_{}", (7u64 ^ 1000u64) % 1000000);
    assert_eq!(
        text_of(&rs[0]),
        format!(
            "🔐 *Wallet Verification*\n\nClick this link to verify your wallet:\nhttps://node1.solfunmeme.com/verify-telegram?code={code}&wallet=0xWALLET\n\n⏰ Link expires in 5 minutes\n🔢 Verification code: `{code}`"
        )
    );
    assert_eq!(bot.pending_links.get(&code).unwrap().expires_at, 1300);
    assert_eq!(
        bot.complete_wallet_linking_at(&code, "short", 1100),
        Err("Invalid wallet signature".to_string())
    );
    assert_eq!(
        bot.complete_wallet_linking_at(&code, "x", 1100),
        Err("Invalid or expired verification code".to_string())
    );
    bot.handle_telegram_update_at(command(7, -100, "/link 0xWALLET"), 1000).unwrap();
    let signed = format!("signed {code} by 0xWALLET");
    assert_eq!(
        bot.complete_wallet_linking_at(&code, &signed, 1100),
        Ok("✅ Wallet successfully linked to your Telegram account!".to_string())
    );
    let account = bot.linked_accounts.get(&7).unwrap();
    assert_eq!(account.user_id, "tg_7");
    assert_eq!(account.reputation_score, 500);
    let rs = bot.handle_telegram_update_at(command(7, -100, "/status"), 1200).unwrap();
    assert!(text_of(&rs[0]).starts_with(
        "✅ *Verification Status*\n\nWallet: `0xWALLET`\nStatus: Verified\nAccess Level: Member\nReputation: 50.0\nLinked: "
    ));
    let rs = bot.handle_telegram_update_at(command(8, -100, "/status"), 1200).unwrap();
    assert_eq!(text_of(&rs[0]), "❌ No wallet linked. Use /link <wallet_address>");
}

#[test]
fn an_expired_code_is_refused() {
    let mut bot = TelegramBouncerBot::new("token", "https://hook");
    bot.start_wallet_linking_at(9, "0xW", 0).unwrap();
    let code = format!("VERIFY_{}", 9 % 1000000);
    assert_eq!(
        bot.complete_wallet_linking_at(&code, "sig 0xW VERIFY_9 long", 301),
        Err("Verification code expired".to_string())
    );
    assert!(bot.pending_links.get(&code).is_none());
}

#[test]
fn new_members_are_screened() {
    let mut bot = TelegramBouncerBot::new("token", "https://hook");
    bot.start_wallet_linking_at(7, "0xGOOD", 0).unwrap();
    bot.complete_wallet_linking_at("VERIFY_7", "VERIFY_7 0xGOOD ok", 1).unwrap();
    let mut req = requirements();
    req.blacklist_wallets = vec!["0xBAD".to_string()];
    bot.configure_group(
        -5,
        GroupConfig {
            chat_id: -5,
            group_name: "g".to_string(),
            access_requirements: req,
            auto_kick_enabled: true,
            welcome_message: None,
            rules_message: None,
            admin_notifications: false,
        },
    );
    let bot_user = TelegramUser { id: 99, is_bot: true, first_name: "B".to_string(), last_name: None, username: None };
    let update = TelegramUpdate {
        update_id: 2,
        message: Some(TelegramMessage {
            message_id: 2,
            from: None,
            chat: chat(-5),
            text: None,
            new_chat_members: Some(vec![user(7, "Ann"), bot_user, user(8, "Bo")]),
        }),
        callback_query: None,
    };
    let rs = bot.handle_telegram_update_at(update, 10).unwrap();
    assert_eq!(rs.len(), 2);
    assert_eq!(text_of(&rs[0]), "👋 Welcome Ann!\n\nWelcome! Your wallet is verified ✅");
    match &rs[1] {
        TelegramResponse::SendMessage { text, reply_markup: Some(m), .. } => {
            assert!(text.starts_with("👋 Welcome Bo!\n\n🔐 This group requires wallet verification."));
            assert_eq!(m.inline_keyboard[0][0].text, "🔗 Link Wallet");
            assert_eq!(m.inline_keyboard[0][0].callback_data.as_deref(), Some("link_wallet_8"));
        }
        _ => panic!("expected a link prompt"),
    }
    assert_eq!(bot.access_logs.get(&7).unwrap()[0].action, "join_approved");
    assert_eq!(bot.access_logs.get(&8).unwrap()[0].reason.as_deref(), Some("No linked wallet"));
}

#[test]
fn blacklisted_wallets_are_kicked() {
    let mut bot = TelegramBouncerBot::new("token", "https://hook");
    bot.start_wallet_linking_at(7, "0xBAD", 0).unwrap();
    bot.complete_wallet_linking_at("VERIFY_7", "VERIFY_7 0xBAD ok", 1).unwrap();
    let mut req = requirements();
    req.blacklist_wallets = vec!["0xBAD".to_string()];
    bot.configure_group(
        -5,
        GroupConfig {
            chat_id: -5,
            group_name: "g".to_string(),
            access_requirements: req,
            auto_kick_enabled: true,
            welcome_message: Some("hi".to_string()),
            rules_message: None,
            admin_notifications: false,
        },
    );
    let update = TelegramUpdate {
        update_id: 3,
        message: Some(TelegramMessage {
            message_id: 3,
            from: None,
            chat: chat(-5),
            text: None,
            new_chat_members: Some(vec![user(7, "Ann")]),
        }),
        callback_query: None,
    };
    let rs = bot.handle_telegram_update_at(update, 10).unwrap();
    match &rs[0] {
        TelegramResponse::KickChatMember { chat_id, user_id, reason } => {
            assert_eq!((*chat_id, *user_id), (-5, 7));
            assert_eq!(reason, "Wallet does not meet group requirements");
        }
        _ => panic!("expected a kick"),
    }
    assert!(!bot.access_logs.get(&7).unwrap()[0].success);
}

#[test]
fn access_requirements() {
    let acct = linked("0xW", 500);
    let mut req = requirements();
    assert!(check_access_requirements(&acct, &req));
    req.min_balance = Some(1001);
    assert!(!check_access_requirements(&acct, &req));
    req.min_balance = Some(1000);
    req.min_reputation = Some(501);
    assert!(!check_access_requirements(&acct, &req));
    req.min_reputation = Some(500);
    req.whitelist_wallets = vec!["0xOTHER".to_string()];
    assert!(!check_access_requirements(&acct, &req));
    req.whitelist_wallets.push("0xW".to_string());
    assert!(check_access_requirements(&acct, &req));
}

#[test]
fn callback_buttons() {
    let bot = TelegramBouncerBot::new("token", "https://hook");
    let press = |data: Option<&str>| CallbackQuery { id: "cb1".to_string(), from: user(5, "A"), data: data.map(|d| d.to_string()) };
    match bot.handle_callback_query(&press(Some("link_wallet_42"))).unwrap() {
        TelegramResponse::SendMessage { chat_id, text, .. } => {
            assert_eq!(chat_id, 5);
            assert_eq!(text, "🔗 To link your wallet, send:\n/link <your_wallet_address>");
        }
        _ => panic!("expected instructions"),
    }
    assert!(bot.handle_callback_query(&press(Some("link_wallet_link_wallet_-3"))).is_ok());
    assert_eq!(
        bot.handle_callback_query(&press(Some("link_wallet_x"))).err(),
        Some("Invalid callback data".to_string())
    );
    match bot.handle_callback_query(&press(Some("other"))).unwrap() {
        TelegramResponse::AnswerCallbackQuery { callback_query_id, text } => {
            assert_eq!(callback_query_id, "cb1");
            assert_eq!(text.as_deref(), Some("Processing..."));
        }
        _ => panic!("expected an acknowledgement"),
    }
}

#[test]
fn signatures_and_status_text() {
    assert!(verify_wallet_signature("0xW", "sig:0xW:CODE", "CODE"));
    assert!(!verify_wallet_signature("0xW", "0xW:CODE", "CODE"));
    assert!(!verify_wallet_signature("0xW", "sig:0xZ:CODE", "CODE"));
    let acct = linked("0xW", 375);
    assert_eq!(
        status_reply(&acct, "1970-01-01 00:00 UTC"),
        "✅ *Verification Status*\n\nWallet: `0xW`\nStatus: Verified\nAccess Level: Member\nReputation: 37.5\nLinked: 1970-01-01 00:00 UTC"
    );
}

#[test]
fn an_unknown_code_is_refused_before_the_clock() {
    let mut bot = TelegramBouncerBot::new("token", "https://hook");
    assert_eq!(
        bot.complete_wallet_linking("NOPE", "sig"),
        Err("Invalid or expired verification code".to_string())
    );
}
