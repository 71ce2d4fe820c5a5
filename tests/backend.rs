use market_backend::backend::{
    Backend, StatusChange, TradeError, TransitionError, ValidationError, INSIGHT_TTL,
};
use market_backend::identity::{username_from_text, Identity};
use market_backend::insight::{
    chat_request, failed_call_insight, parse_ai_response, invalid_config_insight, ChatRole,
};
use market_backend::market::MarketStatus;
use market_backend::pricing::calculate_price;

fn who(b: u8) -> Identity {
    Identity::from_bytes(vec![b, 7, 7]).unwrap()
}

#[test]
fn create_market_after_seed_gets_id_four() {
    let mut b = Backend::init();
    let id = b
        .create_market(
            "Will X happen?".to_string(),
            "desc".to_string(),
            "Test".to_string(),
            2000000000,
            who(1),
            5,
        )
        .unwrap();
    assert_eq!(id, 4);
    let m = b.get_market(4).unwrap();
    assert_eq!(m.status, MarketStatus::PendingValidation);
    assert_eq!(m.yes_shares, 500);
    assert_eq!(m.no_shares, 500);
    assert_eq!(m.yes_liquidity, 5000);
    assert_eq!(m.no_liquidity, 5000);
    assert_eq!(m.total_volume, 0);
    assert_eq!(m.title, "Will X happen?");
    assert_eq!(m.category, "Test");
    assert_eq!(m.close_date, 2000000000);
    assert_eq!(m.created_at, 5);
}

#[test]
fn create_market_rejects_empty_fields() {
    let mut b = Backend::init();
    let r = b.create_market(String::new(), "d".to_string(), "c".to_string(), 1, who(1), 1);
    assert_eq!(r, Err(ValidationError::EmptyTitleOrDescription));
    let r = b.create_market("t".to_string(), String::new(), "c".to_string(), 1, who(1), 1);
    assert_eq!(r, Err(ValidationError::EmptyTitleOrDescription));
    assert_eq!(b.next_market_id, 4);
    assert_eq!(b.get_markets().len(), 3);
}

#[test]
fn buy_yes_on_seeded_market() {
    let mut b = Backend::init();
    let t = b.buy_shares(1, true, 100, who(1), 42).unwrap();
    assert_eq!(t.price, 568);
    assert_eq!(t.id, 1);
    assert_eq!(t.shares, 100);
    assert_eq!(t.market_id, 1);
    assert_eq!(t.timestamp, 42);
    let m = b.get_market(1).unwrap();
    assert_eq!(m.yes_shares, 550);
    assert_eq!(m.yes_liquidity, 4600);
    assert_eq!(m.no_shares, 550);
    assert_eq!(m.no_liquidity, 5500);
    assert_eq!(m.total_volume, 2600);
    assert_eq!(b.get_treasury_balance(), 2);
}

#[test]
fn buy_no_conserves_and_prices() {
    let mut b = Backend::init();
    let t = b.buy_shares(1, false, 100, who(1), 1).unwrap();
    assert_eq!(t.price, 436);
    let m = b.get_market(1).unwrap();
    assert_eq!(m.no_shares, 650);
    assert_eq!(m.no_liquidity, 5600);
    assert_eq!(m.yes_shares, 450);
    assert_eq!(m.yes_liquidity, 4500);
    assert_eq!(m.total_volume, 2600);
    let t = b.buy_shares(2, false, 1234, who(1), 2).unwrap();
    assert_eq!(t.price, 50);
    assert_eq!(b.get_treasury_balance(), 2 + 24);
}

#[test]
fn buy_errors_leave_state_alone() {
    let mut b = Backend::init();
    assert_eq!(b.buy_shares(1, true, 0, who(1), 1).err(), Some(TradeError::InvalidAmount));
    assert_eq!(b.buy_shares(99, true, 10, who(1), 1).err(), Some(TradeError::NotFound));
    let id = b
        .create_market("t".to_string(), "d".to_string(), "c".to_string(), 1, who(1), 1)
        .unwrap();
    assert_eq!(b.buy_shares(id, true, 10, who(1), 1).err(), Some(TradeError::MarketNotActive));
    assert_eq!(b.get_treasury_balance(), 0);
    assert_eq!(b.next_trade_id, 1);
    assert!(b.get_user_profile(&who(1)).is_none());
    assert_eq!(b.get_market(1).unwrap().yes_shares, 450);
}

#[test]
fn market_and_trade_log_change_together() {
    let mut b = Backend::init();
    assert!(b.get_market_trades(3).is_empty());
    let t = b.buy_shares(3, true, 50, who(2), 9).unwrap();
    let m = b.get_market(3).unwrap();
    let log = b.get_market_trades(3);
    assert_eq!(m.yes_shares, 350);
    assert_eq!(log.len(), 1);
    assert_eq!(log[0].id, t.id);
    assert_eq!(log[0].price, t.price);
    assert!(b.get_market_trades(1).is_empty());
}

#[test]
fn ids_increase_across_kinds() {
    let mut b = Backend::init();
    let m1 = b.create_market("a".to_string(), "b".to_string(), "c".to_string(), 1, who(1), 1).unwrap();
    let c1 = b.add_comment(1, "hi".to_string(), who(1), 1).unwrap();
    let t1 = b.buy_shares(1, true, 10, who(1), 1).unwrap().id;
    let m2 = b.create_market("a".to_string(), "b".to_string(), "c".to_string(), 1, who(1), 1).unwrap();
    let t2 = b.buy_shares(2, true, 10, who(1), 1).unwrap().id;
    let c2 = b.add_comment(1, "yo".to_string(), who(1), 1).unwrap();
    assert_eq!((m1, m2), (4, 5));
    assert_eq!((t1, t2), (1, 2));
    assert_eq!((c1, c2), (1, 2));
}

#[test]
fn comments_are_validated_and_listed() {
    let mut b = Backend::init();
    assert_eq!(b.add_comment(1, String::new(), who(1), 1), Err(ValidationError::CommentLength));
    assert_eq!(b.add_comment(1, "x".repeat(501), who(1), 1), Err(ValidationError::CommentLength));
    assert_eq!(b.add_comment(1, "é".repeat(500), who(1), 1), Ok(1));
    assert_eq!(b.add_comment(1, "hello".to_string(), who(1), 2), Ok(2));
    assert_eq!(b.add_comment(77, "orphan".to_string(), who(1), 3), Ok(3));
    let cs = b.get_market_comments(1);
    assert_eq!(cs.len(), 2);
    assert_eq!(cs[1].content, "hello");
    assert_eq!(cs[1].id, 2);
    assert_eq!(b.get_market_comments(77).len(), 1);
    assert!(b.get_market_comments(2).is_empty());
}

#[test]
fn price_formula_values() {
    assert_eq!(calculate_price(450, 550, true, 100), 568);
    assert_eq!(calculate_price(450, 550, false, 100), 436);
    assert_eq!(calculate_price(0, 0, true, 1), 501);
    assert_eq!(calculate_price(0, 0, true, 450), 950);
    assert_eq!(calculate_price(0, 0, false, 10_000), 50);
    assert_eq!(calculate_price(u64::MAX, u64::MAX, true, u64::MAX), 950);
    assert_eq!(calculate_price(0, 0, true, u64::MAX), 950);
    assert_eq!(calculate_price(u64::MAX - 1000, 0, true, 1000), 500);
}

#[test]
fn price_stays_in_bounds_and_grows_with_amount() {
    let mut last = 0u64;
    for amount in [1u64, 10, 100, 500, 1000, 2000, 10_000, 1_000_000] {
        let p = calculate_price(300, 700, true, amount);
        assert!((50..=950).contains(&p));
        assert!(p >= last);
        last = p;
        let q = calculate_price(300, 700, false, amount);
        assert!((50..=950).contains(&q));
    }
    assert_eq!(calculate_price(300, 700, true, 1_000_000), calculate_price(300, 700, true, 2_000_000));
}

#[test]
fn profiles_created_and_credited() {
    let mut b = Backend::init();
    let anon = Identity::anonymous();
    b.buy_shares(1, true, 100, anon.clone(), 7).unwrap();
    b.buy_shares(2, false, 55, anon.clone(), 8).unwrap();
    let p = b.get_user_profile(&anon).unwrap();
    assert_eq!(p.username, "User2vxsx-fa");
    assert_eq!(p.xp, 15);
    assert_eq!(p.total_trades, 2);
    assert_eq!(p.created_at, 7);
    assert_eq!(p.successful_predictions, 0);
    assert!(p.badges.is_empty());
}

#[test]
fn identity_text_and_username() {
    assert_eq!(Identity::anonymous().text(), "2vxsx-fae");
    assert_eq!(Identity::anonymous().to_bytes(), vec![4u8]);
    assert_eq!(Identity::from_bytes(vec![]).unwrap().text(), "aaaaa-aa");
    assert_eq!(Identity::anonymous().username(), "User2vxsx-fa");
    assert_eq!(username_from_text("abc"), "Userabc");
    assert_eq!(username_from_text("abcdefghij"), "Userabcdefgh");
    assert!(Identity::from_bytes(vec![0u8; 30]).is_none());
    assert!(Identity::from_bytes(vec![0u8; 29]).is_some());
    assert!(who(1).same(&who(1)));
    assert!(!who(1).same(&who(2)));
}

#[test]
fn leaderboard_orders_by_xp_and_keeps_twenty() {
    let mut b = Backend::init();
    for i in 0..25u8 {
        let amount = 10 * (i as u64 % 7 + 1);
        b.buy_shares(1, true, amount, who(i), 1).unwrap();
    }
    let board = b.get_leaderboard();
    assert_eq!(board.len(), 20);
    for w in board.windows(2) {
        assert!(w[0].xp >= w[1].xp);
    }
    assert_eq!(board[0].xp, 7);
    let left_out_max = 1;
    assert!(board.iter().all(|p| p.xp >= left_out_max));
}

#[test]
fn leaderboard_small() {
    let mut b = Backend::init();
    assert!(b.get_leaderboard().is_empty());
    b.buy_shares(1, true, 30, who(1), 1).unwrap();
    b.buy_shares(1, true, 90, who(2), 1).unwrap();
    let board = b.get_leaderboard();
    assert_eq!(board.len(), 2);
    assert_eq!(board[0].xp, 9);
    assert_eq!(board[1].xp, 3);
}

#[test]
fn insight_cache_is_reused_within_an_hour() {
    let mut b = Backend::init();
    let now = 1_000 * INSIGHT_TTL;
    let id = b.create_market("Q".to_string(), "d".to_string(), "c".to_string(), 1, who(1), 1).unwrap();
    let first = b.get_ai_insight(id, now).unwrap();
    assert_eq!(first.generated_at, now);
    assert_eq!(first.confidence_permille, 750);
    assert_eq!(first.prediction_lean, Some(true));
    assert!(first.summary.starts_with("🤖 AI Analysis for 'Q': Based on"));
    assert_eq!(first.risks.len(), 3);
    let second = b.get_ai_insight(id, now + INSIGHT_TTL - 1).unwrap();
    assert_eq!(second.generated_at, first.generated_at);
    assert_eq!(second.summary, first.summary);
    assert_eq!(second.risks, first.risks);
    let third = b.get_ai_insight(id, now + INSIGHT_TTL).unwrap();
    assert_eq!(third.generated_at, now + INSIGHT_TTL);
}

#[test]
fn insight_for_unknown_market_is_absent() {
    let mut b = Backend::init();
    assert!(b.get_ai_insight(42, 5).is_none());
    assert!(b.fresh_insight(42, 5).is_none());
}

#[test]
fn seeded_insight_served_while_fresh() {
    let mut b = Backend::init();
    let x = b.get_ai_insight(1, 1767292799 + 10).unwrap();
    assert_eq!(x.confidence_permille, 720);
    assert!(x.summary.starts_with("Bitcoin has shown"));
    let y = b.get_ai_insight(1, 1767292799 + INSIGHT_TTL).unwrap();
    assert_eq!(y.confidence_permille, 750);
    assert!(y.summary.contains("Will Bitcoin reach $150,000 by end of 2025?"));
}

#[test]
fn remote_path_insights() {
    let r = parse_ai_response(3, "looks good", 9);
    assert_eq!(r.summary, "looks good");
    assert_eq!(r.confidence_permille, 700);
    assert_eq!(r.prediction_lean, None);
    assert_eq!(r.risks, vec!["Market volatility".to_string(), "Unexpected events".to_string()]);
    let f = failed_call_insight(3, "Timeout", 9);
    assert_eq!(f.summary, "AI analysis call failed: Timeout. Your Python agent may be offline or unreachable.");
    assert_eq!(f.confidence_permille, 300);
    let c = invalid_config_insight(3, 9);
    assert_eq!(c.confidence_permille, 100);
    assert_eq!(c.risks, vec!["Configuration error".to_string()]);
    let mut b = Backend::init();
    b.store_insight(r);
    assert_eq!(b.fresh_insight(3, 10).unwrap().summary, "looks good");
}

#[test]
fn chat_request_has_system_then_prompt() {
    let req = chat_request("Analyze".to_string());
    assert_eq!(req.model, "gpt-4o-mini");
    assert_eq!(req.messages.len(), 2);
    assert_eq!(req.messages[0].role, ChatRole::System);
    assert_eq!(req.messages[1].role, ChatRole::User);
    assert_eq!(req.messages[1].content, "Analyze");
}

#[test]
fn trade_fit_check_catches_overflow() {
    let b = Backend::init();
    assert!(b.check_trade_fits(1, true, 100, &who(1)));
    assert!(!b.check_trade_fits(1, true, u64::MAX, &who(1)));
    assert!(b.check_trade_fits(99, true, 100, &who(1)));
}

#[test]
fn lifecycle_steps_are_guarded() {
    let mut b = Backend::init();
    let id = b.create_market("t".to_string(), "d".to_string(), "c".to_string(), 1, who(1), 1).unwrap();
    assert_eq!(b.change_status(id, StatusChange::Close), Err(TransitionError::NotAllowed));
    assert_eq!(b.change_status(99, StatusChange::Approve), Err(TransitionError::NotFound));
    assert_eq!(b.change_status(id, StatusChange::Approve), Ok(()));
    assert_eq!(b.get_market(id).unwrap().status, MarketStatus::Active);
    assert!(b.buy_shares(id, true, 10, who(1), 2).is_ok());
    assert_eq!(b.change_status(id, StatusChange::Resolve(true)), Err(TransitionError::NotAllowed));
    assert_eq!(b.change_status(id, StatusChange::Close), Ok(()));
    assert_eq!(b.buy_shares(id, true, 10, who(1), 3).err(), Some(TradeError::MarketNotActive));
    assert_eq!(b.change_status(id, StatusChange::Resolve(false)), Ok(()));
    let m = b.get_market(id).unwrap();
    assert_eq!(m.status, MarketStatus::Resolved);
    assert_eq!(m.resolved_outcome, Some(false));
    assert_eq!(b.change_status(id, StatusChange::Resolve(true)), Err(TransitionError::NotAllowed));
    assert_eq!(b.get_market(id).unwrap().resolved_outcome, Some(false));
}
