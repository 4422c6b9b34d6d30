use truemarket::{
    calc_buy_amount, compute_fee_split, validate_fees, Action, Error, Fees, MarketState, Message,
    Operation, RuntimeContext, TruemarketContract,
};

const APP: u64 = 999;
const ALICE: u64 = 1;
const BOB: u64 = 2;
const TREASURY: u64 = 11;
const DISTRIBUTOR: u64 = 12;
const ARBITRATOR: u64 = 13;
const MANAGER: u64 = 14;
const TOKEN: u64 = 77;
const CHAIN_MARKET: u64 = 100;
const CHAIN_USER: u64 = 200;

fn op_ctx(chain_id: u64, signer: Option<u64>) -> RuntimeContext {
    RuntimeContext {
        chain_id,
        creator_chain_id: CHAIN_MARKET,
        authenticated_signer: signer,
        message_origin_chain_id: None,
        block_time: 1000,
        application_account: APP,
    }
}

fn msg_ctx(chain_id: u64, origin: u64) -> RuntimeContext {
    RuntimeContext {
        chain_id,
        creator_chain_id: CHAIN_MARKET,
        authenticated_signer: None,
        message_origin_chain_id: Some(origin),
        block_time: 1000,
        application_account: APP,
    }
}

fn zero_fees() -> Fees {
    Fees { fee: 0, treasury_fee: 0, distributor_fee: 0 }
}

fn create(contract: &mut TruemarketContract, value: u128, outcomes: u32, fees: Fees) -> Vec<Action> {
    let ctx = op_ctx(CHAIN_MARKET, Some(ALICE));
    contract
        .create_market(
            &ctx,
            value,
            2000,
            outcomes,
            TOKEN,
            vec![],
            "will it rain".to_string(),
            "img".to_string(),
            ARBITRATOR,
            fees,
            fees,
            TREASURY,
            DISTRIBUTOR,
            3600,
            MANAGER,
        )
        .unwrap()
}

#[test]
fn create_seeds_uniform_pools() {
    let mut c = TruemarketContract::new();
    let actions = create(&mut c, 100, 2, zero_fees());
    assert_eq!(c.state.market_index, 1);
    let m = &c.state.markets[0];
    assert_eq!(m.id, 0);
    assert_eq!(m.outcome_count, 2);
    assert_eq!(m.outcomes.len(), 2);
    for (k, o) in m.outcomes.iter().enumerate() {
        assert_eq!(o.id, k as u32);
        assert_eq!(o.shares_available, 100);
        assert_eq!(o.shares_total, 100);
    }
    assert_eq!(m.shares_available, 200);
    assert_eq!(m.liquidity, 100);
    assert_eq!(m.balance, 100);
    assert_eq!(m.fee_accumulator, 0);
    assert!(m.state == MarketState::Open);
    assert!(!m.paused);
    assert_eq!(m.question, "will it rain");
    assert_eq!(m.question_id, "q_0_will it rain");
    assert_eq!(
        actions,
        vec![Action::TokenTransfer {
            token: TOKEN,
            owner: ALICE,
            amount: 100,
            target_chain: CHAIN_MARKET,
            target_owner: APP,
        }]
    );
}

#[test]
fn local_buy_matches_ceiling_formula() {
    // Pools of 50 on both outcomes; a 50-unit buy with no fees issues
    // 50 + 50 - ceil(50 * 50 / 100) = 100 - 25 = 75 shares.
    let mut c = TruemarketContract::new();
    create(&mut c, 50, 2, zero_fees());
    let ctx = op_ctx(CHAIN_MARKET, Some(BOB));
    let actions = c
        .execute_operation(
            &ctx,
            Operation::Buy {
                market_id: 0,
                outcome_id: 0,
                min_outcome_shares_to_buy: 0,
                value: 50,
                token: TOKEN,
            },
        )
        .unwrap();
    assert_eq!(c.state.market_shares.get(0, 0, BOB), 75);
    // The receipt of a same-chain buy lands straight in the local cache.
    assert_eq!(c.state.my_shares.get(0, 0), 75);
    let m = &c.state.markets[0];
    assert_eq!(m.outcomes[0].shares_available, 25);
    assert_eq!(m.outcomes[1].shares_available, 100);
    assert_eq!(m.shares_available, 125);
    assert_eq!(m.outcomes[0].shares_total, 100);
    assert_eq!(m.outcomes[1].shares_total, 100);
    assert_eq!(
        actions,
        vec![Action::TokenTransfer {
            token: TOKEN,
            owner: BOB,
            amount: 50,
            target_chain: CHAIN_MARKET,
            target_owner: APP,
        }]
    );
}

#[test]
fn buy_with_fees_keeps_sum_invariant() {
    // 5% total fee split 2%/2%/1%: of a 50-unit buy, 1 unit goes to the
    // protocol, 1 to the treasury, 0 to the distributor (truncation), and
    // 48 units reach the pools.
    let fees = Fees { fee: 200, treasury_fee: 200, distributor_fee: 100 };
    let mut c = TruemarketContract::new();
    create(&mut c, 100, 2, fees);
    let ctx = op_ctx(CHAIN_MARKET, Some(BOB));
    let actions = c
        .execute_operation(
            &ctx,
            Operation::Buy {
                market_id: 0,
                outcome_id: 0,
                min_outcome_shares_to_buy: 0,
                value: 50,
                token: TOKEN,
            },
        )
        .unwrap();
    // Shares issued against pools (100, 100) with 48 units:
    // ceil(100 * 100 / 148) = 68, so 100 + 48 - 68 = 80.
    assert_eq!(c.state.market_shares.get(0, 0, BOB), 80);
    let m = &c.state.markets[0];
    assert_eq!(m.fee_accumulator, 1);
    assert_eq!(m.balance, 148);
    assert_eq!(m.outcomes[0].shares_available, 68);
    assert_eq!(m.outcomes[1].shares_available, 148);
    assert_eq!(m.shares_available, 68 + 148);
    assert_eq!(
        actions,
        vec![
            Action::TokenTransfer {
                token: TOKEN,
                owner: BOB,
                amount: 50,
                target_chain: CHAIN_MARKET,
                target_owner: APP,
            },
            Action::TokenTransfer {
                token: TOKEN,
                owner: APP,
                amount: 1,
                target_chain: CHAIN_MARKET,
                target_owner: TREASURY,
            },
        ]
    );
}

#[test]
fn issued_shares_increase_with_payment() {
    let mut c = TruemarketContract::new();
    create(&mut c, 100, 2, zero_fees());
    let m = &c.state.markets[0];
    // ceil(100 * 100 / 110) = 91, shares = 100 + 10 - 91 = 19.
    let s10 = calc_buy_amount(m, 10, 0).unwrap();
    // ceil(100 * 100 / 120) = 84, shares = 100 + 20 - 84 = 36.
    let s20 = calc_buy_amount(m, 20, 0).unwrap();
    assert_eq!(s10, 19);
    assert_eq!(s20, 36);
    assert!(s10 < s20);
}

#[test]
fn fee_components_never_exceed_value() {
    let max_fees = Fees { fee: 500, treasury_fee: 500, distributor_fee: 500 };
    let split = compute_fee_split(10_000, &max_fees).unwrap();
    assert_eq!(split.fee, 500);
    assert_eq!(split.treasury_fee, 500);
    assert_eq!(split.distributor_fee, 500);
    assert!(split.fee + split.treasury_fee + split.distributor_fee <= 10_000);
    assert_eq!(split.remaining, 8_500);

    // Truncation leaves small values whole.
    let split = compute_fee_split(3, &max_fees).unwrap();
    assert_eq!((split.fee, split.treasury_fee, split.distributor_fee), (0, 0, 0));
    assert_eq!(split.remaining, 3);

    assert!(validate_fees(&max_fees).is_ok());
    assert_eq!(
        validate_fees(&Fees { fee: 501, treasury_fee: 0, distributor_fee: 0 }),
        Err(Error::FeeTooHigh)
    );
}

#[test]
fn remote_buy_without_receipt_leaves_cache_empty() {
    // Market chain holds the market; the user chain runs the buy.
    let mut market_chain = TruemarketContract::new();
    create(&mut market_chain, 100, 2, zero_fees());
    let mut user_chain = TruemarketContract::new();

    // Step 1, on the user chain: push funds, send the instruction.
    let ctx_user = op_ctx(CHAIN_USER, Some(BOB));
    let actions = user_chain
        .execute_operation(
            &ctx_user,
            Operation::Buy {
                market_id: 0,
                outcome_id: 0,
                min_outcome_shares_to_buy: 0,
                value: 50,
                token: TOKEN,
            },
        )
        .unwrap();
    let instruction = Message::Buy {
        market_id: 0,
        outcome_id: 0,
        min_outcome_shares_to_buy: 0,
        owner: BOB,
        value: 50,
        return_chain_id: CHAIN_USER,
    };
    assert_eq!(
        actions,
        vec![
            Action::TokenTransfer {
                token: TOKEN,
                owner: BOB,
                amount: 50,
                target_chain: CHAIN_MARKET,
                target_owner: APP,
            },
            Action::SendMessage { destination: CHAIN_MARKET, message: instruction },
        ]
    );
    assert!(user_chain.state.markets.is_empty());

    // Step 2, on the market chain: execute the trade, emit the receipt.
    // Shares issued: ceil(100 * 100 / 150) = 67, so 100 + 50 - 67 = 83.
    let ctx_market = msg_ctx(CHAIN_MARKET, CHAIN_USER);
    let receipt_actions = market_chain.execute_message(&ctx_market, instruction).unwrap();
    assert_eq!(market_chain.state.market_shares.get(0, 0, BOB), 83);
    assert_eq!(
        receipt_actions,
        vec![Action::SendMessage {
            destination: CHAIN_USER,
            message: Message::ShareMinted { market_id: 0, outcome_id: 0, amount: 83 },
        }]
    );

    // Step 3 never happens: the receipt is lost in transit. The ledger on
    // the market chain shows the purchase; the user chain's cache stays
    // empty, and nothing reconciles them.
    assert_eq!(user_chain.state.my_shares.get(0, 0), 0);
    assert!(user_chain.state.my_shares_view(0).is_empty());
}

#[test]
fn forged_receipt_is_rejected() {
    let mut user_chain = TruemarketContract::new();
    let receipt = Message::ShareMinted { market_id: 0, outcome_id: 0, amount: 83 };
    // Declared origin 555 is not the market chain.
    let ctx = msg_ctx(CHAIN_USER, 555);
    assert_eq!(user_chain.execute_message(&ctx, receipt), Err(Error::ForgedReceipt));
    assert_eq!(user_chain.state.my_shares.get(0, 0), 0);
}

#[test]
fn genuine_receipt_credits_cache() {
    let mut user_chain = TruemarketContract::new();
    let receipt = Message::ShareMinted { market_id: 0, outcome_id: 0, amount: 83 };
    let ctx = msg_ctx(CHAIN_USER, CHAIN_MARKET);
    let actions = user_chain.execute_message(&ctx, receipt).unwrap();
    assert!(actions.is_empty());
    assert_eq!(user_chain.state.my_shares.get(0, 0), 83);
}

#[test]
fn replayed_receipt_credits_twice() {
    // The receipt handler has no deduplication: an at-least-once transport
    // that redelivers a receipt credits the cache again. This is a known
    // risk of the design, pinned down here as current behaviour.
    let mut user_chain = TruemarketContract::new();
    let receipt = Message::ShareMinted { market_id: 0, outcome_id: 0, amount: 83 };
    let ctx = msg_ctx(CHAIN_USER, CHAIN_MARKET);
    user_chain.execute_message(&ctx, receipt).unwrap();
    user_chain.execute_message(&ctx, receipt).unwrap();
    assert_eq!(user_chain.state.my_shares.get(0, 0), 166);
}

#[test]
fn buy_instruction_only_valid_on_market_chain() {
    let mut user_chain = TruemarketContract::new();
    let instruction = Message::Buy {
        market_id: 0,
        outcome_id: 0,
        min_outcome_shares_to_buy: 0,
        owner: BOB,
        value: 50,
        return_chain_id: CHAIN_USER,
    };
    let ctx = msg_ctx(CHAIN_USER, CHAIN_MARKET);
    assert_eq!(user_chain.execute_message(&ctx, instruction), Err(Error::NotMarketChain));
}

#[test]
fn create_market_validation_errors() {
    let mut c = TruemarketContract::new();
    let ctx = op_ctx(CHAIN_MARKET, Some(ALICE));
    let ok = zero_fees();
    let call = |c: &mut TruemarketContract,
                ctx: &RuntimeContext,
                value: u128,
                closes_at: u64,
                outcomes: u32,
                buy_fees: Fees| {
        c.create_market(
            ctx,
            value,
            closes_at,
            outcomes,
            TOKEN,
            vec![],
            "q".to_string(),
            "i".to_string(),
            ARBITRATOR,
            buy_fees,
            ok,
            TREASURY,
            DISTRIBUTOR,
            3600,
            MANAGER,
        )
    };
    assert_eq!(call(&mut c, &ctx, 0, 2000, 2, ok), Err(Error::ZeroValue));
    assert_eq!(call(&mut c, &ctx, 10, 500, 2, ok), Err(Error::ClosingTimeInPast));
    assert_eq!(call(&mut c, &ctx, 10, 2000, 1, ok), Err(Error::InvalidOutcomeCount));
    assert_eq!(call(&mut c, &ctx, 10, 2000, 33, ok), Err(Error::InvalidOutcomeCount));
    let high = Fees { fee: 501, treasury_fee: 0, distributor_fee: 0 };
    assert_eq!(call(&mut c, &ctx, 10, 2000, 2, high), Err(Error::FeeTooHigh));
    assert_eq!(call(&mut c, &ctx, u128::MAX, 2000, 2, ok), Err(Error::Arithmetic));
    let no_signer = op_ctx(CHAIN_MARKET, None);
    assert_eq!(call(&mut c, &no_signer, 10, 2000, 2, ok), Err(Error::MissingSigner));
    assert!(c.state.markets.is_empty());
}

#[test]
fn buy_validation_errors() {
    let mut c = TruemarketContract::new();
    create(&mut c, 100, 2, zero_fees());
    let ctx = op_ctx(CHAIN_MARKET, Some(BOB));
    let buy = |c: &mut TruemarketContract, market_id: u64, outcome_id: u32, min: u128| {
        let op = Operation::Buy {
            market_id,
            outcome_id,
            min_outcome_shares_to_buy: min,
            value: 50,
            token: TOKEN,
        };
        c.execute_operation(&op_ctx(CHAIN_MARKET, Some(BOB)), op)
    };
    assert_eq!(buy(&mut c, 7, 0, 0), Err(Error::MarketNotFound));
    assert_eq!(buy(&mut c, 0, 5, 0), Err(Error::InvalidOutcome));
    // A 50-unit buy on (100, 100) issues 83 shares; demanding more fails.
    assert_eq!(buy(&mut c, 0, 0, 84), Err(Error::Slippage));
    assert_eq!(buy(&mut c, 0, 0, 83).map(|_| ()), Ok(()));

    let mut paused = TruemarketContract::new();
    create(&mut paused, 100, 2, zero_fees());
    paused.state.markets[0].paused = true;
    assert_eq!(buy(&mut paused, 0, 0, 0), Err(Error::MarketPaused));

    let mut closed = TruemarketContract::new();
    create(&mut closed, 100, 2, zero_fees());
    closed.state.markets[0].state = MarketState::Closed;
    assert_eq!(buy(&mut closed, 0, 0, 0), Err(Error::MarketNotOpen));

    let no_signer = op_ctx(CHAIN_MARKET, None);
    assert_eq!(
        c.execute_operation(
            &no_signer,
            Operation::Buy {
                market_id: 0,
                outcome_id: 0,
                min_outcome_shares_to_buy: 0,
                value: 1,
                token: TOKEN,
            },
        ),
        Err(Error::MissingSigner)
    );
    let _ = ctx;
}

#[test]
fn my_shares_view_lists_positive_holdings() {
    let mut user_chain = TruemarketContract::new();
    let ctx = msg_ctx(CHAIN_USER, CHAIN_MARKET);
    user_chain
        .execute_message(&ctx, Message::ShareMinted { market_id: 3, outcome_id: 1, amount: 9 })
        .unwrap();
    user_chain
        .execute_message(&ctx, Message::ShareMinted { market_id: 3, outcome_id: 4, amount: 2 })
        .unwrap();
    user_chain
        .execute_message(&ctx, Message::ShareMinted { market_id: 8, outcome_id: 0, amount: 5 })
        .unwrap();
    let rows = user_chain.state.my_shares_view(3);
    assert_eq!(rows.len(), 2);
    assert_eq!((rows[0].market_id, rows[0].outcome_id, rows[0].amount), (3, 1, 9));
    assert_eq!((rows[1].market_id, rows[1].outcome_id, rows[1].amount), (3, 4, 2));
    assert!(user_chain.state.my_shares_view(5).is_empty());
}

#[test]
fn sequential_market_ids() {
    let mut c = TruemarketContract::new();
    create(&mut c, 100, 2, zero_fees());
    create(&mut c, 70, 3, zero_fees());
    assert_eq!(c.state.market_index, 2);
    assert_eq!(c.state.markets[0].id, 0);
    assert_eq!(c.state.markets[1].id, 1);
    assert_eq!(c.state.markets[1].question_id, "q_1_will it rain");
    assert_eq!(c.state.markets[1].outcomes.len(), 3);
    assert_eq!(c.state.markets[1].shares_available, 210);
}

#[test]
fn sequential_buys_track_pools_exactly() {
    // Three outcomes, seeded with 100 each. First buy: 30 units on
    // outcome 0, folding the other pools in index order:
    // ceil(100 * 100 / 130) = 77, then ceil(77 * 100 / 130) = 60.
    // Shares: 100 + 30 - 60 = 70.
    let mut c = TruemarketContract::new();
    create(&mut c, 100, 3, zero_fees());
    let ctx = op_ctx(CHAIN_MARKET, Some(BOB));
    c.execute_operation(
        &ctx,
        Operation::Buy {
            market_id: 0,
            outcome_id: 0,
            min_outcome_shares_to_buy: 0,
            value: 30,
            token: TOKEN,
        },
    )
    .unwrap();
    {
        let m = &c.state.markets[0];
        assert_eq!(m.outcomes[0].shares_available, 60);
        assert_eq!(m.outcomes[1].shares_available, 130);
        assert_eq!(m.outcomes[2].shares_available, 130);
        assert_eq!(m.shares_available, 320);
    }
    assert_eq!(c.state.market_shares.get(0, 0, BOB), 70);
    // Second buy: 10 units on outcome 2, against pools (60, 130, 130):
    // ceil(130 * 60 / 70) = 112, then ceil(112 * 130 / 140) = 104.
    // Shares: 130 + 10 - 104 = 36.
    c.execute_operation(
        &ctx,
        Operation::Buy {
            market_id: 0,
            outcome_id: 2,
            min_outcome_shares_to_buy: 0,
            value: 10,
            token: TOKEN,
        },
    )
    .unwrap();
    let m = &c.state.markets[0];
    assert_eq!(m.outcomes[0].shares_available, 70);
    assert_eq!(m.outcomes[1].shares_available, 140);
    assert_eq!(m.outcomes[2].shares_available, 104);
    assert_eq!(m.shares_available, 70 + 140 + 104);
    assert_eq!(c.state.market_shares.get(0, 2, BOB), 36);
}

#[test]
fn fee_multiplication_overflow_is_fatal() {
    let fees = Fees { fee: 200, treasury_fee: 200, distributor_fee: 100 };
    let mut c = TruemarketContract::new();
    create(&mut c, 100, 2, fees);
    let ctx = op_ctx(CHAIN_MARKET, Some(BOB));
    assert_eq!(
        c.execute_operation(
            &ctx,
            Operation::Buy {
                market_id: 0,
                outcome_id: 0,
                min_outcome_shares_to_buy: 0,
                value: u128::MAX,
                token: TOKEN,
            },
        ),
        Err(Error::Arithmetic)
    );
    // The failed handler had no effect.
    assert_eq!(c.state.markets[0].shares_available, 200);
    assert_eq!(c.state.market_shares.get(0, 0, BOB), 0);
}

#[test]
fn market_summary_reads_back() {
    let mut c = TruemarketContract::new();
    create(&mut c, 100, 2, zero_fees());
    let v = c.state.market(0).unwrap();
    assert_eq!(v.id, 0);
    assert_eq!(v.question, "will it rain");
    assert_eq!(v.image, "img");
    assert_eq!(v.outcome_count, 2);
    assert!(v.state == MarketState::Open);
    assert!(c.state.market(1).is_none());
}
