use xion_batch::batch::{
    check_funds, instantiate, price_for_denom, Coin, ExecuteMsg, InstantiateMsg, IssuerState,
    Metadata, INSTANTIATE_REPLY, MINT_REPLY,
};
use xion_batch::error::ContractError;
use xion_batch::fixed::{decimal_fraction, meets_floor, DECIMAL_FRACTION_18, DECIMAL_FRACTION_6};
use xion_batch::oracle_helper::PriceResponse;

fn init_msg(floor: u128) -> InstantiateMsg {
    InstantiateMsg {
        cw721_code_id: 7,
        name: "Batch".to_string(),
        symbol: "BTC".to_string(),
        payment_denom: "uxion".to_string(),
        payment_price: floor,
        oracle_helper_addr: "helper".to_string(),
    }
}

fn ready_state(floor: u128) -> IssuerState {
    let (mut state, _) = instantiate("issuer".to_string(), init_msg(floor));
    state.reply(INSTANTIATE_REPLY, Some(address_reply("nft"))).unwrap();
    state
}

fn address_reply(addr: &str) -> Vec<u8> {
    let mut v = vec![0x0a, addr.len() as u8];
    v.extend_from_slice(addr.as_bytes());
    v
}

fn coin(denom: &str, amount: u128) -> Coin {
    Coin { denom: denom.to_string(), amount }
}

fn price(denom: &str, decimal: u8, p: i64) -> PriceResponse {
    PriceResponse { denom: denom.to_string(), decimal, price: p }
}

fn mint(state: &mut IssuerState, sender: &str, funds: Vec<Coin>, prices: Vec<PriceResponse>) -> Result<String, ContractError> {
    state
        .mint_token(&sender.to_string(), &funds, &prices, None, None)
        .map(|m| m.token_id)
}

#[test]
fn instantiate_requests_child_creation() {
    let (state, creation) = instantiate("issuer".to_string(), init_msg(5));
    assert_eq!(state.token, None);
    assert_eq!(state.token_count, 0);
    assert_eq!(state.query_nft_price(), 5);
    assert_eq!(creation.code_id, 7);
    assert_eq!(creation.minter, "issuer");
    assert_eq!(creation.name, "Batch");
    assert_eq!(creation.symbol, "BTC");
    assert_eq!(creation.label, "Nft Contract");
    assert_eq!(creation.reply_id, INSTANTIATE_REPLY);
}

#[test]
fn creation_reply_sets_address_once() {
    let (mut state, _) = instantiate("issuer".to_string(), init_msg(5));
    assert_eq!(state.reply(INSTANTIATE_REPLY, None), Err(ContractError::ParseReply {}));
    assert_eq!(state.reply(INSTANTIATE_REPLY, Some(vec![0x12, 0x01, 0x41])), Err(ContractError::ParseReply {}));
    assert_eq!(state.query_token(), None);
    state.reply(INSTANTIATE_REPLY, Some(address_reply("xion1nft"))).unwrap();
    assert_eq!(state.query_token(), Some("xion1nft".to_string()));
    assert_eq!(
        state.reply(INSTANTIATE_REPLY, Some(address_reply("xion1other"))),
        Err(ContractError::UnrecognizedReply {})
    );
    assert_eq!(state.query_token(), Some("xion1nft".to_string()));
    assert_eq!(state.set_token_address(Some("x".to_string())), Err(ContractError::UnrecognizedReply {}));
}

#[test]
fn unknown_or_unmatched_reply_fails() {
    let mut state = ready_state(0);
    assert_eq!(state.reply(3, None), Err(ContractError::UnrecognizedReply {}));
    assert_eq!(state.reply(MINT_REPLY, None), Err(ContractError::UnrecognizedReply {}));
    mint(&mut state, "alice", vec![coin("uxion", 1)], vec![price("uxion", 6, 1)]).unwrap();
    assert_eq!(state.pending_mints, 1);
    assert_eq!(state.reply(MINT_REPLY, None), Ok(()));
    assert_eq!(state.pending_mints, 0);
    assert_eq!(state.reply(MINT_REPLY, None), Err(ContractError::UnrecognizedReply {}));
}

#[test]
fn funds_shape_errors() {
    let state = ready_state(0);
    assert_eq!(check_funds(&state, &vec![]), Err(ContractError::MissingFunds {}));
    assert_eq!(
        check_funds(&state, &vec![coin("uxion", 1), coin("uatom", 1)]),
        Err(ContractError::ExtraFunds {})
    );
    assert_eq!(
        check_funds(&state, &vec![coin("uatom", 1)]),
        Err(ContractError::InvalidDenom { got: "uatom".to_string(), expected: "uxion".to_string() })
    );
    assert_eq!(check_funds(&state, &vec![coin("uxion", 1)]), Ok(()));
}

#[test]
fn extra_funds_before_price_lookup() {
    let mut state = ready_state(0);
    let r = mint(&mut state, "alice", vec![coin("uxion", 1), coin("uatom", 2)], vec![]);
    assert_eq!(r, Err(ContractError::ExtraFunds {}));
    assert_eq!(state.token_count, 0);
}

#[test]
fn conversion_example() {
    // 2_000_000 * 100_000_000 / 1_000_000 = 200_000_000
    assert_eq!(meets_floor(2_000_000, 100_000_000, 6, 200_000_000), Ok(true));
    assert_eq!(meets_floor(2_000_000, 100_000_000, 6, 200_000_001), Ok(false));
    assert_eq!(meets_floor(2_000_000, 100_000_000, 6, 200_000_000_000), Ok(false));
    let mut state = ready_state(200_000_000);
    let r = mint(&mut state, "alice", vec![coin("uxion", 2_000_000)], vec![price("uxion", 6, 100_000_000)]);
    assert_eq!(r, Ok("0".to_string()));
    state.update_nft_price(200_000_001);
    let r = mint(&mut state, "alice", vec![coin("uxion", 2_000_000)], vec![price("uxion", 6, 100_000_000)]);
    assert_eq!(r, Err(ContractError::InsufficientFunds {}));
    assert_eq!(state.token_count, 1);
}

#[test]
fn conversion_at_18_places_and_large_amounts() {
    assert_eq!(meets_floor(3_000_000_000_000_000_000, 250, 18, 750), Ok(true));
    assert_eq!(meets_floor(3_000_000_000_000_000_000, 250, 18, 751), Ok(false));
    assert_eq!(meets_floor(u128::MAX, i64::MAX, 6, u128::MAX), Ok(true));
    assert_eq!(meets_floor(999_999, 1, 6, 1), Ok(false));
    assert_eq!(meets_floor(1_000_000, 1, 6, 1), Ok(true));
}

#[test]
fn invalid_decimal_and_negative_price() {
    assert_eq!(meets_floor(1, 1, 8, 0), Err(ContractError::InvalidDecimal {}));
    assert_eq!(meets_floor(1, -1, 6, 0), Err(ContractError::InvalidDecimal {}));
    assert_eq!(decimal_fraction(6), Ok(DECIMAL_FRACTION_6));
    assert_eq!(decimal_fraction(18), Ok(DECIMAL_FRACTION_18));
    assert_eq!(decimal_fraction(0), Err(ContractError::InvalidDecimal {}));
    let mut state = ready_state(0);
    let r = mint(&mut state, "alice", vec![coin("uxion", 5)], vec![price("uxion", 8, 1)]);
    assert_eq!(r, Err(ContractError::InvalidDecimal {}));
}

#[test]
fn missing_price_is_not_found() {
    let mut state = ready_state(0);
    let r = mint(&mut state, "alice", vec![coin("uxion", 5)], vec![price("uatom", 6, 1)]);
    assert_eq!(r, Err(ContractError::NotFound {}));
}

#[test]
fn last_price_answer_counts() {
    let prices = vec![price("uxion", 6, 1), price("uatom", 6, 2), price("uxion", 18, 3)];
    assert_eq!(price_for_denom(&prices, &"uxion".to_string()), Some(price("uxion", 18, 3)));
    assert_eq!(price_for_denom(&prices, &"uatom".to_string()), Some(price("uatom", 6, 2)));
    assert_eq!(price_for_denom(&prices, &"uosmo".to_string()), None);
}

#[test]
fn mint_before_child_creation_fails() {
    let (mut state, _) = instantiate("issuer".to_string(), init_msg(0));
    let r = mint(&mut state, "alice", vec![coin("uxion", 5)], vec![price("uxion", 6, 1)]);
    assert_eq!(r, Err(ContractError::TokenNotReady {}));
}

#[test]
fn token_ids_increase_across_senders() {
    let mut state = ready_state(0);
    let prices = vec![price("uxion", 6, 1)];
    let mut ids = vec![];
    for (i, sender) in ["alice", "bob", "carol", "alice"].iter().enumerate() {
        let m = state
            .mint_token(&sender.to_string(), &vec![coin("uxion", 1)], &prices, Some(format!("uri{}", i)), None)
            .unwrap();
        assert_eq!(m.owner, *sender);
        assert_eq!(m.contract_addr, "nft");
        assert_eq!(m.reply_id, MINT_REPLY);
        assert_eq!(m.token_uri, Some(format!("uri{}", i)));
        ids.push(m.token_id);
    }
    assert_eq!(ids, vec!["0", "1", "2", "3"]);
    assert_eq!(state.token_count, 4);
}

#[test]
fn token_id_is_decimal_text() {
    let mut state = ready_state(0);
    state.token_count = 1234;
    let r = mint(&mut state, "alice", vec![coin("uxion", 1)], vec![price("uxion", 6, 1)]);
    assert_eq!(r, Ok("1234".to_string()));
    state.token_count = u64::MAX;
    let r = mint(&mut state, "alice", vec![coin("uxion", 1)], vec![price("uxion", 6, 1)]);
    assert_eq!(r, Err(ContractError::OverflowError {}));
}

#[test]
fn execute_dispatches() {
    let mut state = ready_state(0);
    let meta = Metadata { name: Some("n".to_string()), ..Metadata::default() };
    let r = state.execute(
        &"alice".to_string(),
        &vec![coin("uxion", 1)],
        &vec![price("uxion", 6, 1)],
        ExecuteMsg::MintToken { extension: Some(meta.clone()), token_uri: None },
    );
    let m = r.unwrap().unwrap();
    assert_eq!(m.extension, Some(meta));
    let r = state.execute(&"bob".to_string(), &vec![], &vec![], ExecuteMsg::UpdateNftPrice { new_price: 9 });
    assert_eq!(r, Ok(None));
    assert_eq!(state.query_nft_price(), 9);
}

#[test]
fn error_messages() {
    assert_eq!(ContractError::Unauthorized {}.message(), "Unauthorized");
    assert_eq!(ContractError::InsufficientFunds {}.message(), "Insufficient funds!");
}
