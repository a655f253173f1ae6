use xion_batch::error::ContractError;
use xion_batch::feed::{current_price, FeedPrice, PriceFeed};
use xion_batch::oracle_helper::{ExecuteMsg, InstantiateMsg, PriceData, Registry};

const ID_A: &str = "63f341689d98a12ef60a5cff1d7f85c70a9e17bf1575f0e7c0b2512d48b1c8b3";
const ID_B: &str = "2b89b9dc8fdf9f34709a5b106b472f0f39bb6ca9ce04b0fd7f2e971688e2e53b";

fn record(denom: &str, decimal: u8, price_id: &str) -> PriceData {
    PriceData { denom: denom.to_string(), decimal, price_id: price_id.to_string() }
}

fn registry() -> Registry {
    Registry::instantiate("admin".to_string(), InstantiateMsg { oracle_address: "pyth".to_string() })
}

fn feed(price: i64, publish_time: i64) -> PriceFeed {
    let p = FeedPrice { price, conf: 10, expo: -8, publish_time };
    PriceFeed { id: [0u8; 32], price: p, ema_price: p }
}

fn admin() -> String {
    "admin".to_string()
}

#[test]
fn instantiate_sets_config() {
    let reg = registry();
    let cfg = reg.query_config();
    assert_eq!(cfg.admin, "admin");
    assert_eq!(cfg.oracle_address, "pyth");
    assert!(reg.all_denoms().is_empty());
}

#[test]
fn unknown_denom_is_not_found() {
    let reg = registry();
    let d = "uatom".to_string();
    assert_eq!(reg.price_id(&d), Err(ContractError::NotFound {}));
    assert_eq!(reg.get_price(&d, &feed(5, 100), 100), Err(ContractError::NotFound {}));
    assert_eq!(reg.feed_id(&d), Err(ContractError::NotFound {}));
    assert!(!reg.check_denom(&d));
}

#[test]
fn non_admin_is_unauthorized_and_changes_nothing() {
    let mut reg = registry();
    let other = "mallory".to_string();
    let msgs = vec![
        ExecuteMsg::UpdateOracleAddress { oracle_address: "evil".to_string() },
        ExecuteMsg::SetData { data: record("uxion", 6, ID_A) },
        ExecuteMsg::SetDataBatch { data: vec![record("uxion", 6, ID_A)] },
        ExecuteMsg::RemoveData { price_denom: "uxion".to_string() },
    ];
    for msg in msgs {
        assert_eq!(reg.execute(&other, msg), Err(ContractError::Unauthorized {}));
    }
    assert_eq!(reg.query_config().oracle_address, "pyth");
    assert!(reg.all_denoms().is_empty());
    assert_eq!(reg.check_admin(&other), Err(ContractError::Unauthorized {}));
    assert_eq!(reg.check_admin(&admin()), Ok(()));
}

#[test]
fn set_then_price_id_round_trips() {
    let mut reg = registry();
    reg.execute(&admin(), ExecuteMsg::SetData { data: record("uxion", 6, ID_A) }).unwrap();
    assert_eq!(reg.price_id(&"uxion".to_string()), Ok(ID_A.to_string()));
    assert!(reg.check_denom(&"uxion".to_string()));
    reg.execute(&admin(), ExecuteMsg::SetData { data: record("uxion", 18, ID_B) }).unwrap();
    assert_eq!(reg.price_id(&"uxion".to_string()), Ok(ID_B.to_string()));
    assert_eq!(reg.all_denoms(), vec!["uxion".to_string()]);
}

#[test]
fn remove_absent_is_noop_and_remove_twice() {
    let mut reg = registry();
    reg.execute(&admin(), ExecuteMsg::SetData { data: record("uxion", 6, ID_A) }).unwrap();
    assert_eq!(reg.execute(&admin(), ExecuteMsg::RemoveData { price_denom: "uatom".to_string() }), Ok(()));
    assert_eq!(reg.all_denoms(), vec!["uxion".to_string()]);
    assert_eq!(reg.execute(&admin(), ExecuteMsg::RemoveData { price_denom: "uxion".to_string() }), Ok(()));
    assert!(!reg.check_denom(&"uxion".to_string()));
    assert_eq!(reg.execute(&admin(), ExecuteMsg::RemoveData { price_denom: "uxion".to_string() }), Ok(()));
    assert!(reg.all_denoms().is_empty());
}

#[test]
fn denoms_are_listed_in_ascending_order() {
    let mut reg = registry();
    let batch = vec![
        record("uxion", 6, ID_A),
        record("ibc/ABC", 6, ID_B),
        record("aevmos", 18, ID_A),
        record("uxi", 6, ID_B),
    ];
    reg.execute(&admin(), ExecuteMsg::SetDataBatch { data: batch }).unwrap();
    assert_eq!(reg.all_denoms(), vec!["aevmos", "ibc/ABC", "uxi", "uxion"]);
}

#[test]
fn batch_upsert_last_record_wins() {
    let mut reg = registry();
    let batch = vec![record("uxion", 6, ID_A), record("uxion", 18, ID_B)];
    reg.execute(&admin(), ExecuteMsg::SetDataBatch { data: batch }).unwrap();
    assert_eq!(reg.price_id(&"uxion".to_string()), Ok(ID_B.to_string()));
    assert_eq!(reg.all_denoms().len(), 1);
}

#[test]
fn update_oracle_address_by_admin() {
    let mut reg = registry();
    reg.execute(&admin(), ExecuteMsg::UpdateOracleAddress { oracle_address: "pyth2".to_string() }).unwrap();
    assert_eq!(reg.query_config().oracle_address, "pyth2");
}

#[test]
fn staleness_boundary() {
    let mut reg = registry();
    reg.execute(&admin(), ExecuteMsg::SetData { data: record("uxion", 6, ID_A) }).unwrap();
    let d = "uxion".to_string();
    let now = 1_700_000_000i64;
    let ok = reg.get_price(&d, &feed(123, now - 60), now).unwrap();
    assert_eq!(ok.denom, "uxion");
    assert_eq!(ok.decimal, 6);
    assert_eq!(ok.price, 123);
    assert_eq!(reg.get_price(&d, &feed(123, now - 61), now), Err(ContractError::PriceUnavailable {}));
    assert_eq!(reg.get_price(&d, &feed(7, now + 60), now).unwrap().price, 7);
    assert_eq!(reg.get_price(&d, &feed(7, now + 61), now), Err(ContractError::PriceUnavailable {}));
}

#[test]
fn staleness_without_overflow_at_extremes() {
    assert_eq!(current_price(&feed(1, i64::MIN), i64::MAX), None);
    assert_eq!(current_price(&feed(1, i64::MAX), i64::MIN), None);
    assert_eq!(current_price(&feed(1, i64::MAX), i64::MAX).unwrap().price, 1);
}

#[test]
fn all_prices_in_listing_order_or_none() {
    let mut reg = registry();
    let batch = vec![record("uxion", 6, ID_A), record("aevmos", 18, ID_B)];
    reg.execute(&admin(), ExecuteMsg::SetDataBatch { data: batch }).unwrap();
    let now = 1000i64;
    let prices = reg.get_all_prices(&vec![feed(1, now), feed(2, now - 10)], now).unwrap();
    assert_eq!(prices.len(), 2);
    assert_eq!(prices[0].denom, "aevmos");
    assert_eq!(prices[0].decimal, 18);
    assert_eq!(prices[0].price, 1);
    assert_eq!(prices[1].denom, "uxion");
    assert_eq!(prices[1].price, 2);
    assert_eq!(
        reg.get_all_prices(&vec![feed(1, now), feed(2, now - 100)], now),
        Err(ContractError::PriceUnavailable {})
    );
}

#[test]
fn feed_id_decodes_hex() {
    let mut reg = registry();
    reg.execute(&admin(), ExecuteMsg::SetData { data: record("uxion", 6, ID_A) }).unwrap();
    let id = reg.feed_id(&"uxion".to_string()).unwrap();
    assert_eq!(id[0], 0x63);
    assert_eq!(id[1], 0xf3);
    assert_eq!(id[31], 0xb3);
    let upper = ID_A.to_uppercase();
    reg.execute(&admin(), ExecuteMsg::SetData { data: record("uatom", 6, &upper) }).unwrap();
    assert_eq!(reg.feed_id(&"uatom".to_string()).unwrap(), id);
    assert_eq!(reg.feed_ids().unwrap(), vec![id, id]);
}

#[test]
fn feed_id_rejects_bad_hex() {
    let mut reg = registry();
    reg.execute(&admin(), ExecuteMsg::SetData { data: record("uxion", 6, "abcd") }).unwrap();
    assert_eq!(reg.feed_id(&"uxion".to_string()), Err(ContractError::InvalidPriceId {}));
    assert_eq!(reg.feed_ids(), Err(ContractError::InvalidPriceId {}));
    let with_prefix = format!("0x{}", &ID_A[2..]);
    reg.execute(&admin(), ExecuteMsg::SetData { data: record("uxion", 6, &with_prefix) }).unwrap();
    assert_eq!(reg.feed_id(&"uxion".to_string()), Err(ContractError::InvalidPriceId {}));
}
