use keepkey_vault::eth::{build_eth_tx_plan, EthereumTxFields};

fn fields() -> EthereumTxFields {
    EthereumTxFields {
        nonce: String::from("0x01"),
        gas_price: Some(String::from("0x04a817c800")),
        gas_limit: String::from("5208"),
        to: String::from("0x000102030405060708090a0b0c0d0e0f10111213"),
        value: String::from("0x0de0b6b3a7640000"),
        data: None,
        chain_id: 1,
        max_fee_per_gas: None,
        max_priority_fee_per_gas: None,
    }
}

#[test]
fn hex_fields_decode_with_or_without_the_prefix() {
    let plan = build_eth_tx_plan(&fields());
    assert_eq!(plan.nonce, Some(vec![0x01]));
    assert_eq!(plan.gas_price, Some(vec![0x04, 0xa8, 0x17, 0xc8, 0x00]));
    assert_eq!(plan.gas_limit, Some(vec![0x52, 0x08]));
    assert_eq!(
        plan.to,
        Some((0u8..=0x13).collect::<Vec<u8>>())
    );
    assert_eq!(plan.chain_id, 1);
    assert_eq!(plan.data_initial_chunk, None);
    assert_eq!(plan.max_fee_per_gas, None);
}

#[test]
fn empty_destination_means_no_recipient() {
    let mut f = fields();
    f.to = String::new();
    let plan = build_eth_tx_plan(&f);
    assert_eq!(plan.to, None);
}

#[test]
fn undecodable_fields_stay_unset() {
    let mut f = fields();
    f.nonce = String::from("0xzz");
    f.gas_limit = String::from("123"); // odd length
    let plan = build_eth_tx_plan(&f);
    assert_eq!(plan.nonce, None);
    assert_eq!(plan.gas_limit, None);
    // the rest still decodes
    assert!(plan.value.is_some());
}

#[test]
fn two_part_fees_are_carried() {
    let mut f = fields();
    f.gas_price = None;
    f.max_fee_per_gas = Some(String::from("0x3b9aca00"));
    f.max_priority_fee_per_gas = Some(String::from("0x01"));
    let plan = build_eth_tx_plan(&f);
    assert_eq!(plan.gas_price, None);
    assert_eq!(plan.max_fee_per_gas, Some(vec![0x3b, 0x9a, 0xca, 0x00]));
    assert_eq!(plan.max_priority_fee_per_gas, Some(vec![0x01]));
}
