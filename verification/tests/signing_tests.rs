use keepkey_vault::plan::{BitcoinUtxoInput, BitcoinUtxoOutput};
use keepkey_vault::signing::{
    run_signing_script, signer_step, DeviceTxEvent, InputScriptKind, OutputScriptKind,
    SignError, SignerAction, SignerContext, TxAckData, TxRequestEvent, TxRequestKind,
};

const HASH_WIRE_HEX: &str = "0102030405060708090a0b0c0d0e0f101112131415161718191a1b1c1d1e1f20";

fn sample_prev_tx_hex() -> String {
    let mut s = String::new();
    s.push_str("01000000");
    s.push_str("01");
    s.push_str(HASH_WIRE_HEX);
    s.push_str("00000000");
    s.push_str("02abcd");
    s.push_str("ffffffff");
    s.push_str("01");
    s.push_str("8813000000000000");
    s.push_str("0151");
    s.push_str("00000000");
    s
}

// The id under which the signing request references its previous
// transaction; any 32-byte hex id works for the engine's table.
const TXID_HEX: &str = "20202020202020202020202020202020202020202020202020202020202020ff";

fn sample_context() -> SignerContext {
    let inputs = vec![BitcoinUtxoInput {
        address_n_list: vec![2147483692, 2147483648, 2147483648, 0, 0],
        script_type: String::from("p2pkh"),
        amount: String::from("5000"),
        vout: 0,
        txid: String::from(TXID_HEX),
        prev_tx_hex: Some(sample_prev_tx_hex()),
    }];
    let outputs = vec![
        BitcoinUtxoOutput {
            address: String::from("1BitcoinEaterAddressDontSendf59kuE"),
            amount: 4000,
            address_type: String::from("spend"),
            is_change: None,
            address_n_list: None,
            script_type: None,
        },
        BitcoinUtxoOutput {
            address: String::new(),
            amount: 900,
            address_type: String::from("change"),
            is_change: Some(true),
            address_n_list: Some(vec![2147483692, 2147483648, 2147483648, 1, 0]),
            script_type: Some(String::from("p2wpkh")),
        },
    ];
    let req = keepkey_vault::api::transactions::UtxoSignTransactionRequest {
        coin: String::from("Bitcoin"),
        inputs,
        outputs,
        version: None,
        lock_time: None,
    };
    let (plan, prevs) = req.build_plan().expect("plan builds");
    assert_eq!(plan.version, 1);
    assert_eq!(plan.lock_time, 0);
    assert_eq!(plan.inputs[0].script_type, InputScriptKind::SpendAddress);
    assert_eq!(plan.outputs[0].script_type, OutputScriptKind::PayToAddress);
    assert_eq!(plan.outputs[1].script_type, OutputScriptKind::PayToWitness);
    assert!(plan.outputs[1].is_change);
    SignerContext::new(plan, prevs)
}

fn req(kind: TxRequestKind, index: Option<u32>, hash: Option<Vec<u8>>) -> TxRequestEvent {
    TxRequestEvent {
        kind,
        request_index: index,
        tx_hash: hash,
        serialized_part: None,
        signature: None,
    }
}

#[test]
fn steps_answer_exactly_the_requested_element() {
    let mut ctx = sample_context();
    let prev_key = hex::decode(TXID_HEX).expect("hex");

    // Metadata of the referenced previous transaction, by hash.
    match signer_step(&mut ctx, &req(TxRequestKind::Meta, None, Some(prev_key.clone()))) {
        Ok(SignerAction::Send(TxAckData::Meta(m))) => {
            assert_eq!(m.version, 1);
            assert_eq!(m.inputs_count, 1);
            assert_eq!(m.outputs_count, 1);
            assert_eq!(m.lock_time, 0);
        }
        _ => panic!("expected previous-transaction metadata"),
    }

    // Metadata of the unsigned transaction.
    match signer_step(&mut ctx, &req(TxRequestKind::Meta, None, None)) {
        Ok(SignerAction::Send(TxAckData::Meta(m))) => {
            assert_eq!(m.inputs_count, 1);
            assert_eq!(m.outputs_count, 2);
        }
        _ => panic!("expected plan metadata"),
    }

    // Input 0 of the unsigned transaction.
    match signer_step(&mut ctx, &req(TxRequestKind::Input, Some(0), None)) {
        Ok(SignerAction::Send(TxAckData::PlanInput(x))) => {
            assert_eq!(x.amount, 5000);
            assert_eq!(x.prev_hash, prev_key);
            assert_eq!(x.sequence, 0xffffffff);
        }
        _ => panic!("expected the planned input"),
    }

    // Output 0 of the referenced previous transaction: its binary form.
    match signer_step(&mut ctx, &req(TxRequestKind::Output, Some(0), Some(prev_key.clone()))) {
        Ok(SignerAction::Send(TxAckData::PrevOutput(o))) => {
            assert_eq!(o.amount, 5000);
            assert_eq!(o.script_pubkey, vec![0x51]);
        }
        _ => panic!("expected the previous output"),
    }

    // Output 1 of the unsigned transaction: the change output.
    match signer_step(&mut ctx, &req(TxRequestKind::Output, Some(1), None)) {
        Ok(SignerAction::Send(TxAckData::PlanOutput(o))) => {
            assert_eq!(o.amount, 900);
            assert!(o.is_change);
            assert!(o.address.is_none());
        }
        _ => panic!("expected the planned change output"),
    }

    // Out-of-range and unknown-hash requests are refused.
    assert!(matches!(
        signer_step(&mut ctx, &req(TxRequestKind::Input, Some(7), None)),
        Err(SignError::MissingElement)
    ));
    assert!(matches!(
        signer_step(&mut ctx, &req(TxRequestKind::Input, Some(0), Some(vec![0u8; 32]))),
        Err(SignError::UnknownPreviousTransaction)
    ));
    assert!(matches!(
        signer_step(&mut ctx, &req(TxRequestKind::Input, None, None)),
        Err(SignError::ProtocolViolation)
    ));
}

#[test]
fn scripted_run_stops_at_completion_and_concatenates_fragments() {
    let mut ctx = sample_context();
    let prev_key = hex::decode(TXID_HEX).expect("hex");
    let mut finish = req(TxRequestKind::Finished, None, None);
    finish.serialized_part = Some(vec![0xbe, 0xef]);
    let mut out_req = req(TxRequestKind::Output, Some(0), None);
    out_req.serialized_part = Some(vec![0xde, 0xad]);
    out_req.signature = Some((0, vec![0x30, 0x45]));
    let events = vec![
        DeviceTxEvent::Request(req(TxRequestKind::Meta, None, Some(prev_key))),
        DeviceTxEvent::Request(req(TxRequestKind::Input, Some(0), None)),
        DeviceTxEvent::Request(out_req),
        DeviceTxEvent::Request(finish),
        // nothing after completion is consumed
        DeviceTxEvent::Rejected(String::from("must never be read")),
    ];
    let (hex, consumed) = run_signing_script(&mut ctx, &events).expect("run succeeds");
    assert_eq!(hex, "deadbeef");
    assert_eq!(consumed, 4);
    assert_eq!(ctx.sigs.len(), 1);
    assert_eq!(ctx.sigs[0].0, 0);
}

#[test]
fn rejection_aborts_with_no_partial_result() {
    let mut ctx = sample_context();
    let mut part_req = req(TxRequestKind::Input, Some(0), None);
    part_req.serialized_part = Some(vec![0x01]);
    let events = vec![
        DeviceTxEvent::Request(part_req),
        DeviceTxEvent::Rejected(String::from("user declined")),
    ];
    match run_signing_script(&mut ctx, &events) {
        Err(SignError::DeviceRejected(m)) => assert_eq!(m, "user declined"),
        _ => panic!("expected a device rejection"),
    }
}

#[test]
fn unexpected_message_is_a_protocol_violation() {
    let mut ctx = sample_context();
    let events = vec![DeviceTxEvent::Unexpected];
    assert!(matches!(
        run_signing_script(&mut ctx, &events),
        Err(SignError::ProtocolViolation)
    ));
}

#[test]
fn run_without_completion_is_incomplete() {
    let mut ctx = sample_context();
    let events = vec![DeviceTxEvent::Request(req(TxRequestKind::Input, Some(0), None))];
    assert!(matches!(
        run_signing_script(&mut ctx, &events),
        Err(SignError::Incomplete)
    ));
}

#[test]
fn plan_rejects_bad_inputs_before_any_exchange() {
    let make = |txid: &str, amount: &str, prev: Option<String>| BitcoinUtxoInput {
        address_n_list: vec![0],
        script_type: String::from("p2pkh"),
        amount: String::from(amount),
        vout: 0,
        txid: String::from(txid),
        prev_tx_hex: prev,
    };
    let out: Vec<BitcoinUtxoOutput> = Vec::new();
    let bad_txid = vec![make("zz", "1", Some(sample_prev_tx_hex()))];
    assert!(keepkey_vault::plan::build_sign_plan(
        String::from("Bitcoin"), 1, 0, &bad_txid, &out
    )
    .is_err());
    let bad_amount = vec![make(TXID_HEX, "12x", Some(sample_prev_tx_hex()))];
    assert!(keepkey_vault::plan::build_sign_plan(
        String::from("Bitcoin"), 1, 0, &bad_amount, &out
    )
    .is_err());
    let missing_prev = vec![make(TXID_HEX, "1", None)];
    assert!(keepkey_vault::plan::build_sign_plan(
        String::from("Bitcoin"), 1, 0, &missing_prev, &out
    )
    .is_err());
    let bad_prev = vec![make(TXID_HEX, "1", Some(String::from("0100")))];
    assert!(keepkey_vault::plan::build_sign_plan(
        String::from("Bitcoin"), 1, 0, &bad_prev, &out
    )
    .is_err());
}
