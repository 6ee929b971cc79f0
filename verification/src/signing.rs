//! The transaction-signing protocol engine.
//!
//! Signing is a multi-round exchange: the engine announces the
//! transaction's metadata, and the device then asks for one element at a
//! time — an input, an output, or metadata, by index, either of the
//! unsigned transaction or of a referenced previous transaction named by
//! its hash.  The engine answers each request with exactly the element
//! asked for, accumulates the serialized fragments and signatures the
//! device attaches along the way, and stops at the device's completion
//! signal; the fragments, concatenated in arrival order, are the signed
//! transaction.  A rejection or an unexpected message aborts the exchange
//! and no partial result is handed out.

use vstd::prelude::*;
use vstd::string::StringExecFns;

use crate::hexcodec::hex_encode_spec;
use crate::txparse::{ParsedInput, ParsedOutput, ParsedTx, TxInModel, TxModel, TxOutModel};

verus! {

// ---------------------------------------------------------------------
// The unsigned transaction, as the caller plans it
// ---------------------------------------------------------------------
/// How an input is spent, as the device protocol distinguishes them.
#[derive(Clone, Copy, Debug, PartialEq, Eq, Structural)]
pub enum InputScriptKind {
    SpendAddress,
    SpendMultisig,
    SpendWitness,
    SpendP2shWitness,
}

/// How an output's script is built.
#[derive(Clone, Copy, Debug, PartialEq, Eq, Structural)]
pub enum OutputScriptKind {
    PayToAddress,
    PayToScriptHash,
    PayToWitness,
}

/// Model of one planned input.
#[verifier::ext_equal]
pub struct PlanInModel {
    pub address_n: Seq<u32>,
    pub prev_hash: Seq<u8>,
    pub prev_index: u32,
    pub script_type: InputScriptKind,
    pub amount: u64,
    pub sequence: u32,
}

/// Model of one planned output.
#[verifier::ext_equal]
pub struct PlanOutModel {
    pub address: Option<Seq<char>>,
    pub address_n: Seq<u32>,
    pub amount: u64,
    pub script_type: OutputScriptKind,
    pub is_change: bool,
}

/// Model of the whole plan.
#[verifier::ext_equal]
pub struct PlanModel {
    pub coin: Seq<char>,
    pub version: u32,
    pub lock_time: u32,
    pub inputs: Seq<PlanInModel>,
    pub outputs: Seq<PlanOutModel>,
}

/// One input the caller intends to spend: its derivation path, the
/// previous output it spends (hash in display order), and how to sign it.
pub struct UnsignedInput {
    pub address_n: Vec<u32>,
    pub prev_hash: Vec<u8>,
    pub prev_index: u32,
    pub script_type: InputScriptKind,
    pub amount: u64,
    pub sequence: u32,
}

impl View for UnsignedInput {
    type V = PlanInModel;

    open spec fn view(&self) -> PlanInModel {
        PlanInModel {
            address_n: self.address_n@,
            prev_hash: self.prev_hash@,
            prev_index: self.prev_index,
            script_type: self.script_type,
            amount: self.amount,
            sequence: self.sequence,
        }
    }
}

/// One planned output: a spend names a destination address, a change
/// output names a derivation path instead.
pub struct UnsignedOutput {
    pub address: Option<String>,
    pub address_n: Vec<u32>,
    pub amount: u64,
    pub script_type: OutputScriptKind,
    pub is_change: bool,
}

impl View for UnsignedOutput {
    type V = PlanOutModel;

    open spec fn view(&self) -> PlanOutModel {
        PlanOutModel {
            address: match self.address {
                Some(a) => Some(a@),
                None => None,
            },
            address_n: self.address_n@,
            amount: self.amount,
            script_type: self.script_type,
            is_change: self.is_change,
        }
    }
}

/// The unsigned transaction in structured form.
pub struct UnsignedTx {
    pub coin: String,
    pub version: u32,
    pub lock_time: u32,
    pub inputs: Vec<UnsignedInput>,
    pub outputs: Vec<UnsignedOutput>,
}

impl View for UnsignedTx {
    type V = PlanModel;

    open spec fn view(&self) -> PlanModel {
        PlanModel {
            coin: self.coin@,
            version: self.version,
            lock_time: self.lock_time,
            inputs: self.inputs@.map_values(|x: UnsignedInput| x@),
            outputs: self.outputs@.map_values(|x: UnsignedOutput| x@),
        }
    }
}

// ---------------------------------------------------------------------
// What the device sends during the exchange
// ---------------------------------------------------------------------
/// Which element the device asks for.
#[derive(Clone, Copy, Debug, PartialEq, Eq, Structural)]
pub enum TxRequestKind {
    Input,
    Output,
    Meta,
    Finished,
}

/// Model of one element request.
#[verifier::ext_equal]
pub struct TxReqModel {
    pub kind: TxRequestKind,
    pub request_index: Option<u32>,
    pub tx_hash: Option<Seq<u8>>,
    pub serialized_part: Option<Seq<u8>>,
    pub signature: Option<(u32, Seq<u8>)>,
}

/// One element request from the device, with whatever serialized fragment
/// or signature it attached.  The hash, when present, names a referenced
/// previous transaction in wire order, as the device sends it.
pub struct TxRequestEvent {
    pub kind: TxRequestKind,
    pub request_index: Option<u32>,
    pub tx_hash: Option<Vec<u8>>,
    pub serialized_part: Option<Vec<u8>>,
    pub signature: Option<(u32, Vec<u8>)>,
}

impl View for TxRequestEvent {
    type V = TxReqModel;

    open spec fn view(&self) -> TxReqModel {
        TxReqModel {
            kind: self.kind,
            request_index: self.request_index,
            tx_hash: match self.tx_hash {
                Some(h) => Some(h@),
                None => None,
            },
            serialized_part: match self.serialized_part {
                Some(p) => Some(p@),
                None => None,
            },
            signature: match self.signature {
                Some(s) => Some((s.0, s.1@)),
                None => None,
            },
        }
    }
}

/// Everything the device can send in one round of the exchange.
pub enum DeviceTxEvent {
    Request(TxRequestEvent),
    /// An explicit device-side failure, with its message.
    Rejected(String),
    /// Anything else; always a protocol violation.
    Unexpected,
}

// ---------------------------------------------------------------------
// What the engine answers
// ---------------------------------------------------------------------
/// Metadata of a transaction, as one answer to a metadata request.
#[derive(Clone, Copy, Debug, PartialEq, Eq, Structural)]
pub struct TxMetadata {
    pub version: u32,
    pub inputs_count: u32,
    pub outputs_count: u32,
    pub lock_time: u32,
}

/// Model of one answer.
#[verifier::ext_equal]
pub enum ReplyModel {
    PlanInput(PlanInModel),
    PrevInput(TxInModel),
    PlanOutput(PlanOutModel),
    PrevOutput(TxOutModel),
    Meta(TxMetadata),
}

/// One answer: the requested element, ready to be sent back.
pub enum TxAckData {
    PlanInput(UnsignedInput),
    PrevInput(ParsedInput),
    PlanOutput(UnsignedOutput),
    PrevOutput(ParsedOutput),
    Meta(TxMetadata),
}

impl View for TxAckData {
    type V = ReplyModel;

    open spec fn view(&self) -> ReplyModel {
        match self {
            TxAckData::PlanInput(x) => ReplyModel::PlanInput(x@),
            TxAckData::PrevInput(x) => ReplyModel::PrevInput(x@),
            TxAckData::PlanOutput(x) => ReplyModel::PlanOutput(x@),
            TxAckData::PrevOutput(x) => ReplyModel::PrevOutput(x@),
            TxAckData::Meta(m) => ReplyModel::Meta(*m),
        }
    }
}

/// Model of what one step decides.
#[verifier::ext_equal]
pub enum ActionModel {
    SendM(ReplyModel),
    DoneM,
}

/// What one step decides: send an answer, or stop — the device signalled
/// completion.
pub enum SignerAction {
    Send(TxAckData),
    Done,
}

impl View for SignerAction {
    type V = ActionModel;

    open spec fn view(&self) -> ActionModel {
        match self {
            SignerAction::Send(d) => ActionModel::SendM(d@),
            SignerAction::Done => ActionModel::DoneM,
        }
    }
}

/// Why the exchange was aborted.  No partial signature accompanies any of
/// these.
#[derive(Debug)]
pub enum SignError {
    /// The device rejected the transaction, with its message.
    DeviceRejected(String),
    /// A request lacked its element index, or an unexpected message
    /// arrived mid-exchange.
    ProtocolViolation,
    /// The device named a previous transaction that was never provided.
    UnknownPreviousTransaction,
    /// The device asked for an element index past the end.
    MissingElement,
    /// The exchange ended without a completion signal.
    Incomplete,
}

// ---------------------------------------------------------------------
// The engine
// ---------------------------------------------------------------------
/// The engine's state: the plan, the referenced previous transactions
/// keyed by their hash in display order, and what the device has sent
/// back so far.
pub struct SignerContext {
    pub plan: UnsignedTx,
    pub prevs: Vec<(Vec<u8>, ParsedTx)>,
    pub parts: Vec<Vec<u8>>,
    pub sigs: Vec<(u32, Vec<u8>)>,
}

pub open spec fn prevs_view(prevs: Seq<(Vec<u8>, ParsedTx)>) -> Seq<(Seq<u8>, TxModel)> {
    prevs.map_values(|p: (Vec<u8>, ParsedTx)| (p.0@, p.1@))
}

pub open spec fn parts_views(parts: Seq<Vec<u8>>) -> Seq<Seq<u8>> {
    parts.map_values(|v: Vec<u8>| v@)
}

pub open spec fn sigs_views(sigs: Seq<(u32, Vec<u8>)>) -> Seq<(u32, Seq<u8>)> {
    sigs.map_values(|s: (u32, Vec<u8>)| (s.0, s.1@))
}

/// The first previous transaction stored under a hash, if any.
pub open spec fn lookup_prev(prevs: Seq<(Seq<u8>, TxModel)>, h: Seq<u8>) -> Option<TxModel>
    decreases prevs.len(),
{
    if prevs.len() == 0 {
        None
    } else if prevs[0].0 == h {
        Some(prevs[0].1)
    } else {
        lookup_prev(prevs.skip(1), h)
    }
}

pub open spec fn plan_meta(plan: PlanModel) -> TxMetadata {
    TxMetadata {
        version: plan.version,
        inputs_count: plan.inputs.len() as u32,
        outputs_count: plan.outputs.len() as u32,
        lock_time: plan.lock_time,
    }
}

pub open spec fn prev_meta(t: TxModel) -> TxMetadata {
    TxMetadata {
        version: t.version,
        inputs_count: t.inputs.len() as u32,
        outputs_count: t.outputs.len() as u32,
        lock_time: t.lock_time,
    }
}

/// What the engine must do with one element request: the exact element,
/// from the exact transaction the request names, or nothing where the
/// request is unanswerable.
pub open spec fn spec_step_action(
    plan: PlanModel,
    prevs: Seq<(Seq<u8>, TxModel)>,
    e: TxReqModel,
) -> Option<ActionModel> {
    match e.kind {
        TxRequestKind::Finished => Some(ActionModel::DoneM),
        TxRequestKind::Meta => match e.tx_hash {
            None => Some(ActionModel::SendM(ReplyModel::Meta(plan_meta(plan)))),
            Some(h) => match lookup_prev(prevs, h) {
                Some(t) => Some(ActionModel::SendM(ReplyModel::Meta(prev_meta(t)))),
                None => None,
            },
        },
        TxRequestKind::Input => match e.request_index {
            None => None,
            Some(i) => match e.tx_hash {
                None => if i < plan.inputs.len() {
                    Some(ActionModel::SendM(ReplyModel::PlanInput(plan.inputs[i as int])))
                } else {
                    None
                },
                Some(h) => match lookup_prev(prevs, h) {
                    Some(t) => if i < t.inputs.len() {
                        Some(ActionModel::SendM(ReplyModel::PrevInput(t.inputs[i as int])))
                    } else {
                        None
                    },
                    None => None,
                },
            },
        },
        TxRequestKind::Output => match e.request_index {
            None => None,
            Some(i) => match e.tx_hash {
                None => if i < plan.outputs.len() {
                    Some(ActionModel::SendM(ReplyModel::PlanOutput(plan.outputs[i as int])))
                } else {
                    None
                },
                Some(h) => match lookup_prev(prevs, h) {
                    Some(t) => if i < t.outputs.len() {
                        Some(ActionModel::SendM(ReplyModel::PrevOutput(t.outputs[i as int])))
                    } else {
                        None
                    },
                    None => None,
                },
            },
        },
    }
}

fn bytes_eq(a: &Vec<u8>, b: &Vec<u8>) -> (r: bool)
    ensures
        r == (a@ == b@),
{
    if a.len() != b.len() {
        return false;
    }
    let mut i: usize = 0;
    while i < a.len()
        invariant
            0 <= i <= a@.len(),
            a@.len() == b@.len(),
            forall|j: int| 0 <= j < i ==> a@[j] == b@[j],
        decreases a@.len() - i,
    {
        if a[i] != b[i] {
            return false;
        }
        i += 1;
    }
    proof {
        assert(a@ =~= b@);
    }
    true
}

pub(crate) fn clone_u8s(v: &Vec<u8>) -> (r: Vec<u8>)
    ensures
        r@ == v@,
{
    let mut r: Vec<u8> = Vec::new();
    let mut i: usize = 0;
    while i < v.len()
        invariant
            0 <= i <= v@.len(),
            r@ == v@.take(i as int),
        decreases v@.len() - i,
    {
        r.push(v[i]);
        proof {
            assert(v@.take(i + 1) =~= v@.take(i as int).push(v@[i as int]));
        }
        i += 1;
    }
    proof {
        assert(v@.take(v@.len() as int) =~= v@);
    }
    r
}

pub(crate) fn clone_u32s(v: &Vec<u32>) -> (r: Vec<u32>)
    ensures
        r@ == v@,
{
    let mut r: Vec<u32> = Vec::new();
    let mut i: usize = 0;
    while i < v.len()
        invariant
            0 <= i <= v@.len(),
            r@ == v@.take(i as int),
        decreases v@.len() - i,
    {
        r.push(v[i]);
        proof {
            assert(v@.take(i + 1) =~= v@.take(i as int).push(v@[i as int]));
        }
        i += 1;
    }
    proof {
        assert(v@.take(v@.len() as int) =~= v@);
    }
    r
}

fn clone_unsigned_input(x: &UnsignedInput) -> (r: UnsignedInput)
    ensures
        r@ == x@,
{
    UnsignedInput {
        address_n: clone_u32s(&x.address_n),
        prev_hash: clone_u8s(&x.prev_hash),
        prev_index: x.prev_index,
        script_type: x.script_type,
        amount: x.amount,
        sequence: x.sequence,
    }
}

fn clone_unsigned_output(x: &UnsignedOutput) -> (r: UnsignedOutput)
    ensures
        r@ == x@,
{
    UnsignedOutput {
        address: match &x.address {
            Some(a) => Some(a.clone()),
            None => None,
        },
        address_n: clone_u32s(&x.address_n),
        amount: x.amount,
        script_type: x.script_type,
        is_change: x.is_change,
    }
}

fn clone_parsed_input(x: &ParsedInput) -> (r: ParsedInput)
    ensures
        r@ == x@,
{
    ParsedInput {
        prev_hash: clone_u8s(&x.prev_hash),
        prev_index: x.prev_index,
        script_sig: clone_u8s(&x.script_sig),
        sequence: x.sequence,
    }
}

fn clone_parsed_output(x: &ParsedOutput) -> (r: ParsedOutput)
    ensures
        r@ == x@,
{
    ParsedOutput { amount: x.amount, script_pubkey: clone_u8s(&x.script_pubkey) }
}

fn find_prev(prevs: &Vec<(Vec<u8>, ParsedTx)>, h: &Vec<u8>) -> (r: Option<usize>)
    ensures
        match r {
            Some(i) => i < prevs@.len() && lookup_prev(prevs_view(prevs@), h@) == Some(
                prevs@[i as int].1@,
            ),
            None => lookup_prev(prevs_view(prevs@), h@) is None,
        },
{
    proof {
        assert(prevs_view(prevs@).skip(0) =~= prevs_view(prevs@));
    }
    let mut i: usize = 0;
    while i < prevs.len()
        invariant
            0 <= i <= prevs@.len(),
            lookup_prev(prevs_view(prevs@), h@) == lookup_prev(
                prevs_view(prevs@).skip(i as int),
                h@,
            ),
            forall|j: int| 0 <= j < i ==> prevs@[j].0@ != h@,
        decreases prevs@.len() - i,
    {
        proof {
            assert(prevs_view(prevs@).skip(i as int)[0] == prevs_view(prevs@)[i as int]);
            assert(prevs_view(prevs@).skip(i as int).skip(1) =~= prevs_view(prevs@).skip(
                i + 1,
            ));
        }
        if bytes_eq(&prevs[i].0, h) {
            return Some(i);
        }
        i += 1;
    }
    proof {
        assert(prevs_view(prevs@).skip(prevs@.len() as int) =~= Seq::<(Seq<u8>, TxModel)>::empty());
    }
    None
}

impl SignerContext {
    /// A fresh engine around a plan and its referenced previous
    /// transactions; nothing accumulated yet.
    pub fn new(plan: UnsignedTx, prevs: Vec<(Vec<u8>, ParsedTx)>) -> (r: SignerContext)
        ensures
            r.plan == plan,
            r.prevs == prevs,
            r.parts@ =~= Seq::<Vec<u8>>::empty(),
            r.sigs@ =~= Seq::<(u32, Vec<u8>)>::empty(),
    {
        SignerContext { plan, prevs, parts: Vec::new(), sigs: Vec::new() }
    }
}

/// Handles one round of the exchange: banks whatever fragment or
/// signature the request carried, then answers with exactly the element
/// the request names — or stops at the completion signal, or reports why
/// the request is unanswerable.
pub fn signer_step(ctx: &mut SignerContext, req: &TxRequestEvent) -> (r: Result<
    SignerAction,
    SignError,
>)
    ensures
        final(ctx).plan == old(ctx).plan,
        final(ctx).prevs == old(ctx).prevs,
        parts_views(final(ctx).parts@) == parts_views(old(ctx).parts@) + (match req@
            .serialized_part {
            Some(p) => seq![p],
            None => Seq::<Seq<u8>>::empty(),
        }),
        sigs_views(final(ctx).sigs@) == sigs_views(old(ctx).sigs@) + (match req@.signature {
            Some(s) => seq![s],
            None => Seq::<(u32, Seq<u8>)>::empty(),
        }),
        match spec_step_action(old(ctx).plan@, prevs_view(old(ctx).prevs@), req@) {
            Some(a) => r matches Ok(act) && act@ == a,
            None => r is Err,
        },
{
    match &req.serialized_part {
        Some(p) => {
            let copied = clone_u8s(p);
            ctx.parts.push(copied);
            proof {
                assert(parts_views(ctx.parts@) =~= parts_views(old(ctx).parts@) + seq![p@]);
            }
        },
        None => {
            proof {
                assert(parts_views(ctx.parts@) =~= parts_views(old(ctx).parts@)
                    + Seq::<Seq<u8>>::empty());
            }
        },
    }
    match &req.signature {
        Some(s) => {
            let copied = clone_u8s(&s.1);
            ctx.sigs.push((s.0, copied));
            proof {
                assert(sigs_views(ctx.sigs@) =~= sigs_views(old(ctx).sigs@) + seq![
                    (s.0, s.1@),
                ]);
            }
        },
        None => {
            proof {
                assert(sigs_views(ctx.sigs@) =~= sigs_views(old(ctx).sigs@) + Seq::<(
                    u32,
                    Seq<u8>,
                )>::empty());
            }
        },
    }
    match req.kind {
        TxRequestKind::Finished => Ok(SignerAction::Done),
        TxRequestKind::Meta => match &req.tx_hash {
            None => Ok(
                SignerAction::Send(
                    TxAckData::Meta(
                        TxMetadata {
                            version: ctx.plan.version,
                            inputs_count: ctx.plan.inputs.len() as u32,
                            outputs_count: ctx.plan.outputs.len() as u32,
                            lock_time: ctx.plan.lock_time,
                        },
                    ),
                ),
            ),
            Some(h) => match find_prev(&ctx.prevs, h) {
                Some(idx) => {
                    let t = &ctx.prevs[idx].1;
                    Ok(
                        SignerAction::Send(
                            TxAckData::Meta(
                                TxMetadata {
                                    version: t.version,
                                    inputs_count: t.inputs.len() as u32,
                                    outputs_count: t.outputs.len() as u32,
                                    lock_time: t.lock_time,
                                },
                            ),
                        ),
                    )
                },
                None => Err(SignError::UnknownPreviousTransaction),
            },
        },
        TxRequestKind::Input => match req.request_index {
            None => Err(SignError::ProtocolViolation),
            Some(i) => match &req.tx_hash {
                None => {
                    if (i as usize) < ctx.plan.inputs.len() {
                        let elem = clone_unsigned_input(&ctx.plan.inputs[i as usize]);
                        Ok(SignerAction::Send(TxAckData::PlanInput(elem)))
                    } else {
                        Err(SignError::MissingElement)
                    }
                },
                Some(h) => match find_prev(&ctx.prevs, h) {
                    Some(idx) => {
                        if (i as usize) < ctx.prevs[idx].1.inputs.len() {
                            let elem = clone_parsed_input(&ctx.prevs[idx].1.inputs[i as usize]);
                            Ok(SignerAction::Send(TxAckData::PrevInput(elem)))
                        } else {
                            Err(SignError::MissingElement)
                        }
                    },
                    None => Err(SignError::UnknownPreviousTransaction),
                },
            },
        },
        TxRequestKind::Output => match req.request_index {
            None => Err(SignError::ProtocolViolation),
            Some(i) => match &req.tx_hash {
                None => {
                    if (i as usize) < ctx.plan.outputs.len() {
                        let elem = clone_unsigned_output(&ctx.plan.outputs[i as usize]);
                        Ok(SignerAction::Send(TxAckData::PlanOutput(elem)))
                    } else {
                        Err(SignError::MissingElement)
                    }
                },
                Some(h) => match find_prev(&ctx.prevs, h) {
                    Some(idx) => {
                        if (i as usize) < ctx.prevs[idx].1.outputs.len() {
                            let elem = clone_parsed_output(&ctx.prevs[idx].1.outputs[i as usize]);
                            Ok(SignerAction::Send(TxAckData::PrevOutput(elem)))
                        } else {
                            Err(SignError::MissingElement)
                        }
                    },
                    None => Err(SignError::UnknownPreviousTransaction),
                },
            },
        },
    }
}

// ---------------------------------------------------------------------
// Driving the exchange over a recorded sequence of device messages
// ---------------------------------------------------------------------
/// How many messages a conforming run consumes: the messages are taken in
/// order, each must be an answerable element request, and the run ends at
/// the first completion signal — nothing after it is touched.  `None`
/// where a message is unanswerable, the device rejects, or the sequence
/// ends without completion.
pub open spec fn spec_drive(
    plan: PlanModel,
    prevs: Seq<(Seq<u8>, TxModel)>,
    events: Seq<DeviceTxEvent>,
) -> Option<int>
    decreases events.len(),
{
    if events.len() == 0 {
        None
    } else {
        match events[0] {
            DeviceTxEvent::Request(req) => match spec_step_action(plan, prevs, req@) {
                Some(ActionModel::DoneM) => Some(1),
                Some(ActionModel::SendM(_)) => match spec_drive(plan, prevs, events.skip(1)) {
                    Some(n) => Some(1 + n),
                    None => None,
                },
                None => None,
            },
            _ => None,
        }
    }
}

/// The serialized fragments carried by the first `n` messages, in order.
pub open spec fn collect_parts(events: Seq<DeviceTxEvent>, n: int) -> Seq<Seq<u8>>
    decreases n,
{
    if n <= 0 {
        Seq::empty()
    } else {
        collect_parts(events, n - 1) + (match events[n - 1] {
            DeviceTxEvent::Request(req) => match req@.serialized_part {
                Some(p) => seq![p],
                None => Seq::<Seq<u8>>::empty(),
            },
            _ => Seq::<Seq<u8>>::empty(),
        })
    }
}

/// All accumulated fragments, concatenated in order.
pub open spec fn flatten_parts(parts: Seq<Seq<u8>>) -> Seq<u8>
    decreases parts.len(),
{
    if parts.len() == 0 {
        Seq::empty()
    } else {
        flatten_parts(parts.drop_last()) + parts.last()
    }
}

/// The signed transaction assembled so far: the accumulated fragments
/// concatenated and hex-encoded.
pub fn signed_tx_hex(ctx: &SignerContext) -> (r: String)
    ensures
        r@ == hex_encode_spec(flatten_parts(ctx.parts@.map_values(|p: Vec<u8>| p@))),
{
    let mut joined: Vec<u8> = Vec::new();
    let mut i: usize = 0;
    while i < ctx.parts.len()
        invariant
            0 <= i <= ctx.parts@.len(),
            joined@ == flatten_parts(
                ctx.parts@.map_values(|p: Vec<u8>| p@).take(i as int),
            ),
        decreases ctx.parts@.len() - i,
    {
        let mut piece = clone_u8s(&ctx.parts[i]);
        joined.append(&mut piece);
        proof {
            let ps = ctx.parts@.map_values(|p: Vec<u8>| p@);
            assert(ps.take(i + 1).drop_last() =~= ps.take(i as int));
            assert(ps.take(i + 1).last() == ps[i as int]);
        }
        i += 1;
    }
    proof {
        let ps = ctx.parts@.map_values(|p: Vec<u8>| p@);
        assert(ps.take(ps.len() as int) =~= ps);
    }
    crate::hexcodec::hex_encode(&joined)
}

/// Runs the whole exchange over a recorded sequence of device messages.
/// Succeeds exactly where a conforming run exists: every message up to
/// the first completion signal is an answerable element request.  The
/// result is the signed transaction hex from exactly the fragments those
/// messages carried, and the count of messages consumed — the engine
/// never looks past the completion signal.  A rejection or unexpected
/// message aborts with an error and no partial result.
#[verifier::loop_isolation(false)]
pub fn run_signing_script(ctx: &mut SignerContext, events: &Vec<DeviceTxEvent>) -> (r: Result<
    (String, usize),
    SignError,
>)
    requires
        old(ctx).parts@.len() == 0,
    ensures
        final(ctx).plan == old(ctx).plan,
        final(ctx).prevs == old(ctx).prevs,
        match spec_drive(old(ctx).plan@, prevs_view(old(ctx).prevs@), events@) {
            Some(n) => r matches Ok(p) && p.1 == n && p.0@ == hex_encode_spec(
                flatten_parts(collect_parts(events@, n)),
            ),
            None => r is Err,
        },
{
    let ghost plan_v = ctx.plan@;
    let ghost prevs_v = prevs_view(ctx.prevs@);
    proof {
        assert(events@.skip(0) =~= events@);
        assert(ctx.parts@.map_values(|p: Vec<u8>| p@) =~= collect_parts(events@, 0));
    }
    let mut k: usize = 0;
    while k < events.len()
        invariant
            0 <= k <= events@.len(),
            ctx.plan == old(ctx).plan,
            ctx.prevs == old(ctx).prevs,
            ctx.parts@.map_values(|p: Vec<u8>| p@) == collect_parts(events@, k as int),
            spec_drive(plan_v, prevs_v, events@) == (match spec_drive(
                plan_v,
                prevs_v,
                events@.skip(k as int),
            ) {
                Some(n) => Some(k + n),
                None => None::<int>,
            }),
        decreases events@.len() - k,
    {
        proof {
            assert(events@.skip(k as int)[0] == events@[k as int]);
            assert(events@.skip(k as int).skip(1) =~= events@.skip(k + 1));
        }
        match &events[k] {
            DeviceTxEvent::Request(req) => {
                let ghost parts_before = ctx.parts@.map_values(|p: Vec<u8>| p@);
                match signer_step(ctx, req) {
                    Ok(SignerAction::Done) => {
                        proof {
                            assert(spec_drive(plan_v, prevs_v, events@.skip(k as int)) == Some(
                                1int,
                            ));
                            assert(collect_parts(events@, k + 1) =~= collect_parts(
                                events@,
                                k as int,
                            ) + (match req@.serialized_part {
                                Some(p) => seq![p],
                                None => Seq::<Seq<u8>>::empty(),
                            }));
                            assert(ctx.parts@.map_values(|p: Vec<u8>| p@) =~= collect_parts(
                                events@,
                                k + 1,
                            ));
                        }
                        let hex = signed_tx_hex(ctx);
                        return Ok((hex, k + 1));
                    },
                    Ok(SignerAction::Send(_)) => {
                        proof {
                            assert(collect_parts(events@, k + 1) =~= collect_parts(
                                events@,
                                k as int,
                            ) + (match req@.serialized_part {
                                Some(p) => seq![p],
                                None => Seq::<Seq<u8>>::empty(),
                            }));
                            assert(ctx.parts@.map_values(|p: Vec<u8>| p@) =~= collect_parts(
                                events@,
                                k + 1,
                            ));
                        }
                    },
                    Err(e) => {
                        return Err(e);
                    },
                }
            },
            DeviceTxEvent::Rejected(msg) => {
                return Err(SignError::DeviceRejected(msg.clone()));
            },
            DeviceTxEvent::Unexpected => {
                return Err(SignError::ProtocolViolation);
            },
        }
        k += 1;
    }
    proof {
        assert(events@.skip(events@.len() as int) =~= Seq::<DeviceTxEvent>::empty());
    }
    Err(SignError::Incomplete)
}

} // verus!
