use vstd::prelude::*;

use crate::address::{
    BtcNetwork, address_of, derive_address, is_p2sh, is_p2sh_script, unsigned_input_bytes,
    unsigned_input_encoding,
};
use crate::deposit::{DepositIndex, DepositEntryView, DepositInfo, DepositInfoView, lookup_deposit};
use crate::error::BridgeError;

verus! {

/// One output of a UTXO-chain transaction: its value in the smallest unit
/// and its locking script.
#[derive(Debug, Clone)]
pub struct TxOutput {
    pub value: u64,
    pub script: Vec<u8>,
}

pub struct TxOutputView {
    pub value: u64,
    pub script: Seq<u8>,
}

impl View for TxOutput {
    type V = TxOutputView;

    open spec fn view(&self) -> TxOutputView {
        TxOutputView { value: self.value, script: self.script@ }
    }
}

/// A UTXO-chain transaction: its id (in the byte order of the wire format)
/// and its outputs in order.
#[derive(Debug, Clone)]
pub struct BtcTx {
    pub txid: [u8; 32],
    pub outputs: Vec<TxOutput>,
}

pub struct TxView {
    pub txid: Seq<u8>,
    pub outputs: Seq<TxOutputView>,
}

impl View for BtcTx {
    type V = TxView;

    open spec fn view(&self) -> TxView {
        TxView { txid: self.txid@, outputs: self.outputs@.map_values(|o: TxOutput| o@) }
    }
}

/// A deposit found on the UTXO chain: its value, the output it is
/// (`txid`, `output_index`), the encoded unsigned input that spends it, the
/// deposit information of its address, and a signature that a later stage
/// fills in.
#[derive(Debug, Clone)]
pub struct UtxoRecord {
    pub value: u64,
    pub txid: [u8; 32],
    pub output_index: u32,
    pub raw_spend_descriptor: Vec<u8>,
    pub deposit_info: Option<DepositInfo>,
    pub spend_signature: Option<Vec<u8>>,
}

pub struct UtxoView {
    pub value: u64,
    pub txid: Seq<u8>,
    pub output_index: u32,
    pub raw_spend_descriptor: Seq<u8>,
    pub deposit_info: Option<DepositInfoView>,
    pub spend_signature: Option<Seq<u8>>,
}

impl View for UtxoRecord {
    type V = UtxoView;

    open spec fn view(&self) -> UtxoView {
        UtxoView {
            value: self.value,
            txid: self.txid@,
            output_index: self.output_index,
            raw_spend_descriptor: self.raw_spend_descriptor@,
            deposit_info: match self.deposit_info {
                Some(i) => Some(i@),
                None => None,
            },
            spend_signature: match self.spend_signature {
                Some(s) => Some(s@),
                None => None,
            },
        }
    }
}

pub open spec fn txs_view(txs: Seq<BtcTx>) -> Seq<TxView> {
    txs.map_values(|t: BtcTx| t@)
}

pub open spec fn utxos_view(us: Seq<UtxoRecord>) -> Seq<UtxoView> {
    us.map_values(|u: UtxoRecord| u@)
}

/// The deposit information that makes `o` a deposit: `o` pays to a script
/// hash, its address on `network` exists, and that address is watched.
pub open spec fn output_deposit(
    o: TxOutputView,
    index: Seq<DepositEntryView>,
    network: BtcNetwork,
) -> Option<DepositInfoView> {
    if is_p2sh_script(o.script) {
        match address_of(o.script, network) {
            Some(a) => lookup_deposit(index, a),
            None => None,
        }
    } else {
        None
    }
}

/// The record made for output `vout` of transaction `txid`.
pub open spec fn record_for(
    txid: Seq<u8>,
    vout: u32,
    o: TxOutputView,
    info: DepositInfoView,
) -> UtxoView {
    UtxoView {
        value: o.value,
        txid,
        output_index: vout,
        raw_spend_descriptor: unsigned_input_encoding(txid, vout),
        deposit_info: Some(info),
        spend_signature: None,
    }
}

/// The records of the first `j` outputs of `tx`, in output order.
pub open spec fn tx_records(
    tx: TxView,
    index: Seq<DepositEntryView>,
    network: BtcNetwork,
    j: nat,
) -> Seq<UtxoView>
    decreases j,
{
    if j == 0 {
        seq![]
    } else {
        let pre = tx_records(tx, index, network, (j - 1) as nat);
        match output_deposit(tx.outputs[j - 1], index, network) {
            Some(info) => pre.push(record_for(tx.txid, (j - 1) as u32, tx.outputs[j - 1], info)),
            None => pre,
        }
    }
}

/// The records of the first `i` transactions, in transaction order.
pub open spec fn txs_records(
    txs: Seq<TxView>,
    index: Seq<DepositEntryView>,
    network: BtcNetwork,
    i: nat,
) -> Seq<UtxoView>
    decreases i,
{
    if i == 0 {
        seq![]
    } else {
        txs_records(txs, index, network, (i - 1) as nat) + tx_records(
            txs[i - 1],
            index,
            network,
            txs[i - 1].outputs.len(),
        )
    }
}

/// All deposit records of a batch of transactions: transaction by
/// transaction, output by output.
pub open spec fn extracted(
    txs: Seq<TxView>,
    index: Seq<DepositEntryView>,
    network: BtcNetwork,
) -> Seq<UtxoView> {
    txs_records(txs, index, network, txs.len())
}

/// Every output index fits the wire format's 32-bit field.
pub open spec fn output_counts_fit(txs: Seq<TxView>) -> bool {
    forall|t: int| 0 <= t < txs.len() ==> #[trigger] txs[t].outputs.len() <= 0x1_0000_0000
}

/// The record for output `output_index` of `full_tx`, which is `tx_output`,
/// when that output is a deposit to a watched address.
pub fn maybe_extract_p2sh_utxo(
    output_index: u32,
    tx_output: &TxOutput,
    full_tx: &BtcTx,
    btc_network: BtcNetwork,
    deposit_index: &DepositIndex,
) -> (r: Option<UtxoRecord>)
    requires
        deposit_index.wf(),
    ensures
        match output_deposit(tx_output@, deposit_index@, btc_network) {
            Some(info) => r matches Some(u) && u@ == record_for(
                full_tx.txid@,
                output_index,
                tx_output@,
                info,
            ),
            None => r is None,
        },
{
    if !is_p2sh(tx_output.script.as_slice()) {
        return None;
    }
    let maybe_address = derive_address(&tx_output.script, btc_network);
    maybe_extract_utxo_for_address(maybe_address, output_index, tx_output, full_tx, deposit_index)
}

/// The record for output `output_index` of `full_tx`, which is `tx_output`,
/// given the address derived from its script: `None` when no address was
/// derived or the address is not watched.
pub fn maybe_extract_utxo_for_address(
    maybe_address: Option<Vec<u8>>,
    output_index: u32,
    tx_output: &TxOutput,
    full_tx: &BtcTx,
    deposit_index: &DepositIndex,
) -> (r: Option<UtxoRecord>)
    requires
        deposit_index.wf(),
    ensures
        match maybe_address {
            Some(a) => match lookup_deposit(deposit_index@, a@) {
                Some(info) => r matches Some(u) && u@ == record_for(
                    full_tx.txid@,
                    output_index,
                    tx_output@,
                    info,
                ),
                None => r is None,
            },
            None => r is None,
        },
{
    match maybe_address {
        None => None,
        Some(address) => match deposit_index.get(address.as_slice()) {
            None => None,
            Some(info) => Some(
                UtxoRecord {
                    value: tx_output.value,
                    txid: full_tx.txid,
                    output_index,
                    raw_spend_descriptor: unsigned_input_bytes(&full_tx.txid, output_index),
                    deposit_info: Some(info),
                    spend_signature: None,
                },
            ),
        },
    }
}

/// The deposit records of `transactions`: one for each output that pays to a
/// script hash whose address is watched, in transaction order and then
/// output order. Never fails.
pub fn extract_p2sh_utxos_from_txs(
    transactions: &Vec<BtcTx>,
    deposit_index: &DepositIndex,
    btc_network: BtcNetwork,
) -> (r: Result<Vec<UtxoRecord>, BridgeError>)
    requires
        deposit_index.wf(),
        output_counts_fit(txs_view(transactions@)),
    ensures
        r matches Ok(us) && utxos_view(us@) == extracted(
            txs_view(transactions@),
            deposit_index@,
            btc_network,
        ),
{
    let ghost txs = txs_view(transactions@);
    let mut out: Vec<UtxoRecord> = Vec::new();
    let mut t: usize = 0;
    while t < transactions.len()
        invariant
            deposit_index.wf(),
            t <= transactions@.len(),
            txs == txs_view(transactions@),
            output_counts_fit(txs),
            utxos_view(out@) == txs_records(txs, deposit_index@, btc_network, t as nat),
        decreases transactions@.len() - t,
    {
        let tx = &transactions[t];
        let ghost before = utxos_view(out@);
        assert(txs[t as int] == tx@);
        assert(tx@.outputs.len() <= 0x1_0000_0000);
        let mut j: usize = 0;
        while j < tx.outputs.len()
            invariant
                deposit_index.wf(),
                j <= tx.outputs@.len(),
                tx.outputs@.len() <= 0x1_0000_0000,
                utxos_view(out@) == before + tx_records(tx@, deposit_index@, btc_network, j as nat),
            decreases tx.outputs@.len() - j,
        {
            let ghost prev = out@;
            let o = &tx.outputs[j];
            assert(tx@.outputs[j as int] == o@);
            match maybe_extract_p2sh_utxo(j as u32, o, tx, btc_network, deposit_index) {
                Some(u) => {
                    out.push(u);
                    assert(utxos_view(out@) =~= utxos_view(prev).push(u@));
                },
                None => {},
            }
            j = j + 1;
            assert(utxos_view(out@) =~= before + tx_records(
                tx@,
                deposit_index@,
                btc_network,
                j as nat,
            ));
        }
        t = t + 1;
    }
    Ok(out)
}

/// The UTXO-chain pipeline state that the extraction stage works on: the
/// batch of deposit transactions, the watched addresses, the network, and
/// the UTXOs collected so far.
pub struct BtcState {
    pub p2sh_deposit_txs: Option<Vec<BtcTx>>,
    pub deposit_index: Option<DepositIndex>,
    pub network: Option<BtcNetwork>,
    pub utxos: Vec<UtxoRecord>,
}

/// The extraction stage: extracts the deposit records of the state's batch
/// and appends them to its UTXOs. Fails, naming the part, when the batch,
/// the watched addresses or the network is missing.
pub fn maybe_extract_utxos_from_p2sh_txs_and_put_in_state(state: BtcState) -> (r: Result<
    BtcState,
    BridgeError,
>)
    requires
        state.deposit_index matches Some(i) ==> i.wf(),
        state.p2sh_deposit_txs matches Some(txs) ==> output_counts_fit(txs_view(txs@)),
    ensures
        state.p2sh_deposit_txs is None ==> r == Err::<BtcState, BridgeError>(BridgeError::DepositTransactionsMissing),
        state.p2sh_deposit_txs is Some && state.deposit_index is None ==> r == Err::<BtcState, BridgeError>(BridgeError::DepositIndexMissing),
        state.p2sh_deposit_txs is Some && state.deposit_index is Some && state.network is None
            ==> r == Err::<BtcState, BridgeError>(BridgeError::NetworkMissing),
        state.p2sh_deposit_txs matches Some(txs) ==> (state.deposit_index matches Some(i) ==> (
        state.network matches Some(n) ==> (r matches Ok(s) && utxos_view(s.utxos@) == utxos_view(
            state.utxos@,
        ) + extracted(txs_view(txs@), i@, n) && s.p2sh_deposit_txs == state.p2sh_deposit_txs
            && s.deposit_index == state.deposit_index && s.network == state.network))),
{
    let BtcState { p2sh_deposit_txs, deposit_index, network, utxos } = state;
    let txs = match p2sh_deposit_txs {
        Some(txs) => txs,
        None => return Err(BridgeError::DepositTransactionsMissing),
    };
    let index = match deposit_index {
        Some(i) => i,
        None => return Err(BridgeError::DepositIndexMissing),
    };
    let n = match network {
        Some(n) => n,
        None => return Err(BridgeError::NetworkMissing),
    };
    let mut utxos = utxos;
    let ghost before = utxos_view(utxos@);
    match extract_p2sh_utxos_from_txs(&txs, &index, n) {
        Ok(found) => {
            let ghost found_all = found@;
            let mut found = found;
            utxos.append(&mut found);
            assert(utxos_view(utxos@) =~= before + utxos_view(found_all));
            Ok(
                BtcState {
                    p2sh_deposit_txs: Some(txs),
                    deposit_index: Some(index),
                    network: Some(n),
                    utxos,
                },
            )
        },
        Err(e) => Err(e),
    }
}

/// `r` is the record made for output `j` of `tx`, and that output is a
/// deposit: it pays to a script hash whose address is watched.
pub open spec fn produced_from(
    r: UtxoView,
    tx: TxView,
    j: int,
    index: Seq<DepositEntryView>,
    network: BtcNetwork,
) -> bool {
    &&& 0 <= j < tx.outputs.len()
    &&& is_p2sh_script(tx.outputs[j].script)
    &&& address_of(tx.outputs[j].script, network) matches Some(a)
    &&& lookup_deposit(index, a) matches Some(info)
    &&& r == record_for(tx.txid, j as u32, tx.outputs[j], info)
}

/// No two transactions of the batch share an id.
pub open spec fn txids_distinct(txs: Seq<TxView>) -> bool {
    forall|a: int, b: int|
        0 <= a < txs.len() && 0 <= b < txs.len() && a != b ==> #[trigger] txs[a].txid
            != #[trigger] txs[b].txid
}

/// The indices of the deposit outputs among the first `j` outputs of `tx`.
pub open spec fn tx_positions(
    tx: TxView,
    index: Seq<DepositEntryView>,
    network: BtcNetwork,
    j: nat,
) -> Seq<int>
    decreases j,
{
    if j == 0 {
        seq![]
    } else {
        let pre = tx_positions(tx, index, network, (j - 1) as nat);
        if output_deposit(tx.outputs[j - 1], index, network) is Some {
            pre.push(j - 1)
        } else {
            pre
        }
    }
}

/// The (transaction, output) positions of the deposit outputs among the
/// first `i` transactions.
pub open spec fn txs_positions(
    txs: Seq<TxView>,
    index: Seq<DepositEntryView>,
    network: BtcNetwork,
    i: nat,
) -> Seq<(int, int)>
    decreases i,
{
    if i == 0 {
        seq![]
    } else {
        txs_positions(txs, index, network, (i - 1) as nat) + tx_positions(
            txs[i - 1],
            index,
            network,
            txs[i - 1].outputs.len(),
        ).map_values(|j: int| (i - 1, j))
    }
}

proof fn lemma_tx_records(tx: TxView, index: Seq<DepositEntryView>, network: BtcNetwork, j: nat)
    requires
        j <= tx.outputs.len(),
    ensures
        tx_positions(tx, index, network, j).len() == tx_records(tx, index, network, j).len(),
        forall|k: int|
            0 <= k < tx_positions(tx, index, network, j).len() ==> #[trigger] tx_positions(
                tx,
                index,
                network,
                j,
            )[k] < j && produced_from(
                tx_records(tx, index, network, j)[k],
                tx,
                tx_positions(tx, index, network, j)[k],
                index,
                network,
            ),
        forall|k1: int, k2: int|
            0 <= k1 < k2 < tx_positions(tx, index, network, j).len() ==> #[trigger] tx_positions(
                tx,
                index,
                network,
                j,
            )[k1] < #[trigger] tx_positions(tx, index, network, j)[k2],
    decreases j,
{
    if j > 0 {
        let jm = (j - 1) as nat;
        lemma_tx_records(tx, index, network, jm);
        let pre = tx_records(tx, index, network, jm);
        let pp = tx_positions(tx, index, network, jm);
        let rs = tx_records(tx, index, network, j);
        let ps = tx_positions(tx, index, network, j);
        if let Some(info) = output_deposit(tx.outputs[jm as int], index, network) {
            assert(rs == pre.push(record_for(tx.txid, jm as u32, tx.outputs[jm as int], info)));
            assert(ps == pp.push(jm as int));
            assert forall|k: int| 0 <= k < ps.len() implies #[trigger] ps[k] < j && produced_from(
                rs[k],
                tx,
                ps[k],
                index,
                network,
            ) by {
                if k < pp.len() {
                    assert(ps[k] == pp[k]);
                    assert(rs[k] == pre[k]);
                }
            }
            assert forall|k1: int, k2: int| 0 <= k1 < k2 < ps.len() implies #[trigger] ps[k1]
                < #[trigger] ps[k2] by {
                assert(ps[k1] == pp[k1]);
                if k2 < pp.len() {
                    assert(ps[k2] == pp[k2]);
                }
            }
        }
    }
}

#[verifier::rlimit(30)]
proof fn lemma_txs_records(
    txs: Seq<TxView>,
    index: Seq<DepositEntryView>,
    network: BtcNetwork,
    i: nat,
)
    requires
        i <= txs.len(),
    ensures
        txs_positions(txs, index, network, i).len() == txs_records(txs, index, network, i).len(),
        forall|k: int|
            0 <= k < txs_positions(txs, index, network, i).len() ==> 0 <= (
            #[trigger] txs_positions(txs, index, network, i)[k]).0 < i && produced_from(
                txs_records(txs, index, network, i)[k],
                txs[txs_positions(txs, index, network, i)[k].0],
                txs_positions(txs, index, network, i)[k].1,
                index,
                network,
            ),
        forall|k1: int, k2: int|
            0 <= k1 < k2 < txs_positions(txs, index, network, i).len() ==> (
            #[trigger] txs_positions(txs, index, network, i)[k1]).0 < (#[trigger] txs_positions(
                txs,
                index,
                network,
                i,
            )[k2]).0 || (txs_positions(txs, index, network, i)[k1].0 == txs_positions(
                txs,
                index,
                network,
                i,
            )[k2].0 && txs_positions(txs, index, network, i)[k1].1 < txs_positions(
                txs,
                index,
                network,
                i,
            )[k2].1),
    decreases i,
{
    if i > 0 {
        let im = (i - 1) as nat;
        lemma_txs_records(txs, index, network, im);
        let tx = txs[im as int];
        lemma_tx_records(tx, index, network, tx.outputs.len());
        let a = txs_records(txs, index, network, im);
        let pa = txs_positions(txs, index, network, im);
        let b = tx_records(tx, index, network, tx.outputs.len());
        let tp = tx_positions(tx, index, network, tx.outputs.len());
        let pb = tp.map_values(|j: int| (im as int, j));
        let rs = txs_records(txs, index, network, i);
        let ps = txs_positions(txs, index, network, i);
        assert(rs == a + b);
        assert(ps == pa + pb);
        assert forall|k: int| 0 <= k < ps.len() implies 0 <= (#[trigger] ps[k]).0 < i
            && produced_from(rs[k], txs[ps[k].0], ps[k].1, index, network) by {
            if k < pa.len() {
                assert(ps[k] == pa[k]);
                assert(rs[k] == a[k]);
            } else {
                let kb = k - pa.len();
                assert(ps[k] == pb[kb]);
                assert(rs[k] == b[kb]);
                assert(pb[kb] == (im as int, tp[kb]));
            }
        }
        assert forall|k1: int, k2: int| 0 <= k1 < k2 < ps.len() implies (#[trigger] ps[k1]).0 < (
        #[trigger] ps[k2]).0 || (ps[k1].0 == ps[k2].0 && ps[k1].1 < ps[k2].1) by {
            if k2 < pa.len() {
                assert(ps[k1] == pa[k1] && ps[k2] == pa[k2]);
            } else if k1 < pa.len() {
                assert(ps[k1] == pa[k1]);
                assert(ps[k2] == pb[k2 - pa.len()]);
            } else {
                assert(ps[k1] == pb[k1 - pa.len()] && ps[k2] == pb[k2 - pa.len()]);
                assert(tp[k1 - pa.len()] < tp[k2 - pa.len()]);
            }
        }
    }
}

/// Extraction is a function of its inputs: two runs on the same
/// transactions, index and network give the same records in the same order.
pub proof fn lemma_extract_deterministic(
    txs: Seq<TxView>,
    index: Seq<DepositEntryView>,
    network: BtcNetwork,
    first: Seq<UtxoView>,
    second: Seq<UtxoView>,
)
    requires
        first == extracted(txs, index, network),
        second == extracted(txs, index, network),
    ensures
        first == second,
{
}

/// The (transaction, output) position of each extracted record.
pub open spec fn extracted_positions(
    txs: Seq<TxView>,
    index: Seq<DepositEntryView>,
    network: BtcNetwork,
) -> Seq<(int, int)> {
    txs_positions(txs, index, network, txs.len())
}

/// Every extracted record comes from an output that pays to a script hash
/// and whose address is a watched one (the output at the record's position);
/// no other output yields a record.
pub proof fn lemma_extract_selective(
    txs: Seq<TxView>,
    index: Seq<DepositEntryView>,
    network: BtcNetwork,
)
    ensures
        extracted_positions(txs, index, network).len() == extracted(txs, index, network).len(),
        forall|k: int|
            0 <= k < extracted(txs, index, network).len() ==> 0 <= (
            #[trigger] extracted_positions(txs, index, network)[k]).0 < txs.len() && produced_from(
                extracted(txs, index, network)[k],
                txs[extracted_positions(txs, index, network)[k].0],
                extracted_positions(txs, index, network)[k].1,
                index,
                network,
            ),
{
    lemma_txs_records(txs, index, network, txs.len());
}

/// Every extracted record carries exactly the value of the output it was
/// made from.
pub proof fn lemma_extract_value_fidelity(
    txs: Seq<TxView>,
    index: Seq<DepositEntryView>,
    network: BtcNetwork,
)
    requires
        output_counts_fit(txs),
    ensures
        forall|k: int|
            0 <= k < extracted(txs, index, network).len() ==> exists|t: int, j: int|
                0 <= t < txs.len() && 0 <= j < txs[t].outputs.len() && (#[trigger] extracted(
                    txs,
                    index,
                    network,
                )[k]).value == txs[t].outputs[j].value && extracted(txs, index, network)[k].txid
                    == txs[t].txid && extracted(txs, index, network)[k].output_index == j,
{
    lemma_txs_records(txs, index, network, txs.len());
    let rs = extracted(txs, index, network);
    let ps = txs_positions(txs, index, network, txs.len());
    assert forall|k: int| #![trigger rs[k]] 0 <= k < rs.len() implies exists|t: int, j: int|
        0 <= t < txs.len() && 0 <= j < txs[t].outputs.len() && (#[trigger] rs[k]).value
            == txs[t].outputs[j].value && rs[k].txid == txs[t].txid && rs[k].output_index == j by {
        let (t, j) = ps[k];
        assert(0 <= ps[k].0 < txs.len());
        assert(txs[t].outputs.len() <= 0x1_0000_0000);
    }
}

/// When no two transactions share an id, no two extracted records share an
/// outpoint.
pub proof fn lemma_extract_outpoints_distinct(
    txs: Seq<TxView>,
    index: Seq<DepositEntryView>,
    network: BtcNetwork,
)
    requires
        output_counts_fit(txs),
        txids_distinct(txs),
    ensures
        forall|k1: int, k2: int|
            0 <= k1 < extracted(txs, index, network).len() && 0 <= k2 < extracted(
                txs,
                index,
                network,
            ).len() && k1 != k2 ==> !((#[trigger] extracted(txs, index, network)[k1]).txid
                == (#[trigger] extracted(txs, index, network)[k2]).txid && extracted(
                txs,
                index,
                network,
            )[k1].output_index == extracted(txs, index, network)[k2].output_index),
{
    lemma_txs_records(txs, index, network, txs.len());
    let rs = extracted(txs, index, network);
    let ps = txs_positions(txs, index, network, txs.len());
    assert forall|k1: int, k2: int|
        0 <= k1 < rs.len() && 0 <= k2 < rs.len() && k1 != k2 implies !((#[trigger] rs[k1]).txid
        == (#[trigger] rs[k2]).txid && rs[k1].output_index == rs[k2].output_index) by {
        let (lo, hi) = if k1 < k2 { (k1, k2) } else { (k2, k1) };
        assert(ps[lo].0 < ps[hi].0 || (ps[lo].0 == ps[hi].0 && ps[lo].1 < ps[hi].1));
        assert(0 <= ps[lo].0 < txs.len() && 0 <= ps[hi].0 < txs.len());
        assert(txs[ps[lo].0].outputs.len() <= 0x1_0000_0000);
        assert(txs[ps[hi].0].outputs.len() <= 0x1_0000_0000);
        if ps[lo].0 != ps[hi].0 {
            assert(txs[ps[lo].0].txid != txs[ps[hi].0].txid);
        }
    }
}

} // verus!
