//! The blocks, transactions and scripts that the Bitcoin Core REST interface
//! describes, held as plain values, and the client's sizing rules.
//!
//! Hashes are in internal byte order, amounts in satoshis, and sequence
//! numbers, lock times and versions in their consensus encoding.
use vstd::prelude::*;

verus! {

/// Upper bound on the size of a block in its verbose JSON representation. The
/// JSON is several times the size of the block itself.
pub const MAX_BLOCK_JSON_SIZE: u64 = 50 * 1024 * 1024;

/// The sequence number that disables lock-time checks for an input
/// (`Sequence::MAX` in the `bitcoin` crate).
pub const SEQUENCE_FINAL: u32 = 0xFFFF_FFFF;

/// How many idle connections the client keeps to the node: one per thread
/// sharing it, so each thread can keep its connection alive between requests,
/// and at least one.
pub fn idle_connection_limit(num_threads: usize) -> (max_idle: usize)
    ensures
        max_idle == if num_threads >= 1 {
            num_threads
        } else {
            1
        },
{
    if num_threads >= 1 {
        num_threads
    } else {
        1
    }
}

/// The type of an output script, as Bitcoin Core names it.
#[allow(non_camel_case_types)]
#[derive(Clone, Copy, Debug, PartialEq, Eq, Structural)]
pub enum ScriptPubkeyType {
    Nonstandard,
    Pubkey,
    PubkeyHash,
    ScriptHash,
    MultiSig,
    NullData,
    Witness_v0_KeyHash,
    Witness_v0_ScriptHash,
    Witness_v1_Taproot,
    Witness_Unknown,
    Anchor,
}

/// An output script and its type.
pub struct ScriptPubKey {
    pub script: Vec<u8>,
    pub type_: ScriptPubkeyType,
}

/// The script_pub_key of a prevout. Unlike an output's script_pub_key, only
/// the type is kept here.
pub struct PrevoutScriptPubKey {
    pub type_: ScriptPubkeyType,
}

/// The output an input spends.
pub struct Prevout {
    pub height: i64,
    /// In satoshis.
    pub value: u64,
    pub script_pub_key: PrevoutScriptPubKey,
}

/// An input of a transaction. A coinbase input has `coinbase` set, every other
/// input has `txid` and `prevout` set.
pub struct Input {
    pub sequence: u32,
    pub coinbase: Option<Vec<u8>>,
    pub txid: Option<[u8; 32]>,
    pub vout: Option<u32>,
    pub prevout: Option<Prevout>,
}

/// An output of a transaction.
pub struct Output {
    /// In satoshis.
    pub value: u64,
    pub n: u32,
    pub script_pub_key: ScriptPubKey,
}

/// A transaction as returned by the REST interface: its serialization in
/// `raw`, and what the serialization doesn't carry.
pub struct Transaction {
    pub raw: Vec<u8>,
    pub txid: [u8; 32],
    pub size: u32,
    pub vsize: u32,
    pub version: u32,
    /// In satoshis; absent for a coinbase transaction.
    pub fee: Option<u64>,
    pub lock_time: u32,
    pub input: Vec<Input>,
    pub output: Vec<Output>,
}

/// Whether some input of `inputs` has a sequence number other than
/// [`SEQUENCE_FINAL`].
pub open spec fn some_input_not_final(inputs: Seq<Input>) -> bool {
    exists|i: int| 0 <= i < inputs.len() && (#[trigger] inputs[i]).sequence != SEQUENCE_FINAL
}

impl Transaction {
    /// Whether the transaction's lock time is enforced: it is, unless every
    /// input has the final sequence number.
    pub fn is_lock_time_enabled(&self) -> (enabled: bool)
        ensures
            enabled == some_input_not_final(self.input@),
            enabled <==> exists|i: int|
                0 <= i < self.input@.len() && (#[trigger] self.input@[i]).sequence
                    != SEQUENCE_FINAL,
            !enabled <==> forall|i: int|
                0 <= i < self.input@.len() ==> (#[trigger] self.input@[i]).sequence
                    == SEQUENCE_FINAL,
    {
        let mut i: usize = 0;
        while i < self.input.len()
            invariant
                i <= self.input@.len(),
                forall|j: int| 0 <= j < i ==> (#[trigger] self.input@[j]).sequence == SEQUENCE_FINAL,
            decreases self.input@.len() - i,
        {
            if self.input[i].sequence != SEQUENCE_FINAL {
                assert(self.input@[i as int].sequence != SEQUENCE_FINAL);
                return true;
            }
            i = i + 1;
        }
        false
    }
}

/// A block as returned by the REST interface.
pub struct Block {
    pub hash: [u8; 32],
    pub size: i64,
    pub stripped_size: i64,
    /// In weight units.
    pub weight: u64,
    pub height: i64,
    pub version: i32,
    pub txdata: Vec<Transaction>,
    pub time: u32,
    pub nonce: u32,
    pub bits: String,
}


/// Lock time is enforced exactly when some input, at any position, does not
/// have the final sequence number; it is not when every input has it.
pub proof fn law_lock_time_any_input(inputs: Seq<Input>, i: int)
    ensures
        0 <= i < inputs.len() && inputs[i].sequence != SEQUENCE_FINAL ==> some_input_not_final(
            inputs,
        ),
        (forall|k: int| 0 <= k < inputs.len() ==> (#[trigger] inputs[k]).sequence == SEQUENCE_FINAL)
            ==> !some_input_not_final(inputs),
{
}
} // verus!
