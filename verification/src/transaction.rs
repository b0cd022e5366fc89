//! The decoded transaction entity and the record-level decoder.

use vstd::prelude::*;

use crate::cursor::{ByteCursor, DecodeError};
use crate::fields::{
    hex_of, read_amount, read_compact_size, read_txid, read_script, read_u32, spec_amount_field,
    spec_blob_field, spec_compact_size, spec_txid_field, spec_u32_field,
};

verus! {

/// A non-negative count of the smallest currency unit.
#[derive(Clone, Copy, Debug, PartialEq, Eq, Structural)]
pub struct Amount {
    sats: u64,
}

impl View for Amount {
    type V = u64;

    closed spec fn view(&self) -> u64 {
        self.sats
    }
}

impl Amount {
    /// Wrap a count of the smallest currency unit.
    pub fn from_sat(sats: u64) -> (a: Amount)
        ensures
            a@ == sats,
    {
        Amount { sats }
    }

    /// The wrapped count of the smallest currency unit.
    pub fn to_sat(self) -> (s: u64)
        ensures
            s == self@,
    {
        self.sats
    }
}

/// One spend reference of a transaction.
#[derive(Clone, Debug, PartialEq)]
pub struct Input {
    /// Referenced-transaction identifier, rendered in reversed byte order.
    pub txid: String,
    /// Index of the referenced output in that transaction.
    pub output_index: u32,
    /// Unlocking script, rendered as lowercase hexadecimal text.
    pub script_sig: String,
    /// Sequence number.
    pub sequence: u32,
}

/// The mathematical value of an [`Input`].
pub ghost struct SpecInput {
    pub txid: Seq<char>,
    pub output_index: u32,
    pub script_sig: Seq<char>,
    pub sequence: u32,
}

impl View for Input {
    type V = SpecInput;

    open spec fn view(&self) -> SpecInput {
        SpecInput {
            txid: self.txid@,
            output_index: self.output_index,
            script_sig: self.script_sig@,
            sequence: self.sequence,
        }
    }
}

/// One payment target of a transaction.
#[derive(Clone, Debug, PartialEq)]
pub struct Output {
    /// Paid amount.
    pub amount: Amount,
    /// Locking script, rendered as lowercase hexadecimal text.
    pub script_pubkey: String,
}

/// The mathematical value of an [`Output`].
pub ghost struct SpecOutput {
    pub amount: u64,
    pub script_pubkey: Seq<char>,
}

impl View for Output {
    type V = SpecOutput;

    open spec fn view(&self) -> SpecOutput {
        SpecOutput { amount: self.amount@, script_pubkey: self.script_pubkey@ }
    }
}

/// The decoded record: a format version, the ordered inputs and the
/// ordered outputs, owned by value.
#[derive(Clone, Debug, PartialEq)]
pub struct Transaction {
    pub version: u32,
    pub inputs: Vec<Input>,
    pub outputs: Vec<Output>,
}

/// The mathematical value of a [`Transaction`].
pub ghost struct SpecTransaction {
    pub version: u32,
    pub inputs: Seq<SpecInput>,
    pub outputs: Seq<SpecOutput>,
}

impl View for Transaction {
    type V = SpecTransaction;

    open spec fn view(&self) -> SpecTransaction {
        SpecTransaction {
            version: self.version,
            inputs: self.inputs@.map_values(|x: Input| x@),
            outputs: self.outputs@.map_values(|x: Output| x@),
        }
    }
}

/// What one input at the front of `s` decodes to, with the number of
/// bytes it occupies: an identifier, an output index, an unlocking
/// script and a sequence number, in that order.
pub open spec fn spec_input(s: Seq<u8>) -> Option<(SpecInput, int)> {
    match spec_txid_field(s) {
        None => None,
        Some((txid, k1)) => match spec_u32_field(s.skip(k1)) {
            None => None,
            Some((oidx, k2)) => match spec_blob_field(s.skip(k1 + k2)) {
                None => None,
                Some((script, k3)) => match spec_u32_field(s.skip(k1 + k2 + k3)) {
                    None => None,
                    Some((seqn, k4)) => Some(
                        (
                            SpecInput {
                                txid,
                                output_index: oidx,
                                script_sig: hex_of(script),
                                sequence: seqn,
                            },
                            k1 + k2 + k3 + k4,
                        ),
                    ),
                },
            },
        },
    }
}

/// What one output at the front of `s` decodes to, with the number of
/// bytes it occupies: an amount, then a locking script.
pub open spec fn spec_output(s: Seq<u8>) -> Option<(SpecOutput, int)> {
    match spec_amount_field(s) {
        None => None,
        Some((amt, k1)) => match spec_blob_field(s.skip(k1)) {
            None => None,
            Some((script, k2)) => Some(
                (SpecOutput { amount: amt, script_pubkey: hex_of(script) }, k1 + k2),
            ),
        },
    }
}

/// What `n` consecutive inputs at the front of `s` decode to, with the
/// total number of bytes they occupy.
pub open spec fn spec_inputs(s: Seq<u8>, n: nat) -> Option<(Seq<SpecInput>, int)>
    decreases n,
{
    if n == 0 {
        Some((Seq::empty(), 0))
    } else {
        match spec_inputs(s, (n - 1) as nat) {
            None => None,
            Some((v, k)) => match spec_input(s.skip(k)) {
                None => None,
                Some((x, kx)) => Some((v.push(x), k + kx)),
            },
        }
    }
}

/// What `n` consecutive outputs at the front of `s` decode to, with the
/// total number of bytes they occupy.
pub open spec fn spec_outputs(s: Seq<u8>, n: nat) -> Option<(Seq<SpecOutput>, int)>
    decreases n,
{
    if n == 0 {
        Some((Seq::empty(), 0))
    } else {
        match spec_outputs(s, (n - 1) as nat) {
            None => None,
            Some((v, k)) => match spec_output(s.skip(k)) {
                None => None,
                Some((x, kx)) => Some((v.push(x), k + kx)),
            },
        }
    }
}

/// What a whole record decodes to: version, input count, that many
/// inputs, output count, that many outputs. Trailing bytes are ignored.
pub open spec fn spec_transaction(s: Seq<u8>) -> Option<SpecTransaction> {
    match spec_u32_field(s) {
        None => None,
        Some((version, k0)) => match spec_compact_size(s.skip(k0)) {
            None => None,
            Some((ic, k1)) => match spec_inputs(s.skip(k0 + k1), ic as nat) {
                None => None,
                Some((inputs, k2)) => match spec_compact_size(s.skip(k0 + k1 + k2)) {
                    None => None,
                    Some((oc, k3)) => match spec_outputs(s.skip(k0 + k1 + k2 + k3), oc as nat) {
                        None => None,
                        Some((outputs, _k4)) => Some(
                            SpecTransaction { version, inputs, outputs },
                        ),
                    },
                },
            },
        },
    }
}

/// Once a run of inputs fails to decode, no longer run decodes either.
proof fn lemma_inputs_none_mono(s: Seq<u8>, m: nat, n: nat)
    requires
        m <= n,
        spec_inputs(s, m) is None,
    ensures
        spec_inputs(s, n) is None,
    decreases n,
{
    if n > m {
        lemma_inputs_none_mono(s, m, (n - 1) as nat);
    }
}

/// Once a run of outputs fails to decode, no longer run decodes either.
proof fn lemma_outputs_none_mono(s: Seq<u8>, m: nat, n: nat)
    requires
        m <= n,
        spec_outputs(s, m) is None,
    ensures
        spec_outputs(s, n) is None,
    decreases n,
{
    if n > m {
        lemma_outputs_none_mono(s, m, (n - 1) as nat);
    }
}

/// Decode one input at the cursor.
pub fn read_input(cursor: &mut ByteCursor) -> (r: Result<Input, DecodeError>)
    requires
        old(cursor).wf(),
    ensures
        final(cursor).wf(),
        final(cursor).data() == old(cursor).data(),
        old(cursor).position() <= final(cursor).position(),
        r is Ok <==> spec_input(old(cursor).remaining()) is Some,
        r matches Ok(inp) ==> spec_input(old(cursor).remaining()) == Some(
            (inp@, final(cursor).position() - old(cursor).position()),
        ),
        r is Err ==> r == Err::<Input, DecodeError>(DecodeError::OutOfData),
{
    let ghost r0 = cursor.remaining();
    let txid = match read_txid(cursor) {
        Ok(t) => t,
        Err(e) => return Err(e),
    };
    let ghost r1 = cursor.remaining();
    proof {
        assert(r1 =~= r0.skip(32));
    }
    let output_index = match read_u32(cursor) {
        Ok(v) => v,
        Err(e) => return Err(e),
    };
    let ghost r2 = cursor.remaining();
    proof {
        assert(r2 =~= r0.skip(36));
    }
    let script_sig = match read_script(cursor) {
        Ok(s) => s,
        Err(e) => return Err(e),
    };
    let ghost r3 = cursor.remaining();
    proof {
        let ks = spec_blob_field(r2)->Some_0.1;
        assert(r3 =~= r0.skip(36 + ks));
    }
    let sequence = match read_u32(cursor) {
        Ok(v) => v,
        Err(e) => return Err(e),
    };
    Ok(Input { txid, output_index, script_sig, sequence })
}

/// Decode one output at the cursor.
pub fn read_output(cursor: &mut ByteCursor) -> (r: Result<Output, DecodeError>)
    requires
        old(cursor).wf(),
    ensures
        final(cursor).wf(),
        final(cursor).data() == old(cursor).data(),
        old(cursor).position() <= final(cursor).position(),
        r is Ok <==> spec_output(old(cursor).remaining()) is Some,
        r matches Ok(out) ==> spec_output(old(cursor).remaining()) == Some(
            (out@, final(cursor).position() - old(cursor).position()),
        ),
        r is Err ==> r == Err::<Output, DecodeError>(DecodeError::OutOfData),
{
    let ghost r0 = cursor.remaining();
    let amount = match read_amount(cursor) {
        Ok(a) => a,
        Err(e) => return Err(e),
    };
    let ghost r1 = cursor.remaining();
    proof {
        assert(r1 =~= r0.skip(8));
    }
    let script_pubkey = match read_script(cursor) {
        Ok(s) => s,
        Err(e) => return Err(e),
    };
    Ok(Output { amount, script_pubkey })
}

/// Decode `count` consecutive inputs at the cursor.
#[verifier::loop_isolation(false)]
fn read_inputs(cursor: &mut ByteCursor, count: u64) -> (r: Result<Vec<Input>, DecodeError>)
    requires
        old(cursor).wf(),
    ensures
        final(cursor).wf(),
        final(cursor).data() == old(cursor).data(),
        old(cursor).position() <= final(cursor).position(),
        r is Ok <==> spec_inputs(old(cursor).remaining(), count as nat) is Some,
        r matches Ok(v) ==> spec_inputs(old(cursor).remaining(), count as nat) == Some(
            (v@.map_values(|x: Input| x@), final(cursor).position() - old(cursor).position()),
        ),
        r is Err ==> r == Err::<Vec<Input>, DecodeError>(DecodeError::OutOfData),
{
    let ghost s0 = cursor.remaining();
    let ghost p0 = cursor.position();
    let mut inputs: Vec<Input> = Vec::new();
    proof {
        assert(inputs@.map_values(|x: Input| x@) =~= Seq::<SpecInput>::empty());
        assert(s0.skip(0) =~= s0);
    }
    let mut i: u64 = 0;
    while i < count
        invariant
            cursor.wf(),
            cursor.data() == old(cursor).data(),
            i <= count,
            p0 <= cursor.position() <= cursor.data().len(),
            cursor.remaining() == s0.skip(cursor.position() - p0),
            spec_inputs(s0, i as nat) == Some(
                (inputs@.map_values(|x: Input| x@), cursor.position() - p0),
            ),
        decreases count - i,
    {
        let ghost views = inputs@.map_values(|x: Input| x@);
        let inp = match read_input(cursor) {
            Ok(inp) => inp,
            Err(e) => {
                proof {
                    lemma_inputs_none_mono(s0, (i + 1) as nat, count as nat);
                }
                return Err(e);
            },
        };
        inputs.push(inp);
        proof {
            assert(inputs@.map_values(|x: Input| x@) =~= views.push(inp@));
            assert(cursor.remaining() =~= s0.skip(cursor.position() - p0));
        }
        i = i + 1;
    }
    Ok(inputs)
}

/// Decode `count` consecutive outputs at the cursor.
#[verifier::loop_isolation(false)]
fn read_outputs(cursor: &mut ByteCursor, count: u64) -> (r: Result<Vec<Output>, DecodeError>)
    requires
        old(cursor).wf(),
    ensures
        final(cursor).wf(),
        final(cursor).data() == old(cursor).data(),
        old(cursor).position() <= final(cursor).position(),
        r is Ok <==> spec_outputs(old(cursor).remaining(), count as nat) is Some,
        r matches Ok(v) ==> spec_outputs(old(cursor).remaining(), count as nat) == Some(
            (v@.map_values(|x: Output| x@), final(cursor).position() - old(cursor).position()),
        ),
        r is Err ==> r == Err::<Vec<Output>, DecodeError>(DecodeError::OutOfData),
{
    let ghost s0 = cursor.remaining();
    let ghost p0 = cursor.position();
    let mut outputs: Vec<Output> = Vec::new();
    proof {
        assert(outputs@.map_values(|x: Output| x@) =~= Seq::<SpecOutput>::empty());
        assert(s0.skip(0) =~= s0);
    }
    let mut j: u64 = 0;
    while j < count
        invariant
            cursor.wf(),
            cursor.data() == old(cursor).data(),
            j <= count,
            p0 <= cursor.position() <= cursor.data().len(),
            cursor.remaining() == s0.skip(cursor.position() - p0),
            spec_outputs(s0, j as nat) == Some(
                (outputs@.map_values(|x: Output| x@), cursor.position() - p0),
            ),
        decreases count - j,
    {
        let ghost views = outputs@.map_values(|x: Output| x@);
        let out = match read_output(cursor) {
            Ok(out) => out,
            Err(e) => {
                proof {
                    lemma_outputs_none_mono(s0, (j + 1) as nat, count as nat);
                }
                return Err(e);
            },
        };
        outputs.push(out);
        proof {
            assert(outputs@.map_values(|x: Output| x@) =~= views.push(out@));
            assert(cursor.remaining() =~= s0.skip(cursor.position() - p0));
        }
        j = j + 1;
    }
    Ok(outputs)
}

/// Decode a whole transaction record from the front of `bytes`. Any
/// short read anywhere aborts the whole decode; bytes after the record
/// are ignored.
pub fn decode_transaction(bytes: &[u8]) -> (r: Result<Transaction, DecodeError>)
    ensures
        r is Ok <==> spec_transaction(bytes@) is Some,
        r matches Ok(tx) ==> spec_transaction(bytes@) == Some(tx@),
        r is Err ==> r == Err::<Transaction, DecodeError>(DecodeError::OutOfData),
{
    let mut cursor = ByteCursor::new(bytes);
    let ghost s0 = cursor.remaining();
    proof {
        assert(s0 =~= bytes@);
    }
    let version = match read_u32(&mut cursor) {
        Ok(v) => v,
        Err(e) => return Err(e),
    };
    let ghost s1 = cursor.remaining();
    proof {
        assert(s1 =~= s0.skip(4));
    }
    let input_count = match read_compact_size(&mut cursor) {
        Ok(n) => n,
        Err(e) => return Err(e),
    };
    let ghost k1 = spec_compact_size(s1)->Some_0.1;
    let ghost s2 = cursor.remaining();
    proof {
        assert(s2 =~= s0.skip(4 + k1));
    }
    let inputs = match read_inputs(&mut cursor, input_count) {
        Ok(v) => v,
        Err(e) => return Err(e),
    };
    let ghost k2 = spec_inputs(s2, input_count as nat)->Some_0.1;
    let ghost s3 = cursor.remaining();
    proof {
        assert(s3 =~= s0.skip(4 + k1 + k2));
    }
    let output_count = match read_compact_size(&mut cursor) {
        Ok(n) => n,
        Err(e) => return Err(e),
    };
    let ghost k3 = spec_compact_size(s3)->Some_0.1;
    let ghost s4 = cursor.remaining();
    proof {
        assert(s4 =~= s0.skip(4 + k1 + k2 + k3));
    }
    let outputs = match read_outputs(&mut cursor, output_count) {
        Ok(v) => v,
        Err(e) => return Err(e),
    };
    Ok(Transaction { version, inputs, outputs })
}

/// Decoding is deterministic: what a byte sequence decodes to is a
/// function of the bytes alone, so two decodes of the same sequence with
/// independent cursors yield structurally equal transactions.
pub proof fn lemma_decode_deterministic(
    s: Seq<u8>,
    r1: Option<SpecTransaction>,
    r2: Option<SpecTransaction>,
)
    requires
        r1 == spec_transaction(s),
        r2 == spec_transaction(s),
    ensures
        r1 == r2,
{
}

} // verus!
