use vstd::prelude::*;
use crate::abi::{abi_decode, abi_decoding, type_names, AbiToken};

verus! {

/// The number of a rollup block.
#[derive(Clone, Copy, Debug, PartialEq, Eq, Structural)]
pub struct BlockNumber(pub u32);

/// The identifier of a rollup account.
#[derive(Clone, Copy, Debug, PartialEq, Eq, Structural)]
pub struct AccountId(pub u32);

/// One committed block: its number, the account that collects its fees, and the
/// operations that its public data holds.
#[derive(Clone, Debug)]
pub struct RollupOpsBlock<Op> {
    pub block_num: BlockNumber,
    pub ops: Vec<Op>,
    pub fee_account: AccountId,
}

/// Why a commit call could not be turned into blocks. `E` is the error of the
/// operation-list decoder.
#[derive(Clone, Debug, PartialEq, Eq)]
pub enum RestoreError<E> {
    /// The bytes do not match the commit call's schema.
    SchemaMismatch,
    /// The arguments are not one tuple followed by one array.
    MalformedCommitment,
    /// The stored block's first field is not an unsigned integer, or does not
    /// fit in 32 bits when a block is built.
    MalformedBlockHeader,
    /// An operation tuple lacks its fee account or its public data, or the fee
    /// account does not fit in 32 bits when its block is built.
    MalformedOperation,
    /// The operation-list decoder refused a block's public data.
    OperationPayload(E),
}

/// The commit call's argument types: the stored block and the array of
/// operations.
pub open spec fn commitment_schema_names() -> Seq<Seq<char>> {
    seq![
        "(uint32,uint64,bytes32,uint256,bytes32,bytes32)"@,
        "(bytes32,bytes,uint256,(bytes,uint32)[],uint32,uint32)[]"@,
    ]
}

/// Builds the commit call's argument types: the stored block
/// (number, processed operations, operations hash, timestamp, state root,
/// commitment) and the array of operations (state root, public data,
/// timestamp, witness pairs, block number, fee account).
pub fn commitment_schema() -> (r: Vec<String>)
    ensures
        type_names(r@) == commitment_schema_names(),
{
    let stored_block = String::from_str("(uint32,uint64,bytes32,uint256,bytes32,bytes32)");
    let operations = String::from_str("(bytes32,bytes,uint256,(bytes,uint32)[],uint32,uint32)[]");
    let r = vec![stored_block, operations];
    assert(type_names(r@) =~= commitment_schema_names());
    r
}

/// Decodes the commit call's argument list (selector already stripped) against
/// the commit schema.
pub fn decode_commitment_parameters<E>(input_data: &Vec<u8>) -> (r: Result<Vec<AbiToken>, RestoreError<E>>)
    ensures
        match r {
            Ok(tokens) => abi_decoding(commitment_schema_names(), input_data@) == Some(tokens@),
            Err(e) => e is SchemaMismatch && abi_decoding(commitment_schema_names(), input_data@) is None,
        },
        input_data@.len() < 224 ==> r matches Err(RestoreError::SchemaMismatch),
{
    let schema = commitment_schema();
    match abi_decode(&schema, input_data) {
        Ok(tokens) => Ok(tokens),
        Err(_) => Err(RestoreError::SchemaMismatch),
    }
}

/// The value of a 256-bit word, where it fits in 32 bits.
pub open spec fn word_u32(w: [u64; 4]) -> Option<u32> {
    if w@[1] == 0 && w@[2] == 0 && w@[3] == 0 && w@[0] <= u32::MAX {
        Some(w@[0] as u32)
    } else {
        None
    }
}

/// The stored block's fields and the operation entries, where the arguments
/// are one tuple followed by one array.
pub open spec fn commit_layout(tokens: Seq<AbiToken>) -> Option<(Seq<AbiToken>, Seq<AbiToken>)> {
    if tokens.len() == 2 {
        match (tokens[0], tokens[1]) {
            (AbiToken::Tuple(stored), AbiToken::Array(ops)) => Some((stored@, ops@)),
            _ => None,
        }
    } else {
        None
    }
}

/// The word of the stored block's first field, where it is an unsigned integer.
pub open spec fn header_word(stored: Seq<AbiToken>) -> Option<[u64; 4]> {
    if stored.len() > 0 {
        match stored[0] {
            AbiToken::Uint(w) => Some(w),
            _ => None,
        }
    } else {
        None
    }
}

/// The fee account word (field 5) and the public data (field 1) of an
/// operation tuple, where they are an unsigned integer and bytes.
pub open spec fn operation_fields(t: AbiToken) -> Option<([u64; 4], Vec<u8>)> {
    match t {
        AbiToken::Tuple(fields) => if fields@.len() >= 6 {
            match (fields@[5], fields@[1]) {
                (AbiToken::Uint(fee), AbiToken::Bytes(data)) => Some((fee, data)),
                _ => None,
            }
        } else {
            None
        },
        _ => None,
    }
}

/// The fee account word and public data of each tuple among `ops`, in order;
/// entries that are not tuples are passed over. `None` where a tuple lacks
/// its fields.
pub open spec fn planned_entries(ops: Seq<AbiToken>) -> Option<Seq<([u64; 4], Vec<u8>)>>
    decreases ops.len(),
{
    if ops.len() == 0 {
        Some(seq![])
    } else {
        match planned_entries(ops.drop_last()) {
            None => None,
            Some(done) => if ops.last() is Tuple {
                match operation_fields(ops.last()) {
                    Some(entry) => Some(done.push(entry)),
                    None => None,
                }
            } else {
                Some(done)
            },
        }
    }
}

/// `blocks` holds one record per entry of `entries`, in order, each with the
/// block number that the word `num` holds, the entry's fee account, and
/// operations that `parse_ops` can return for the entry's public data; both
/// numbers fit in 32 bits.
pub open spec fn blocks_match<Op, E, F: Fn(&Vec<u8>) -> Result<Vec<Op>, E>>(
    num: [u64; 4],
    entries: Seq<([u64; 4], Vec<u8>)>,
    parse_ops: F,
    blocks: Seq<RollupOpsBlock<Op>>,
) -> bool {
    &&& blocks.len() == entries.len()
    &&& forall|j: int|
        #![trigger blocks[j]]
        0 <= j < entries.len() ==> {
            &&& word_u32(num) == Some(blocks[j].block_num.0)
            &&& word_u32(entries[j].0) == Some(blocks[j].fee_account.0)
            &&& parse_ops.ensures((&entries[j].1,), Ok(blocks[j].ops))
        }
}

/// `parse_ops` can return operations for `data`.
pub open spec fn parses<Op, E, F: Fn(&Vec<u8>) -> Result<Vec<Op>, E>>(parse_ops: F, data: Vec<u8>) -> bool {
    exists|ops: Vec<Op>| #[trigger] parse_ops.ensures((&data,), Ok(ops))
}

/// Entry `i` of `ops` is the first one at fault, with error `err`: every tuple
/// before it gave a block, and it is a tuple that lacks its fields, whose
/// public data `parse_ops` refused, or whose block or fee account number does
/// not fit in 32 bits.
pub open spec fn fault_at<Op, E, F: Fn(&Vec<u8>) -> Result<Vec<Op>, E>>(
    num: [u64; 4],
    ops: Seq<AbiToken>,
    parse_ops: F,
    i: int,
    err: RestoreError<E>,
) -> bool {
    &&& 0 <= i < ops.len()
    &&& planned_entries(ops.take(i)) matches Some(done)
    &&& exists|blocks: Seq<RollupOpsBlock<Op>>| #[trigger] blocks_match(num, done, parse_ops, blocks)
    &&& ops[i] is Tuple
    &&& match operation_fields(ops[i]) {
        None => err is MalformedOperation,
        Some((fee, data)) => match err {
            RestoreError::OperationPayload(e) => parse_ops.ensures((&data,), Err(e)),
            RestoreError::MalformedBlockHeader => parses(parse_ops, data) && word_u32(num) is None,
            RestoreError::MalformedOperation => {
                &&& parses(parse_ops, data)
                &&& word_u32(num) is Some
                &&& word_u32(fee) is None
            },
            _ => false,
        },
    }
}

/// Some entry of `ops` is the first one at fault, with error `err`.
pub open spec fn first_fault<Op, E, F: Fn(&Vec<u8>) -> Result<Vec<Op>, E>>(
    num: [u64; 4],
    ops: Seq<AbiToken>,
    parse_ops: F,
    err: RestoreError<E>,
) -> bool {
    exists|i: int| #[trigger] fault_at(num, ops, parse_ops, i, err)
}

/// What extracting blocks from the decoded arguments `tokens` may return, with
/// `parse_ops` decoding each block's public data.
pub open spec fn restores<Op, E, F: Fn(&Vec<u8>) -> Result<Vec<Op>, E>>(
    tokens: Seq<AbiToken>,
    parse_ops: F,
    r: Result<Vec<RollupOpsBlock<Op>>, RestoreError<E>>,
) -> bool {
    match commit_layout(tokens) {
        None => r matches Err(RestoreError::MalformedCommitment),
        Some((stored, ops)) => match header_word(stored) {
            None => r matches Err(RestoreError::MalformedBlockHeader),
            Some(num) => match r {
                Ok(blocks) => planned_entries(ops) matches Some(entries) && blocks_match(
                    num,
                    entries,
                    parse_ops,
                    blocks@,
                ),
                Err(err) => first_fault(num, ops, parse_ops, err),
            },
        },
    }
}

/// The value of a 256-bit word where it fits in 32 bits.
fn word_to_u32(w: &[u64; 4]) -> (r: Option<u32>)
    ensures
        r == word_u32(*w),
{
    if w[1] == 0 && w[2] == 0 && w[3] == 0 && w[0] <= u32::MAX as u64 {
        Some(w[0] as u32)
    } else {
        None
    }
}

/// Turns decoded commit arguments into one block record per operation tuple,
/// handing each block's public data to `parse_ops`.
///
/// Every record carries the stored block's number. Array entries that are not
/// tuples are passed over; the first entry at fault ends the whole extraction.
pub fn rollup_ops_blocks_from_tokens<Op, E, F: Fn(&Vec<u8>) -> Result<Vec<Op>, E>>(
    tokens: &Vec<AbiToken>,
    parse_ops: &F,
) -> (r: Result<Vec<RollupOpsBlock<Op>>, RestoreError<E>>)
    requires
        forall|b: &Vec<u8>| parse_ops.requires((b,)),
    ensures
        restores(tokens@, *parse_ops, r),
{
    if tokens.len() != 2 {
        return Err(RestoreError::MalformedCommitment);
    }
    let (stored, ops) = match (&tokens[0], &tokens[1]) {
        (AbiToken::Tuple(stored), AbiToken::Array(ops)) => (stored, ops),
        _ => {
            return Err(RestoreError::MalformedCommitment);
        },
    };
    if stored.len() == 0 {
        return Err(RestoreError::MalformedBlockHeader);
    }
    let num = match &stored[0] {
        AbiToken::Uint(w) => w,
        _ => {
            return Err(RestoreError::MalformedBlockHeader);
        },
    };
    let mut blocks: Vec<RollupOpsBlock<Op>> = Vec::new();
    let mut i: usize = 0;
    while i < ops.len()
        invariant
            0 <= i <= ops.len(),
            forall|b: &Vec<u8>| parse_ops.requires((b,)),
            commit_layout(tokens@) == Some((stored@, ops@)),
            header_word(stored@) == Some(*num),
            planned_entries(ops@.take(i as int)) matches Some(done) && blocks_match(
                *num,
                done,
                *parse_ops,
                blocks@,
            ),
        decreases ops.len() - i,
    {
        proof {
            assert(ops@.take(i + 1).drop_last() =~= ops@.take(i as int));
            assert(ops@.take(i + 1).last() == ops@[i as int]);
        }
        if let AbiToken::Tuple(fields) = &ops[i] {
            let found = if fields.len() < 6 {
                None
            } else {
                match (&fields[5], &fields[1]) {
                    (AbiToken::Uint(fee), AbiToken::Bytes(data)) => Some((fee, data)),
                    _ => None,
                }
            };
            let (fee, data) = match found {
                Some(found) => found,
                None => {
                    let err = RestoreError::MalformedOperation;
                    assert(fault_at(*num, ops@, *parse_ops, i as int, err));
                    return Err(err);
                },
            };
            match parse_ops(data) {
                Ok(op_list) => {
                    let block_num = match word_to_u32(num) {
                        Some(n) => n,
                        None => {
                            let err = RestoreError::MalformedBlockHeader;
                            assert(fault_at(*num, ops@, *parse_ops, i as int, err));
                            return Err(err);
                        },
                    };
                    let fee_account = match word_to_u32(fee) {
                        Some(f) => f,
                        None => {
                            let err = RestoreError::MalformedOperation;
                            assert(fault_at(*num, ops@, *parse_ops, i as int, err));
                            return Err(err);
                        },
                    };
                    blocks.push(
                        RollupOpsBlock {
                            block_num: BlockNumber(block_num),
                            ops: op_list,
                            fee_account: AccountId(fee_account),
                        },
                    );
                },
                Err(e) => {
                    let ghost err = RestoreError::<E>::OperationPayload(e);
                    assert(fault_at(*num, ops@, *parse_ops, i as int, err));
                    return Err(RestoreError::OperationPayload(e));
                },
            }
        }
        i += 1;
    }
    proof {
        assert(ops@.take(ops.len() as int) =~= ops@);
    }
    Ok(blocks)
}

/// Rebuilds the blocks of a commit call from its argument bytes (selector
/// already stripped), handing each block's public data to `parse_ops`.
pub fn rollup_ops_blocks_from_bytes<Op, E, F: Fn(&Vec<u8>) -> Result<Vec<Op>, E>>(
    data: Vec<u8>,
    parse_ops: &F,
) -> (r: Result<Vec<RollupOpsBlock<Op>>, RestoreError<E>>)
    requires
        forall|b: &Vec<u8>| parse_ops.requires((b,)),
    ensures
        match abi_decoding(commitment_schema_names(), data@) {
            None => r matches Err(RestoreError::SchemaMismatch),
            Some(tokens) => restores(tokens, *parse_ops, r),
        },
        data@.len() < 224 ==> r matches Err(RestoreError::SchemaMismatch),
{
    match decode_commitment_parameters(&data) {
        Ok(tokens) => rollup_ops_blocks_from_tokens(&tokens, parse_ops),
        Err(e) => Err(e),
    }
}

/// `tokens` are commit arguments whose stored block number is `num` and whose
/// operation array holds, in order, one tuple per entry of `entries` with that
/// entry's fee account and public data.
pub open spec fn commit_arguments(tokens: Seq<AbiToken>, num: u32, entries: Seq<(u32, Vec<u8>)>) -> bool {
    &&& commit_layout(tokens) matches Some((stored, ops))
    &&& header_word(stored) matches Some(w)
    &&& word_u32(w) == Some(num)
    &&& ops.len() == entries.len()
    &&& forall|j: int|
        #![trigger ops[j]]
        0 <= j < ops.len() ==> {
            &&& operation_fields(ops[j]) matches Some(f)
            &&& word_u32(f.0) == Some(entries[j].0)
            &&& f.1 == entries[j].1
        }
}

/// `blocks` holds one record per entry of `entries`, in order, each with block
/// number `num`, the entry's fee account, and operations that `parse_ops` can
/// return for the entry's public data.
pub open spec fn blocks_for<Op, E, F: Fn(&Vec<u8>) -> Result<Vec<Op>, E>>(
    num: u32,
    entries: Seq<(u32, Vec<u8>)>,
    parse_ops: F,
    blocks: Seq<RollupOpsBlock<Op>>,
) -> bool {
    &&& blocks.len() == entries.len()
    &&& forall|j: int|
        #![trigger blocks[j]]
        0 <= j < entries.len() ==> {
            &&& blocks[j].block_num == BlockNumber(num)
            &&& blocks[j].fee_account == AccountId(entries[j].0)
            &&& parse_ops.ensures((&entries[j].1,), Ok(blocks[j].ops))
        }
}

/// `parse_ops` returns operations, never an error, on `data`.
pub open spec fn decodes<Op, E, F: Fn(&Vec<u8>) -> Result<Vec<Op>, E>>(parse_ops: F, data: Vec<u8>) -> bool {
    forall|res: Result<Vec<Op>, E>| #[trigger] parse_ops.ensures((&data,), res) ==> res is Ok
}

/// `parse_ops` returns an error, never operations, on `data`.
pub open spec fn refuses<Op, E, F: Fn(&Vec<u8>) -> Result<Vec<Op>, E>>(parse_ops: F, data: Vec<u8>) -> bool {
    forall|res: Result<Vec<Op>, E>| #[trigger] parse_ops.ensures((&data,), res) ==> res is Err
}

proof fn lemma_planned_all_tuples(ops: Seq<AbiToken>)
    requires
        forall|j: int| #![trigger ops[j]] 0 <= j < ops.len() ==> operation_fields(ops[j]) is Some,
    ensures
        planned_entries(ops) matches Some(done) && {
            &&& done.len() == ops.len()
            &&& forall|j: int|
                #![trigger done[j]]
                0 <= j < ops.len() ==> Some(done[j]) == operation_fields(ops[j])
        },
    decreases ops.len(),
{
    if ops.len() > 0 {
        let k = ops.len() - 1;
        assert(operation_fields(ops[k]) is Some);
        let prefix = ops.drop_last();
        assert forall|j: int| #![trigger prefix[j]] 0 <= j < prefix.len() implies operation_fields(prefix[j]) is Some by {
            assert(prefix[j] == ops[j]);
        }
        lemma_planned_all_tuples(prefix);
        let done = planned_entries(prefix)->Some_0;
        assert forall|j: int| #![trigger ops[j]] 0 <= j < ops.len() implies Some(done.push(operation_fields(ops[k])->Some_0)[j]) == operation_fields(ops[j]) by {
            if j < k {
                assert(prefix[j] == ops[j]);
                assert(Some(done[j]) == operation_fields(prefix[j]));
            }
        }
    }
}

/// Round trip: arguments that carry a block number and a list of (fee account,
/// public data) entries, whose public data the operation decoder accepts, give
/// one record per entry, in order, each with the stored block's number, the
/// entry's fee account, and what the decoder returns for the entry's public
/// data.
pub proof fn lemma_round_trip<Op, E, F: Fn(&Vec<u8>) -> Result<Vec<Op>, E>>(
    tokens: Seq<AbiToken>,
    parse_ops: F,
    r: Result<Vec<RollupOpsBlock<Op>>, RestoreError<E>>,
    num: u32,
    entries: Seq<(u32, Vec<u8>)>,
)
    requires
        restores(tokens, parse_ops, r),
        commit_arguments(tokens, num, entries),
        forall|j: int| 0 <= j < entries.len() ==> decodes(parse_ops, #[trigger] entries[j].1),
    ensures
        r matches Ok(blocks) && blocks_for(num, entries, parse_ops, blocks@),
{
    let (stored, ops) = commit_layout(tokens)->Some_0;
    let w = header_word(stored)->Some_0;
    assert forall|j: int| #![trigger ops[j]] 0 <= j < ops.len() implies operation_fields(ops[j]) is Some by {}
    lemma_planned_all_tuples(ops);
    let done = planned_entries(ops)->Some_0;
    match r {
        Ok(blocks) => {
            assert forall|j: int| #![trigger blocks@[j]] 0 <= j < entries.len() implies {
                &&& blocks@[j].block_num == BlockNumber(num)
                &&& blocks@[j].fee_account == AccountId(entries[j].0)
                &&& parse_ops.ensures((&entries[j].1,), Ok(blocks@[j].ops))
            } by {
                assert(Some(done[j]) == operation_fields(ops[j]));
            }
        },
        Err(err) => {
            let i = choose|i: int| #[trigger] fault_at(w, ops, parse_ops, i, err);
            assert(ops.take(i).len() == i);
            assert(operation_fields(ops[i]) is Some);
            assert(decodes(parse_ops, entries[i].1));
        },
    }
}

/// Arguments that are not exactly two values fail as a malformed commitment.
pub proof fn lemma_shape_rejected<Op, E, F: Fn(&Vec<u8>) -> Result<Vec<Op>, E>>(
    tokens: Seq<AbiToken>,
    parse_ops: F,
    r: Result<Vec<RollupOpsBlock<Op>>, RestoreError<E>>,
)
    requires
        restores(tokens, parse_ops, r),
        tokens.len() != 2,
    ensures
        r matches Err(RestoreError::MalformedCommitment),
{
}

/// An empty operation array gives an empty list of blocks, not an error,
/// whatever unsigned integer the stored block's number is.
pub proof fn lemma_empty_batch<Op, E, F: Fn(&Vec<u8>) -> Result<Vec<Op>, E>>(
    tokens: Seq<AbiToken>,
    parse_ops: F,
    r: Result<Vec<RollupOpsBlock<Op>>, RestoreError<E>>,
)
    requires
        restores(tokens, parse_ops, r),
        commit_layout(tokens) matches Some((stored, ops)) && {
            &&& header_word(stored) is Some
            &&& ops.len() == 0
        },
    ensures
        r matches Ok(blocks) && blocks@.len() == 0,
{
    let (stored, ops) = commit_layout(tokens)->Some_0;
    assert(ops =~= Seq::<AbiToken>::empty());
}

/// A batch of several operations gives as many blocks, in array order, all
/// with the same block number.
pub proof fn lemma_multi_block_batch<Op, E, F: Fn(&Vec<u8>) -> Result<Vec<Op>, E>>(
    tokens: Seq<AbiToken>,
    parse_ops: F,
    r: Result<Vec<RollupOpsBlock<Op>>, RestoreError<E>>,
    num: u32,
    entries: Seq<(u32, Vec<u8>)>,
)
    requires
        restores(tokens, parse_ops, r),
        commit_arguments(tokens, num, entries),
        entries.len() >= 2,
        forall|j: int| 0 <= j < entries.len() ==> decodes(parse_ops, #[trigger] entries[j].1),
    ensures
        r matches Ok(blocks) && {
            &&& blocks@.len() == entries.len()
            &&& forall|j: int, k: int|
                0 <= j < blocks@.len() && 0 <= k < blocks@.len() ==> #[trigger] blocks@[j].block_num
                    == #[trigger] blocks@[k].block_num
            &&& forall|j: int|
                0 <= j < blocks@.len() ==> #[trigger] blocks@[j].fee_account == AccountId(entries[j].0)
        },
{
    lemma_round_trip(tokens, parse_ops, r, num, entries);
}

/// Where the operation decoder refuses one block's public data, the whole
/// extraction fails with a payload error that the decoder returned for the
/// first refused block, and returns no blocks.
pub proof fn lemma_payload_failure_propagates<Op, E, F: Fn(&Vec<u8>) -> Result<Vec<Op>, E>>(
    tokens: Seq<AbiToken>,
    parse_ops: F,
    r: Result<Vec<RollupOpsBlock<Op>>, RestoreError<E>>,
    num: u32,
    entries: Seq<(u32, Vec<u8>)>,
    j: int,
)
    requires
        restores(tokens, parse_ops, r),
        commit_arguments(tokens, num, entries),
        0 <= j < entries.len(),
        refuses(parse_ops, entries[j].1),
    ensures
        r matches Err(RestoreError::OperationPayload(e)) && exists|i: int|
            #![trigger entries[i]]
            {
                &&& 0 <= i <= j
                &&& parse_ops.ensures((&entries[i].1,), Err(e))
            },
{
    let (stored, ops) = commit_layout(tokens)->Some_0;
    let w = header_word(stored)->Some_0;
    assert forall|k: int| #![trigger ops[k]] 0 <= k < ops.len() implies operation_fields(ops[k]) is Some by {}
    lemma_planned_all_tuples(ops);
    let done = planned_entries(ops)->Some_0;
    assert(Some(done[j]) == operation_fields(ops[j]));
    match r {
        Ok(blocks) => {
            assert(parse_ops.ensures((&done[j].1,), Ok(blocks@[j].ops)));
        },
        Err(err) => {
            let i = choose|i: int| #[trigger] fault_at(w, ops, parse_ops, i, err);
            assert(operation_fields(ops[i]) is Some);
            if i > j {
                let prefix = ops.take(i);
                assert forall|k: int| #![trigger prefix[k]] 0 <= k < prefix.len() implies operation_fields(prefix[k]) is Some by {
                    assert(prefix[k] == ops[k]);
                }
                lemma_planned_all_tuples(prefix);
                let pd = planned_entries(prefix)->Some_0;
                assert(prefix[j] == ops[j]);
                assert(Some(pd[j]) == operation_fields(prefix[j]));
                let blocks = choose|blocks: Seq<RollupOpsBlock<Op>>| #[trigger] blocks_match(w, pd, parse_ops, blocks);
                assert(parse_ops.ensures((&pd[j].1,), Ok(blocks[j].ops)));
            }
        },
    }
}

} // verus!
