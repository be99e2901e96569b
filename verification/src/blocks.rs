//! The input generator server's choice of blocks: which block to wait for, which
//! network a chain is, and which witness header holds the parent state.

use ethrex_rlp::decode::RLPDecode;
use vstd::prelude::*;

verus! {

/// Seconds between two blocks, by which the waits are counted.
pub const SECONDS_PER_BLOCK: u64 = 12;

/// The block modulus used when none is configured.
pub const DEFAULT_BLOCK_MODULUS: u64 = 1;

/// The chain ID of Ethereum Mainnet.
pub const MAINNET_CHAIN_ID: u64 = 1;

/// The chain ID of Holesky.
pub const HOLESKY_CHAIN_ID: u64 = 17000;

/// The chain ID of Hoodi.
pub const HOODI_CHAIN_ID: u64 = 560048;

/// The chain ID of Sepolia.
pub const SEPOLIA_CHAIN_ID: u64 = 11155111;

/// The public networks whose blocks the server can prove.
#[derive(PartialEq, Eq, Structural, Debug, Clone, Copy)]
pub enum PublicNetwork {
    Mainnet,
    Holesky,
    Hoodi,
    Sepolia,
}

/// The public network with the given chain ID, if it is one of the four known.
pub open spec fn spec_network(chain_id: u64) -> Option<PublicNetwork> {
    if chain_id == MAINNET_CHAIN_ID {
        Some(PublicNetwork::Mainnet)
    } else if chain_id == HOLESKY_CHAIN_ID {
        Some(PublicNetwork::Holesky)
    } else if chain_id == HOODI_CHAIN_ID {
        Some(PublicNetwork::Hoodi)
    } else if chain_id == SEPOLIA_CHAIN_ID {
        Some(PublicNetwork::Sepolia)
    } else {
        None
    }
}

/// Looks up the public network of a chain ID.
pub fn network_for_chain_id(chain_id: u64) -> (r: Option<PublicNetwork>)
    ensures
        r == spec_network(chain_id),
{
    if chain_id == MAINNET_CHAIN_ID {
        Some(PublicNetwork::Mainnet)
    } else if chain_id == HOLESKY_CHAIN_ID {
        Some(PublicNetwork::Holesky)
    } else if chain_id == HOODI_CHAIN_ID {
        Some(PublicNetwork::Hoodi)
    } else if chain_id == SEPOLIA_CHAIN_ID {
        Some(PublicNetwork::Sepolia)
    } else {
        None
    }
}

/// The four public networks and their chain IDs: 1 is Mainnet, 17000 Holesky,
/// 560048 Hoodi and 11155111 Sepolia; no other chain ID is known.
pub proof fn law_networks(chain_id: u64)
    ensures
        spec_network(1) == Some(PublicNetwork::Mainnet),
        spec_network(17000) == Some(PublicNetwork::Holesky),
        spec_network(560048) == Some(PublicNetwork::Hoodi),
        spec_network(11155111) == Some(PublicNetwork::Sepolia),
        chain_id != 1 && chain_id != 17000 && chain_id != 560048 && chain_id != 11155111
            ==> spec_network(chain_id) is None,
{
}

/// The next block to prove after `block_number` when only multiples of
/// `modulus` are proved (`u64::next_multiple_of`).
pub open spec fn spec_next_multiple(block_number: u64, modulus: u64) -> int {
    if block_number % modulus == 0 {
        block_number as int
    } else {
        block_number + (modulus - block_number % modulus)
    }
}

/// Where the server stands with the latest block: prove it now, or wait for
/// the next multiple of the modulus.
#[derive(PartialEq, Eq, Structural, Debug, Clone, Copy)]
pub enum BlockWait {
    /// The latest block is a multiple of the modulus.
    Ready,
    /// Wait `seconds` for block `next`.
    Wait { next: u64, seconds: u64 },
}

/// Decides whether `block_number` is proved now or which block to wait for, and
/// how long: twelve seconds for each block still to come.
pub fn block_wait(block_number: u64, modulus: u64) -> (r: BlockWait)
    requires
        modulus > 0,
        spec_next_multiple(block_number, modulus) <= u64::MAX,
        (spec_next_multiple(block_number, modulus) - block_number) * SECONDS_PER_BLOCK
            <= u64::MAX,
    ensures
        block_number % modulus == 0 ==> r == BlockWait::Ready,
        block_number % modulus != 0 ==> r == (BlockWait::Wait {
            next: spec_next_multiple(block_number, modulus) as u64,
            seconds: ((spec_next_multiple(block_number, modulus) - block_number)
                * SECONDS_PER_BLOCK) as u64,
        }),
{
    let rem = block_number % modulus;
    if rem == 0 {
        BlockWait::Ready
    } else {
        let next = block_number + (modulus - rem);
        BlockWait::Wait { next, seconds: (next - block_number) * SECONDS_PER_BLOCK }
    }
}

/// The block waited for is the first multiple of the modulus after the
/// current one.
pub proof fn law_next_multiple(block_number: u64, modulus: u64)
    requires
        modulus > 0,
        block_number % modulus != 0,
    ensures
        spec_next_multiple(block_number, modulus) % (modulus as int) == 0,
        block_number < spec_next_multiple(block_number, modulus) < block_number + modulus,
        forall|m: int|
            block_number < m < spec_next_multiple(block_number, modulus) ==> #[trigger] (m
                % (modulus as int)) != 0,
{
    let b = block_number as int;
    let k = modulus as int;
    let r = b % k;
    let q = b / k;
    assert(b == q * k + r) by (nonlinear_arith)
        requires
            k > 0,
            r == b % k,
            q == b / k,
    ;
    let n = b + (k - r);
    assert(n == (q + 1) * k) by (nonlinear_arith)
        requires
            b == q * k + r,
            n == b + (k - r),
    ;
    assert(n % k == 0) by (nonlinear_arith)
        requires
            n == (q + 1) * k,
            k > 0,
    ;
    assert forall|m: int| b < m < n implies #[trigger] (m % k) != 0 by {
        if m % k == 0 {
            let j = m / k;
            assert(m == j * k) by (nonlinear_arith)
                requires
                    k > 0,
                    m % k == 0,
                    j == m / k,
            ;
            assert(q * k < j * k < (q + 1) * k);
            assert(q < j < q + 1) by (nonlinear_arith)
                requires
                    q * k < j * k,
                    j * k < (q + 1) * k,
                    k > 0,
            ;
        }
    }
}

/// The number of the parent of block `block_number`, counted as release
/// builds count `block_number - 1` (wrapping below zero).
pub open spec fn spec_parent_number(block_number: u64) -> u64 {
    if block_number == 0 {
        u64::MAX
    } else {
        (block_number - 1) as u64
    }
}

/// The number of the parent of block `block_number`.
pub fn parent_number(block_number: u64) -> (p: u64)
    ensures
        p == spec_parent_number(block_number),
{
    block_number.wrapping_sub(1)
}

/// What the search for the parent header among the witness headers found.
#[derive(PartialEq, Eq, Structural, Debug, Clone, Copy)]
pub enum ParentHeader {
    /// The header at this index is the parent.
    Found(usize),
    /// The header at this index could not be decoded, before any parent was met.
    Undecodable(usize),
    /// No header is the parent.
    Missing,
}

/// Finds, in order, the witness header of the parent block, given the
/// number of each header (`None` where it does not decode); the search stops
/// at the first header that does not decode.
pub fn find_parent_header(numbers: &Vec<Option<u64>>, block_number: u64) -> (r: ParentHeader)
    ensures
        match r {
            ParentHeader::Found(i) => {
                &&& i < numbers@.len()
                &&& numbers@[i as int] == Some(spec_parent_number(block_number))
                &&& forall|j: int|
                    0 <= j < i ==> #[trigger] numbers@[j] is Some && numbers@[j] != Some(
                        spec_parent_number(block_number),
                    )
            },
            ParentHeader::Undecodable(i) => {
                &&& i < numbers@.len()
                &&& numbers@[i as int] is None
                &&& forall|j: int|
                    0 <= j < i ==> #[trigger] numbers@[j] is Some && numbers@[j] != Some(
                        spec_parent_number(block_number),
                    )
            },
            ParentHeader::Missing => forall|j: int|
                0 <= j < numbers@.len() ==> #[trigger] numbers@[j] is Some && numbers@[j] != Some(
                    spec_parent_number(block_number),
                ),
        },
{
    let parent = parent_number(block_number);
    let mut i: usize = 0;
    while i < numbers.len()
        invariant
            i <= numbers@.len(),
            parent == spec_parent_number(block_number),
            forall|j: int| 0 <= j < i ==> #[trigger] numbers@[j] is Some && numbers@[j] != Some(parent),
        decreases numbers@.len() - i,
    {
        match numbers[i] {
            None => {
                return ParentHeader::Undecodable(i);
            },
            Some(n) => {
                if n == parent {
                    return ParentHeader::Found(i);
                }
            },
        }
        i = i + 1;
    }
    ParentHeader::Missing
}


/// What ethrex's RLP decoder makes of an encoded block header: its number and
/// state root, or nothing when the bytes are not a header.
pub uninterp spec fn rlp_block_header(bytes: Seq<u8>) -> Option<(u64, Seq<u8>)>;

/// Decodes a block header with `ethrex_rlp::decode::RLPDecode::decode` for
/// `ethrex_common::types::BlockHeader` (which also refuses trailing bytes) and
/// gives back its `number` and `state_root`. The contract ties the answer to
/// the bytes through `rlp_block_header` and says nothing more of RLP.
#[verifier::external_body]
fn decode_block_header(bytes: &[u8]) -> (r: Option<(u64, [u8; 32])>)
    ensures
        match r {
            Some((n, root)) => rlp_block_header(bytes@) == Some((n, root@)),
            None => rlp_block_header(bytes@) is None,
        },
{
    match ethrex_common::types::BlockHeader::decode(bytes) {
        Ok(h) => Some((h.number, h.state_root.0)),
        Err(_) => None,
    }
}

/// The number of an encoded header, if it decodes.
pub open spec fn header_number(bytes: Seq<u8>) -> Option<u64> {
    match rlp_block_header(bytes) {
        Some((n, _)) => Some(n),
        None => None,
    }
}

/// What the search for the parent state root among the witness headers found.
pub enum ParentStateRoot {
    /// The state root of the parent header.
    Found([u8; 32]),
    /// The header at this index could not be decoded, before any parent was met.
    Undecodable(usize),
    /// No header is the parent.
    Missing,
}

/// The state root of the parent block, from the first witness header
/// of that number; the search goes in order and stops at the first header
/// that does not decode.
pub fn parent_state_root(headers: &Vec<Vec<u8>>, block_number: u64) -> (r: ParentStateRoot)
    ensures
        match r {
            ParentStateRoot::Found(root) => exists|i: int|
                {
                    &&& 0 <= i < headers@.len()
                    &&& rlp_block_header(headers@[i]@) == Some((spec_parent_number(block_number), root@))
                    &&& forall|j: int|
                        0 <= j < i ==> #[trigger] header_number(headers@[j]@) is Some
                            && header_number(headers@[j]@) != Some(spec_parent_number(block_number))
                },
            ParentStateRoot::Undecodable(i) => {
                &&& i < headers@.len()
                &&& header_number(headers@[i as int]@) is None
                &&& forall|j: int|
                    0 <= j < i ==> #[trigger] header_number(headers@[j]@) is Some
                        && header_number(headers@[j]@) != Some(spec_parent_number(block_number))
            },
            ParentStateRoot::Missing => forall|j: int|
                0 <= j < headers@.len() ==> #[trigger] header_number(headers@[j]@) is Some
                    && header_number(headers@[j]@) != Some(spec_parent_number(block_number)),
        },
{
    let mut numbers: Vec<Option<u64>> = Vec::new();
    let mut roots: Vec<[u8; 32]> = Vec::new();
    let mut i: usize = 0;
    while i < headers.len()
        invariant
            i <= headers@.len(),
            numbers@.len() == i,
            roots@.len() == i,
            forall|j: int|
                0 <= j < i ==> #[trigger] numbers@[j] == header_number(headers@[j]@),
            forall|j: int|
                0 <= j < i && numbers@[j] is Some ==> rlp_block_header(headers@[j]@) == Some(
                    (numbers@[j]->0, #[trigger] roots@[j]@),
                ),
        decreases headers@.len() - i,
    {
        match decode_block_header(headers[i].as_slice()) {
            Some((n, root)) => {
                numbers.push(Some(n));
                roots.push(root);
            },
            None => {
                numbers.push(None);
                roots.push([0u8; 32]);
            },
        }
        i = i + 1;
    }
    match find_parent_header(&numbers, block_number) {
        ParentHeader::Found(k) => {
            let root = roots[k];
            assert(numbers@[k as int] is Some);
            assert(rlp_block_header(headers@[k as int]@) == Some((spec_parent_number(block_number), root@)));
            assert forall|j: int| 0 <= j < k implies #[trigger] header_number(headers@[j]@) is Some
                && header_number(headers@[j]@) != Some(spec_parent_number(block_number)) by {
                assert(numbers@[j] == header_number(headers@[j]@));
            }
            ParentStateRoot::Found(root)
        },
        ParentHeader::Undecodable(k) => {
            assert(numbers@[k as int] == header_number(headers@[k as int]@));
            assert forall|j: int| 0 <= j < k implies #[trigger] header_number(headers@[j]@) is Some
                && header_number(headers@[j]@) != Some(spec_parent_number(block_number)) by {
                assert(numbers@[j] == header_number(headers@[j]@));
            }
            ParentStateRoot::Undecodable(k)
        },
        ParentHeader::Missing => {
            assert forall|j: int| 0 <= j < headers@.len() implies #[trigger] header_number(
                headers@[j]@,
            ) is Some && header_number(headers@[j]@) != Some(spec_parent_number(block_number)) by {
                assert(numbers@[j] == header_number(headers@[j]@));
            }
            ParentStateRoot::Missing
        },
    }
}

} // verus!
