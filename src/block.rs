//! Blocks and the errors of the consensus core.
use vstd::prelude::*;

verus! {

/// The transaction that marks a payload as deliberately invalid.
pub const INVALID_MARKER: &'static str = "invalid_tx";

/// The marker transaction, as characters.
pub open spec fn marker_view() -> Seq<char> {
    INVALID_MARKER@
}

/// Errors of the consensus core.
#[derive(Debug)]
pub enum ConsensusError {
    /// A proposed block failed validation.
    InvalidBlock,
    /// A transport-level failure, with a description; reserved for extensions.
    NetworkError(String),
}

/// A proposed block.
#[derive(Clone, Debug)]
pub struct Block {
    /// Sequential per honest proposer; 0 for a malicious one.
    pub id: u64,
    /// Identity of the proposing validator.
    pub proposer: String,
    /// Opaque transactions, in order.
    pub transactions: Vec<String>,
}

/// The mathematical value of a block.
pub struct BlockView {
    pub id: int,
    pub proposer: Seq<char>,
    pub transactions: Seq<Seq<char>>,
}

impl View for Block {
    type V = BlockView;

    open spec fn view(&self) -> BlockView {
        BlockView {
            id: self.id as int,
            proposer: self.proposer@,
            transactions: self.transactions@.map_values(|t: String| t@),
        }
    }
}

/// A block passes validation exactly when it does not carry the marker.
pub open spec fn block_acceptable(b: BlockView) -> bool {
    !b.transactions.contains(marker_view())
}

/// Whether `block` carries the marker transaction.
pub fn carries_marker(block: &Block) -> (r: bool)
    ensures
        r == !block_acceptable(block@),
{
    let marker: String = INVALID_MARKER.to_owned();
    let n: usize = block.transactions.len();
    let mut j: usize = 0;
    while j < n
        invariant
            n == block.transactions@.len(),
            j <= n,
            marker@ == marker_view(),
            forall|t: int| 0 <= t < j ==> block@.transactions[t] != marker_view(),
        decreases n - j,
    {
        if block.transactions[j] == marker {
            assert(block@.transactions[j as int] == marker_view());
            return true;
        }
        j = j + 1;
    }
    assert(!block@.transactions.contains(marker_view()));
    false
}

} // verus!
