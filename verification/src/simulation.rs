//! What a simulated network is run for and judged by: each node is to
//! finalize a number of blocks, and all nodes are to agree on the head, the
//! state root, the seed and the balances.

use crate::primitives::{B256, U256};
use crate::snapshot::ConsensusDigest;
use crate::text::{append, append_decimal, decimal_of};
use vstd::prelude::*;

verus! {

/// The settings of a simulation run.
#[derive(Clone, Copy, Debug, PartialEq, Eq, Structural)]
pub struct SimConfig {
    /// The number of nodes that take part.
    pub nodes: usize,
    /// The number of blocks that each node is to finalize.
    pub blocks: u64,
    /// The seed of the randomness of the run.
    pub seed: u64,
}

/// What a run that succeeded ended with.
#[derive(Clone, Copy, Debug, PartialEq, Eq, Structural)]
pub struct SimOutcome {
    /// The digest of the finalized head.
    pub head: ConsensusDigest,
    /// The state root at the head.
    pub state_root: B256,
    /// The seed at the head.
    pub seed: B256,
    /// The balance of the sender at the head.
    pub from_balance: U256,
    /// The balance of the receiver at the head.
    pub to_balance: U256,
}

/// Why a run failed.
#[derive(Clone, Copy, Debug, PartialEq, Eq, Structural)]
pub enum SimError {
    /// The run asks for no blocks.
    NoBlocks,
    /// There is no node, or the first node did not finalize enough blocks.
    MissingFinalization,
    /// The node with this index did not finalize enough blocks.
    NodeMissingFinalization(usize),
    /// Two nodes finalized different heads.
    DivergentHeads,
    /// A node does not know the sender's balance.
    MissingFromBalance,
    /// A node does not know the receiver's balance.
    MissingToBalance,
    /// A node holds balances other than the expected ones.
    UnexpectedBalances,
    /// There is no node, or a node does not know the state root.
    MissingStateRoot,
    /// Two nodes hold different state roots.
    DivergentStateRoots,
    /// A node does not know the seed.
    MissingSeed,
    /// Two nodes hold different seeds.
    DivergentSeeds,
}

impl SimError {
    /// The failure in words.
    pub open spec fn text_of(self) -> Seq<char> {
        match self {
            SimError::NoBlocks => "blocks must be greater than zero"@,
            SimError::MissingFinalization => "missing finalization"@,
            SimError::NodeMissingFinalization(i) => "node "@ + decimal_of(i as nat)
                + " missing finalization"@,
            SimError::DivergentHeads => "divergent finalized heads"@,
            SimError::MissingFromBalance => "missing from balance"@,
            SimError::MissingToBalance => "missing to balance"@,
            SimError::UnexpectedBalances => "unexpected balances"@,
            SimError::MissingStateRoot => "missing state root"@,
            SimError::DivergentStateRoots => "divergent state roots"@,
            SimError::MissingSeed => "missing seed"@,
            SimError::DivergentSeeds => "divergent seeds"@,
        }
    }

    /// The failure in words.
    pub fn message(&self) -> (text: String)
        ensures
            text@ == self.text_of(),
    {
        match self {
            SimError::NoBlocks => "blocks must be greater than zero".to_owned(),
            SimError::MissingFinalization => "missing finalization".to_owned(),
            SimError::NodeMissingFinalization(i) => {
                let mut text = "node ".to_owned();
                append_decimal(&mut text, *i as u64);
                append(&mut text, " missing finalization");
                text
            },
            SimError::DivergentHeads => "divergent finalized heads".to_owned(),
            SimError::MissingFromBalance => "missing from balance".to_owned(),
            SimError::MissingToBalance => "missing to balance".to_owned(),
            SimError::UnexpectedBalances => "unexpected balances".to_owned(),
            SimError::MissingStateRoot => "missing state root".to_owned(),
            SimError::DivergentStateRoots => "divergent state roots".to_owned(),
            SimError::MissingSeed => "missing seed".to_owned(),
            SimError::DivergentSeeds => "divergent seeds".to_owned(),
        }
    }
}

/// What is known of one node's finalized blocks.
#[derive(Clone, Copy, Debug, PartialEq, Eq, Structural)]
pub struct NodeProgress {
    /// The number of blocks that the node finalized, up to the wanted one.
    pub count: u64,
    /// The digest of the wanted block, once the node finalized it.
    pub head: Option<ConsensusDigest>,
}

/// What one more finalized block makes of a node's progress, where
/// `blocks` are wanted: nothing once the wanted block is known; else one
/// more block, which is the wanted one where it is the `blocks`-th.
pub open spec fn progressed(progress: NodeProgress, digest: ConsensusDigest, blocks: u64) -> NodeProgress {
    if progress.head is Some {
        progress
    } else if progress.count + 1 == blocks {
        NodeProgress { count: blocks, head: Some(digest) }
    } else {
        NodeProgress { count: (progress.count + 1) as u64, head: None }
    }
}

/// The head that the nodes agree on, or the first thing that is wrong: no
/// first head, a node without a head, or a node with another head.
pub open spec fn agreed_head(nodes: Seq<NodeProgress>) -> Result<ConsensusDigest, SimError> {
    if nodes.len() == 0 || nodes[0].head is None {
        Err(SimError::MissingFinalization)
    } else {
        head_from(nodes, nodes[0].head->Some_0, 0)
    }
}

/// The check of the heads from the node with index `i` on.
pub open spec fn head_from(nodes: Seq<NodeProgress>, head: ConsensusDigest, i: int) -> Result<
    ConsensusDigest,
    SimError,
>
    decreases nodes.len() - i,
{
    if i < 0 || i >= nodes.len() {
        Ok(head)
    } else if nodes[i].head is None {
        Err(SimError::NodeMissingFinalization(i as usize))
    } else if nodes[i].head->Some_0 != head {
        Err(SimError::DivergentHeads)
    } else {
        head_from(nodes, head, i + 1)
    }
}

/// Follows the blocks that each node finalizes until every node has
/// finalized the wanted number.
#[derive(Debug)]
pub struct FinalizationTracker {
    nodes: Vec<NodeProgress>,
    blocks: u64,
}

impl FinalizationTracker {
    /// What is known of each node.
    pub closed spec fn progress(&self) -> Seq<NodeProgress> {
        self.nodes@
    }

    /// The number of blocks that each node is to finalize.
    pub closed spec fn wanted(&self) -> u64 {
        self.blocks
    }

    /// Whether the tracker is well formed: blocks are wanted, and a node has
    /// its head exactly when it has finalized as many.
    pub open spec fn wf(&self) -> bool {
        &&& self.wanted() > 0
        &&& forall|i: int|
            0 <= i < self.progress().len() ==> (#[trigger] self.progress()[i]).count
                <= self.wanted() && (self.progress()[i].head is Some <==> self.progress()[i].count
                == self.wanted())
    }

    /// The tracker of `nodes` nodes that have finalized nothing yet. A run of
    /// no blocks is refused.
    pub fn new(nodes: usize, blocks: u64) -> (tracker: Result<Self, SimError>)
        ensures
            blocks == 0 <==> tracker == Err::<Self, SimError>(SimError::NoBlocks),
            tracker matches Ok(t) ==> t.wf() && t.wanted() == blocks && t.progress().len() == nodes
                && forall|i: int|
                0 <= i < nodes ==> (#[trigger] t.progress()[i]) == (NodeProgress {
                    count: 0,
                    head: None,
                }),
    {
        if blocks == 0 {
            return Err(SimError::NoBlocks);
        }
        let mut progress: Vec<NodeProgress> = Vec::new();
        let mut i: usize = 0;
        while i < nodes
            invariant
                i <= nodes,
                progress@.len() == i,
                forall|j: int|
                    0 <= j < i ==> (#[trigger] progress@[j]) == (NodeProgress {
                        count: 0,
                        head: None,
                    }),
            decreases nodes - i,
        {
            progress.push(NodeProgress { count: 0, head: None });
            i = i + 1;
        }
        Ok(FinalizationTracker { nodes: progress, blocks })
    }

    /// Whether some node has not finalized the wanted number of blocks yet.
    pub fn waiting(&self) -> (waiting: bool)
        ensures
            waiting == exists|i: int|
                0 <= i < self.progress().len() && (#[trigger] self.progress()[i]).head is None,
    {
        let mut i: usize = 0;
        while i < self.nodes.len()
            invariant
                i <= self.nodes@.len(),
                forall|j: int| 0 <= j < i ==> (#[trigger] self.nodes@[j]).head is Some,
            decreases self.nodes@.len() - i,
        {
            if self.nodes[i].head.is_none() {
                return true;
            }
            i = i + 1;
        }
        false
    }

    /// Takes note that the node with index `node` finalized the block with
    /// digest `digest`.
    pub fn observe(&mut self, node: usize, digest: ConsensusDigest)
        requires
            old(self).wf(),
            node < old(self).progress().len(),
        ensures
            final(self).wf(),
            final(self).wanted() == old(self).wanted(),
            final(self).progress() == old(self).progress().update(
                node as int,
                progressed(old(self).progress()[node as int], digest, old(self).wanted()),
            ),
    {
        let current = self.nodes[node];
        if current.head.is_some() {
            assert(self.nodes@ =~= old(self).nodes@.update(node as int, current));
            return ;
        }
        let count = current.count + 1;
        let head = if count == self.blocks {
            Some(digest)
        } else {
            None
        };
        self.nodes[node] = NodeProgress { count, head };
    }

    /// The head that all nodes finalized, or the first thing that is wrong.
    pub fn head(&self) -> (head: Result<ConsensusDigest, SimError>)
        ensures
            head == agreed_head(self.progress()),
    {
        if self.nodes.len() == 0 {
            return Err(SimError::MissingFinalization);
        }
        let first = match self.nodes[0].head {
            Some(d) => d,
            None => {
                return Err(SimError::MissingFinalization);
            },
        };
        let mut i: usize = 0;
        while i < self.nodes.len()
            invariant
                i <= self.nodes@.len(),
                agreed_head(self.nodes@) == head_from(self.nodes@, first, i as int),
            decreases self.nodes@.len() - i,
        {
            match self.nodes[i].head {
                None => {
                    return Err(SimError::NodeMissingFinalization(i));
                },
                Some(d) => {
                    if d != first {
                        return Err(SimError::DivergentHeads);
                    }
                },
            }
            i = i + 1;
        }
        Ok(first)
    }
}

/// What one node answers about the head.
#[derive(Clone, Copy, Debug, PartialEq, Eq, Structural)]
pub struct NodeReport {
    /// The balance of the sender, where the node knows it.
    pub from_balance: Option<U256>,
    /// The balance of the receiver, where the node knows it.
    pub to_balance: Option<U256>,
    /// The state root, where the node knows it.
    pub state_root: Option<B256>,
    /// The seed, where the node knows it.
    pub seed: Option<B256>,
}

/// The first thing that is wrong with one report, given the balances that
/// are expected and the root and seed of the nodes before it, if any.
pub open spec fn report_fault(
    report: NodeReport,
    expected_from: U256,
    expected_to: U256,
    agreed: Option<(B256, B256)>,
) -> Option<SimError> {
    if report.from_balance is None {
        Some(SimError::MissingFromBalance)
    } else if report.to_balance is None {
        Some(SimError::MissingToBalance)
    } else if report.from_balance->Some_0 != expected_from || report.to_balance->Some_0
        != expected_to {
        Some(SimError::UnexpectedBalances)
    } else if report.state_root is None {
        Some(SimError::MissingStateRoot)
    } else if agreed is Some && agreed->Some_0.0 != report.state_root->Some_0 {
        Some(SimError::DivergentStateRoots)
    } else if report.seed is None {
        Some(SimError::MissingSeed)
    } else if agreed is Some && agreed->Some_0.1 != report.seed->Some_0 {
        Some(SimError::DivergentSeeds)
    } else {
        None
    }
}

/// The root and seed that the reports from index `i` on agree on with
/// `agreed`, or the first thing that is wrong.
pub open spec fn converged_from(
    reports: Seq<NodeReport>,
    expected_from: U256,
    expected_to: U256,
    agreed: Option<(B256, B256)>,
    i: int,
) -> Result<(B256, B256), SimError>
    decreases reports.len() - i,
{
    if i < 0 || i >= reports.len() {
        match agreed {
            Some(pair) => Ok(pair),
            None => Err(SimError::MissingStateRoot),
        }
    } else {
        match report_fault(reports[i], expected_from, expected_to, agreed) {
            Some(e) => Err(e),
            None => converged_from(
                reports,
                expected_from,
                expected_to,
                Some((reports[i].state_root->Some_0, reports[i].seed->Some_0)),
                i + 1,
            ),
        }
    }
}

/// The state root and the seed that all nodes hold, where every node holds
/// the expected balances and all agree; else the first thing that is wrong,
/// node by node.
pub fn all_nodes_converged(reports: &[NodeReport], expected_from: U256, expected_to: U256) -> (agreed:
    Result<(B256, B256), SimError>)
    ensures
        agreed == converged_from(reports@, expected_from, expected_to, None, 0),
{
    let mut state: Option<(B256, B256)> = None;
    let mut i: usize = 0;
    while i < reports.len()
        invariant
            i <= reports@.len(),
            converged_from(reports@, expected_from, expected_to, None, 0) == converged_from(
                reports@,
                expected_from,
                expected_to,
                state,
                i as int,
            ),
        decreases reports@.len() - i,
    {
        let report = reports[i];
        let from_balance = match report.from_balance {
            Some(b) => b,
            None => {
                return Err(SimError::MissingFromBalance);
            },
        };
        let to_balance = match report.to_balance {
            Some(b) => b,
            None => {
                return Err(SimError::MissingToBalance);
            },
        };
        if from_balance != expected_from || to_balance != expected_to {
            return Err(SimError::UnexpectedBalances);
        }
        let root = match report.state_root {
            Some(r) => r,
            None => {
                return Err(SimError::MissingStateRoot);
            },
        };
        match state {
            Some((agreed_root, _)) => {
                if agreed_root != root {
                    return Err(SimError::DivergentStateRoots);
                }
            },
            None => {},
        }
        let seed = match report.seed {
            Some(s) => s,
            None => {
                return Err(SimError::MissingSeed);
            },
        };
        match state {
            Some((_, agreed_seed)) => {
                if agreed_seed != seed {
                    return Err(SimError::DivergentSeeds);
                }
            },
            None => {},
        }
        state = Some((root, seed));
        i = i + 1;
    }
    match state {
        Some(pair) => Ok(pair),
        None => Err(SimError::MissingStateRoot),
    }
}

} // verus!
