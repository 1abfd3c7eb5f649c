use blockchain::block::Block;
use blockchain::chain::{BlockChain, ChainError, Overlap};
use blockchain::traits::BlockChainBase;

#[derive(Clone, Debug, PartialEq, Eq)]
struct Entry(u32);

impl BlockChainBase for Entry {}

fn block(parent: Option<u64>, value: u32) -> Block<Entry> {
    Block::new(parent, Entry(value), &value.to_le_bytes())
}

fn written() -> Result<(), String> {
    Ok(())
}

fn failed(reason: &str) -> Result<(), String> {
    Err(String::from(reason))
}

fn score(overlap: Overlap) -> f64 {
    overlap.matched as f64 / overlap.out_of as f64
}

fn chain_of(values: &[u32]) -> BlockChain<Entry> {
    let mut chain = BlockChain::new();
    for value in values {
        let next = block(chain.tail_identity(), *value);
        assert_eq!(chain.append(next, written()), Ok(()));
    }
    chain
}

#[test]
fn new_chain_is_empty() {
    let chain: BlockChain<Entry> = BlockChain::new();
    assert_eq!(chain.len(), 0);
    assert_eq!(chain.tail_identity(), None);
    assert!(chain.blocks().is_empty());
    assert!(!chain.in_chain(&block(None, 0)));
}

#[test]
fn empty_chain_takes_a_genesis_block() {
    let mut chain = BlockChain::new();
    let genesis = block(None, 0);
    assert_eq!(chain.append(genesis.clone(), written()), Ok(()));
    assert_eq!(chain.len(), 1);
    assert_eq!(chain.tail_identity(), Some(genesis.identity()));
    assert!(chain.in_chain(&genesis));
}

#[test]
fn empty_chain_refuses_a_block_with_a_parent() {
    let mut chain = BlockChain::new();
    let orphan = block(Some(5), 1);
    assert_eq!(chain.append(orphan.clone(), written()), Err(ChainError::Validation));
    assert_eq!(chain.len(), 0);
    assert!(!chain.in_chain(&orphan));
}

#[test]
fn chain_refuses_a_second_genesis_block() {
    let mut chain = chain_of(&[0]);
    assert_eq!(chain.append(block(None, 9), written()), Err(ChainError::Validation));
    assert_eq!(chain.len(), 1);
}

#[test]
fn append_with_wrong_parent_is_a_validation_error() {
    let mut chain = chain_of(&[0, 1]);
    let tail = chain.tail_identity();
    let stray = block(Some(0xdead_beef), 2);
    assert_eq!(chain.append(stray.clone(), written()), Err(ChainError::Validation));
    assert_eq!(chain.len(), 2);
    assert_eq!(chain.tail_identity(), tail);
    assert!(!chain.in_chain(&stray));
}

#[test]
fn append_with_failed_write_is_a_persistence_error() {
    let mut chain = chain_of(&[0]);
    let next = block(chain.tail_identity(), 1);
    assert_eq!(
        chain.append(next.clone(), failed("disk full")),
        Err(ChainError::Persistence(String::from("disk full")))
    );
    assert_eq!(chain.len(), 1);
    assert!(!chain.in_chain(&next));
}

#[test]
fn chain_stays_usable_after_a_failed_write() {
    let mut chain = chain_of(&[0]);
    let next = block(chain.tail_identity(), 1);
    assert!(chain.append(next.clone(), failed("timeout")).is_err());
    assert_eq!(chain.append(next.clone(), written()), Ok(()));
    assert_eq!(chain.len(), 2);
    assert!(chain.in_chain(&next));
}

#[test]
fn validation_is_decided_before_the_write_is_looked_at() {
    let mut chain = chain_of(&[0]);
    let stray = block(Some(1), 1);
    assert_eq!(chain.append(stray, failed("disk full")), Err(ChainError::Validation));
    assert_eq!(chain.len(), 1);
}

#[test]
fn validate_tells_what_append_would_refuse() {
    let chain = chain_of(&[0, 1]);
    let good = block(chain.tail_identity(), 2);
    let stray = block(Some(3), 2);
    assert_eq!(chain.validate::<String>(&good), Ok(()));
    assert_eq!(chain.validate::<String>(&stray), Err(ChainError::Validation));
    assert_eq!(chain.validate::<String>(&block(None, 2)), Err(ChainError::Validation));
    assert_eq!(chain.len(), 2);
}

#[test]
fn validate_on_an_empty_chain_asks_for_a_genesis_block() {
    let chain: BlockChain<Entry> = BlockChain::new();
    assert_eq!(chain.validate::<String>(&block(None, 0)), Ok(()));
    assert_eq!(chain.validate::<String>(&block(Some(0), 0)), Err(ChainError::Validation));
}

#[test]
fn appended_block_is_in_chain_from_then_on() {
    let mut chain = chain_of(&[0]);
    let first = block(chain.tail_identity(), 1);
    assert_eq!(chain.append(first.clone(), written()), Ok(()));
    assert!(chain.in_chain(&first));
    let second = block(chain.tail_identity(), 2);
    assert_eq!(chain.append(second.clone(), written()), Ok(()));
    assert!(chain.append(block(None, 3), written()).is_err());
    assert!(chain.append(block(chain.tail_identity(), 4), failed("late")).is_err());
    assert!(chain.in_chain(&first));
    assert!(chain.in_chain(&second));
}

#[test]
fn in_chain_goes_by_identity_alone() {
    let chain = chain_of(&[0, 1, 2]);
    let genesis_again = block(None, 0);
    assert!(chain.in_chain(&genesis_again));
    assert!(!chain.in_chain(&block(None, 1)));
    assert!(!chain.in_chain(&block(chain.tail_identity(), 3)));
}

#[test]
fn blocks_come_out_in_chain_order() {
    let chain = chain_of(&[10, 11, 12]);
    let blocks = chain.blocks();
    assert_eq!(blocks.len(), 3);
    assert_eq!(blocks[0].parent(), None);
    assert_eq!(blocks[1].parent(), Some(blocks[0].identity()));
    assert_eq!(blocks[2].parent(), Some(blocks[1].identity()));
    assert_eq!(blocks[0].payload(), &Entry(10));
    assert_eq!(blocks[1].payload(), &Entry(11));
    assert_eq!(blocks[2].payload(), &Entry(12));
    assert_eq!(chain.tail_identity(), Some(blocks[2].identity()));
}

#[test]
fn chain_overlaps_itself_fully() {
    for length in 1..5u32 {
        let values: Vec<u32> = (0..length).collect();
        let chain = chain_of(&values);
        let overlap = chain.chain_overlap(&chain);
        assert_eq!(overlap, Overlap { matched: length as usize, out_of: length as usize });
        assert_eq!(score(overlap), 1.0);
    }
}

#[test]
fn empty_chain_overlaps_nothing() {
    let empty: BlockChain<Entry> = BlockChain::new();
    let other = chain_of(&[0, 1]);
    assert_eq!(empty.chain_overlap(&other), Overlap { matched: 0, out_of: 1 });
    assert_eq!(score(empty.chain_overlap(&other)), 0.0);
    assert_eq!(score(empty.chain_overlap(&empty)), 0.0);
}

#[test]
fn overlap_with_an_empty_chain_is_zero() {
    let chain = chain_of(&[0, 1, 2]);
    let empty: BlockChain<Entry> = BlockChain::new();
    assert_eq!(chain.chain_overlap(&empty), Overlap { matched: 0, out_of: 3 });
    assert_eq!(score(chain.chain_overlap(&empty)), 0.0);
}

#[test]
fn overlap_counts_the_blocks_of_the_first_chain() {
    let long = chain_of(&[0, 1, 2, 3]);
    let short = chain_of(&[0, 1]);
    assert_eq!(long.chain_overlap(&short), Overlap { matched: 2, out_of: 4 });
    assert_eq!(score(long.chain_overlap(&short)), 0.5);
    assert_eq!(short.chain_overlap(&long), Overlap { matched: 2, out_of: 2 });
    assert_eq!(score(short.chain_overlap(&long)), 1.0);
}

#[test]
fn overlap_of_disjoint_chains_is_zero() {
    let ours = chain_of(&[0, 1, 2]);
    let theirs = chain_of(&[7, 8]);
    assert_eq!(ours.chain_overlap(&theirs), Overlap { matched: 0, out_of: 3 });
    assert_eq!(score(ours.chain_overlap(&theirs)), 0.0);
}

#[test]
fn forked_chains_share_their_common_prefix() {
    let genesis = block(None, 0);
    let mut a = BlockChain::new();
    assert_eq!(a.append(genesis.clone(), written()), Ok(()));
    assert_eq!(a.len(), 1);

    let b1 = block(Some(genesis.identity()), 1);
    assert_eq!(a.append(b1.clone(), written()), Ok(()));
    assert_eq!(a.len(), 2);
    assert!(a.in_chain(&b1));

    let mut c = BlockChain::new();
    assert_eq!(c.append(genesis.clone(), written()), Ok(()));
    let b2 = block(Some(genesis.identity()), 2);
    assert_eq!(c.append(b2.clone(), written()), Ok(()));
    assert_eq!(c.len(), 2);
    assert!(c.in_chain(&b2));
    assert!(!c.in_chain(&b1));

    assert_eq!(a.chain_overlap(&c), Overlap { matched: 1, out_of: 2 });
    assert_eq!(score(a.chain_overlap(&c)), 0.5);
}

#[test]
fn stale_parent_is_refused() {
    let genesis = block(None, 0);
    let b1 = block(Some(genesis.identity()), 1);
    let successor = block(Some(b1.identity()), 2);
    let mut a = BlockChain::new();
    assert_eq!(a.append(genesis, written()), Ok(()));
    assert_eq!(a.append(b1.clone(), written()), Ok(()));
    assert_eq!(a.append(successor, written()), Ok(()));
    assert_eq!(a.len(), 3);

    let b3 = block(Some(b1.identity()), 3);
    assert_eq!(a.append(b3.clone(), written()), Err(ChainError::Validation));
    assert_eq!(a.len(), 3);
    assert!(!a.in_chain(&b3));
}

#[test]
fn serial_appends_grow_the_chain_by_one_each() {
    let mut chain = chain_of(&[0]);
    let mut accepted = Vec::new();
    for value in 1..=8u32 {
        let before = chain.len();
        let next = block(chain.tail_identity(), value);
        accepted.push(next.identity());
        assert_eq!(chain.append(next, written()), Ok(()));
        assert_eq!(chain.len(), before + 1);
    }
    assert_eq!(chain.len(), 9);
    let held: Vec<u64> = chain.blocks()[1..].iter().map(|b| b.identity()).collect();
    assert_eq!(held, accepted);
}

#[test]
fn racing_blocks_for_one_tail_let_exactly_one_in() {
    let mut chain = chain_of(&[0]);
    let tail = chain.tail_identity();
    let mut let_in = 0;
    for value in 1..=5u32 {
        if chain.append(block(tail, value), written()).is_ok() {
            let_in += 1;
        }
    }
    assert_eq!(let_in, 1);
    assert_eq!(chain.len(), 2);
    assert_eq!(chain.blocks()[1].payload(), &Entry(1));
}
