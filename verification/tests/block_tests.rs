use duplo_core::block::Block;

#[test]
fn test_block_creation() {
    let block = Block::new(0, 1, 10, 20, 5);
    assert_eq!(block.source1_idx, 0);
    assert_eq!(block.source2_idx, 1);
    assert_eq!(block.line1, 10);
    assert_eq!(block.line2, 20);
    assert_eq!(block.count, 5);
}

#[test]
fn test_self_duplicate() {
    let self_dup = Block::new(0, 0, 10, 50, 5);
    let cross_dup = Block::new(0, 1, 10, 20, 5);

    assert!(self_dup.is_self_duplicate());
    assert!(!cross_dup.is_self_duplicate());
}

#[test]
fn test_end_indices() {
    let block = Block::new(0, 1, 10, 20, 5);
    assert_eq!(block.end1(), 15);
    assert_eq!(block.end2(), 25);
}
