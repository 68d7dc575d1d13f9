use marker_tracker::masks::{combine_binaries, BitwiseOperation, CombineError};

#[test]
fn no_masks_cannot_be_combined() {
    for operation in [BitwiseOperation::And, BitwiseOperation::Xor, BitwiseOperation::Or] {
        assert_eq!(combine_binaries(0, operation), Err(CombineError::NothingProvided));
    }
}

#[test]
fn one_mask_is_taken_as_it_is() {
    assert_eq!(combine_binaries(1, BitwiseOperation::Xor), Ok(Vec::new()));
}

#[test]
fn every_further_mask_is_joined_by_the_operation() {
    assert_eq!(combine_binaries(2, BitwiseOperation::Or), Ok(vec![BitwiseOperation::Or]));
    assert_eq!(combine_binaries(2, BitwiseOperation::And), Ok(vec![BitwiseOperation::And]));
    assert_eq!(combine_binaries(4, BitwiseOperation::Xor), Ok(vec![BitwiseOperation::Xor; 3]));
    assert_eq!(combine_binaries(100, BitwiseOperation::And).unwrap().len(), 99);
}
