use mlp::network::persist::{check_layer_count, saved_layer_shape, PersistError};

#[test]
fn model_with_fewer_than_three_layers_is_refused() {
    assert_eq!(check_layer_count(2), Err(PersistError::TooFewLayers(2)));
    assert_eq!(check_layer_count(3), Ok(()));
    assert_eq!(
        PersistError::TooFewLayers(2).message(),
        "saved model has only 2 layer(s); at least 3 are required (input→hidden×≥2→output)"
    );
}

#[test]
fn layer_with_empty_weights_is_refused() {
    assert_eq!(saved_layer_shape(&[], 0), Err(PersistError::NoWeightRows));
    assert_eq!(PersistError::NoWeightRows.message(), "saved layer has no weight rows");
}

#[test]
fn layer_with_mismatched_bias_is_refused() {
    let err = saved_layer_shape(&[3, 3], 2).unwrap_err();
    assert_eq!(err, PersistError::BiasMismatch { bias_len: 2, cols: 3 });
    let msg = err.message();
    assert!(msg.contains("bias"), "unexpected error: {msg}");
    assert_eq!(msg, "saved layer bias length 2 does not match weight columns 3");
}

#[test]
fn layer_shape_from_rows() {
    assert_eq!(saved_layer_shape(&[4, 4, 4], 4), Ok((3, 4)));
}
