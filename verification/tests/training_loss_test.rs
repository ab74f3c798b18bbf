use mlp::training::loss::{assert_binary_output, LossFunction};

#[test]
fn loss_function_parse_accepts_common_spellings() {
    assert_eq!(LossFunction::parse("binary_cross_entropy"), Some(LossFunction::BinaryCrossEntropy));
    assert_eq!(LossFunction::parse("binaryCrossentropy"), Some(LossFunction::BinaryCrossEntropy));
    assert_eq!(LossFunction::parse("binary_crossentropy"), Some(LossFunction::BinaryCrossEntropy));
    assert_eq!(LossFunction::parse("bce"), Some(LossFunction::BinaryCrossEntropy));
    assert_eq!(LossFunction::parse("cce"), None);
    assert_eq!(LossFunction::parse("bogus"), None);
}

#[test]
fn loss_function_default_and_name() {
    assert_eq!(LossFunction::default(), LossFunction::BinaryCrossEntropy);
    assert_eq!(LossFunction::BinaryCrossEntropy.as_str(), "binary_cross_entropy");
    assert_eq!(
        LossFunction::parse(LossFunction::BinaryCrossEntropy.as_str()),
        Some(LossFunction::BinaryCrossEntropy)
    );
}

#[test]
fn loss_parse_trims_and_ignores_case() {
    assert_eq!(LossFunction::parse("  BCE \n"), Some(LossFunction::BinaryCrossEntropy));
    assert_eq!(LossFunction::parse("b ce"), None);
}

#[test]
fn binary_output_widths_one_and_two_are_accepted() {
    assert_binary_output(1);
    assert_binary_output(2);
}
