use mlp::network::activation::ActivationFunction;
use mlp::network::config::{
    activation_for, default_activation_for, default_batch_size, default_epochs,
    default_hidden_activation, default_initializer, default_output_activation, ConfigError,
    LayerConfig, LayerGroup, LayerTransitionSpec, NetworkConfig,
};
use mlp::network::initializer::WeightInitializer;
use mlp::training::loss::LossFunction;
use mlp::training::optimizer::OptimizerKind;

fn layer(size: usize) -> LayerConfig {
    LayerConfig { size, activation: None, initializer: None }
}

/// A configuration with the defaults that a file without those keys gets.
fn config(input: &[usize], hidden: &[usize], output: &[usize]) -> NetworkConfig {
    NetworkConfig {
        learning_rate_bits: 0.0314f64.to_bits(),
        epochs: 84,
        batch_size: 8,
        optimizer: OptimizerKind::default(),
        loss: LossFunction::default(),
        input_layers: input.iter().map(|s| layer(*s)).collect(),
        hidden_layers: hidden.iter().map(|s| layer(*s)).collect(),
        output_layers: output.iter().map(|s| layer(*s)).collect(),
    }
}

#[test]
fn validates_at_least_two_hidden_layers() {
    let cfg = config(&[30], &[24], &[2]);
    let err = cfg.validate().unwrap_err();
    assert!(err.message().contains("at least 2 hidden layers"), "unexpected error: {}", err.message());
}

#[test]
fn validates_zero_hidden_layers() {
    let cfg = config(&[30], &[], &[2]);
    let err = cfg.validate().unwrap_err();
    assert!(err.message().contains("at least 2 hidden layers"), "unexpected error: {}", err.message());
}

#[test]
fn validates_zero_epochs() {
    let mut cfg = config(&[4], &[4, 4], &[2]);
    cfg.epochs = 0;
    let err = cfg.validate().unwrap_err();
    assert!(err.message().contains("epochs"), "unexpected error: {}", err.message());
}

#[test]
fn validates_zero_batch_size() {
    let mut cfg = config(&[4], &[4, 4], &[2]);
    cfg.batch_size = 0;
    let err = cfg.validate().unwrap_err();
    assert!(err.message().contains("batch_size"), "unexpected error: {}", err.message());
}

#[test]
fn validates_empty_input_layers() {
    let cfg = config(&[], &[4, 4], &[2]);
    let err = cfg.validate().unwrap_err();
    assert!(err.message().contains("input layer"), "unexpected error: {}", err.message());
}

#[test]
fn validates_empty_output_layers() {
    let cfg = config(&[4], &[4, 4], &[]);
    let err = cfg.validate().unwrap_err();
    assert!(err.message().contains("output layer"), "unexpected error: {}", err.message());
}

#[test]
fn validates_zero_size_layer() {
    let cfg = config(&[0], &[4, 4], &[2]);
    let err = cfg.validate().unwrap_err();
    assert!(err.message().contains("zero size"), "unexpected error: {}", err.message());
}

#[test]
fn zero_size_layer_reports_first_index_across_groups() {
    let cfg = config(&[4], &[4, 0, 3], &[0]);
    assert_eq!(cfg.validate(), Err(ConfigError::ZeroSizeLayer(2)));
    assert_eq!(ConfigError::ZeroSizeLayer(2).message(), "layer 2 has invalid zero size");
    assert_eq!(ConfigError::ZeroSizeLayer(1234).message(), "layer 1234 has invalid zero size");
}

#[test]
fn validation_checks_in_order() {
    let mut cfg = config(&[], &[], &[]);
    cfg.epochs = 0;
    cfg.batch_size = 0;
    assert_eq!(cfg.validate(), Err(ConfigError::ZeroEpochs));
    cfg.epochs = 1;
    assert_eq!(cfg.validate(), Err(ConfigError::ZeroBatchSize));
    cfg.batch_size = 1;
    assert_eq!(cfg.validate(), Err(ConfigError::NoInputLayers));
}

#[test]
fn valid_config_yields_one_weight_layer_per_pair() {
    let cfg = config(&[30], &[24, 24, 24], &[2]);
    assert_eq!(cfg.validate(), Ok(()));
    let specs = cfg.resolved_layer_specs();
    assert_eq!(specs.len(), 4);
    assert_eq!(cfg.epochs, 84);
    assert_eq!(cfg.batch_size, 8);
    assert!((f64::from_bits(cfg.learning_rate_bits) - 0.0314).abs() < 1e-12);
    assert_eq!(
        specs[0],
        LayerTransitionSpec {
            from_size: 30,
            to_size: 24,
            to_group: LayerGroup::Hidden,
            activation: ActivationFunction::Sigmoid,
            initializer: WeightInitializer::He,
        }
    );
    assert_eq!(
        specs[3],
        LayerTransitionSpec {
            from_size: 24,
            to_size: 2,
            to_group: LayerGroup::Output,
            activation: ActivationFunction::Softmax,
            initializer: WeightInitializer::He,
        }
    );
}

#[test]
fn named_activation_and_initializer_are_kept() {
    let mut cfg = config(&[3], &[5, 4], &[1]);
    cfg.output_layers[0].activation = Some(ActivationFunction::Sigmoid);
    cfg.hidden_layers[1].initializer = Some(WeightInitializer::Xavier);
    cfg.hidden_layers[0].activation = Some(ActivationFunction::ReLU);
    let specs = cfg.resolved_layer_specs();
    assert_eq!(specs.len(), 3);
    assert_eq!(specs[0].activation, ActivationFunction::ReLU);
    assert_eq!(specs[1].initializer, WeightInitializer::Xavier);
    assert_eq!(specs[1].to_group, LayerGroup::Hidden);
    assert_eq!(specs[2].activation, ActivationFunction::Sigmoid);
    assert_eq!((specs[2].from_size, specs[2].to_size), (4, 1));
}

#[test]
fn no_layers_gives_no_specs() {
    let cfg = config(&[], &[], &[]);
    assert!(cfg.resolved_layer_specs().is_empty());
    let single = config(&[7], &[], &[]);
    assert!(single.resolved_layer_specs().is_empty());
}

#[test]
fn defaults_of_configuration_values() {
    assert_eq!(default_epochs(), 84);
    assert_eq!(default_batch_size(), 8);
    assert_eq!(default_hidden_activation(), ActivationFunction::Sigmoid);
    assert_eq!(default_output_activation(), ActivationFunction::Softmax);
    assert_eq!(default_initializer(), WeightInitializer::He);
    assert_eq!(default_activation_for(LayerGroup::Input), ActivationFunction::Sigmoid);
    assert_eq!(default_activation_for(LayerGroup::Output), ActivationFunction::Softmax);
    let named = LayerConfig { size: 3, activation: Some(ActivationFunction::Tanh), initializer: None };
    assert_eq!(activation_for(LayerGroup::Output, &named), ActivationFunction::Tanh);
    assert_eq!(OptimizerKind::default(), OptimizerKind::Sgd);
}
