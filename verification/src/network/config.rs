use vstd::prelude::*;
use vstd::string::*;

use crate::network::activation::ActivationFunction;
use crate::network::initializer::WeightInitializer;
use crate::text::{decimal, decimal_string};
use crate::training::loss::LossFunction;
use crate::training::optimizer::OptimizerKind;

verus! {

/// Which list of a configuration a layer comes from.
#[derive(Clone, Copy, Debug, PartialEq, Eq, Structural)]
pub enum LayerGroup {
    Input,
    Hidden,
    Output,
}

/// One weight layer of the network: the sizes it connects, the group of the
/// layer it feeds, and how it is activated and initialised.
#[derive(Clone, Copy, Debug, PartialEq, Eq, Structural)]
pub struct LayerTransitionSpec {
    pub from_size: usize,
    pub to_size: usize,
    pub to_group: LayerGroup,
    pub activation: ActivationFunction,
    pub initializer: WeightInitializer,
}

/// One layer as written in a configuration file.
#[derive(Clone, Copy, Debug, PartialEq, Eq, Structural)]
pub struct LayerConfig {
    pub size: usize,
    pub activation: Option<ActivationFunction>,
    pub initializer: Option<WeightInitializer>,
}

/// A network configuration. `learning_rate_bits` holds the IEEE-754 bit
/// pattern of the learning rate, which this crate carries but never computes
/// with.
pub struct NetworkConfig {
    pub learning_rate_bits: u64,
    pub epochs: usize,
    pub batch_size: usize,
    pub optimizer: OptimizerKind,
    pub loss: LossFunction,
    pub input_layers: Vec<LayerConfig>,
    pub hidden_layers: Vec<LayerConfig>,
    pub output_layers: Vec<LayerConfig>,
}

/// Why a configuration is refused.
#[derive(Clone, Copy, Debug, PartialEq, Eq, Structural)]
pub enum ConfigError {
    ZeroEpochs,
    ZeroBatchSize,
    NoInputLayers,
    TooFewHiddenLayers,
    NoOutputLayers,
    /// The layer at this position of input, hidden and output layers taken
    /// together has size 0.
    ZeroSizeLayer(usize),
}

pub open spec fn spec_error_message(e: ConfigError) -> Seq<char> {
    match e {
        ConfigError::ZeroEpochs => "network config epochs must be greater than 0"@,
        ConfigError::ZeroBatchSize => "network config batch_size must be greater than 0"@,
        ConfigError::NoInputLayers => "network config must include at least one input layer size"@,
        ConfigError::TooFewHiddenLayers => "network config must include at least 2 hidden layers"@,
        ConfigError::NoOutputLayers => "network config must include at least one output layer size"@,
        ConfigError::ZeroSizeLayer(idx) => "layer "@ + decimal(idx as nat) + " has invalid zero size"@,
    }
}

impl ConfigError {
    /// The message that describes the error.
    pub fn message(&self) -> (s: String)
        ensures
            s@ == spec_error_message(*self),
    {
        match self {
            ConfigError::ZeroEpochs => String::from_str("network config epochs must be greater than 0"),
            ConfigError::ZeroBatchSize => String::from_str(
                "network config batch_size must be greater than 0",
            ),
            ConfigError::NoInputLayers => String::from_str(
                "network config must include at least one input layer size",
            ),
            ConfigError::TooFewHiddenLayers => String::from_str(
                "network config must include at least 2 hidden layers",
            ),
            ConfigError::NoOutputLayers => String::from_str(
                "network config must include at least one output layer size",
            ),
            ConfigError::ZeroSizeLayer(idx) => {
                let mut s = String::from_str("layer ");
                let d = decimal_string(*idx as u64);
                s.append(d.as_str());
                s.append(" has invalid zero size");
                s
            },
        }
    }
}

pub open spec fn spec_default_activation_for(group: LayerGroup) -> ActivationFunction {
    match group {
        LayerGroup::Output => ActivationFunction::Softmax,
        LayerGroup::Input | LayerGroup::Hidden => ActivationFunction::Sigmoid,
    }
}

pub open spec fn spec_activation_for(group: LayerGroup, layer: LayerConfig) -> ActivationFunction {
    match layer.activation {
        Some(a) => a,
        None => spec_default_activation_for(group),
    }
}

pub open spec fn spec_initializer_for(layer: LayerConfig) -> WeightInitializer {
    match layer.initializer {
        Some(i) => i,
        None => WeightInitializer::He,
    }
}

/// The weight layer that connects `current` to `next`, where `next` belongs to
/// `next_group`.
pub open spec fn spec_transition(
    current: LayerConfig,
    next_group: LayerGroup,
    next: LayerConfig,
) -> LayerTransitionSpec {
    LayerTransitionSpec {
        from_size: current.size,
        to_size: next.size,
        to_group: next_group,
        activation: spec_activation_for(next_group, next),
        initializer: spec_initializer_for(next),
    }
}

pub open spec fn tag_layers(group: LayerGroup, layers: Seq<LayerConfig>) -> Seq<(LayerGroup, LayerConfig)> {
    layers.map_values(|l: LayerConfig| (group, l))
}

/// Transitions between consecutive layers of `layers`.
pub open spec fn spec_transitions(layers: Seq<(LayerGroup, LayerConfig)>) -> Seq<LayerTransitionSpec> {
    Seq::new(
        (if layers.len() == 0 { 0 } else { layers.len() - 1 }) as nat,
        |i: int| spec_transition(layers[i].1, layers[i + 1].0, layers[i + 1].1),
    )
}

/// Default number of training epochs.
pub fn default_epochs() -> (r: usize)
    ensures
        r == 84,
{
    84
}

/// Default mini-batch size.
pub fn default_batch_size() -> (r: usize)
    ensures
        r == 8,
{
    8
}

/// Activation of input and hidden layers that name none.
pub fn default_hidden_activation() -> (r: ActivationFunction)
    ensures
        r == ActivationFunction::Sigmoid,
{
    ActivationFunction::Sigmoid
}

/// Activation of output layers that name none.
pub fn default_output_activation() -> (r: ActivationFunction)
    ensures
        r == ActivationFunction::Softmax,
{
    ActivationFunction::Softmax
}

/// Initializer of layers that name none.
pub fn default_initializer() -> (r: WeightInitializer)
    ensures
        r == WeightInitializer::He,
{
    WeightInitializer::He
}

pub fn default_activation_for(group: LayerGroup) -> (r: ActivationFunction)
    ensures
        r == spec_default_activation_for(group),
{
    match group {
        LayerGroup::Output => default_output_activation(),
        LayerGroup::Input | LayerGroup::Hidden => default_hidden_activation(),
    }
}

pub fn activation_for(group: LayerGroup, layer: &LayerConfig) -> (r: ActivationFunction)
    ensures
        r == spec_activation_for(group, *layer),
{
    match layer.activation {
        Some(a) => a,
        None => default_activation_for(group),
    }
}

fn push_tagged(out: &mut Vec<(LayerGroup, LayerConfig)>, group: LayerGroup, layers: &Vec<LayerConfig>)
    ensures
        final(out)@ == old(out)@ + tag_layers(group, layers@),
{
    let ghost start = old(out)@;
    let mut i: usize = 0;
    while i < layers.len()
        invariant
            i <= layers@.len(),
            out@ == start + tag_layers(group, layers@.subrange(0, i as int)),
        decreases layers@.len() - i,
    {
        out.push((group, layers[i]));
        assert(tag_layers(group, layers@.subrange(0, i + 1)) =~= tag_layers(
            group,
            layers@.subrange(0, i as int),
        ).push((group, layers@[i as int])));
        i = i + 1;
    }
    assert(layers@.subrange(0, layers@.len() as int) =~= layers@);
}

impl NetworkConfig {
    /// All layers, input first and output last, each with its group.
    pub open spec fn spec_layers(&self) -> Seq<(LayerGroup, LayerConfig)> {
        tag_layers(LayerGroup::Input, self.input_layers@) + tag_layers(
            LayerGroup::Hidden,
            self.hidden_layers@,
        ) + tag_layers(LayerGroup::Output, self.output_layers@)
    }

    /// The weight layers that the configuration describes.
    pub open spec fn spec_layer_specs(&self) -> Seq<LayerTransitionSpec> {
        spec_transitions(self.spec_layers())
    }

    /// Whether `r` is what `validate` answers for this configuration: the
    /// first failed check, in the order epochs, batch size, input layers,
    /// hidden layers, output layers, layer sizes.
    pub open spec fn validation_outcome(&self, r: Result<(), ConfigError>) -> bool {
        let layers = self.spec_layers();
        if self.epochs == 0 {
            r == Err::<(), ConfigError>(ConfigError::ZeroEpochs)
        } else if self.batch_size == 0 {
            r == Err::<(), ConfigError>(ConfigError::ZeroBatchSize)
        } else if self.input_layers@.len() == 0 {
            r == Err::<(), ConfigError>(ConfigError::NoInputLayers)
        } else if self.hidden_layers@.len() < 2 {
            r == Err::<(), ConfigError>(ConfigError::TooFewHiddenLayers)
        } else if self.output_layers@.len() == 0 {
            r == Err::<(), ConfigError>(ConfigError::NoOutputLayers)
        } else if exists|i: int| 0 <= i < layers.len() && (#[trigger] layers[i]).1.size == 0 {
            exists|i: int|
                0 <= i < layers.len() && (#[trigger] layers[i]).1.size == 0 && (forall|k: int|
                    0 <= k < i ==> (#[trigger] layers[k]).1.size != 0) && r == Err::<
                    (),
                    ConfigError,
                >(ConfigError::ZeroSizeLayer(i as usize))
        } else {
            r == Ok::<(), ConfigError>(())
        }
    }

    /// Whether the configuration passes every check of `validate`.
    pub open spec fn is_valid(&self) -> bool {
        self.validation_outcome(Ok(()))
    }

    fn grouped_layers(&self) -> (r: Vec<(LayerGroup, LayerConfig)>)
        ensures
            r@ == self.spec_layers(),
    {
        let mut out: Vec<(LayerGroup, LayerConfig)> = Vec::new();
        push_tagged(&mut out, LayerGroup::Input, &self.input_layers);
        push_tagged(&mut out, LayerGroup::Hidden, &self.hidden_layers);
        push_tagged(&mut out, LayerGroup::Output, &self.output_layers);
        assert(out@ =~= self.spec_layers());
        out
    }

    /// The weight layers between consecutive configured layers, with each
    /// activation and initializer resolved to its default where none is named.
    pub fn resolved_layer_specs(&self) -> (r: Vec<LayerTransitionSpec>)
        ensures
            r@ == self.spec_layer_specs(),
    {
        let layers = self.grouped_layers();
        let mut specs: Vec<LayerTransitionSpec> = Vec::new();
        if layers.len() == 0 {
            assert(specs@ =~= self.spec_layer_specs());
            return specs;
        }
        let mut i: usize = 0;
        while i + 1 < layers.len()
            invariant
                layers@ == self.spec_layers(),
                layers@.len() >= 1,
                i + 1 <= layers@.len(),
                specs@.len() == i,
                forall|k: int| 0 <= k < i ==> specs@[k] == #[trigger] self.spec_layer_specs()[k],
            decreases layers@.len() - i,
        {
            let (_, current) = layers[i];
            let (next_group, next) = layers[i + 1];
            let activation = activation_for(next_group, &next);
            let initializer = match next.initializer {
                Some(init) => init,
                None => default_initializer(),
            };
            specs.push(
                LayerTransitionSpec {
                    from_size: current.size,
                    to_size: next.size,
                    to_group: next_group,
                    activation,
                    initializer,
                },
            );
            i = i + 1;
        }
        assert(specs@ =~= self.spec_layer_specs());
        specs
    }

    /// Checks the configuration: epochs and batch size positive, at least one
    /// input layer, two hidden layers and one output layer, and no layer of
    /// size 0.
    pub fn validate(&self) -> (r: Result<(), ConfigError>)
        ensures
            self.validation_outcome(r),
    {
        if self.epochs == 0 {
            return Err(ConfigError::ZeroEpochs);
        }
        if self.batch_size == 0 {
            return Err(ConfigError::ZeroBatchSize);
        }
        if self.input_layers.len() == 0 {
            return Err(ConfigError::NoInputLayers);
        }
        if self.hidden_layers.len() < 2 {
            return Err(ConfigError::TooFewHiddenLayers);
        }
        if self.output_layers.len() == 0 {
            return Err(ConfigError::NoOutputLayers);
        }
        let layers = self.grouped_layers();
        let mut idx: usize = 0;
        while idx < layers.len()
            invariant
                layers@ == self.spec_layers(),
                idx <= layers@.len(),
                self.epochs != 0,
                self.batch_size != 0,
                self.input_layers@.len() != 0,
                self.hidden_layers@.len() >= 2,
                self.output_layers@.len() != 0,
                forall|k: int| 0 <= k < idx ==> (#[trigger] layers@[k]).1.size != 0,
            decreases layers@.len() - idx,
        {
            if layers[idx].1.size == 0 {
                assert(self.spec_layers()[idx as int].1.size == 0);
                return Err(ConfigError::ZeroSizeLayer(idx));
            }
            idx = idx + 1;
        }
        Ok(())
    }
}

/// A configuration that `validate` accepts describes at least three weight
/// layers (two hidden layers and an output layer after the input), and every
/// one of them connects layers of positive size.
pub proof fn lemma_valid_config_layer_specs(config: &NetworkConfig)
    requires
        config.is_valid(),
    ensures
        config.spec_layer_specs().len() >= 3,
        forall|i: int|
            0 <= i < config.spec_layer_specs().len() ==> (#[trigger] config.spec_layer_specs()[i]).from_size
                > 0 && config.spec_layer_specs()[i].to_size > 0,
        config.spec_layer_specs().len() + 1 == config.input_layers@.len()
            + config.hidden_layers@.len() + config.output_layers@.len(),
{
    let layers = config.spec_layers();
    assert(layers.len() == config.input_layers@.len() + config.hidden_layers@.len()
        + config.output_layers@.len());
    assert forall|i: int| 0 <= i < config.spec_layer_specs().len() implies (
    #[trigger] config.spec_layer_specs()[i]).from_size > 0 && config.spec_layer_specs()[i].to_size
        > 0 by {
        assert(layers[i].1.size != 0);
        assert(layers[i + 1].1.size != 0);
    }
}

} // verus!
