//! Settings given at start-up: the device, the model and the request size limit.

use vstd::prelude::*;
use crate::text::{
    has_colon,
    head,
    lowercase,
    parse_number,
    parsed_number,
    same_text,
    split_at_colon,
    tail,
    to_lowercase,
};

verus! {

/// Why a setting given at start-up was not accepted.
#[derive(Clone, Copy, Debug, PartialEq, Eq, Structural)]
pub enum ConfigError {
    /// The device is none of `cpu`, `cuda`, `gpu`, `mps` and `vulkan`, or
    /// carries an index where none belongs.
    InvalidDevice,
    /// The index behind `cuda:` or `gpu:` is not a number that fits.
    InvalidDeviceIndex,
    /// The model is neither `bert` nor `xlm-roberta`, the latter with or
    /// without a colon and a language.
    InvalidModelChoice,
    /// There is no model for the language.
    UnknownLanguage,
}

/// Where the model runs.
#[derive(Clone, Copy, Debug, PartialEq, Eq, Structural)]
pub enum Device {
    Cpu,
    Cuda(usize),
    Mps,
    Vulkan,
}

/// The model family, with the language where the family has one model per
/// language.
#[derive(Clone, Debug, PartialEq, Eq)]
pub enum ModelChoiceAndLanguages {
    Bert,
    XlmRoberta(String),
}

/// Mathematical content of a [`ModelChoiceAndLanguages`].
pub enum ModelChoiceView {
    Bert,
    XlmRoberta(Seq<char>),
}

impl View for ModelChoiceAndLanguages {
    type V = ModelChoiceView;

    open spec fn view(&self) -> ModelChoiceView {
        match self {
            ModelChoiceAndLanguages::Bert => ModelChoiceView::Bert,
            ModelChoiceAndLanguages::XlmRoberta(language) => ModelChoiceView::XlmRoberta(
                language@,
            ),
        }
    }
}

/// The architecture of a model.
#[derive(Clone, Copy, Debug, PartialEq, Eq, Structural)]
pub enum ModelType {
    Bert,
    XlmRoberta,
}

/// A set of pretrained weights with its configuration and vocabulary.
#[derive(Clone, Copy, Debug, PartialEq, Eq, Structural)]
pub enum ModelResources {
    BertNer,
    XlmRobertaNerDe,
    XlmRobertaNerEn,
    XlmRobertaNerNl,
    XlmRobertaNerEs,
}

/// All that is needed to load the model.
#[derive(Clone, Copy, Debug, PartialEq, Eq, Structural)]
pub struct ModelConfig {
    pub model_type: ModelType,
    pub resources: ModelResources,
    pub batch_size: usize,
    pub device: Device,
}

/// The request size limit that applies where none is configured, or where
/// what is configured is not a number.
pub const DEFAULT_PAYLOAD_LIMIT: usize = 16_777_215;

/// The device that a setting names. Letter case matters.
pub open spec fn device_choice(setting: Seq<char>) -> Result<Device, ConfigError> {
    match tail(setting) {
        None => if setting == "cpu"@ {
            Ok(Device::Cpu)
        } else if setting == "cuda"@ || setting == "gpu"@ {
            Ok(Device::Cuda(0))
        } else if setting == "mps"@ {
            Ok(Device::Mps)
        } else if setting == "vulkan"@ {
            Ok(Device::Vulkan)
        } else {
            Err(ConfigError::InvalidDevice)
        },
        Some(index) => if (head(setting) == "cuda"@ || head(setting) == "gpu"@) && !index.contains(
            ':',
        ) {
            match parsed_number(index) {
                Some(number) => Ok(Device::Cuda(number)),
                None => Err(ConfigError::InvalidDeviceIndex),
            }
        } else {
            Err(ConfigError::InvalidDevice)
        },
    }
}

/// Reads a device setting: `cpu`, `mps`, `vulkan`, or `cuda` or `gpu`, the
/// last two with or without a colon and the number of the device. Without
/// a number the device is number 0.
pub fn parse_device(device: &str) -> (parsed: Result<Device, ConfigError>)
    ensures
        parsed == device_choice(device@),
{
    let (name, index) = split_at_colon(device);
    match index {
        None => {
            if same_text(name, "cpu") {
                Ok(Device::Cpu)
            } else if same_text(name, "cuda") || same_text(name, "gpu") {
                Ok(Device::Cuda(0))
            } else if same_text(name, "mps") {
                Ok(Device::Mps)
            } else if same_text(name, "vulkan") {
                Ok(Device::Vulkan)
            } else {
                Err(ConfigError::InvalidDevice)
            }
        },
        Some(index) => {
            if (same_text(name, "cuda") || same_text(name, "gpu")) && !has_colon(index) {
                match parse_number(index) {
                    Some(number) => Ok(Device::Cuda(number)),
                    None => Err(ConfigError::InvalidDeviceIndex),
                }
            } else {
                Err(ConfigError::InvalidDevice)
            }
        },
    }
}

/// The model that a setting names, once the setting is in lower case.
/// `xlm-roberta` alone stands for the German model.
pub open spec fn model_choice(lowered: Seq<char>) -> Option<ModelChoiceView> {
    match tail(lowered) {
        None => if lowered == "bert"@ {
            Some(ModelChoiceView::Bert)
        } else if lowered == "xlm-roberta"@ {
            Some(ModelChoiceView::XlmRoberta("de"@))
        } else {
            None
        },
        Some(language) => if head(lowered) == "xlm-roberta"@ && !language.contains(':') {
            Some(ModelChoiceView::XlmRoberta(language))
        } else {
            None
        },
    }
}

/// Reads a model setting that is in lower case already: `bert`, or
/// `xlm-roberta` with or without a colon and a language.
pub fn parse_model_choice(lowered: &str) -> (parsed: Result<ModelChoiceAndLanguages, ConfigError>)
    ensures
        match parsed {
            Ok(choice) => model_choice(lowered@) == Some(choice@),
            Err(e) => model_choice(lowered@) is None && e == ConfigError::InvalidModelChoice,
        },
{
    let (name, language) = split_at_colon(lowered);
    match language {
        None => {
            if same_text(name, "bert") {
                Ok(ModelChoiceAndLanguages::Bert)
            } else if same_text(name, "xlm-roberta") {
                Ok(ModelChoiceAndLanguages::XlmRoberta("de".to_owned()))
            } else {
                Err(ConfigError::InvalidModelChoice)
            }
        },
        Some(language) => {
            if same_text(name, "xlm-roberta") && !has_colon(language) {
                Ok(ModelChoiceAndLanguages::XlmRoberta(language.to_owned()))
            } else {
                Err(ConfigError::InvalidModelChoice)
            }
        },
    }
}

/// Reads a model setting, in any letter case: `bert`, or `xlm-roberta` with
/// or without a colon and a language. The language is kept in lower case.
pub fn parse_model_arg(model: &str) -> (parsed: Result<ModelChoiceAndLanguages, ConfigError>)
    ensures
        match parsed {
            Ok(choice) => model_choice(lowercase(model@)) == Some(choice@),
            Err(e) => model_choice(lowercase(model@)) is None && e
                == ConfigError::InvalidModelChoice,
        },
{
    let lowered = to_lowercase(model);
    parse_model_choice(lowered.as_str())
}

/// The XLM-RoBERTa weights for a language that is in lower case already.
pub open spec fn xlm_roberta_resources(lowered: Seq<char>) -> Option<ModelResources> {
    if lowered == "de"@ {
        Some(ModelResources::XlmRobertaNerDe)
    } else if lowered == "en"@ {
        Some(ModelResources::XlmRobertaNerEn)
    } else if lowered == "nl"@ {
        Some(ModelResources::XlmRobertaNerNl)
    } else if lowered == "es"@ {
        Some(ModelResources::XlmRobertaNerEs)
    } else {
        None
    }
}

/// Picks the XLM-RoBERTa weights for a language that is in lower case
/// already: German, English, Dutch or Spanish.
pub fn select_xlm_roberta(lowered: &str) -> (resources: Option<ModelResources>)
    ensures
        resources == xlm_roberta_resources(lowered@),
{
    if same_text(lowered, "de") {
        Some(ModelResources::XlmRobertaNerDe)
    } else if same_text(lowered, "en") {
        Some(ModelResources::XlmRobertaNerEn)
    } else if same_text(lowered, "nl") {
        Some(ModelResources::XlmRobertaNerNl)
    } else if same_text(lowered, "es") {
        Some(ModelResources::XlmRobertaNerEs)
    } else {
        None
    }
}

/// What is to be loaded for a model choice.
pub open spec fn model_config(choice: ModelChoiceView, batch_size: usize, device: Device) -> Result<
    ModelConfig,
    ConfigError,
> {
    match choice {
        ModelChoiceView::Bert => Ok(
            ModelConfig {
                model_type: ModelType::Bert,
                resources: ModelResources::BertNer,
                batch_size,
                device,
            },
        ),
        ModelChoiceView::XlmRoberta(language) => match xlm_roberta_resources(lowercase(language)) {
            Some(resources) => Ok(
                ModelConfig { model_type: ModelType::XlmRoberta, resources, batch_size, device },
            ),
            None => Err(ConfigError::UnknownLanguage),
        },
    }
}

/// Says what is to be loaded for a model choice, with the batch size and
/// the device passed on. The language may be in any letter case.
pub fn get_model_config(model: ModelChoiceAndLanguages, batch_size: usize, device: Device) -> (config:
    Result<ModelConfig, ConfigError>)
    ensures
        config == model_config(model@, batch_size, device),
{
    match model {
        ModelChoiceAndLanguages::Bert => Ok(
            ModelConfig {
                model_type: ModelType::Bert,
                resources: ModelResources::BertNer,
                batch_size,
                device,
            },
        ),
        ModelChoiceAndLanguages::XlmRoberta(language) => {
            let lowered = to_lowercase(language.as_str());
            match select_xlm_roberta(lowered.as_str()) {
                Some(resources) => Ok(
                    ModelConfig {
                        model_type: ModelType::XlmRoberta,
                        resources,
                        batch_size,
                        device,
                    },
                ),
                None => Err(ConfigError::UnknownLanguage),
            }
        },
    }
}

/// The request size limit: the configured number where there is one,
/// `DEFAULT_PAYLOAD_LIMIT` otherwise.
pub open spec fn payload_limit_of(configured: Option<Seq<char>>) -> usize {
    match configured {
        Some(setting) => match parsed_number(setting) {
            Some(limit) => limit,
            None => DEFAULT_PAYLOAD_LIMIT,
        },
        None => DEFAULT_PAYLOAD_LIMIT,
    }
}

/// Reads the request size limit from what is configured, if anything is.
pub fn payload_limit(configured: Option<&str>) -> (limit: usize)
    ensures
        limit == payload_limit_of(
            match configured {
                Some(setting) => Some(setting@),
                None => None,
            },
        ),
{
    match configured {
        Some(setting) => match parse_number(setting) {
            Some(limit) => limit,
            None => DEFAULT_PAYLOAD_LIMIT,
        },
        None => DEFAULT_PAYLOAD_LIMIT,
    }
}

} // verus!
