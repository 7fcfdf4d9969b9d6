use duui_ner::config::get_model_config;
use duui_ner::config::parse_device;
use duui_ner::config::parse_model_arg;
use duui_ner::config::parse_model_choice;
use duui_ner::config::payload_limit;
use duui_ner::config::select_xlm_roberta;
use duui_ner::config::ConfigError;
use duui_ner::config::Device;
use duui_ner::config::ModelChoiceAndLanguages;
use duui_ner::config::ModelConfig;
use duui_ner::config::ModelResources;
use duui_ner::config::ModelType;
use duui_ner::config::DEFAULT_PAYLOAD_LIMIT;
use duui_ner::documentation::TextImagerDocumentation;
use duui_ner::routes::get_v1_documentation;
use duui_ner::text::has_colon;
use duui_ner::text::parse_number;
use duui_ner::text::same_text;
use duui_ner::text::split_at_colon;

#[test]
fn devices_are_read() {
    assert_eq!(Ok(Device::Cpu), parse_device("cpu"));
    assert_eq!(Ok(Device::Cuda(0)), parse_device("cuda"));
    assert_eq!(Ok(Device::Cuda(0)), parse_device("gpu"));
    assert_eq!(Ok(Device::Cuda(0)), parse_device("cuda:0"));
    assert_eq!(Ok(Device::Cuda(3)), parse_device("gpu:3"));
    assert_eq!(Ok(Device::Cuda(12)), parse_device("cuda:+012"));
    assert_eq!(Ok(Device::Mps), parse_device("mps"));
    assert_eq!(Ok(Device::Vulkan), parse_device("vulkan"));
}

#[test]
fn bad_devices_are_refused() {
    for device in ["", "CPU", "tpu", "cpu:0", "mps:1", "cuda:0:1", "cuda::", ":cuda", "cuda ", ":"] {
        assert_eq!(Err(ConfigError::InvalidDevice), parse_device(device), "{}", device);
    }
    for device in ["cuda:", "gpu:x", "cuda:-1", "cuda: 1", "gpu:1.5", "cuda:99999999999999999999999"] {
        assert_eq!(Err(ConfigError::InvalidDeviceIndex), parse_device(device), "{}", device);
    }
}

#[test]
fn models_are_read_in_any_case() {
    assert_eq!(Ok(ModelChoiceAndLanguages::Bert), parse_model_arg("bert"));
    assert_eq!(Ok(ModelChoiceAndLanguages::Bert), parse_model_arg("BERT"));
    assert_eq!(Ok(ModelChoiceAndLanguages::XlmRoberta("de".into())), parse_model_arg("XLM-RoBERTa"));
    assert_eq!(Ok(ModelChoiceAndLanguages::XlmRoberta("de".into())), parse_model_arg("XLM-RoBERTa:de"));
    assert_eq!(Ok(ModelChoiceAndLanguages::XlmRoberta("en".into())), parse_model_arg("xlm-roberta:EN"));
    assert_eq!(Ok(ModelChoiceAndLanguages::XlmRoberta("".into())), parse_model_arg("xlm-roberta:"));
    assert_eq!(Ok(ModelChoiceAndLanguages::XlmRoberta("fr".into())), parse_model_arg("Xlm-Roberta:fr"));
}

#[test]
fn bad_models_are_refused() {
    for model in ["", "bert:", "bert:de", "roberta", "xlm-roberta:de:en", "xlm_roberta", ":", " bert"] {
        assert_eq!(Err(ConfigError::InvalidModelChoice), parse_model_arg(model), "{}", model);
    }
    assert_eq!(Err(ConfigError::InvalidModelChoice), parse_model_choice("BERT"));
    assert_eq!(Ok(ModelChoiceAndLanguages::Bert), parse_model_choice("bert"));
    assert_eq!(
        Ok(ModelChoiceAndLanguages::XlmRoberta("NL".into())),
        parse_model_choice("xlm-roberta:NL")
    );
}

#[test]
fn model_config_follows_the_choice() {
    assert_eq!(
        Ok(ModelConfig {
            model_type: ModelType::Bert,
            resources: ModelResources::BertNer,
            batch_size: 128,
            device: Device::Cuda(0),
        }),
        get_model_config(ModelChoiceAndLanguages::Bert, 128, Device::Cuda(0))
    );
    let languages = [
        ("de", ModelResources::XlmRobertaNerDe),
        ("EN", ModelResources::XlmRobertaNerEn),
        ("Nl", ModelResources::XlmRobertaNerNl),
        ("es", ModelResources::XlmRobertaNerEs),
    ];
    for (language, resources) in languages {
        assert_eq!(
            Ok(ModelConfig {
                model_type: ModelType::XlmRoberta,
                resources,
                batch_size: 4,
                device: Device::Cpu,
            }),
            get_model_config(ModelChoiceAndLanguages::XlmRoberta(language.into()), 4, Device::Cpu)
        );
    }
    for language in ["", "fr", "deu", " de"] {
        assert_eq!(
            Err(ConfigError::UnknownLanguage),
            get_model_config(ModelChoiceAndLanguages::XlmRoberta(language.into()), 4, Device::Mps)
        );
    }
    assert_eq!(None, select_xlm_roberta("DE"));
    assert_eq!(Some(ModelResources::XlmRobertaNerDe), select_xlm_roberta("de"));
}

#[test]
fn numbers_are_read_as_the_standard_library_reads_them() {
    let samples = [
        "", "0", "7", "007", "+7", "+", "-7", "-0", "++7", "7+", " 7", "7 ", "1_000", "0x10", "１２",
        "16777215", "4294967295", "4294967296", "18446744073709551615", "18446744073709551616",
        "99999999999999999999999999", "+18446744073709551615", "12a", "a12", "1.0", "٣",
    ];
    for sample in samples {
        assert_eq!(sample.parse::<usize>().ok(), parse_number(sample), "{:?}", sample);
    }
    assert_eq!(Some(16_777_215), parse_number("16777215"));
    assert_eq!(Some(usize::MAX), parse_number(&usize::MAX.to_string()));
}

#[test]
fn payload_limit_falls_back_to_the_default() {
    assert_eq!(16_777_215, DEFAULT_PAYLOAD_LIMIT);
    assert_eq!(16_777_215, payload_limit(None));
    assert_eq!(1024, payload_limit(Some("1024")));
    assert_eq!(0, payload_limit(Some("0")));
    assert_eq!(16_777_215, payload_limit(Some("16MB")));
    assert_eq!(16_777_215, payload_limit(Some("")));
    assert_eq!(16_777_215, payload_limit(Some("-1")));
}

#[test]
fn text_is_split_at_the_first_colon() {
    assert_eq!(("cuda", Some("1")), split_at_colon("cuda:1"));
    assert_eq!(("cuda", None), split_at_colon("cuda"));
    assert_eq!(("", Some("")), split_at_colon(":"));
    assert_eq!(("ä", Some("ö:ü")), split_at_colon("ä:ö:ü"));
    assert_eq!(("", None), split_at_colon(""));
    assert!(has_colon("a:"));
    assert!(!has_colon("ab"));
    assert!(same_text("Präsident", "Präsident"));
    assert!(!same_text("Präsident", "Prasident"));
    assert!(!same_text("a", "ab"));
    assert!(same_text("", ""));
}

#[test]
fn documentation_describes_the_service() {
    let plain = TextImagerDocumentation::default();
    assert_eq!("duui-ner", plain.annotator_name);
    assert_eq!("0.1.0", plain.version);
    assert_eq!(Some("Rust ".to_string()), plain.implementation_lang);
    assert_eq!(None, plain.meta);
    assert_eq!(None, plain.docker_container_id);
    assert_eq!(None, plain.parameters);
    assert_eq!(None, plain.implementation_specific);
    assert!(plain.capability.supported_languages.is_empty());
    assert!(plain.capability.reproducible);
    let served = get_v1_documentation();
    assert_eq!("duui-ner-ort", served.annotator_name);
    assert_eq!(vec!["de".to_string()], served.capability.supported_languages);
    assert!(served.capability.reproducible);
    assert_eq!(plain.version, served.version);
    assert_eq!(None, served.meta);
    let other = TextImagerDocumentation::for_package("ner", "1.2.3", "1.70");
    assert_eq!("ner", other.annotator_name);
    assert_eq!("1.2.3", other.version);
    assert_eq!(Some("Rust 1.70".to_string()), other.implementation_lang);
}
