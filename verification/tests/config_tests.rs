use bark::config::{
    env_settings, env_settings_for, set_env_option, str_eq, Config, Device, EnvSetting, EnvValue,
    Format, Receive, Source, UnknownFormat,
};

#[test]
fn formats_parse_and_print() {
    assert_eq!(Format::parse("s16le"), Ok(Format::S16LE));
    assert_eq!(Format::parse("f32le"), Ok(Format::F32LE));
    assert_eq!(Format::parse("opus"), Err(UnknownFormat));
    assert_eq!(Format::parse("F32LE"), Err(UnknownFormat));
    assert_eq!(Format::parse(""), Err(UnknownFormat));
    assert_eq!("f32le".parse::<Format>(), Ok(Format::F32LE));
    assert_eq!(Format::S16LE.text(), "s16le");
    assert_eq!(Format::F32LE.text(), "f32le");
}

#[test]
fn a_format_name_reads_back_as_the_format() {
    for f in [Format::S16LE, Format::F32LE] {
        assert_eq!(Format::parse(f.text()), Ok(f));
        assert_eq!(f.text().parse::<Format>(), Ok(f));
    }
    assert_eq!(Format::parse("f32"), Err(UnknownFormat));
}

#[test]
fn text_equality() {
    assert!(str_eq("bark", "bark"));
    assert!(!str_eq("bark", "barks"));
    assert!(!str_eq("bark", "park"));
    assert!(str_eq("", ""));
}

#[test]
fn defaults_are_empty() {
    assert_eq!(Device::default(), Device { device: None, period: None, buffer: None });
    assert_eq!(Source::default(), Source { input: Device::default(), delay_ms: None, format: None });
    assert_eq!(Receive::default(), Receive { output: Device::default() });
}

fn sample_config() -> Config {
    Config {
        multicast: Some("224.100.100.100:1530".to_string()),
        source: Source {
            input: Device { device: Some("Bark".to_string()), period: None, buffer: Some(480) },
            delay_ms: Some(15),
            format: Some(Format::F32LE),
        },
        receive: Receive {
            output: Device { device: Some("speakers".to_string()), period: Some(120), buffer: None },
        },
    }
}

#[test]
fn settings_follow_the_configuration() {
    let settings = env_settings(&sample_config());
    let expected = vec![
        EnvSetting { name: "BARK_MULTICAST", value: EnvValue::Text("224.100.100.100:1530".to_string()) },
        EnvSetting { name: "BARK_SOURCE_DELAY_MS", value: EnvValue::Number(15) },
        EnvSetting { name: "BARK_SOURCE_INPUT_DEVICE", value: EnvValue::Text("Bark".to_string()) },
        EnvSetting { name: "BARK_SOURCE_INPUT_BUFFER", value: EnvValue::Number(480) },
        EnvSetting { name: "BARK_SOURCE_FORMAT", value: EnvValue::Text("f32le".to_string()) },
        EnvSetting { name: "BARK_RECEIVE_OUTPUT_DEVICE", value: EnvValue::Text("speakers".to_string()) },
        EnvSetting { name: "BARK_RECEIVE_OUTPUT_PERIOD", value: EnvValue::Number(120) },
    ];
    assert_eq!(settings, expected);
}

#[test]
fn an_empty_configuration_sets_nothing() {
    let c = Config { multicast: None, source: Source::default(), receive: Receive::default() };
    assert!(env_settings(&c).is_empty());
}

#[test]
fn environment_takes_precedence_over_the_file() {
    let existing = vec!["PATH".to_string(), "BARK_SOURCE_DELAY_MS".to_string(), "BARK_MULTICAST".to_string()];
    let settings = env_settings_for(&sample_config(), &existing);
    let names: Vec<&str> = settings.iter().map(|s| s.name).collect();
    assert_eq!(
        names,
        vec![
            "BARK_SOURCE_INPUT_DEVICE",
            "BARK_SOURCE_INPUT_BUFFER",
            "BARK_SOURCE_FORMAT",
            "BARK_RECEIVE_OUTPUT_DEVICE",
            "BARK_RECEIVE_OUTPUT_PERIOD",
        ]
    );
}

#[test]
fn set_env_option_adds_only_present_values() {
    let mut settings = Vec::new();
    set_env_option(&mut settings, "A", None);
    set_env_option(&mut settings, "B", Some(EnvValue::Number(3)));
    assert_eq!(settings, vec![EnvSetting { name: "B", value: EnvValue::Number(3) }]);
}
