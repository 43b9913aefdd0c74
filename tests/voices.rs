use twitch_bot::tts::{TTSConfigs, TTSGender, TTSSpeechConfig, TTSVoice, TTSVoiceTag};

fn voice(name: &str, gender: &str, locale: &str, codec: Option<&str>) -> TTSVoice {
    TTSVoice {
        name: name.to_string(),
        short_name: Some(name.to_string()),
        gender: Some(gender.to_string()),
        locale: Some(locale.to_string()),
        suggested_codec: codec.map(|c| c.to_string()),
        friendly_name: None,
        status: Some("GA".to_string()),
        voice_tag: Some(TTSVoiceTag {
            content_categories: Some(vec!["General".to_string()]),
            voice_personalities: None,
        }),
    }
}

fn voices() -> TTSConfigs {
    TTSConfigs::new(vec![
        voice("it-A", "Male", "it-IT", None),
        voice("it-B", "Female", "it-IT", Some("webm-24khz-16bit-mono-opus")),
        voice("en-C", "Male", "en-US", None),
        voice("it-D", "Male", "it-IT", None),
    ])
}

fn names(c: &TTSConfigs) -> Vec<String> {
    (0..c.len()).map(|i| c.get(i).voice_config().name.clone()).collect()
}

#[test]
fn speech_config_from_voice() {
    let c = TTSSpeechConfig::from_voice(&voice("x", "Male", "it-IT", None));
    assert_eq!(c.voice_name, "x");
    assert_eq!(c.audio_format, "audio-24khz-48kbitrate-mono-mp3");
    assert_eq!((c.pitch, c.rate, c.volume), (0, 0, 0));
    let d = TTSSpeechConfig::from_voice(&voice("y", "Male", "it-IT", Some("riff-16khz")));
    assert_eq!(d.audio_format, "riff-16khz");
}

#[test]
fn filter_by_gender_and_locale() {
    let all = voices();
    assert_eq!(all.len(), 4);
    let male = all.filter_gender(TTSGender::Male);
    assert_eq!(male.len(), 3);
    let it_male = male.filter_locale("it-IT");
    assert_eq!(names(&it_male), vec!["it-A".to_string(), "it-D".to_string()]);
    let female = all.filter_gender(TTSGender::Female);
    assert_eq!(names(&female), vec!["it-B".to_string()]);
    assert!(all.filter_locale("fr-FR").is_empty());
}

#[test]
fn random_voice_of_one() {
    let one = voices().filter_gender(TTSGender::Female);
    let v = one.random();
    assert_eq!(v.voice_config().name, "it-B");
    assert_eq!(v.speech_config().audio_format, "webm-24khz-16bit-mono-opus");
    assert_eq!(v.speech_config().voice_name, "it-B");
}

#[test]
fn gender_labels() {
    assert_eq!(TTSGender::Male.label(), "Male");
    assert_eq!(TTSGender::Female.label(), "Female");
    assert_eq!(TTSGender::from_label("Male"), Some(TTSGender::Male));
    assert_eq!(TTSGender::from_label("Female"), Some(TTSGender::Female));
    assert_eq!(TTSGender::from_label("other"), None);
    assert_eq!(TTSGender::from_label_or_random("Female"), TTSGender::Female);
    assert_eq!(TTSGender::from_index(0), TTSGender::Male);
    assert_eq!(TTSGender::from_index(1), TTSGender::Female);
    let g = TTSGender::random();
    assert!(g == TTSGender::Male || g == TTSGender::Female);
}
