//! Voices for speech synthesis and the choice of one of them.
use rand::Rng;
use vstd::prelude::*;

verus! {

/// The categories and personalities a voice is tagged with.
pub struct TTSVoiceTag {
    pub content_categories: Option<Vec<String>>,
    pub voice_personalities: Option<Vec<String>>,
}

/// One voice that the speech service offers.
pub struct TTSVoice {
    pub name: String,
    pub short_name: Option<String>,
    pub gender: Option<String>,
    pub locale: Option<String>,
    pub suggested_codec: Option<String>,
    pub friendly_name: Option<String>,
    pub status: Option<String>,
    pub voice_tag: Option<TTSVoiceTag>,
}

/// The settings that one synthesis request is made with.
pub struct TTSSpeechConfig {
    pub voice_name: String,
    pub audio_format: String,
    pub pitch: i32,
    pub rate: i32,
    pub volume: i32,
}

/// A voice together with the settings to speak with it.
pub struct TTSSpeech {
    voice_config: TTSVoice,
    speech_config: TTSSpeechConfig,
}

/// The gender a voice is listed with.
#[derive(Debug, Clone, Copy, PartialEq, Eq, Structural)]
pub enum TTSGender {
    Male,
    Female,
}

/// A list of voices to choose from.
pub struct TTSConfigs {
    tts_configs: Vec<TTSSpeech>,
}

/// A voice tag, as text.
pub struct TagModel {
    pub content_categories: Option<Seq<Seq<char>>>,
    pub voice_personalities: Option<Seq<Seq<char>>>,
}

/// A voice, as text.
pub struct VoiceModel {
    pub name: Seq<char>,
    pub short_name: Option<Seq<char>>,
    pub gender: Option<Seq<char>>,
    pub locale: Option<Seq<char>>,
    pub suggested_codec: Option<Seq<char>>,
    pub friendly_name: Option<Seq<char>>,
    pub status: Option<Seq<char>>,
    pub voice_tag: Option<TagModel>,
}

/// Synthesis settings, as text and numbers.
pub struct SpeechConfigModel {
    pub voice_name: Seq<char>,
    pub audio_format: Seq<char>,
    pub pitch: i32,
    pub rate: i32,
    pub volume: i32,
}

/// A voice with its settings, as text and numbers.
pub struct SpeechModel {
    pub voice: VoiceModel,
    pub speech: SpeechConfigModel,
}

impl View for TTSVoiceTag {
    type V = TagModel;

    open spec fn view(&self) -> TagModel {
        TagModel {
            content_categories: self.content_categories.deep_view(),
            voice_personalities: self.voice_personalities.deep_view(),
        }
    }
}

impl View for TTSVoice {
    type V = VoiceModel;

    open spec fn view(&self) -> VoiceModel {
        VoiceModel {
            name: self.name@,
            short_name: self.short_name.deep_view(),
            gender: self.gender.deep_view(),
            locale: self.locale.deep_view(),
            suggested_codec: self.suggested_codec.deep_view(),
            friendly_name: self.friendly_name.deep_view(),
            status: self.status.deep_view(),
            voice_tag: match self.voice_tag {
                Some(t) => Some(t@),
                None => None,
            },
        }
    }
}

impl View for TTSSpeechConfig {
    type V = SpeechConfigModel;

    open spec fn view(&self) -> SpeechConfigModel {
        SpeechConfigModel {
            voice_name: self.voice_name@,
            audio_format: self.audio_format@,
            pitch: self.pitch,
            rate: self.rate,
            volume: self.volume,
        }
    }
}

impl View for TTSSpeech {
    type V = SpeechModel;

    closed spec fn view(&self) -> SpeechModel {
        SpeechModel { voice: self.voice_config@, speech: self.speech_config@ }
    }
}

impl View for TTSConfigs {
    type V = Seq<SpeechModel>;

    closed spec fn view(&self) -> Seq<SpeechModel> {
        self.tts_configs@.map_values(|s: TTSSpeech| s@)
    }
}

/// A copy of a list of strings.
fn copy_strings(v: &Vec<String>) -> (r: Vec<String>)
    ensures
        r@ == v@,
        r.deep_view() == v.deep_view(),
{
    let mut r: Vec<String> = Vec::new();
    let mut i: usize = 0;
    while i < v.len()
        invariant
            i <= v@.len(),
            r@ == v@.take(i as int),
        decreases v@.len() - i,
    {
        let s = v[i].clone();
        r.push(s);
        proof {
            assert(r@ =~= v@.take(i + 1));
        }
        i = i + 1;
    }
    proof {
        assert(v@.take(v@.len() as int) =~= v@);
        assert(r.deep_view() =~= v.deep_view());
    }
    r
}

/// A copy of an optional list of strings.
fn copy_opt_strings(o: &Option<Vec<String>>) -> (r: Option<Vec<String>>)
    ensures
        r.deep_view() == o.deep_view(),
{
    match o {
        Some(v) => Some(copy_strings(v)),
        None => None,
    }
}

/// A copy of an optional string.
fn copy_opt_string(o: &Option<String>) -> (r: Option<String>)
    ensures
        r.deep_view() == o.deep_view(),
{
    match o {
        Some(s) => Some(s.clone()),
        None => None,
    }
}

impl Clone for TTSVoiceTag {
    fn clone(&self) -> (r: Self)
        ensures
            r@ == self@,
    {
        TTSVoiceTag {
            content_categories: copy_opt_strings(&self.content_categories),
            voice_personalities: copy_opt_strings(&self.voice_personalities),
        }
    }
}

impl Clone for TTSVoice {
    fn clone(&self) -> (r: Self)
        ensures
            r@ == self@,
    {
        TTSVoice {
            name: self.name.clone(),
            short_name: copy_opt_string(&self.short_name),
            gender: copy_opt_string(&self.gender),
            locale: copy_opt_string(&self.locale),
            suggested_codec: copy_opt_string(&self.suggested_codec),
            friendly_name: copy_opt_string(&self.friendly_name),
            status: copy_opt_string(&self.status),
            voice_tag: match &self.voice_tag {
                Some(t) => Some(t.clone()),
                None => None,
            },
        }
    }
}

impl Clone for TTSSpeechConfig {
    fn clone(&self) -> (r: Self)
        ensures
            r@ == self@,
    {
        TTSSpeechConfig {
            voice_name: self.voice_name.clone(),
            audio_format: self.audio_format.clone(),
            pitch: self.pitch,
            rate: self.rate,
            volume: self.volume,
        }
    }
}

impl Clone for TTSSpeech {
    fn clone(&self) -> (r: Self)
        ensures
            r@ == self@,
    {
        TTSSpeech {
            voice_config: self.voice_config.clone(),
            speech_config: self.speech_config.clone(),
        }
    }
}

/// The audio format used for a voice that suggests none.
pub open spec fn default_audio_format() -> Seq<char> {
    "audio-24khz-48kbitrate-mono-mp3"@
}

/// The settings to speak with a voice: its name, the codec it suggests or the
/// default format, and neutral pitch, rate and volume.
pub open spec fn speech_config_for(v: VoiceModel) -> SpeechConfigModel {
    SpeechConfigModel {
        voice_name: v.name,
        audio_format: match v.suggested_codec {
            Some(c) => c,
            None => default_audio_format(),
        },
        pitch: 0,
        rate: 0,
        volume: 0,
    }
}

/// The text by which a gender is listed.
pub open spec fn gender_label(g: TTSGender) -> Seq<char> {
    match g {
        TTSGender::Male => "Male"@,
        TTSGender::Female => "Female"@,
    }
}

/// Whether a voice is listed with `label` as its gender.
pub open spec fn has_gender(m: SpeechModel, label: Seq<char>) -> bool {
    m.voice.gender == Some(label)
}

/// Whether a voice is listed with `locale`.
pub open spec fn has_locale(m: SpeechModel, locale: Seq<char>) -> bool {
    m.voice.locale == Some(locale)
}

/// Relies on rand's `thread_rng` and `Rng::gen_range`: a number drawn below
/// `n`, which must not be zero (an empty range panics).
#[verifier::external_body]
fn random_below(n: usize) -> (r: usize)
    requires
        n > 0,
    ensures
        r < n,
{
    rand::thread_rng().gen_range(0..n)
}

impl TTSSpeechConfig {
    /// The settings to speak with `voice`.
    pub fn from_voice(voice: &TTSVoice) -> (r: Self)
        ensures
            r@ == speech_config_for(voice@),
    {
        let audio_format = match &voice.suggested_codec {
            Some(c) => c.clone(),
            None => String::from_str("audio-24khz-48kbitrate-mono-mp3"),
        };
        TTSSpeechConfig {
            voice_name: voice.name.clone(),
            audio_format,
            pitch: 0,
            rate: 0,
            volume: 0,
        }
    }
}

impl TTSSpeech {
    /// The voice.
    pub fn voice_config(&self) -> (r: &TTSVoice)
        ensures
            r@ == self@.voice,
    {
        &self.voice_config
    }

    /// The settings to speak with it.
    pub fn speech_config(&self) -> (r: &TTSSpeechConfig)
        ensures
            r@ == self@.speech,
    {
        &self.speech_config
    }
}

impl TTSGender {
    /// The gender for a drawn number: 0 is male, anything else female.
    pub fn from_index(i: usize) -> (r: Self)
        ensures
            r == (if i == 0 {
                TTSGender::Male
            } else {
                TTSGender::Female
            }),
    {
        if i == 0 {
            TTSGender::Male
        } else {
            TTSGender::Female
        }
    }

    /// A gender drawn at random.
    pub fn random() -> (r: Self) {
        TTSGender::from_index(random_below(2))
    }

    /// The gender listed as `value` (`"Male"` or `"Female"`); `None` for any
    /// other text.
    pub fn from_label(value: &str) -> (r: Option<Self>)
        ensures
            r == (if value@ == "Male"@ {
                Some(TTSGender::Male)
            } else if value@ == "Female"@ {
                Some(TTSGender::Female)
            } else {
                None
            }),
    {
        let v = String::from_str(value);
        if v == String::from_str("Male") {
            Some(TTSGender::Male)
        } else if v == String::from_str("Female") {
            Some(TTSGender::Female)
        } else {
            None
        }
    }

    /// The gender listed as `value`, or one drawn at random for any other text.
    pub fn from_label_or_random(value: &str) -> (r: Self)
        ensures
            value@ == "Male"@ ==> r == TTSGender::Male,
            value@ == "Female"@ ==> r == TTSGender::Female,
    {
        proof {
            reveal_strlit("Male");
            reveal_strlit("Female");
            assert("Male"@.len() != "Female"@.len());
        }
        match TTSGender::from_label(value) {
            Some(g) => g,
            None => TTSGender::random(),
        }
    }

    /// The text by which the gender is listed.
    pub fn label(&self) -> (r: String)
        ensures
            r@ == gender_label(*self),
    {
        match self {
            TTSGender::Male => String::from_str("Male"),
            TTSGender::Female => String::from_str("Female"),
        }
    }
}

impl TTSConfigs {
    /// The voices of `voices`, in order, each with the settings to speak with it.
    pub fn new(voices: Vec<TTSVoice>) -> (r: Self)
        ensures
            r@.len() == voices@.len(),
            forall|i: int|
                0 <= i < voices@.len() ==> (#[trigger] r@[i]).voice == voices@[i]@ && r@[i].speech
                    == speech_config_for(voices@[i]@),
    {
        let mut out: Vec<TTSSpeech> = Vec::new();
        let mut i: usize = 0;
        while i < voices.len()
            invariant
                i <= voices@.len(),
                out@.len() == i,
                forall|k: int|
                    0 <= k < i ==> (#[trigger] out@[k])@.voice == voices@[k]@ && out@[k]@.speech
                        == speech_config_for(voices@[k]@),
            decreases voices@.len() - i,
        {
            let v = voices[i].clone();
            let c = TTSSpeechConfig::from_voice(&v);
            out.push(TTSSpeech { voice_config: v, speech_config: c });
            i = i + 1;
        }
        TTSConfigs { tts_configs: out }
    }

    /// How many voices the list holds.
    pub fn len(&self) -> (r: usize)
        ensures
            r == self@.len(),
    {
        self.tts_configs.len()
    }

    /// The voice at `index`.
    pub fn get(&self, index: usize) -> (r: &TTSSpeech)
        requires
            index < self@.len(),
        ensures
            r@ == self@[index as int],
    {
        &self.tts_configs[index]
    }

    /// Whether the list holds no voice.
    pub fn is_empty(&self) -> (r: bool)
        ensures
            r == (self@.len() == 0),
    {
        self.tts_configs.len() == 0
    }

    /// The voices listed with `gender`, in order.
    pub fn filter_gender(&self, gender: TTSGender) -> (r: Self)
        ensures
            r@ == self@.filter(|m: SpeechModel| has_gender(m, gender_label(gender))),
    {
        let label = gender.label();
        let ghost pred = |m: SpeechModel| has_gender(m, gender_label(gender));
        let mut out: Vec<TTSSpeech> = Vec::new();
        let mut i: usize = 0;
        while i < self.tts_configs.len()
            invariant
                i <= self@.len(),
                label@ == gender_label(gender),
                pred == (|m: SpeechModel| has_gender(m, gender_label(gender))),
                out@.map_values(|s: TTSSpeech| s@) == self@.take(i as int).filter(pred),
            decreases self@.len() - i,
        {
            let v = &self.tts_configs[i];
            let keep = match &v.voice_config.gender {
                Some(g) => *g == label,
                None => false,
            };
            proof {
                reveal(Seq::filter);
                let t = self@.take(i + 1);
                assert(t.drop_last() =~= self@.take(i as int));
                assert(t.last() == v@);
                assert(v@.voice.gender == v.voice_config.gender.deep_view());
                match &v.voice_config.gender {
                    Some(x) => assert(v.voice_config.gender.deep_view() == Some(x@)),
                    None => {},
                }
                assert(keep == pred(v@));
            }
            if keep {
                let c = v.clone();
                let ghost before = out@;
                out.push(c);
                proof {
                    assert(out@.map_values(|s: TTSSpeech| s@) =~= before.map_values(
                        |s: TTSSpeech| s@,
                    ).push(v@));
                }
            }
            i = i + 1;
        }
        proof {
            assert(self@.take(self@.len() as int) =~= self@);
        }
        TTSConfigs { tts_configs: out }
    }

    /// The voices listed with `locale`, in order.
    pub fn filter_locale(&self, locale: &str) -> (r: Self)
        ensures
            r@ == self@.filter(|m: SpeechModel| has_locale(m, locale@)),
    {
        let wanted = String::from_str(locale);
        let ghost pred = |m: SpeechModel| has_locale(m, locale@);
        let mut out: Vec<TTSSpeech> = Vec::new();
        let mut i: usize = 0;
        while i < self.tts_configs.len()
            invariant
                i <= self@.len(),
                wanted@ == locale@,
                pred == (|m: SpeechModel| has_locale(m, locale@)),
                out@.map_values(|s: TTSSpeech| s@) == self@.take(i as int).filter(pred),
            decreases self@.len() - i,
        {
            let v = &self.tts_configs[i];
            let keep = match &v.voice_config.locale {
                Some(l) => *l == wanted,
                None => false,
            };
            proof {
                reveal(Seq::filter);
                let t = self@.take(i + 1);
                assert(t.drop_last() =~= self@.take(i as int));
                assert(t.last() == v@);
                assert(v@.voice.locale == v.voice_config.locale.deep_view());
                match &v.voice_config.locale {
                    Some(x) => assert(v.voice_config.locale.deep_view() == Some(x@)),
                    None => {},
                }
                assert(keep == pred(v@));
            }
            if keep {
                let c = v.clone();
                let ghost before = out@;
                out.push(c);
                proof {
                    assert(out@.map_values(|s: TTSSpeech| s@) =~= before.map_values(
                        |s: TTSSpeech| s@,
                    ).push(v@));
                }
            }
            i = i + 1;
        }
        proof {
            assert(self@.take(self@.len() as int) =~= self@);
        }
        TTSConfigs { tts_configs: out }
    }

    /// One of the voices, drawn at random; the list must not be empty.
    pub fn random(&self) -> (r: TTSSpeech)
        requires
            self@.len() > 0,
        ensures
            exists|i: int| 0 <= i < self@.len() && r@ == self@[i],
    {
        let index = random_below(self.tts_configs.len());
        let r = self.tts_configs[index].clone();
        assert(r@ == self@[index as int]);
        r
    }
}

} // verus!
