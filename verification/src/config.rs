use vstd::prelude::*;
use vstd::string::*;

verus! {

/// Whether two texts are the same, character by character.
pub fn str_eq(a: &str, b: &str) -> (r: bool)
    ensures
        r == (a@ == b@),
{
    let n = a.unicode_len();
    if n != b.unicode_len() {
        return false;
    }
    let mut i: usize = 0;
    while i < n
        invariant
            n == a@.len(),
            n == b@.len(),
            i <= n,
            forall|j: int| 0 <= j < i ==> a@[j] == b@[j],
        decreases n - i,
    {
        if a.get_char(i) != b.get_char(i) {
            return false;
        }
        i = i + 1;
    }
    assert(a@ =~= b@);
    true
}

/// The sample formats a stream can be sent in.
#[derive(Debug, Clone, Copy, PartialEq, Eq)]
pub enum Format {
    /// Signed 16-bit little-endian integers.
    S16LE,
    /// 32-bit little-endian floats.
    F32LE,
}

/// A format name that is not one of the known formats.
#[derive(Debug, Clone, Copy, PartialEq, Eq)]
pub struct UnknownFormat;

/// The name of a format, as configuration and command lines write it.
pub open spec fn format_name(f: Format) -> Seq<char> {
    match f {
        Format::S16LE => seq!['s', '1', '6', 'l', 'e'],
        Format::F32LE => seq!['f', '3', '2', 'l', 'e'],
    }
}

/// The format whose name is `s`, or `UnknownFormat` when no format has
/// that name. Names are matched exactly, letter case included.
pub open spec fn format_named(s: Seq<char>) -> Result<Format, UnknownFormat> {
    if s == format_name(Format::S16LE) {
        Ok(Format::S16LE)
    } else if s == format_name(Format::F32LE) {
        Ok(Format::F32LE)
    } else {
        Err(UnknownFormat)
    }
}

/// A format's name reads back as that format: no two formats share a
/// name.
pub proof fn lemma_format_round_trip(f: Format)
    ensures
        format_named(format_name(f)) == Ok::<Format, UnknownFormat>(f),
{
    assert(format_name(Format::F32LE)[0] != format_name(Format::S16LE)[0]);
}

impl Format {
    /// The format called `s`, or `UnknownFormat` when no format has that
    /// name.
    pub fn parse(s: &str) -> (r: Result<Format, UnknownFormat>)
        ensures
            r == format_named(s@),
            r matches Ok(f) ==> format_name(f) == s@,
            r is Err <==> (s@ != format_name(Format::S16LE) && s@ != format_name(Format::F32LE)),
    {
        proof {
            reveal_strlit("s16le");
            reveal_strlit("f32le");
            assert("s16le"@ =~= format_name(Format::S16LE));
            assert("f32le"@ =~= format_name(Format::F32LE));
        }
        if str_eq(s, "s16le") {
            Ok(Format::S16LE)
        } else if str_eq(s, "f32le") {
            Ok(Format::F32LE)
        } else {
            Err(UnknownFormat)
        }
    }

    /// The name of this format.
    pub fn text(&self) -> (r: &'static str)
        ensures
            r@ == format_name(*self),
    {
        match self {
            Format::S16LE => {
                proof {
                    reveal_strlit("s16le");
                }
                "s16le"
            },
            Format::F32LE => {
                proof {
                    reveal_strlit("f32le");
                }
                "f32le"
            },
        }
    }
}

impl std::str::FromStr for Format {
    type Err = UnknownFormat;

    fn from_str(s: &str) -> (r: Result<Format, UnknownFormat>)
        ensures
            r == format_named(s@),
            r matches Ok(f) ==> format_name(f) == s@,
            r is Err <==> (s@ != format_name(Format::S16LE) && s@ != format_name(Format::F32LE)),
    {
        Format::parse(s)
    }
}

/// An audio device's settings.
#[derive(Debug, Clone, PartialEq, Eq)]
pub struct Device {
    pub device: Option<String>,
    pub period: Option<u64>,
    pub buffer: Option<u64>,
}

impl Default for Device {
    fn default() -> (r: Device)
        ensures
            r.device is None,
            r.period is None,
            r.buffer is None,
    {
        Device { device: None, period: None, buffer: None }
    }
}

/// The settings of a stream source.
#[derive(Debug, Clone, PartialEq, Eq)]
pub struct Source {
    pub input: Device,
    pub delay_ms: Option<u64>,
    pub format: Option<Format>,
}

impl Default for Source {
    fn default() -> (r: Source)
        ensures
            r.input.device is None,
            r.input.period is None,
            r.input.buffer is None,
            r.delay_ms is None,
            r.format is None,
    {
        Source { input: Device::default(), delay_ms: None, format: None }
    }
}

/// The settings of a receiver.
#[derive(Debug, Clone, PartialEq, Eq)]
pub struct Receive {
    pub output: Device,
}

impl Default for Receive {
    fn default() -> (r: Receive)
        ensures
            r.output.device is None,
            r.output.period is None,
            r.output.buffer is None,
    {
        Receive { output: Device::default() }
    }
}

/// The settings read from a configuration file. The multicast address is
/// held as its text.
#[derive(Debug, Clone, PartialEq, Eq)]
pub struct Config {
    pub multicast: Option<String>,
    pub source: Source,
    pub receive: Receive,
}

/// A value to give an environment variable.
#[derive(Debug, Clone, PartialEq, Eq)]
pub enum EnvValue {
    /// A text, set as it is.
    Text(String),
    /// A number, set as its decimal text.
    Number(u64),
}

/// The abstract value of an environment setting.
pub enum EnvValueView {
    Text(Seq<char>),
    Number(u64),
}

impl View for EnvValue {
    type V = EnvValueView;

    open spec fn view(&self) -> EnvValueView {
        match self {
            EnvValue::Text(s) => EnvValueView::Text(s@),
            EnvValue::Number(n) => EnvValueView::Number(*n),
        }
    }
}

/// An environment variable to set, and its value.
#[derive(Debug, Clone, PartialEq, Eq)]
pub struct EnvSetting {
    pub name: &'static str,
    pub value: EnvValue,
}

impl View for EnvSetting {
    type V = (Seq<char>, EnvValueView);

    open spec fn view(&self) -> (Seq<char>, EnvValueView) {
        (self.name@, self.value@)
    }
}

/// The setting of `name` to `value`, if there is a value.
pub open spec fn setting_if(name: Seq<char>, value: Option<EnvValueView>) -> Seq<
    (Seq<char>, EnvValueView),
> {
    match value {
        Some(v) => seq![(name, v)],
        None => Seq::empty(),
    }
}

/// An optional text as an optional setting value.
pub open spec fn text_value(t: Option<String>) -> Option<EnvValueView> {
    match t {
        Some(s) => Some(EnvValueView::Text(s@)),
        None => None,
    }
}

/// An optional number as an optional setting value.
pub open spec fn number_value(n: Option<u64>) -> Option<EnvValueView> {
    match n {
        Some(x) => Some(EnvValueView::Number(x)),
        None => None,
    }
}

/// An optional format as an optional setting value: its name.
pub open spec fn format_value(f: Option<Format>) -> Option<EnvValueView> {
    match f {
        Some(f) => Some(EnvValueView::Text(format_name(f))),
        None => None,
    }
}

/// The environment variables a configuration sets, in order: each setting
/// that is present, under its `BARK_` name.
pub open spec fn config_settings(c: Config) -> Seq<(Seq<char>, EnvValueView)> {
    setting_if("BARK_MULTICAST"@, text_value(c.multicast)) + setting_if(
        "BARK_SOURCE_DELAY_MS"@,
        number_value(c.source.delay_ms),
    ) + setting_if("BARK_SOURCE_INPUT_DEVICE"@, text_value(c.source.input.device)) + setting_if(
        "BARK_SOURCE_INPUT_PERIOD"@,
        number_value(c.source.input.period),
    ) + setting_if("BARK_SOURCE_INPUT_BUFFER"@, number_value(c.source.input.buffer))
        + setting_if("BARK_SOURCE_FORMAT"@, format_value(c.source.format)) + setting_if(
        "BARK_RECEIVE_OUTPUT_DEVICE"@,
        text_value(c.receive.output.device),
    ) + setting_if("BARK_RECEIVE_OUTPUT_PERIOD"@, number_value(c.receive.output.period))
        + setting_if("BARK_RECEIVE_OUTPUT_BUFFER"@, number_value(c.receive.output.buffer))
}

/// The settings' abstract values, in order.
pub open spec fn settings_view(s: Seq<EnvSetting>) -> Seq<(Seq<char>, EnvValueView)> {
    s.map_values(|e: EnvSetting| e@)
}

/// Adds the setting of `name` to `value` to `settings`, if there is a value.
pub fn set_env_option(settings: &mut Vec<EnvSetting>, name: &'static str, value: Option<EnvValue>)
    ensures
        settings_view(final(settings)@) == settings_view(old(settings)@) + setting_if(
            name@,
            match value {
                Some(v) => Some(v@),
                None => None,
            },
        ),
{
    match value {
        Some(v) => {
            settings.push(EnvSetting { name, value: v });
        },
        None => {},
    }
    assert(settings_view(settings@) =~= settings_view(old(settings)@) + setting_if(
        name@,
        match value {
            Some(v) => Some(v@),
            None => None,
        },
    ));
}

/// An optional text as an optional setting value.
fn text_setting(t: &Option<String>) -> (r: Option<EnvValue>)
    ensures
        (match r {
            Some(v) => Some(v@),
            None => None,
        }) == text_value(*t),
{
    match t {
        Some(s) => Some(EnvValue::Text(s.clone())),
        None => None,
    }
}

/// An optional number as an optional setting value.
fn number_setting(n: Option<u64>) -> (r: Option<EnvValue>)
    ensures
        (match r {
            Some(v) => Some(v@),
            None => None,
        }) == number_value(n),
{
    match n {
        Some(x) => Some(EnvValue::Number(x)),
        None => None,
    }
}

/// The environment variables that `config` sets, in order, so that the
/// command line can read every setting from the environment.
pub fn env_settings(config: &Config) -> (r: Vec<EnvSetting>)
    ensures
        settings_view(r@) == config_settings(*config),
{
    let mut settings: Vec<EnvSetting> = Vec::new();
    let format = match config.source.format {
        Some(f) => Some(EnvValue::Text(String::from_str(f.text()))),
        None => None,
    };
    set_env_option(&mut settings, "BARK_MULTICAST", text_setting(&config.multicast));
    set_env_option(&mut settings, "BARK_SOURCE_DELAY_MS", number_setting(config.source.delay_ms));
    set_env_option(
        &mut settings,
        "BARK_SOURCE_INPUT_DEVICE",
        text_setting(&config.source.input.device),
    );
    set_env_option(
        &mut settings,
        "BARK_SOURCE_INPUT_PERIOD",
        number_setting(config.source.input.period),
    );
    set_env_option(
        &mut settings,
        "BARK_SOURCE_INPUT_BUFFER",
        number_setting(config.source.input.buffer),
    );
    set_env_option(&mut settings, "BARK_SOURCE_FORMAT", format);
    set_env_option(
        &mut settings,
        "BARK_RECEIVE_OUTPUT_DEVICE",
        text_setting(&config.receive.output.device),
    );
    set_env_option(
        &mut settings,
        "BARK_RECEIVE_OUTPUT_PERIOD",
        number_setting(config.receive.output.period),
    );
    set_env_option(
        &mut settings,
        "BARK_RECEIVE_OUTPUT_BUFFER",
        number_setting(config.receive.output.buffer),
    );
    assert(settings_view(settings@) =~= config_settings(*config));
    settings
}

/// The names in `names`, as texts.
pub open spec fn name_texts(names: Seq<String>) -> Seq<Seq<char>> {
    names.map_values(|n: String| n@)
}

/// Whether a setting is not overridden by a variable already in an
/// environment that holds the variables `names`.
pub open spec fn not_overridden(names: Seq<Seq<char>>) -> spec_fn((Seq<char>, EnvValueView)) -> bool {
    |e: (Seq<char>, EnvValueView)| !names.contains(e.0)
}

/// Whether `name` is one of `names`.
fn is_listed(name: &str, names: &[String]) -> (r: bool)
    ensures
        r == name_texts(names@).contains(name@),
{
    let mut i: usize = 0;
    while i < names.len()
        invariant
            i <= names@.len(),
            forall|k: int| 0 <= k < i ==> names@[k]@ != name@,
        decreases names@.len() - i,
    {
        if str_eq(names[i].as_str(), name) {
            assert(name_texts(names@)[i as int] == name@);
            return true;
        }
        i = i + 1;
    }
    proof {
        if name_texts(names@).contains(name@) {
            let k = choose|k: int| 0 <= k < name_texts(names@).len() && name_texts(names@)[k] == name@;
            assert(names@[k]@ == name@);
        }
    }
    false
}

/// The settings of `settings` that an environment holding the variables
/// `existing` does not already set, in order: a variable already set takes
/// precedence over the configuration file.
pub fn unset_settings(settings: Vec<EnvSetting>, existing: &[String]) -> (r: Vec<EnvSetting>)
    ensures
        settings_view(r@) == settings_view(settings@).filter(not_overridden(name_texts(existing@))),
{
    let ghost all = settings_view(settings@);
    let ghost pred = not_overridden(name_texts(existing@));
    let mut rest = settings;
    let mut out: Vec<EnvSetting> = Vec::new();
    let ghost mut k: int = 0;
    proof {
        reveal(Seq::filter);
        assert(all.take(0) =~= Seq::<(Seq<char>, EnvValueView)>::empty());
        assert(settings_view(rest@) =~= all.skip(0));
    }
    while rest.len() > 0
        invariant
            0 <= k <= all.len(),
            settings_view(rest@) == all.skip(k),
            settings_view(out@) == all.take(k).filter(pred),
            pred == not_overridden(name_texts(existing@)),
        decreases rest@.len(),
    {
        let ghost before = rest@;
        let e = rest.remove(0);
        proof {
            assert(settings_view(before).len() == before.len());
            assert(settings_view(before)[0] == e@);
            assert forall|i: int| 0 <= i < rest@.len() implies #[trigger] settings_view(rest@)[i]
                == all.skip(k + 1)[i] by {
                assert(settings_view(before)[i + 1] == before[i + 1]@);
            }
            assert(settings_view(rest@) =~= all.skip(k + 1));
            assert(all.take(k + 1).drop_last() =~= all.take(k));
            reveal(Seq::filter);
        }
        let listed = is_listed(e.name, existing);
        if !listed {
            out.push(e);
            assert(settings_view(out@) =~= all.take(k + 1).filter(pred));
        } else {
            assert(settings_view(out@) =~= all.take(k + 1).filter(pred));
        }
        proof {
            k = k + 1;
        }
    }
    proof {
        assert(all.take(k) =~= all);
    }
    out
}

/// The environment variables that `config` sets in an environment already
/// holding the variables `existing`: its settings, in order, except those
/// the environment already sets.
pub fn env_settings_for(config: &Config, existing: &[String]) -> (r: Vec<EnvSetting>)
    ensures
        settings_view(r@) == config_settings(*config).filter(not_overridden(name_texts(existing@))),
{
    unset_settings(env_settings(config), existing)
}

/// A variable already in the environment takes precedence over the
/// configuration file: of the configuration's settings, exactly those whose
/// variable the environment does not already hold are applied.
pub proof fn lemma_environment_precedence(config: Config, existing: Seq<String>)
    ensures
        forall|i: int|
            0 <= i < config_settings(config).filter(not_overridden(name_texts(existing))).len()
                ==> !name_texts(existing).contains(
                #[trigger] config_settings(config).filter(not_overridden(name_texts(existing)))[i].0,
            ),
        forall|e: (Seq<char>, EnvValueView)|
            #[trigger] config_settings(config).contains(e) && !name_texts(existing).contains(e.0)
                ==> config_settings(config).filter(not_overridden(name_texts(existing))).contains(e),
{
    let all = config_settings(config);
    let pred = not_overridden(name_texts(existing));
    assert forall|i: int| 0 <= i < all.filter(pred).len() implies !name_texts(existing).contains(
        #[trigger] all.filter(pred)[i].0,
    ) by {
        all.lemma_filter_pred(pred, i);
    }
    assert forall|e: (Seq<char>, EnvValueView)|
        #[trigger] all.contains(e) && !name_texts(existing).contains(e.0) implies all.filter(
        pred,
    ).contains(e) by {
        let i = choose|i: int| 0 <= i < all.len() && all[i] == e;
        all.lemma_filter_contains(pred, i);
    }
}

} // verus!
