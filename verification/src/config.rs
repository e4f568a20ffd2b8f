//! The settings of a deployment, the values they take where the
//! configuration names none, and the check that turns the configured
//! channels into the list of streams to run.
use crate::names::texts;
use crate::text::str_eq;
use crate::units::Percentage;
use vstd::prelude::*;

verus! {

/// Milliseconds of audio that the rolling windows hold.
pub fn default_buffer_duration() -> (millis: u64)
    ensures
        millis == 120_000,
{
    120_000
}

/// Milliseconds of audio that a fingerprint has to cover to be compared.
pub fn default_comparison_duration() -> (millis: u64)
    ensures
        millis == 5_000,
{
    5_000
}

/// Milliseconds of audio that a window has to hold before its stream is
/// compared.
pub fn default_min_buffer_duration() -> (millis: u64)
    ensures
        millis == 30_000,
{
    30_000
}

/// The similarity that streams of one channel have to reach: 85 %.
pub fn default_match_threshold() -> (threshold: Percentage)
    ensures
        threshold.hundredths == 8500,
{
    Percentage::from_hundredths(8500)
}

/// The similarity that streams of two channels may reach: 50 %.
pub fn default_divergence_threshold() -> (threshold: Percentage)
    ensures
        threshold.hundredths == 5000,
{
    Percentage::from_hundredths(5000)
}

/// Port of the status surface.
pub fn default_web_port() -> (port: u16)
    ensures
        port == 3000,
{
    3000
}

/// Seconds that a new failure has to last before it is reported.
pub fn default_grace_period() -> (seconds: i64)
    ensures
        seconds == 60,
{
    60
}

/// Seconds between two measurements of the loudness of every stream.
pub fn default_volume_detection_interval() -> (seconds: u64)
    ensures
        seconds == 10,
{
    10
}

/// How a stream is received.
#[derive(Clone, Copy, Debug, PartialEq, Eq, Structural)]
pub enum StreamType {
    /// From a URL, by a decoder of its own.
    Web,
    /// Over the air, as a program of an HD-Radio station.
    NRSC,
    /// Over the air, as analogue FM. Reserved: no such stream is run.
    FM,
}

/// One configured stream.
#[derive(Clone, Debug)]
pub struct Stream {
    pub name: String,
    pub kind: StreamType,
    /// The host of a web stream, or the name of the receiver of an
    /// HD-Radio stream.
    pub host: String,
    /// The path of a web stream, or the program of an HD-Radio stream.
    pub path: String,
}

/// One configured channel.
#[derive(Clone, Debug)]
pub struct Channel {
    pub name: String,
    pub streams: Vec<Stream>,
}

/// How the tuner server of a receiver is started.
#[derive(Clone, Debug)]
pub struct SDRSpawnArgs {
    pub frequency: u32,
    pub size: u32,
    /// The gain, as the text that the server is given.
    pub gain: String,
}

/// One configured receiver.
#[derive(Clone, Debug)]
pub struct SDR {
    pub name: String,
    pub host: String,
    pub port: u16,
    /// Set where the tuner server is to be started here.
    pub spawn: Option<SDRSpawnArgs>,
}

/// The settings of a deployment.
#[derive(Clone, Debug)]
pub struct Config {
    pub slack_channel: String,
    pub slack_auth: String,
    /// Whether a channel of synthetic silence is run for reference.
    pub silence: bool,
    pub sdrs: Option<Vec<SDR>>,
    pub channels: Vec<Channel>,
    pub buffer_duration: u64,
    pub comparison_duration: u64,
    pub min_buffer_duration: u64,
    pub match_threshold: Percentage,
    pub divergence_threshold: Percentage,
    pub web_port: u16,
    pub grace_period_seconds: i64,
    pub volume_detection_interval: u64,
}

/// What is wrong with a configured stream.
#[derive(Clone, Copy, Debug, PartialEq, Eq, Structural)]
pub enum ConfigErrorKind {
    /// The stream is of a type that is not run.
    UnsupportedStreamType,
    /// The stream needs a receiver, and none is configured.
    NoReceivers,
    /// The stream names a receiver that is not configured.
    UnknownReceiver,
    /// The program of the stream is not one of 0, 1, 2 and 3.
    InvalidProgram,
}

/// The first stream of the configuration that cannot be run, by the
/// position of its channel and its position in the channel, and what is
/// wrong with it.
#[derive(Clone, Copy, Debug, PartialEq, Eq, Structural)]
pub struct ConfigError {
    pub kind: ConfigErrorKind,
    pub channel: usize,
    pub stream: usize,
}

/// Where the audio of a stream comes from.
#[derive(Clone, Debug)]
pub enum SourceSpec {
    /// A decoder of its own reads the URL.
    Web { url: String },
    /// A decoder on the feed of the receiver `sdr` decodes the program.
    HdProgram { sdr: String, program: String },
    /// Synthetic silence.
    Silence,
}

/// One stream to run.
#[derive(Clone, Debug)]
pub struct StreamPlan {
    /// The name of the stream: `<channel>-<stream>`.
    pub stream_name: String,
    pub channel: String,
    pub source: SourceSpec,
}

/// Where the audio of a stream comes from, as plain values.
pub enum SourceModel {
    Web { url: Seq<char> },
    HdProgram { sdr: Seq<char>, program: Seq<char> },
    Silence,
}

/// One stream to run, as plain values.
pub struct StreamPlanModel {
    pub stream_name: Seq<char>,
    pub channel: Seq<char>,
    pub source: SourceModel,
}

impl View for SourceSpec {
    type V = SourceModel;

    open spec fn view(&self) -> SourceModel {
        match self {
            SourceSpec::Web { url } => SourceModel::Web { url: url@ },
            SourceSpec::HdProgram { sdr, program } => SourceModel::HdProgram {
                sdr: sdr@,
                program: program@,
            },
            SourceSpec::Silence => SourceModel::Silence,
        }
    }
}

impl View for StreamPlan {
    type V = StreamPlanModel;

    open spec fn view(&self) -> StreamPlanModel {
        StreamPlanModel {
            stream_name: self.stream_name@,
            channel: self.channel@,
            source: self.source@,
        }
    }
}

/// The plans of `v` as plain values.
pub open spec fn plan_models(v: Seq<StreamPlan>) -> Seq<StreamPlanModel> {
    Seq::new(v.len(), |i: int| v[i]@)
}

/// The name of the stream `stream` of the channel `channel`.
pub open spec fn stream_id(channel: Seq<char>, stream: Seq<char>) -> Seq<char> {
    channel + "-"@ + stream
}

/// Whether `receivers` holds one named `name`.
pub open spec fn has_receiver(receivers: Seq<SDR>, name: Seq<char>) -> bool {
    exists|i: int| 0 <= i < receivers.len() && receivers[i].name@ == name
}

/// Whether `program` names one of the four programs of a station.
pub open spec fn is_program(program: Seq<char>) -> bool {
    program == "0"@ || program == "1"@ || program == "2"@ || program == "3"@
}

/// The plan for one configured stream, or what is wrong with it. A web
/// stream reads `<host>/<path>`. An HD-Radio stream needs its receiver to
/// be configured and its program to be one of the four. An FM stream is
/// refused.
pub open spec fn stream_plan(channel: Seq<char>, stream: Stream, receivers: Option<Seq<SDR>>)
    -> Result<StreamPlanModel, ConfigErrorKind> {
    match stream.kind {
        StreamType::FM => Err(ConfigErrorKind::UnsupportedStreamType),
        StreamType::NRSC => match receivers {
            None => Err(ConfigErrorKind::NoReceivers),
            Some(all) => if !has_receiver(all, stream.host@) {
                Err(ConfigErrorKind::UnknownReceiver)
            } else if !is_program(stream.path@) {
                Err(ConfigErrorKind::InvalidProgram)
            } else {
                Ok(
                    StreamPlanModel {
                        stream_name: stream_id(channel, stream.name@),
                        channel,
                        source: SourceModel::HdProgram { sdr: stream.host@, program: stream.path@ },
                    },
                )
            },
        },
        StreamType::Web => Ok(
            StreamPlanModel {
                stream_name: stream_id(channel, stream.name@),
                channel,
                source: SourceModel::Web { url: stream.host@ + "/"@ + stream.path@ },
            },
        ),
    }
}

/// `plans` with the plans for the first `n` streams of the channel at
/// `index` after them, or the first of those streams that cannot be run.
pub open spec fn with_channel_plans(
    plans: Seq<StreamPlanModel>,
    channel: Channel,
    index: int,
    n: int,
    receivers: Option<Seq<SDR>>,
) -> Result<Seq<StreamPlanModel>, ConfigError>
    decreases n,
{
    if n <= 0 {
        Ok(plans)
    } else {
        match with_channel_plans(plans, channel, index, n - 1, receivers) {
            Err(e) => Err(e),
            Ok(before) => match stream_plan(channel.name@, channel.streams@[n - 1], receivers) {
                Ok(plan) => Ok(before.push(plan)),
                Err(kind) => Err(
                    ConfigError { kind, channel: index as usize, stream: (n - 1) as usize },
                ),
            },
        }
    }
}

/// `plans` with the plans for the streams of the first `n` of `channels`
/// after them, channel by channel, or the first stream that cannot be
/// run.
pub open spec fn with_plans(
    plans: Seq<StreamPlanModel>,
    channels: Seq<Channel>,
    n: int,
    receivers: Option<Seq<SDR>>,
) -> Result<Seq<StreamPlanModel>, ConfigError>
    decreases n,
{
    if n <= 0 {
        Ok(plans)
    } else {
        match with_plans(plans, channels, n - 1, receivers) {
            Err(e) => Err(e),
            Ok(before) => with_channel_plans(
                before,
                channels[n - 1],
                n - 1,
                channels[n - 1].streams@.len() as int,
                receivers,
            ),
        }
    }
}

/// The plan for the stream of synthetic silence, which is the only
/// stream of the channel `silence`.
pub open spec fn silence_plan() -> StreamPlanModel {
    StreamPlanModel { stream_name: "silence"@, channel: "silence"@, source: SourceModel::Silence }
}

/// The receivers of `config` as a sequence.
pub open spec fn receivers_of(config: Config) -> Option<Seq<SDR>> {
    match config.sdrs {
        Some(all) => Some(all@),
        None => None,
    }
}

/// The streams to run for `config`: the synthetic silence first, where
/// it is asked for, then the configured streams in their order; or the
/// first configured stream that cannot be run.
pub open spec fn planned_streams(config: Config) -> Result<Seq<StreamPlanModel>, ConfigError> {
    with_plans(
        if config.silence {
            seq![silence_plan()]
        } else {
            Seq::<StreamPlanModel>::empty()
        },
        config.channels@,
        config.channels@.len() as int,
        receivers_of(config),
    )
}

fn find_receiver(receivers: &Vec<SDR>, name: &str) -> (found: bool)
    ensures
        found == has_receiver(receivers@, name@),
{
    let mut i: usize = 0;
    while i < receivers.len()
        invariant
            i <= receivers.len(),
            forall|k: int| 0 <= k < i ==> receivers@[k].name@ != name@,
        decreases receivers.len() - i,
    {
        if str_eq(receivers[i].name.as_str(), name) {
            return true;
        }
        i += 1;
    }
    false
}

fn check_program(program: &str) -> (valid: bool)
    ensures
        valid == is_program(program@),
{
    str_eq(program, "0") || str_eq(program, "1") || str_eq(program, "2") || str_eq(program, "3")
}

/// Makes the plan for one configured stream of the channel `channel`.
pub fn plan_stream(channel: &str, stream: &Stream, receivers: &Option<Vec<SDR>>) -> (r: Result<
    StreamPlan,
    ConfigErrorKind,
>)
    ensures
        match r {
            Ok(plan) => stream_plan(
                channel@,
                *stream,
                match receivers {
                    Some(all) => Some(all@),
                    None => None,
                },
            ) == Ok::<StreamPlanModel, ConfigErrorKind>(plan@),
            Err(kind) => stream_plan(
                channel@,
                *stream,
                match receivers {
                    Some(all) => Some(all@),
                    None => None,
                },
            ) == Err::<StreamPlanModel, ConfigErrorKind>(kind),
        },
{
    match stream.kind {
        StreamType::FM => Err(ConfigErrorKind::UnsupportedStreamType),
        StreamType::NRSC => {
            match receivers {
                None => Err(ConfigErrorKind::NoReceivers),
                Some(all) => {
                    if !find_receiver(all, stream.host.as_str()) {
                        Err(ConfigErrorKind::UnknownReceiver)
                    } else if !check_program(stream.path.as_str()) {
                        Err(ConfigErrorKind::InvalidProgram)
                    } else {
                        let mut stream_name = String::from_str(channel);
                        stream_name.append("-");
                        stream_name.append(stream.name.as_str());
                        Ok(
                            StreamPlan {
                                stream_name,
                                channel: String::from_str(channel),
                                source: SourceSpec::HdProgram {
                                    sdr: stream.host.clone(),
                                    program: stream.path.clone(),
                                },
                            },
                        )
                    }
                },
            }
        },
        StreamType::Web => {
            let mut stream_name = String::from_str(channel);
            stream_name.append("-");
            stream_name.append(stream.name.as_str());
            let mut url = stream.host.clone();
            url.append("/");
            url.append(stream.path.as_str());
            Ok(
                StreamPlan {
                    stream_name,
                    channel: String::from_str(channel),
                    source: SourceSpec::Web { url },
                },
            )
        },
    }
}

/// Checks the configured streams and lists the streams to run.
pub fn plan_streams(config: &Config) -> (r: Result<Vec<StreamPlan>, ConfigError>)
    ensures
        match r {
            Ok(plans) => planned_streams(*config) == Ok::<Seq<StreamPlanModel>, ConfigError>(
                plan_models(plans@),
            ),
            Err(e) => planned_streams(*config) == Err::<Seq<StreamPlanModel>, ConfigError>(e),
        },
{
    let ghost receivers = receivers_of(*config);
    let mut plans: Vec<StreamPlan> = Vec::new();
    if config.silence {
        plans.push(
            StreamPlan {
                stream_name: String::from_str("silence"),
                channel: String::from_str("silence"),
                source: SourceSpec::Silence,
            },
        );
    }
    let ghost start = plan_models(plans@);
    assert(start =~= (if config.silence {
        seq![silence_plan()]
    } else {
        Seq::<StreamPlanModel>::empty()
    }));
    let mut c: usize = 0;
    while c < config.channels.len()
        invariant
            c <= config.channels.len(),
            receivers == receivers_of(*config),
            start == (if config.silence {
                seq![silence_plan()]
            } else {
                Seq::<StreamPlanModel>::empty()
            }),
            with_plans(start, config.channels@, c as int, receivers) == Ok::<
                Seq<StreamPlanModel>,
                ConfigError,
            >(plan_models(plans@)),
        decreases config.channels.len() - c,
    {
        let channel = &config.channels[c];
        let ghost before = plan_models(plans@);
        let mut s: usize = 0;
        while s < channel.streams.len()
            invariant
                s <= channel.streams.len(),
                c < config.channels.len(),
                *channel == config.channels@[c as int],
                receivers == receivers_of(*config),
                start == (if config.silence {
                    seq![silence_plan()]
                } else {
                    Seq::<StreamPlanModel>::empty()
                }),
                with_plans(start, config.channels@, c as int, receivers) == Ok::<
                    Seq<StreamPlanModel>,
                    ConfigError,
                >(before),
                with_channel_plans(before, *channel, c as int, s as int, receivers) == Ok::<
                    Seq<StreamPlanModel>,
                    ConfigError,
                >(plan_models(plans@)),
            decreases channel.streams.len() - s,
        {
            let ghost so_far = plans@;
            match plan_stream(channel.name.as_str(), &channel.streams[s], &config.sdrs) {
                Ok(plan) => {
                    plans.push(plan);
                    assert(plan_models(plans@) =~= plan_models(so_far).push(plan@));
                },
                Err(kind) => {
                    let e = ConfigError { kind, channel: c, stream: s };
                    proof {
                        let n_streams = channel.streams@.len() as int;
                        assert(with_channel_plans(
                            before,
                            *channel,
                            c as int,
                            s as int + 1,
                            receivers,
                        ) == Err::<Seq<StreamPlanModel>, ConfigError>(e));
                        lemma_channel_error_stays(
                            before,
                            *channel,
                            c as int,
                            s as int + 1,
                            n_streams,
                            receivers,
                        );
                        assert(with_plans(start, config.channels@, c as int + 1, receivers)
                            == Err::<Seq<StreamPlanModel>, ConfigError>(e));
                        lemma_error_stays(
                            start,
                            config.channels@,
                            c as int + 1,
                            config.channels@.len() as int,
                            receivers,
                        );
                    }
                    return Err(e);
                },
            }
            s += 1;
        }
        c += 1;
    }
    Ok(plans)
}

proof fn lemma_channel_error_stays(
    plans: Seq<StreamPlanModel>,
    channel: Channel,
    index: int,
    n: int,
    m: int,
    receivers: Option<Seq<SDR>>,
)
    requires
        0 <= n <= m,
        with_channel_plans(plans, channel, index, n, receivers) is Err,
    ensures
        with_channel_plans(plans, channel, index, m, receivers) == with_channel_plans(
            plans,
            channel,
            index,
            n,
            receivers,
        ),
    decreases m - n,
{
    if n < m {
        lemma_channel_error_stays(plans, channel, index, n, m - 1, receivers);
    }
}

proof fn lemma_error_stays(
    plans: Seq<StreamPlanModel>,
    channels: Seq<Channel>,
    n: int,
    m: int,
    receivers: Option<Seq<SDR>>,
)
    requires
        0 <= n <= m,
        with_plans(plans, channels, n, receivers) is Err,
    ensures
        with_plans(plans, channels, m, receivers) == with_plans(plans, channels, n, receivers),
    decreases m - n,
{
    if n < m {
        lemma_error_stays(plans, channels, n, m - 1, receivers);
    }
}

/// The arguments that the decoder of a source is started with, which
/// make it write 44.1 kHz stereo samples of 16 bits to its output: for a
/// web stream it reads the URL at the speed of the audio, for an
/// HD-Radio stream it takes the decoded program from its input, and for
/// the silence it makes up a silent source.
pub open spec fn decoder_arguments(source: SourceModel) -> Seq<Seq<char>> {
    match source {
        SourceModel::Web { url } => seq![
            "-loglevel"@,
            "error"@,
            "-re"@,
            "-i"@,
            url,
            "-ar"@,
            "44100"@,
            "-ac"@,
            "2"@,
            "-f"@,
            "s16le"@,
            "-"@,
        ],
        SourceModel::HdProgram { sdr, program } => seq![
            "-loglevel"@,
            "error"@,
            "-f"@,
            "s16le"@,
            "-ar"@,
            "44100"@,
            "-ac"@,
            "2"@,
            "-i"@,
            "-"@,
            "-ar"@,
            "44100"@,
            "-ac"@,
            "2"@,
            "-f"@,
            "s16le"@,
            "-"@,
        ],
        SourceModel::Silence => seq![
            "-loglevel"@,
            "error"@,
            "-re"@,
            "-f"@,
            "lavfi"@,
            "-i"@,
            "anullsrc=r=44100:cl=stereo"@,
            "-f"@,
            "s16le"@,
            "-"@,
        ],
    }
}

fn push_text(list: &mut Vec<String>, text: &str)
    ensures
        texts(final(list)@) == texts(old(list)@).push(text@),
{
    list.push(String::from_str(text));
    assert(texts(list@) =~= texts(old(list)@).push(text@));
}

/// The name of the decoder program.
pub fn decoder_program() -> (program: String)
    ensures
        program@ == "ffmpeg"@,
{
    String::from_str("ffmpeg")
}

/// Builds the arguments that the decoder of `source` is started with.
pub fn decoder_command(source: &SourceSpec) -> (arguments: Vec<String>)
    ensures
        texts(arguments@) == decoder_arguments(source@),
{
    let mut list: Vec<String> = Vec::new();
    assert(texts(list@) =~= Seq::<Seq<char>>::empty());
    push_text(&mut list, "-loglevel");
    push_text(&mut list, "error");
    match source {
        SourceSpec::Web { url } => {
            push_text(&mut list, "-re");
            push_text(&mut list, "-i");
            push_text(&mut list, url.as_str());
            push_text(&mut list, "-ar");
            push_text(&mut list, "44100");
            push_text(&mut list, "-ac");
            push_text(&mut list, "2");
            push_text(&mut list, "-f");
            push_text(&mut list, "s16le");
            push_text(&mut list, "-");
            assert(texts(list@) =~= decoder_arguments(source@));
        },
        SourceSpec::HdProgram { sdr: _, program: _ } => {
            push_text(&mut list, "-f");
            push_text(&mut list, "s16le");
            push_text(&mut list, "-ar");
            push_text(&mut list, "44100");
            push_text(&mut list, "-ac");
            push_text(&mut list, "2");
            push_text(&mut list, "-i");
            push_text(&mut list, "-");
            push_text(&mut list, "-ar");
            push_text(&mut list, "44100");
            push_text(&mut list, "-ac");
            push_text(&mut list, "2");
            push_text(&mut list, "-f");
            push_text(&mut list, "s16le");
            push_text(&mut list, "-");
            assert(texts(list@) =~= decoder_arguments(source@));
        },
        SourceSpec::Silence => {
            push_text(&mut list, "-re");
            push_text(&mut list, "-f");
            push_text(&mut list, "lavfi");
            push_text(&mut list, "-i");
            push_text(&mut list, "anullsrc=r=44100:cl=stereo");
            push_text(&mut list, "-f");
            push_text(&mut list, "s16le");
            push_text(&mut list, "-");
            assert(texts(list@) =~= decoder_arguments(source@));
        },
    }
    list
}

} // verus!
