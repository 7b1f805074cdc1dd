use vstd::prelude::*;

use vstd::string::*;

use crate::text::{push_time_field, time_field_text};
use crate::time::{frames_to_micros, SampleDuration, Timestamp};

verus! {

/// How a receiver's playback relates to its stream.
#[derive(Debug, Clone, Copy, PartialEq, Eq)]
pub enum StreamStatus {
    /// Looking for the point in the stream to start playing from.
    Seek,
    /// Playing in sync with the stream.
    Sync,
    /// Playing, and adjusting the playback rate to get back in sync.
    Slew,
    /// Ran out of audio to play.
    Miss,
}

/// A terminal colour.
#[derive(Debug, Clone, Copy, PartialEq, Eq)]
pub enum TermColor {
    Black,
    Blue,
    Green,
    Red,
    Yellow,
    White,
    Rgb(u8, u8, u8),
}

/// How a piece of terminal text is drawn.
#[derive(Debug, Clone, Copy, PartialEq, Eq)]
pub struct TextStyle {
    pub fg: Option<TermColor>,
    pub bg: Option<TermColor>,
    pub bold: bool,
    pub intense: bool,
    pub dimmed: bool,
}

impl TextStyle {
    /// Text drawn in the terminal's default way.
    pub open spec fn plain_spec() -> TextStyle {
        TextStyle { fg: None, bg: None, bold: false, intense: false, dimmed: false }
    }

    /// Text drawn in the terminal's default way.
    pub fn plain() -> (r: TextStyle)
        ensures
            r == TextStyle::plain_spec(),
    {
        TextStyle { fg: None, bg: None, bold: false, intense: false, dimmed: false }
    }

    /// Bold, intense black text on `bg`: how a live stream status is shown.
    pub open spec fn badge(bg: TermColor) -> TextStyle {
        TextStyle {
            fg: Some(TermColor::Rgb(0, 0, 0)),
            bg: Some(bg),
            bold: true,
            intense: true,
            dimmed: false,
        }
    }
}

/// How the status `s` is shown: dimmed while seeking, black on green when
/// in sync, on yellow when slewing, and on red after running dry.
pub open spec fn status_style(s: StreamStatus) -> TextStyle {
    match s {
        StreamStatus::Seek => TextStyle { dimmed: true, ..TextStyle::plain_spec() },
        StreamStatus::Sync => TextStyle::badge(TermColor::Green),
        StreamStatus::Slew => TextStyle::badge(TermColor::Yellow),
        StreamStatus::Miss => TextStyle::badge(TermColor::Red),
    }
}

/// The four-letter label of the status `s`.
pub open spec fn status_name(s: StreamStatus) -> Seq<char> {
    match s {
        StreamStatus::Seek => "SEEK"@,
        StreamStatus::Sync => "SYNC"@,
        StreamStatus::Slew => "SLEW"@,
        StreamStatus::Miss => "MISS"@,
    }
}

/// The stream part of the status line: the label with two spaces on
/// either side.
pub open spec fn label_text(s: StreamStatus) -> Seq<char> {
    "  "@ + status_name(s) + "  "@
}

impl StreamStatus {
    /// How this status is shown.
    pub fn color(&self) -> (r: TextStyle)
        ensures
            r == status_style(*self),
    {
        let mut spec = TextStyle::plain();
        match self {
            StreamStatus::Seek => {
                spec.dimmed = true;
            },
            StreamStatus::Sync => {
                spec.bg = Some(TermColor::Green);
                spec.fg = Some(TermColor::Rgb(0, 0, 0));
                spec.bold = true;
                spec.intense = true;
            },
            StreamStatus::Slew => {
                spec.bg = Some(TermColor::Yellow);
                spec.fg = Some(TermColor::Rgb(0, 0, 0));
                spec.bold = true;
                spec.intense = true;
            },
            StreamStatus::Miss => {
                spec.bg = Some(TermColor::Red);
                spec.fg = Some(TermColor::Rgb(0, 0, 0));
                spec.bold = true;
                spec.intense = true;
            },
        }
        spec
    }

    /// The four-letter label of this status.
    pub fn text(&self) -> (r: &'static str)
        ensures
            r@ == status_name(*self),
    {
        match self {
            StreamStatus::Seek => "SEEK",
            StreamStatus::Sync => "SYNC",
            StreamStatus::Slew => "SLEW",
            StreamStatus::Miss => "MISS",
        }
    }
}

/// The two timestamps an audio latency is measured between: when the
/// output asked for audio, and when that audio was due in the stream.
#[derive(Debug, Clone, Copy, PartialEq, Eq)]
pub struct LatencySample {
    pub request_pts: Timestamp,
    pub packet_pts: Timestamp,
}

/// What a receiver reports about its stream. Each measurement is `None`
/// until it has been recorded.
#[derive(Debug, Clone, Copy, PartialEq, Eq)]
pub struct Status {
    pub stream: StreamStatus,
    pub audio_latency: Option<LatencySample>,
    pub buffer_length: Option<SampleDuration>,
    pub network_latency_micros: Option<u64>,
    pub predict_micros: Option<i64>,
    pub clock_delta_micros: Option<i64>,
    /// When the status line was last drawn, in microseconds of a monotonic
    /// clock.
    pub last_render: Option<u64>,
}

/// One drawing of the status line: the stream label, shown in `style`,
/// then the measurements, shown in the terminal's default way.
#[derive(Debug, Clone, PartialEq, Eq)]
pub struct StatusLine {
    pub style: TextStyle,
    pub label: String,
    pub fields: String,
}

/// The least time between two drawings of the status line, in
/// microseconds.
pub const RENDER_INTERVAL_MICROS: u64 = 50_000;

/// Whether the status line last drawn at `last` is drawn again at `now`:
/// always the first time, and afterwards once `RENDER_INTERVAL_MICROS`
/// have passed.
pub open spec fn render_decision(last: Option<u64>, now: u64) -> bool {
    match last {
        None => true,
        Some(t) => t <= now && now - t >= RENDER_INTERVAL_MICROS,
    }
}

/// The times at which `Status::render` draws the status line when it is
/// called at each of `nows` in turn, the line having last been drawn at
/// `last`.
pub open spec fn drawn_times(last: Option<u64>, nows: Seq<u64>) -> Seq<u64>
    decreases nows.len(),
{
    if nows.len() == 0 {
        Seq::empty()
    } else if render_decision(last, nows[0]) {
        seq![nows[0]] + drawn_times(Some(nows[0]), nows.drop_first())
    } else {
        drawn_times(last, nows.drop_first())
    }
}

/// Over any run of calls, the status line is drawn at most once every
/// `RENDER_INTERVAL_MICROS`: each drawing comes that long or longer after
/// the one before it, the first after any earlier drawing at `last`.
pub proof fn lemma_render_spacing(last: Option<u64>, nows: Seq<u64>)
    ensures
        forall|i: int, j: int|
            0 <= i && j == i + 1 && j < drawn_times(last, nows).len() ==> #[trigger] drawn_times(
                last,
                nows,
            )[i] + RENDER_INTERVAL_MICROS <= #[trigger] drawn_times(last, nows)[j],
        last matches Some(t) ==> forall|i: int|
            0 <= i < drawn_times(last, nows).len() ==> t + RENDER_INTERVAL_MICROS
                <= #[trigger] drawn_times(last, nows)[i],
    decreases nows.len(),
{
    if nows.len() > 0 {
        let rest = nows.drop_first();
        if render_decision(last, nows[0]) {
            lemma_render_spacing(Some(nows[0]), rest);
            let d = drawn_times(last, nows);
            let tail = drawn_times(Some(nows[0]), rest);
            assert(d == seq![nows[0]] + tail);
            assert(d[0] == nows[0]);
            assert forall|i: int, j: int| 0 <= i && j == i + 1 && j < d.len() implies #[trigger] d[i]
                + RENDER_INTERVAL_MICROS <= #[trigger] d[j] by {
                assert(d[j] == tail[j - 1]);
                if i > 0 {
                    assert(d[i] == tail[i - 1]);
                }
            }
            if last is Some {
                assert forall|i: int| 0 <= i < d.len() implies last.unwrap() + RENDER_INTERVAL_MICROS
                    <= #[trigger] d[i] by {
                    if i > 0 {
                        assert(d[i] == tail[i - 1]);
                        assert(nows[0] + RENDER_INTERVAL_MICROS <= tail[i - 1]);
                    }
                }
            }
        } else {
            lemma_render_spacing(last, rest);
            assert(drawn_times(last, nows) == drawn_times(last, rest));
        }
    }
}

impl Status {
    /// A status that is seeking and has recorded nothing.
    pub open spec fn new_spec() -> Status {
        Status {
            stream: StreamStatus::Seek,
            audio_latency: None,
            buffer_length: None,
            network_latency_micros: None,
            predict_micros: None,
            clock_delta_micros: None,
            last_render: None,
        }
    }

    /// A status that is seeking and has recorded nothing.
    pub fn new() -> (r: Self)
        ensures
            r == Status::new_spec(),
    {
        Status {
            stream: StreamStatus::Seek,
            audio_latency: None,
            buffer_length: None,
            network_latency_micros: None,
            predict_micros: None,
            clock_delta_micros: None,
            last_render: None,
        }
    }

    /// Sets the stream status.
    pub fn set_stream(&mut self, status: StreamStatus)
        ensures
            *final(self) == (Status { stream: status, ..*old(self) }),
    {
        self.stream = status;
    }

    /// This status once the stream is forgotten.
    pub open spec fn cleared(self) -> Status {
        Status {
            stream: StreamStatus::Seek,
            audio_latency: None,
            buffer_length: None,
            network_latency_micros: None,
            clock_delta_micros: None,
            ..self
        }
    }

    /// Forgets the stream: back to seeking, with the stream's measurements
    /// cleared. The last prediction difference is kept.
    pub fn clear_stream(&mut self)
        ensures
            *final(self) == old(self).cleared(),
    {
        self.stream = StreamStatus::Seek;
        self.audio_latency = None;
        self.buffer_length = None;
        self.network_latency_micros = None;
        self.clock_delta_micros = None;
    }

    /// Records the audio latency between the output's request for audio at
    /// `request_pts` and the stream audio, due at `packet_pts`, that fills it.
    pub fn record_audio_latency(&mut self, request_pts: Timestamp, packet_pts: Timestamp)
        ensures
            *final(self) == (Status {
                audio_latency: Some(LatencySample { request_pts, packet_pts }),
                ..*old(self)
            }),
    {
        self.audio_latency = Some(LatencySample { request_pts, packet_pts });
    }

    /// Records how much audio is buffered.
    pub fn record_buffer_length(&mut self, length: SampleDuration)
        ensures
            *final(self) == (Status { buffer_length: Some(length), ..*old(self) }),
    {
        self.buffer_length = Some(length);
    }

    /// Records the one-way network latency, in microseconds.
    pub fn record_network_latency(&mut self, latency_micros: u64)
        ensures
            *final(self) == (Status { network_latency_micros: Some(latency_micros), ..*old(self) }),
    {
        self.network_latency_micros = Some(latency_micros);
    }

    /// Records how far the predicted data timestamp of a packet lay from
    /// the one it carried, in microseconds.
    pub fn record_dts_prediction_difference(&mut self, diff_usec: i64)
        ensures
            *final(self) == (Status { predict_micros: Some(diff_usec), ..*old(self) }),
    {
        self.predict_micros = Some(diff_usec);
    }

    /// Records the difference between the receiver's and the stream's
    /// clocks, in microseconds.
    pub fn record_clock_delta(&mut self, delta_micros: i64)
        ensures
            *final(self) == (Status { clock_delta_micros: Some(delta_micros), ..*old(self) }),
    {
        self.clock_delta_micros = Some(delta_micros);
    }

    /// Whether the status line is due to be drawn at `now`; when it is,
    /// `now` is recorded as the time of drawing.
    fn render_due(&mut self, now: u64) -> (r: bool)
        ensures
            r == render_decision(old(self).last_render, now),
            *final(self) == (if r {
                Status { last_render: Some(now), ..*old(self) }
            } else {
                *old(self)
            }),
    {
        match self.last_render {
            Some(t) => {
                if !(t <= now && now - t >= RENDER_INTERVAL_MICROS) {
                    return false;
                }
            },
            None => {},
        }
        self.last_render = Some(now);
        true
    }

    /// Draws the status line at `now` (microseconds of a monotonic clock),
    /// unless it was drawn less than `RENDER_INTERVAL_MICROS` before: then
    /// nothing is drawn and the status is left as it was. A drawing is
    /// recorded as the last one, and gives the stream label in the style of
    /// the stream status and the measurements.
    pub fn render(&mut self, now: u64) -> (r: Option<StatusLine>)
        ensures
            r is Some <==> render_decision(old(self).last_render, now),
            *final(self) == (if r is Some {
                Status { last_render: Some(now), ..*old(self) }
            } else {
                *old(self)
            }),
            r matches Some(line) ==> {
                &&& line.style == status_style(old(self).stream)
                &&& line.label@ == label_text(old(self).stream)
                &&& line.fields@ == old(self).fields_text()
            },
    {
        if !self.render_due(now) {
            return None;
        }
        let mut label = String::new();
        proof {
            reveal_strlit("  ");
        }
        label.append("  ");
        label.append(self.stream.text());
        label.append("  ");
        let fields = self.render_fields();
        Some(StatusLine { style: self.stream.color(), label, fields })
    }

    /// The audio latency in microseconds: how much later the stream audio
    /// was due than the output asked for it.
    pub open spec fn audio_latency_micros(self) -> Option<int> {
        match self.audio_latency {
            Some(l) => Some(
                frames_to_micros(l.packet_pts.0 as int) - frames_to_micros(l.request_pts.0 as int),
            ),
            None => None,
        }
    }

    /// The buffered audio in microseconds.
    pub open spec fn buffer_micros(self) -> Option<int> {
        match self.buffer_length {
            Some(b) => Some(frames_to_micros(b.0 as int)),
            None => None,
        }
    }

    /// The measurements after the stream label of the status line, each
    /// in milliseconds, then a space.
    pub open spec fn fields_text(self) -> Seq<char> {
        time_field_text("Audio"@, self.audio_latency_micros()) + time_field_text(
            "Buffer"@,
            self.buffer_micros(),
        ) + time_field_text(
            "Network"@,
            match self.network_latency_micros {
                Some(m) => Some(m as int),
                None => None,
            },
        ) + time_field_text(
            "Predict"@,
            match self.predict_micros {
                Some(m) => Some(m as int),
                None => None,
            },
        ) + time_field_text(
            "Clock"@,
            match self.clock_delta_micros {
                Some(m) => Some(m as int),
                None => None,
            },
        ) + seq![' ']
    }

    /// The measurements part of the status line: audio latency, buffer
    /// length, network latency, prediction difference and clock difference,
    /// each in milliseconds or blank when not yet measured.
    pub fn render_fields(&self) -> (r: String)
        ensures
            r@ == self.fields_text(),
    {
        let mut s = String::new();
        let audio: Option<i128> = match self.audio_latency {
            Some(l) => {
                let packet = (l.packet_pts.0 as u128 * 1_000_000) / 48000;
                let request = (l.request_pts.0 as u128 * 1_000_000) / 48000;
                Some(packet as i128 - request as i128)
            },
            None => None,
        };
        let buffer: Option<i128> = match self.buffer_length {
            Some(b) => Some(((b.0 as u128 * 1_000_000) / 48000) as i128),
            None => None,
        };
        let network: Option<i128> = match self.network_latency_micros {
            Some(m) => Some(m as i128),
            None => None,
        };
        let predict: Option<i128> = match self.predict_micros {
            Some(m) => Some(m as i128),
            None => None,
        };
        let clock: Option<i128> = match self.clock_delta_micros {
            Some(m) => Some(m as i128),
            None => None,
        };
        push_time_field(&mut s, "Audio", audio);
        push_time_field(&mut s, "Buffer", buffer);
        push_time_field(&mut s, "Network", network);
        push_time_field(&mut s, "Predict", predict);
        push_time_field(&mut s, "Clock", clock);
        proof {
            reveal_strlit(" ");
        }
        s.append(" ");
        assert(s@ =~= self.fields_text());
        s
    }
}

} // verus!
