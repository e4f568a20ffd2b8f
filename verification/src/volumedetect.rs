//! Silence detection: a rolling window of raw audio per stream, and the
//! reading of the loudness report that an analysis of the window gives.
use crate::names::texts;
use crate::text::{chars_of, find_from, first_occurrence, lemma_first_occurrence};
use crate::units::{clamp_usize, pcm_bytes_in, spec_pcm_bytes_in, Decibels};
use std::collections::VecDeque;
use vstd::prelude::*;

verus! {

/// Bytes that a window has to hold before its loudness is measured.
pub const MIN_ANALYSIS_BYTES: usize = 1024;

/// The level that stands for "not measured", in hundredths of a decibel:
/// -100 dB.
pub const UNMEASURED_LEVEL: i32 = -10000;

/// Mean and peak loudness of a stretch of audio.
#[derive(Clone, Copy, Debug, PartialEq, Eq, Structural)]
pub struct VolumeMetrics {
    pub mean_volume: Decibels,
    pub max_volume: Decibels,
}

impl VolumeMetrics {
    /// The metrics of audio that could not be measured: -100 dB twice.
    pub open spec fn unmeasured() -> VolumeMetrics {
        VolumeMetrics {
            mean_volume: Decibels { hundredths: UNMEASURED_LEVEL },
            max_volume: Decibels { hundredths: UNMEASURED_LEVEL },
        }
    }

    /// Whether the peak stays under `threshold`, which is what counts as
    /// silence.
    pub open spec fn spec_is_silent(self, threshold: Decibels) -> bool {
        self.max_volume.hundredths < threshold.hundredths
    }

    /// Whether the peak stays under `threshold`.
    pub fn is_silent(&self, threshold: Decibels) -> (silent: bool)
        ensures
            silent == self.spec_is_silent(threshold),
    {
        self.max_volume.hundredths < threshold.hundredths
    }
}

impl Default for VolumeMetrics {
    fn default() -> (metrics: VolumeMetrics)
        ensures
            metrics == VolumeMetrics::unmeasured(),
    {
        VolumeMetrics {
            mean_volume: Decibels { hundredths: UNMEASURED_LEVEL },
            max_volume: Decibels { hundredths: UNMEASURED_LEVEL },
        }
    }
}

/// The last `capacity` of `bytes`, or all of them where there are fewer.
pub open spec fn tail_bytes(bytes: Seq<u8>, capacity: nat) -> Seq<u8> {
    if bytes.len() > capacity {
        bytes.subrange(bytes.len() - capacity, bytes.len() as int)
    } else {
        bytes
    }
}

/// A rolling window over the raw audio of one stream.
#[derive(Debug)]
pub struct VolumeDetector {
    buffer: VecDeque<u8>,
    max_buffer_size: usize,
}

/// What a window holds, as plain values.
pub struct VolumeDetectorModel {
    pub window: Seq<u8>,
    pub capacity: nat,
}

impl View for VolumeDetector {
    type V = VolumeDetectorModel;

    closed spec fn view(&self) -> VolumeDetectorModel {
        VolumeDetectorModel { window: self.buffer@, capacity: self.max_buffer_size as nat }
    }
}

impl VolumeDetector {
    #[verifier::type_invariant]
    spec fn inv(&self) -> bool {
        self.buffer@.len() <= self.max_buffer_size
    }

    /// An empty window that holds the audio of `buffer_duration_millis`
    /// milliseconds.
    pub fn new(buffer_duration_millis: u64) -> (detector: VolumeDetector)
        ensures
            detector@.window.len() == 0,
            detector@.capacity == clamp_usize(spec_pcm_bytes_in(buffer_duration_millis as nat)),
    {
        VolumeDetector {
            buffer: VecDeque::new(),
            max_buffer_size: pcm_bytes_in(buffer_duration_millis),
        }
    }

    /// An empty window for at most `capacity` bytes.
    pub fn with_capacity(capacity: usize) -> (detector: VolumeDetector)
        ensures
            detector@.window.len() == 0,
            detector@.capacity == capacity,
    {
        VolumeDetector { buffer: VecDeque::new(), max_buffer_size: capacity }
    }

    /// The number of bytes held, which the capacity bounds.
    pub fn len(&self) -> (len: usize)
        ensures
            len == self@.window.len(),
            len <= self@.capacity,
    {
        proof {
            use_type_invariant(self);
        }
        self.buffer.len()
    }

    /// Takes one chunk of audio: it goes to the end of the window, and
    /// what the window then holds beyond its capacity leaves at the front.
    pub fn push_chunk(&mut self, data: &[u8])
        ensures
            final(self)@.capacity == old(self)@.capacity,
            final(self)@.window == tail_bytes(old(self)@.window + data@, old(self)@.capacity),
            final(self)@.window.len() <= final(self)@.capacity,
    {
        let mut buffer: VecDeque<u8> = VecDeque::new();
        core::mem::swap(&mut buffer, &mut self.buffer);
        let ghost full = old(self)@.window + data@;
        let mut i: usize = 0;
        while i < data.len()
            invariant
                i <= data.len(),
                buffer@ == old(self)@.window + data@.subrange(0, i as int),
            decreases data.len() - i,
        {
            buffer.push_back(data[i]);
            i += 1;
            assert(data@.subrange(0, i as int) == data@.subrange(0, i as int - 1).push(
                data@[i as int - 1],
            ));
        }
        assert(data@.subrange(0, data@.len() as int) == data@);
        let ghost mut dropped: int = 0;
        while buffer.len() > self.max_buffer_size
            invariant
                0 <= dropped <= full.len(),
                buffer@ == full.subrange(dropped, full.len() as int),
                dropped == 0 || buffer@.len() >= self.max_buffer_size,
            decreases buffer@.len(),
        {
            let _ = buffer.pop_front();
            proof {
                dropped = dropped + 1;
            }
        }
        assert(buffer@ == tail_bytes(full, self.max_buffer_size as nat)) by {
            if dropped == 0 {
                assert(full.subrange(0, full.len() as int) == full);
            }
        }
        self.buffer = buffer;
    }

    /// A copy of the window, oldest byte first.
    pub fn snapshot(&self) -> (bytes: Vec<u8>)
        ensures
            bytes@ == self@.window,
    {
        let mut bytes: Vec<u8> = Vec::new();
        let mut i: usize = 0;
        while i < self.buffer.len()
            invariant
                i <= self.buffer@.len(),
                bytes@ == self.buffer@.subrange(0, i as int),
            decreases self.buffer@.len() - i,
        {
            bytes.push(self.buffer[i]);
            i += 1;
            assert(self.buffer@.subrange(0, i as int) == self.buffer@.subrange(
                0,
                i as int - 1,
            ).push(self.buffer@[i as int - 1]));
        }
        assert(self.buffer@.subrange(0, self.buffer@.len() as int) == self.buffer@);
        bytes
    }

    /// The audio to measure: a copy of the window, or `None` while it
    /// holds fewer than 1024 bytes.
    pub fn analysis_input(&self) -> (input: Option<Vec<u8>>)
        ensures
            self@.window.len() < MIN_ANALYSIS_BYTES ==> input is None,
            self@.window.len() >= MIN_ANALYSIS_BYTES ==> input is Some && input->0@
                == self@.window,
    {
        if self.buffer.len() < MIN_ANALYSIS_BYTES {
            None
        } else {
            Some(self.snapshot())
        }
    }
}

/// Blank characters, which may stand around a level.
pub open spec fn is_blank(c: char) -> bool {
    c == ' ' || c == '\t' || c == '\n' || c == '\r'
}

/// The value of a decimal digit, or `None` for any other character.
pub open spec fn digit_value(c: char) -> Option<nat> {
    if c == '0' {
        Some(0)
    } else if c == '1' {
        Some(1)
    } else if c == '2' {
        Some(2)
    } else if c == '3' {
        Some(3)
    } else if c == '4' {
        Some(4)
    } else if c == '5' {
        Some(5)
    } else if c == '6' {
        Some(6)
    } else if c == '7' {
        Some(7)
    } else if c == '8' {
        Some(8)
    } else if c == '9' {
        Some(9)
    } else {
        None
    }
}

/// The first position from `from` up to `end` that holds no blank (`end`
/// where all are blank).
pub open spec fn skip_blanks(s: Seq<char>, from: int, end: int) -> int
    decreases end - from,
{
    if from >= end || from < 0 || end > s.len() || !is_blank(s[from]) {
        from
    } else {
        skip_blanks(s, from + 1, end)
    }
}

/// The end of the text from `start` up to `end` without the blanks at
/// its end.
pub open spec fn drop_blanks(s: Seq<char>, start: int, end: int) -> int
    decreases end - start,
{
    if end <= start || start < 0 || end > s.len() || !is_blank(s[end - 1]) {
        end
    } else {
        drop_blanks(s, start, end - 1)
    }
}

/// Whether the text from `start` up to `end` ends in the unit ` dB`.
pub open spec fn ends_in_unit(s: Seq<char>, start: int, end: int) -> bool {
    &&& 0 <= start
    &&& start + 3 <= end <= s.len()
    &&& s[end - 3] == ' '
    &&& s[end - 2] == 'd'
    &&& s[end - 1] == 'B'
}

/// The end of the text from `start` up to `end` without the units ` dB`
/// at its end, however many there are.
pub open spec fn drop_units(s: Seq<char>, start: int, end: int) -> int
    decreases end - start,
{
    if ends_in_unit(s, start, end) {
        drop_units(s, start, end - 3)
    } else {
        end
    }
}

/// The end of the run of digits that starts at `from` and stays below
/// `end`.
pub open spec fn digits_end(s: Seq<char>, from: int, end: int) -> int
    decreases end - from,
{
    if from >= end || from < 0 || end > s.len() || digit_value(s[from]) is None {
        from
    } else {
        digits_end(s, from + 1, end)
    }
}

/// The number that the digits from `start` up to `end` spell (zero for
/// none).
pub open spec fn digits_number(s: Seq<char>, start: int, end: int) -> nat
    decreases end - start,
{
    if end <= start || start < 0 || end > s.len() {
        0
    } else {
        digits_number(s, start, end - 1) * 10 + digit_value(s[end - 1]).unwrap_or(0)
    }
}

/// The hundredths that the digits after the point spell, from `start` up
/// to `end`: the first two count, the rest is cut off.
pub open spec fn fraction_hundredths(s: Seq<char>, start: int, end: int) -> nat {
    if end - start <= 0 {
        0
    } else if end - start == 1 {
        digit_value(s[start]).unwrap_or(0) * 10
    } else {
        digit_value(s[start]).unwrap_or(0) * 10 + digit_value(s[start + 1]).unwrap_or(0)
    }
}

/// The level that the text from `start` up to `end` spells, in
/// hundredths of a decibel: an optional sign, digits, and optionally a
/// point and more digits, with at least one digit in all and nothing
/// else. `None` for any other text, and for an amount of more than
/// `i32::MAX` hundredths.
pub open spec fn level_of(s: Seq<char>, start: int, end: int) -> Option<int> {
    if start < 0 || start >= end || end > s.len() {
        None
    } else {
        let negative = s[start] == '-';
        let first = if s[start] == '-' || s[start] == '+' {
            start + 1
        } else {
            start
        };
        let whole_end = digits_end(s, first, end);
        let has_point = whole_end < end && s[whole_end] == '.';
        let fraction_start = if has_point {
            whole_end + 1
        } else {
            whole_end
        };
        let fraction_end = digits_end(s, fraction_start, end);
        let digits = (whole_end - first) + (fraction_end - fraction_start);
        let amount = digits_number(s, first, whole_end) * 100 + fraction_hundredths(
            s,
            fraction_start,
            fraction_end,
        );
        if fraction_end != end || digits == 0 || amount > i32::MAX {
            None
        } else if negative {
            Some(-(amount as int))
        } else {
            Some(amount as int)
        }
    }
}

/// The level that follows `label` in `line`: the text between the first
/// `label` and the next one (or the end of the line), without the blanks
/// around it and without the units ` dB` at its end. `None` where the
/// line does not hold the label or the text is no level.
pub open spec fn labelled_level(line: Seq<char>, label: Seq<char>) -> Option<int> {
    match first_occurrence(line, label, 0) {
        None => None,
        Some(at) => {
            let start = at + label.len();
            let end = match first_occurrence(line, label, start) {
                Some(next) => next,
                None => line.len() as int,
            };
            let from = skip_blanks(line, start, end);
            let to = drop_units(line, from, drop_blanks(line, from, end));
            level_of(line, from, to)
        },
    }
}

fn is_blank_char(c: char) -> (blank: bool)
    ensures
        blank == is_blank(c),
{
    c == ' ' || c == '\t' || c == '\n' || c == '\r'
}

fn digit_of_char(c: char) -> (value: Option<u64>)
    ensures
        match value {
            Some(v) => digit_value(c) == Some(v as nat) && v < 10,
            None => digit_value(c) is None,
        },
{
    if c == '0' {
        Some(0)
    } else if c == '1' {
        Some(1)
    } else if c == '2' {
        Some(2)
    } else if c == '3' {
        Some(3)
    } else if c == '4' {
        Some(4)
    } else if c == '5' {
        Some(5)
    } else if c == '6' {
        Some(6)
    } else if c == '7' {
        Some(7)
    } else if c == '8' {
        Some(8)
    } else if c == '9' {
        Some(9)
    } else {
        None
    }
}

fn find_digits_end(s: &Vec<char>, from: usize, end: usize) -> (stop: usize)
    requires
        from <= end <= s.len(),
    ensures
        stop == digits_end(s@, from as int, end as int),
        from <= stop <= end,
        forall|k: int| from <= k < stop ==> digit_value(s@[k]) is Some,
{
    let mut i: usize = from;
    while i < end
        invariant
            from <= i <= end <= s.len(),
            digits_end(s@, from as int, end as int) == digits_end(s@, i as int, end as int),
            forall|k: int| from <= k < i ==> digit_value(s@[k]) is Some,
        decreases end - i,
    {
        if digit_of_char(s[i]).is_none() {
            return i;
        }
        i += 1;
    }
    i
}

proof fn lemma_digits_number_grows(s: Seq<char>, start: int, mid: int, end: int)
    requires
        0 <= start <= mid <= end <= s.len(),
    ensures
        digits_number(s, start, mid) <= digits_number(s, start, end),
    decreases end - mid,
{
    if mid < end {
        lemma_digits_number_grows(s, start, mid, end - 1);
    }
}

/// Reads the digits from `start` up to `end` as a number; `None` where it
/// is beyond `limit`.
fn read_digits(s: &Vec<char>, start: usize, end: usize, limit: u64) -> (value: Option<u64>)
    requires
        start <= end <= s.len(),
        limit <= 0xffff_ffff,
        forall|k: int| start <= k < end ==> digit_value(s@[k]) is Some,
    ensures
        match value {
            Some(v) => v == digits_number(s@, start as int, end as int) && v <= limit,
            None => digits_number(s@, start as int, end as int) > limit,
        },
{
    let mut value: u64 = 0;
    let mut i: usize = start;
    while i < end
        invariant
            start <= i <= end <= s.len(),
            limit <= 0xffff_ffff,
            value == digits_number(s@, start as int, i as int),
            value <= limit,
            forall|k: int| start <= k < end ==> digit_value(s@[k]) is Some,
        decreases end - i,
    {
        let d: u64 = match digit_of_char(s[i]) {
            Some(d) => d,
            None => 0,
        };
        value = value * 10 + d;
        i += 1;
        if value > limit {
            proof {
                lemma_digits_number_grows(s@, start as int, i as int, end as int);
            }
            return None;
        }
    }
    Some(value)
}

fn read_level(s: &Vec<char>, start: usize, end: usize) -> (level: Option<Decibels>)
    requires
        start <= end <= s.len(),
    ensures
        match level {
            Some(d) => level_of(s@, start as int, end as int) == Some(d.hundredths as int),
            None => level_of(s@, start as int, end as int) is None,
        },
{
    if start >= end {
        return None;
    }
    let negative = s[start] == '-';
    let first: usize = if s[start] == '-' || s[start] == '+' {
        start + 1
    } else {
        start
    };
    let whole_end = find_digits_end(s, first, end);
    let has_point = whole_end < end && s[whole_end] == '.';
    let fraction_start: usize = if has_point {
        whole_end + 1
    } else {
        whole_end
    };
    let fraction_end = find_digits_end(s, fraction_start, end);
    if fraction_end != end || (whole_end - first) + (fraction_end - fraction_start) == 0 {
        return None;
    }
    let whole = match read_digits(s, first, whole_end, 21_474_836) {
        Some(v) => v,
        None => {
            return None;
        },
    };
    let tenths: u64 = if fraction_end > fraction_start {
        match digit_of_char(s[fraction_start]) {
            Some(d) => d,
            None => 0,
        }
    } else {
        0
    };
    let hundredths: u64 = if fraction_end - fraction_start > 1 {
        match digit_of_char(s[fraction_start + 1]) {
            Some(d) => d,
            None => 0,
        }
    } else {
        0
    };
    let amount: u64 = whole * 100 + tenths * 10 + hundredths;
    assert(amount == digits_number(s@, first as int, whole_end as int) * 100 + fraction_hundredths(
        s@,
        fraction_start as int,
        fraction_end as int,
    ));
    if amount > 2_147_483_647 {
        return None;
    }
    if negative {
        Some(Decibels { hundredths: -(amount as i32) })
    } else {
        Some(Decibels { hundredths: amount as i32 })
    }
}

fn find_skip_blanks(s: &Vec<char>, from: usize, end: usize) -> (stop: usize)
    requires
        from <= end <= s.len(),
    ensures
        stop == skip_blanks(s@, from as int, end as int),
        from <= stop <= end,
{
    let mut i: usize = from;
    while i < end
        invariant
            from <= i <= end <= s.len(),
            skip_blanks(s@, from as int, end as int) == skip_blanks(s@, i as int, end as int),
        decreases end - i,
    {
        if !is_blank_char(s[i]) {
            return i;
        }
        i += 1;
    }
    i
}

fn find_drop_blanks(s: &Vec<char>, start: usize, end: usize) -> (stop: usize)
    requires
        start <= end <= s.len(),
    ensures
        stop == drop_blanks(s@, start as int, end as int),
        start <= stop <= end,
{
    let mut i: usize = end;
    while i > start
        invariant
            start <= i <= end <= s.len(),
            drop_blanks(s@, start as int, end as int) == drop_blanks(s@, start as int, i as int),
        decreases i - start,
    {
        if !is_blank_char(s[i - 1]) {
            return i;
        }
        i -= 1;
    }
    i
}

fn find_drop_units(s: &Vec<char>, start: usize, end: usize) -> (stop: usize)
    requires
        start <= end <= s.len(),
    ensures
        stop == drop_units(s@, start as int, end as int),
        start <= stop <= end,
{
    let mut i: usize = end;
    while i - start >= 3 && s[i - 3] == ' ' && s[i - 2] == 'd' && s[i - 1] == 'B'
        invariant
            start <= i <= end <= s.len(),
            drop_units(s@, start as int, end as int) == drop_units(s@, start as int, i as int),
        decreases i - start,
    {
        i -= 3;
    }
    i
}

/// Reads the level that follows `label` in `line`.
pub fn read_labelled_level(line: &str, label: &str) -> (level: Option<Decibels>)
    ensures
        match level {
            Some(d) => labelled_level(line@, label@) == Some(d.hundredths as int),
            None => labelled_level(line@, label@) is None,
        },
{
    let text = chars_of(line);
    let mark = chars_of(label);
    let at = match find_from(&text, &mark, 0) {
        Some(at) => at,
        None => {
            return None;
        },
    };
    proof {
        lemma_first_occurrence(text@, mark@, 0);
    }
    let start: usize = at + mark.len();
    let end: usize = match find_from(&text, &mark, start) {
        Some(next) => {
            proof {
                lemma_first_occurrence(text@, mark@, start as int);
            }
            next
        },
        None => text.len(),
    };
    let from = find_skip_blanks(&text, start, end);
    let trimmed = find_drop_blanks(&text, from, end);
    let to = find_drop_units(&text, from, trimmed);
    read_level(&text, from, to)
}

/// The level that the last of the first `n` lines with a readable level
/// after `label` gives.
pub open spec fn last_level(lines: Seq<Seq<char>>, n: int, label: Seq<char>) -> Option<int>
    decreases n,
{
    if n <= 0 {
        None
    } else if labelled_level(lines[n - 1], label) is Some {
        labelled_level(lines[n - 1], label)
    } else {
        last_level(lines, n - 1, label)
    }
}

/// The metrics that a loudness report gives: the last readable level
/// after `mean_volume:` and the last one after `max_volume:`. Where one
/// of the two is missing, the audio counts as not measured.
pub open spec fn report_metrics(lines: Seq<Seq<char>>) -> VolumeMetrics {
    let mean = last_level(lines, lines.len() as int, "mean_volume:"@);
    let max = last_level(lines, lines.len() as int, "max_volume:"@);
    if mean is Some && max is Some {
        VolumeMetrics {
            mean_volume: Decibels { hundredths: mean->0 as i32 },
            max_volume: Decibels { hundredths: max->0 as i32 },
        }
    } else {
        VolumeMetrics::unmeasured()
    }
}

/// Reads the loudness report that the analysis of a window printed, line
/// by line.
pub fn parse_volume_report(lines: &Vec<String>) -> (metrics: VolumeMetrics)
    ensures
        metrics == report_metrics(texts(lines@)),
{
    let ghost all = texts(lines@);
    let mut mean: Option<Decibels> = None;
    let mut max: Option<Decibels> = None;
    let mut i: usize = 0;
    while i < lines.len()
        invariant
            i <= lines.len(),
            all == texts(lines@),
            match mean {
                Some(d) => last_level(all, i as int, "mean_volume:"@) == Some(d.hundredths as int),
                None => last_level(all, i as int, "mean_volume:"@) is None,
            },
            match max {
                Some(d) => last_level(all, i as int, "max_volume:"@) == Some(d.hundredths as int),
                None => last_level(all, i as int, "max_volume:"@) is None,
            },
        decreases lines.len() - i,
    {
        assert(all[i as int] == lines@[i as int]@);
        match read_labelled_level(lines[i].as_str(), "mean_volume:") {
            Some(level) => {
                mean = Some(level);
            },
            None => {},
        }
        match read_labelled_level(lines[i].as_str(), "max_volume:") {
            Some(level) => {
                max = Some(level);
            },
            None => {},
        }
        i += 1;
    }
    match (mean, max) {
        (Some(mean_volume), Some(max_volume)) => VolumeMetrics { mean_volume, max_volume },
        _ => VolumeMetrics::default(),
    }
}

} // verus!
