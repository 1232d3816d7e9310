//! The text form of the accounting record.
//!
//! The record is kept as lines of `key=value`. Reading is tolerant: the
//! order of the lines does not matter, blank lines and lines that start with
//! `#` are skipped, unknown keys are ignored, and where a key occurs more
//! than once the last occurrence counts.

use crate::config::{NetworkConfig, NetworkConfigView, TrafficPeriod};
use crate::decimal::{
    append_decimal, append_signed_decimal, decimal, is_digit, lemma_decimal_denotes,
    lemma_parse_signed_decimal, lemma_parse_unsigned_decimal, parse_i64_span, parse_signed,
    parse_unsigned, parse_unsigned_span, signed_decimal,
};
use crate::offset::OFFSET_STALE;
use crate::record::{NetworkInfo, NetworkInfoView};
use crate::text::{
    chars_of, find_char, first_index_of, is_trimmed, lemma_first_index_is,
    lemma_trim_of_trimmed, span_is, trim, trim_span,
};
use vstd::prelude::*;
use vstd::string::{StrSliceExecFns, StringExecFns};

verus! {

/// The keys of the text form.
#[derive(Clone, Copy, Debug, PartialEq, Eq, Structural)]
pub enum Key {
    DisableNetworkStatistics,
    NetworkInterval,
    NetworkSavePath,
    TrafficPeriod,
    TrafficResetDay,
    BootId,
    CycleTotalTx,
    CycleTotalRx,
    NextResetTimestamp,
    OffsetTx,
    OffsetRx,
}

/// What the value of a key must be.
#[derive(Clone, Copy, Debug, PartialEq, Eq, Structural)]
pub enum ValueType {
    Bool,
    U32,
    U64,
    I64,
    Period,
}

/// Why a text is not a record.
#[derive(Clone, Copy, Debug, PartialEq, Eq, Structural)]
pub enum DecodeError {
    /// No line gives this key, and the record cannot do without it.
    MissingField(Key),
    /// A line gives this key a value that is not of the type it must have.
    InvalidValue(Key, ValueType),
    /// A line is neither blank, nor a comment, nor of the form `key=value`.
    FormatError,
}

impl Key {
    /// The key as it is written.
    pub open spec fn name(self) -> Seq<char> {
        match self {
            Key::DisableNetworkStatistics => "disable_network_statistics"@,
            Key::NetworkInterval => "network_interval"@,
            Key::NetworkSavePath => "network_save_path"@,
            Key::TrafficPeriod => "traffic_period"@,
            Key::TrafficResetDay => "traffic_reset_day"@,
            Key::BootId => "boot_id"@,
            Key::CycleTotalTx => "cycle_total_tx"@,
            Key::CycleTotalRx => "cycle_total_rx"@,
            Key::NextResetTimestamp => "next_reset_timestamp"@,
            Key::OffsetTx => "offset_tx"@,
            Key::OffsetRx => "offset_rx"@,
        }
    }

    /// The key as it is written.
    pub fn as_str(&self) -> (r: &'static str)
        ensures
            r@ == self.name(),
    {
        match self {
            Key::DisableNetworkStatistics => "disable_network_statistics",
            Key::NetworkInterval => "network_interval",
            Key::NetworkSavePath => "network_save_path",
            Key::TrafficPeriod => "traffic_period",
            Key::TrafficResetDay => "traffic_reset_day",
            Key::BootId => "boot_id",
            Key::CycleTotalTx => "cycle_total_tx",
            Key::CycleTotalRx => "cycle_total_rx",
            Key::NextResetTimestamp => "next_reset_timestamp",
            Key::OffsetTx => "offset_tx",
            Key::OffsetRx => "offset_rx",
        }
    }
}

/// The key that `s` names, if it names one.
pub open spec fn key_named(s: Seq<char>) -> Option<Key> {
    if s == Key::DisableNetworkStatistics.name() {
        Some(Key::DisableNetworkStatistics)
    } else if s == Key::NetworkInterval.name() {
        Some(Key::NetworkInterval)
    } else if s == Key::NetworkSavePath.name() {
        Some(Key::NetworkSavePath)
    } else if s == Key::TrafficPeriod.name() {
        Some(Key::TrafficPeriod)
    } else if s == Key::TrafficResetDay.name() {
        Some(Key::TrafficResetDay)
    } else if s == Key::BootId.name() {
        Some(Key::BootId)
    } else if s == Key::CycleTotalTx.name() {
        Some(Key::CycleTotalTx)
    } else if s == Key::CycleTotalRx.name() {
        Some(Key::CycleTotalRx)
    } else if s == Key::NextResetTimestamp.name() {
        Some(Key::NextResetTimestamp)
    } else if s == Key::OffsetTx.name() {
        Some(Key::OffsetTx)
    } else if s == Key::OffsetRx.name() {
        Some(Key::OffsetRx)
    } else {
        None
    }
}

/// How a truth value is written.
pub open spec fn bool_text(b: bool) -> Seq<char> {
    if b {
        "true"@
    } else {
        "false"@
    }
}

/// The truth value that `s` denotes: `true` or `false`, nothing else.
pub open spec fn parse_bool(s: Seq<char>) -> Option<bool> {
    if s == "true"@ {
        Some(true)
    } else if s == "false"@ {
        Some(false)
    } else {
        None
    }
}

/// How a period is written.
pub open spec fn period_text(period: TrafficPeriod) -> Seq<char> {
    match period {
        TrafficPeriod::Week => "Week"@,
        TrafficPeriod::Month => "Month"@,
        TrafficPeriod::Year => "Year"@,
    }
}

/// The period that `s` denotes: `Week`, `Month` or `Year`, nothing else.
pub open spec fn parse_period(s: Seq<char>) -> Option<TrafficPeriod> {
    if s == "Week"@ {
        Some(TrafficPeriod::Week)
    } else if s == "Month"@ {
        Some(TrafficPeriod::Month)
    } else if s == "Year"@ {
        Some(TrafficPeriod::Year)
    } else {
        None
    }
}

/// What has been read of a record so far: for each key its last value.
pub struct FieldsView {
    pub disable_network_statistics: Option<bool>,
    pub network_interval: Option<u32>,
    pub network_save_path: Option<Seq<char>>,
    pub traffic_period: Option<TrafficPeriod>,
    pub traffic_reset_day: Option<Seq<char>>,
    pub boot_id: Option<Seq<char>>,
    pub cycle_total_tx: Option<u64>,
    pub cycle_total_rx: Option<u64>,
    pub next_reset_timestamp: Option<i64>,
    pub offset_tx: Option<i64>,
    pub offset_rx: Option<i64>,
}

/// Nothing read yet.
pub open spec fn no_fields() -> FieldsView {
    FieldsView {
        disable_network_statistics: None,
        network_interval: None,
        network_save_path: None,
        traffic_period: None,
        traffic_reset_day: None,
        boot_id: None,
        cycle_total_tx: None,
        cycle_total_rx: None,
        next_reset_timestamp: None,
        offset_tx: None,
        offset_rx: None,
    }
}

/// `fields` after one more `key=value`: the value replaces an earlier one of
/// the same key, a value of the wrong type is an error, an unknown key
/// changes nothing.
pub open spec fn read_entry(fields: FieldsView, key: Seq<char>, value: Seq<char>) -> Result<
    FieldsView,
    DecodeError,
> {
    match key_named(key) {
        None => Ok(fields),
        Some(Key::DisableNetworkStatistics) => match parse_bool(value) {
            Some(b) => Ok(FieldsView { disable_network_statistics: Some(b), ..fields }),
            None => Err(DecodeError::InvalidValue(Key::DisableNetworkStatistics, ValueType::Bool)),
        },
        Some(Key::NetworkInterval) => match parse_unsigned(value, u32::MAX as int) {
            Some(n) => Ok(FieldsView { network_interval: Some(n as u32), ..fields }),
            None => Err(DecodeError::InvalidValue(Key::NetworkInterval, ValueType::U32)),
        },
        Some(Key::NetworkSavePath) => Ok(FieldsView { network_save_path: Some(value), ..fields }),
        Some(Key::TrafficPeriod) => match parse_period(value) {
            Some(period) => Ok(FieldsView { traffic_period: Some(period), ..fields }),
            None => Err(DecodeError::InvalidValue(Key::TrafficPeriod, ValueType::Period)),
        },
        Some(Key::TrafficResetDay) => Ok(FieldsView { traffic_reset_day: Some(value), ..fields }),
        Some(Key::BootId) => Ok(FieldsView { boot_id: Some(value), ..fields }),
        Some(Key::CycleTotalTx) => match parse_unsigned(value, u64::MAX as int) {
            Some(n) => Ok(FieldsView { cycle_total_tx: Some(n as u64), ..fields }),
            None => Err(DecodeError::InvalidValue(Key::CycleTotalTx, ValueType::U64)),
        },
        Some(Key::CycleTotalRx) => match parse_unsigned(value, u64::MAX as int) {
            Some(n) => Ok(FieldsView { cycle_total_rx: Some(n as u64), ..fields }),
            None => Err(DecodeError::InvalidValue(Key::CycleTotalRx, ValueType::U64)),
        },
        Some(Key::NextResetTimestamp) => match parse_signed(
            value,
            i64::MIN as int,
            i64::MAX as int,
        ) {
            Some(n) => Ok(FieldsView { next_reset_timestamp: Some(n as i64), ..fields }),
            None => Err(DecodeError::InvalidValue(Key::NextResetTimestamp, ValueType::I64)),
        },
        Some(Key::OffsetTx) => match parse_signed(value, i64::MIN as int, i64::MAX as int) {
            Some(n) => Ok(FieldsView { offset_tx: Some(n as i64), ..fields }),
            None => Err(DecodeError::InvalidValue(Key::OffsetTx, ValueType::I64)),
        },
        Some(Key::OffsetRx) => match parse_signed(value, i64::MIN as int, i64::MAX as int) {
            Some(n) => Ok(FieldsView { offset_rx: Some(n as i64), ..fields }),
            None => Err(DecodeError::InvalidValue(Key::OffsetRx, ValueType::I64)),
        },
    }
}

/// `fields` after one more line. White space around the line, the key and
/// the value does not count; the key ends at the first `=`.
pub open spec fn read_line(fields: FieldsView, line: Seq<char>) -> Result<FieldsView, DecodeError> {
    let content = trim(line);
    let equals = first_index_of(content, '=') as int;
    if content.len() == 0 || content[0] == '#' {
        Ok(fields)
    } else if equals == content.len() {
        Err(DecodeError::FormatError)
    } else {
        read_entry(fields, trim(content.take(equals)), trim(content.skip(equals + 1)))
    }
}

/// `fields` after all lines of `text`, up to the first line in error. Lines
/// end at a line feed; the last line needs none.
pub open spec fn read_lines(fields: FieldsView, text: Seq<char>) -> Result<FieldsView, DecodeError>
    decreases text.len(),
{
    let end = first_index_of(text, '\n') as int;
    match read_line(fields, text.take(end)) {
        Err(e) => Err(e),
        Ok(more) => if end >= text.len() {
            Ok(more)
        } else {
            read_lines(more, text.skip(end + 1))
        },
    }
}

/// The record that the fields make. The period, the reset day and the two
/// offsets have defaults (`Month`, `1`, `OFFSET_STALE`); every other key is
/// required, and the first one missing, in the order of the text form, is
/// the error.
pub open spec fn assemble(fields: FieldsView) -> Result<NetworkInfoView, DecodeError> {
    if fields.disable_network_statistics is None {
        Err(DecodeError::MissingField(Key::DisableNetworkStatistics))
    } else if fields.network_interval is None {
        Err(DecodeError::MissingField(Key::NetworkInterval))
    } else if fields.network_save_path is None {
        Err(DecodeError::MissingField(Key::NetworkSavePath))
    } else if fields.boot_id is None {
        Err(DecodeError::MissingField(Key::BootId))
    } else if fields.cycle_total_tx is None {
        Err(DecodeError::MissingField(Key::CycleTotalTx))
    } else if fields.cycle_total_rx is None {
        Err(DecodeError::MissingField(Key::CycleTotalRx))
    } else if fields.next_reset_timestamp is None {
        Err(DecodeError::MissingField(Key::NextResetTimestamp))
    } else {
        Ok(
            NetworkInfoView {
                config: NetworkConfigView {
                    disable_network_statistics: fields.disable_network_statistics->0,
                    network_interval: fields.network_interval->0,
                    network_save_path: fields.network_save_path->0,
                    traffic_period: match fields.traffic_period {
                        Some(period) => period,
                        None => TrafficPeriod::Month,
                    },
                    traffic_reset_day: match fields.traffic_reset_day {
                        Some(day) => day,
                        None => "1"@,
                    },
                },
                boot_id: fields.boot_id->0,
                cycle_total_tx: fields.cycle_total_tx->0,
                cycle_total_rx: fields.cycle_total_rx->0,
                next_reset_timestamp: fields.next_reset_timestamp->0,
                offset_tx: match fields.offset_tx {
                    Some(offset) => offset,
                    None => OFFSET_STALE,
                },
                offset_rx: match fields.offset_rx {
                    Some(offset) => offset,
                    None => OFFSET_STALE,
                },
            },
        )
    }
}

/// The record that `text` holds, or why it holds none.
pub open spec fn decoded(text: Seq<char>) -> Result<NetworkInfoView, DecodeError> {
    match read_lines(no_fields(), text) {
        Err(e) => Err(e),
        Ok(fields) => assemble(fields),
    }
}

/// One line of the text form.
pub open spec fn entry_line(key: Key, value: Seq<char>) -> Seq<char> {
    key.name() + seq!['='] + value + seq!['\n']
}

/// The text form of a record: one line for each key.
pub open spec fn encoded(info: NetworkInfoView) -> Seq<char> {
    entry_line(Key::DisableNetworkStatistics, bool_text(info.config.disable_network_statistics))
        + entry_line(Key::NetworkInterval, decimal(info.config.network_interval as nat))
        + entry_line(Key::NetworkSavePath, info.config.network_save_path) + entry_line(
        Key::TrafficPeriod,
        period_text(info.config.traffic_period),
    ) + entry_line(Key::TrafficResetDay, info.config.traffic_reset_day) + entry_line(
        Key::BootId,
        info.boot_id,
    ) + entry_line(Key::CycleTotalTx, decimal(info.cycle_total_tx as nat)) + entry_line(
        Key::CycleTotalRx,
        decimal(info.cycle_total_rx as nat),
    ) + entry_line(Key::NextResetTimestamp, signed_decimal(info.next_reset_timestamp as int))
        + entry_line(Key::OffsetTx, signed_decimal(info.offset_tx as int)) + entry_line(
        Key::OffsetRx,
        signed_decimal(info.offset_rx as int),
    )
}

/// What has been read of a record so far.
struct Fields {
    disable_network_statistics: Option<bool>,
    network_interval: Option<u32>,
    network_save_path: Option<String>,
    traffic_period: Option<TrafficPeriod>,
    traffic_reset_day: Option<String>,
    boot_id: Option<String>,
    cycle_total_tx: Option<u64>,
    cycle_total_rx: Option<u64>,
    next_reset_timestamp: Option<i64>,
    offset_tx: Option<i64>,
    offset_rx: Option<i64>,
}

/// The characters of a text that may be absent.
pub open spec fn text_view(text: Option<String>) -> Option<Seq<char>> {
    match text {
        Some(s) => Some(s@),
        None => None,
    }
}

impl View for Fields {
    type V = FieldsView;

    closed spec fn view(&self) -> FieldsView {
        FieldsView {
            disable_network_statistics: self.disable_network_statistics,
            network_interval: self.network_interval,
            network_save_path: text_view(self.network_save_path),
            traffic_period: self.traffic_period,
            traffic_reset_day: text_view(self.traffic_reset_day),
            boot_id: text_view(self.boot_id),
            cycle_total_tx: self.cycle_total_tx,
            cycle_total_rx: self.cycle_total_rx,
            next_reset_timestamp: self.next_reset_timestamp,
            offset_tx: self.offset_tx,
            offset_rx: self.offset_rx,
        }
    }
}

/// The key that the characters in `start..end` name.
fn find_key(chars: &Vec<char>, start: usize, end: usize) -> (r: Option<Key>)
    requires
        start <= end <= chars.len(),
    ensures
        r == key_named(chars@.subrange(start as int, end as int)),
{
    if span_is(chars, start, end, "disable_network_statistics") {
        Some(Key::DisableNetworkStatistics)
    } else if span_is(chars, start, end, "network_interval") {
        Some(Key::NetworkInterval)
    } else if span_is(chars, start, end, "network_save_path") {
        Some(Key::NetworkSavePath)
    } else if span_is(chars, start, end, "traffic_period") {
        Some(Key::TrafficPeriod)
    } else if span_is(chars, start, end, "traffic_reset_day") {
        Some(Key::TrafficResetDay)
    } else if span_is(chars, start, end, "boot_id") {
        Some(Key::BootId)
    } else if span_is(chars, start, end, "cycle_total_tx") {
        Some(Key::CycleTotalTx)
    } else if span_is(chars, start, end, "cycle_total_rx") {
        Some(Key::CycleTotalRx)
    } else if span_is(chars, start, end, "next_reset_timestamp") {
        Some(Key::NextResetTimestamp)
    } else if span_is(chars, start, end, "offset_tx") {
        Some(Key::OffsetTx)
    } else if span_is(chars, start, end, "offset_rx") {
        Some(Key::OffsetRx)
    } else {
        None
    }
}

/// The truth value that the characters in `start..end` denote.
fn parse_bool_span(chars: &Vec<char>, start: usize, end: usize) -> (r: Option<bool>)
    requires
        start <= end <= chars.len(),
    ensures
        r == parse_bool(chars@.subrange(start as int, end as int)),
{
    if span_is(chars, start, end, "true") {
        Some(true)
    } else if span_is(chars, start, end, "false") {
        Some(false)
    } else {
        None
    }
}

/// The period that the characters in `start..end` denote.
fn parse_period_span(chars: &Vec<char>, start: usize, end: usize) -> (r: Option<TrafficPeriod>)
    requires
        start <= end <= chars.len(),
    ensures
        r == parse_period(chars@.subrange(start as int, end as int)),
{
    if span_is(chars, start, end, "Week") {
        Some(TrafficPeriod::Week)
    } else if span_is(chars, start, end, "Month") {
        Some(TrafficPeriod::Month)
    } else if span_is(chars, start, end, "Year") {
        Some(TrafficPeriod::Year)
    } else {
        None
    }
}

/// The characters in `start..end` as a string of their own.
fn span_text(input: &str, chars: &Vec<char>, start: usize, end: usize) -> (r: String)
    requires
        chars@ == input@,
        start <= end <= chars.len(),
    ensures
        r@ == chars@.subrange(start as int, end as int),
{
    String::from_str(input.substring_char(start, end))
}

impl Fields {
    fn new() -> (r: Fields)
        ensures
            r@ == no_fields(),
    {
        Fields {
            disable_network_statistics: None,
            network_interval: None,
            network_save_path: None,
            traffic_period: None,
            traffic_reset_day: None,
            boot_id: None,
            cycle_total_tx: None,
            cycle_total_rx: None,
            next_reset_timestamp: None,
            offset_tx: None,
            offset_rx: None,
        }
    }

    /// Takes in the entry whose key is in `key.0..key.1` and whose value is
    /// in `value.0..value.1`.
    fn store_entry(
        &mut self,
        input: &str,
        chars: &Vec<char>,
        key: (usize, usize),
        value: (usize, usize),
    ) -> (r: Result<(), DecodeError>)
        requires
            chars@ == input@,
            key.0 <= key.1 <= chars.len(),
            value.0 <= value.1 <= chars.len(),
        ensures
            match r {
                Ok(()) => read_entry(
                    old(self)@,
                    chars@.subrange(key.0 as int, key.1 as int),
                    chars@.subrange(value.0 as int, value.1 as int),
                ) == Ok::<FieldsView, DecodeError>(final(self)@),
                Err(e) => read_entry(
                    old(self)@,
                    chars@.subrange(key.0 as int, key.1 as int),
                    chars@.subrange(value.0 as int, value.1 as int),
                ) == Err::<FieldsView, DecodeError>(e),
            },
    {
        let (from, to) = value;
        match find_key(chars, key.0, key.1) {
            None => {},
            Some(Key::DisableNetworkStatistics) => match parse_bool_span(chars, from, to) {
                Some(b) => {
                    self.disable_network_statistics = Some(b);
                },
                None => {
                    return Err(
                        DecodeError::InvalidValue(Key::DisableNetworkStatistics, ValueType::Bool),
                    );
                },
            },
            Some(Key::NetworkInterval) => match parse_unsigned_span(chars, from, to, 0xffff_ffff) {
                Some(n) => {
                    self.network_interval = Some(n as u32);
                },
                None => {
                    return Err(DecodeError::InvalidValue(Key::NetworkInterval, ValueType::U32));
                },
            },
            Some(Key::NetworkSavePath) => {
                self.network_save_path = Some(span_text(input, chars, from, to));
            },
            Some(Key::TrafficPeriod) => match parse_period_span(chars, from, to) {
                Some(period) => {
                    self.traffic_period = Some(period);
                },
                None => {
                    return Err(DecodeError::InvalidValue(Key::TrafficPeriod, ValueType::Period));
                },
            },
            Some(Key::TrafficResetDay) => {
                self.traffic_reset_day = Some(span_text(input, chars, from, to));
            },
            Some(Key::BootId) => {
                self.boot_id = Some(span_text(input, chars, from, to));
            },
            Some(Key::CycleTotalTx) => match parse_unsigned_span(chars, from, to, u64::MAX) {
                Some(n) => {
                    self.cycle_total_tx = Some(n);
                },
                None => {
                    return Err(DecodeError::InvalidValue(Key::CycleTotalTx, ValueType::U64));
                },
            },
            Some(Key::CycleTotalRx) => match parse_unsigned_span(chars, from, to, u64::MAX) {
                Some(n) => {
                    self.cycle_total_rx = Some(n);
                },
                None => {
                    return Err(DecodeError::InvalidValue(Key::CycleTotalRx, ValueType::U64));
                },
            },
            Some(Key::NextResetTimestamp) => match parse_i64_span(chars, from, to) {
                Some(n) => {
                    self.next_reset_timestamp = Some(n);
                },
                None => {
                    return Err(
                        DecodeError::InvalidValue(Key::NextResetTimestamp, ValueType::I64),
                    );
                },
            },
            Some(Key::OffsetTx) => match parse_i64_span(chars, from, to) {
                Some(n) => {
                    self.offset_tx = Some(n);
                },
                None => {
                    return Err(DecodeError::InvalidValue(Key::OffsetTx, ValueType::I64));
                },
            },
            Some(Key::OffsetRx) => match parse_i64_span(chars, from, to) {
                Some(n) => {
                    self.offset_rx = Some(n);
                },
                None => {
                    return Err(DecodeError::InvalidValue(Key::OffsetRx, ValueType::I64));
                },
            },
        }
        Ok(())
    }

    /// Takes in the line in `start..end`.
    fn store_line(&mut self, input: &str, chars: &Vec<char>, start: usize, end: usize) -> (r:
        Result<(), DecodeError>)
        requires
            chars@ == input@,
            start <= end <= chars.len(),
        ensures
            match r {
                Ok(()) => read_line(old(self)@, chars@.subrange(start as int, end as int)) == Ok::<
                    FieldsView,
                    DecodeError,
                >(final(self)@),
                Err(e) => read_line(old(self)@, chars@.subrange(start as int, end as int)) == Err::<
                    FieldsView,
                    DecodeError,
                >(e),
            },
    {
        let (from, to) = trim_span(chars, start, end);
        if from == to || chars[from] == '#' {
            return Ok(());
        }
        let equals = find_char(chars, from, to, '=');
        if equals == to {
            return Err(DecodeError::FormatError);
        }
        proof {
            let content = chars@.subrange(from as int, to as int);
            assert(content.take(equals - from) == chars@.subrange(from as int, equals as int));
            assert(content.skip(equals - from + 1) == chars@.subrange(equals + 1, to as int));
        }
        let key = trim_span(chars, from, equals);
        let value = trim_span(chars, equals + 1, to);
        self.store_entry(input, chars, key, value)
    }

    /// The record that the fields make.
    fn finish(self) -> (r: Result<NetworkInfo, DecodeError>)
        ensures
            match r {
                Ok(info) => assemble(self@) == Ok::<NetworkInfoView, DecodeError>(info@),
                Err(e) => assemble(self@) == Err::<NetworkInfoView, DecodeError>(e),
            },
    {
        let disable_network_statistics = match self.disable_network_statistics {
            Some(b) => b,
            None => {
                return Err(DecodeError::MissingField(Key::DisableNetworkStatistics));
            },
        };
        let network_interval = match self.network_interval {
            Some(n) => n,
            None => {
                return Err(DecodeError::MissingField(Key::NetworkInterval));
            },
        };
        let network_save_path = match self.network_save_path {
            Some(path) => path,
            None => {
                return Err(DecodeError::MissingField(Key::NetworkSavePath));
            },
        };
        let boot_id = match self.boot_id {
            Some(id) => id,
            None => {
                return Err(DecodeError::MissingField(Key::BootId));
            },
        };
        let cycle_total_tx = match self.cycle_total_tx {
            Some(n) => n,
            None => {
                return Err(DecodeError::MissingField(Key::CycleTotalTx));
            },
        };
        let cycle_total_rx = match self.cycle_total_rx {
            Some(n) => n,
            None => {
                return Err(DecodeError::MissingField(Key::CycleTotalRx));
            },
        };
        let next_reset_timestamp = match self.next_reset_timestamp {
            Some(n) => n,
            None => {
                return Err(DecodeError::MissingField(Key::NextResetTimestamp));
            },
        };
        Ok(
            NetworkInfo {
                config: NetworkConfig {
                    disable_network_statistics,
                    network_interval,
                    network_save_path,
                    traffic_period: match self.traffic_period {
                        Some(period) => period,
                        None => TrafficPeriod::Month,
                    },
                    traffic_reset_day: match self.traffic_reset_day {
                        Some(day) => day,
                        None => String::from_str("1"),
                    },
                },
                boot_id,
                cycle_total_tx,
                cycle_total_rx,
                next_reset_timestamp,
                offset_tx: match self.offset_tx {
                    Some(offset) => offset,
                    None => OFFSET_STALE,
                },
                offset_rx: match self.offset_rx {
                    Some(offset) => offset,
                    None => OFFSET_STALE,
                },
            },
        )
    }
}

/// How a truth value is written.
fn bool_str(b: bool) -> (r: &'static str)
    ensures
        r@ == bool_text(b),
{
    if b {
        "true"
    } else {
        "false"
    }
}

/// How a period is written.
fn period_str(period: TrafficPeriod) -> (r: &'static str)
    ensures
        r@ == period_text(period),
{
    match period {
        TrafficPeriod::Week => "Week",
        TrafficPeriod::Month => "Month",
        TrafficPeriod::Year => "Year",
    }
}

/// Starts the line of `key`: appends the key and `=`.
fn append_entry_start(out: &mut String, key: Key)
    ensures
        final(out)@ == old(out)@ + key.name() + seq!['='],
{
    proof {
        reveal_strlit("=");
    }
    out.append(key.as_str());
    out.append("=");
    assert(seq!['='] =~= "="@);
}

/// Ends the line that `out` ends with.
fn append_entry_end(out: &mut String)
    ensures
        final(out)@ == old(out)@ + seq!['\n'],
{
    proof {
        reveal_strlit("\n");
    }
    out.append("\n");
    assert(seq!['\n'] =~= "\n"@);
}

/// Appends the line of `key` with a text as its value.
fn append_entry(out: &mut String, key: Key, value: &str)
    ensures
        final(out)@ == old(out)@ + entry_line(key, value@),
{
    append_entry_start(out, key);
    out.append(value);
    append_entry_end(out);
    assert(out@ =~= old(out)@ + entry_line(key, value@));
}

/// Appends the line of `key` with an unsigned number as its value.
fn append_number_entry(out: &mut String, key: Key, value: u64)
    ensures
        final(out)@ == old(out)@ + entry_line(key, decimal(value as nat)),
{
    append_entry_start(out, key);
    append_decimal(out, value);
    append_entry_end(out);
    assert(out@ =~= old(out)@ + entry_line(key, decimal(value as nat)));
}

/// Appends the line of `key` with a signed number as its value.
fn append_signed_entry(out: &mut String, key: Key, value: i64)
    ensures
        final(out)@ == old(out)@ + entry_line(key, signed_decimal(value as int)),
{
    append_entry_start(out, key);
    append_signed_decimal(out, value);
    append_entry_end(out);
    assert(out@ =~= old(out)@ + entry_line(key, signed_decimal(value as int)));
}

impl NetworkInfo {
    /// Writes the record as text, one `key=value` line for each key.
    pub fn encode(&self) -> (r: String)
        ensures
            r@ == encoded(self@),
    {
        let mut out = String::new();
        append_entry(
            &mut out,
            Key::DisableNetworkStatistics,
            bool_str(self.config.disable_network_statistics),
        );
        assert(out@ =~= entry_line(
            Key::DisableNetworkStatistics,
            bool_text(self.config.disable_network_statistics),
        ));
        append_number_entry(&mut out, Key::NetworkInterval, self.config.network_interval as u64);
        append_entry(&mut out, Key::NetworkSavePath, self.config.network_save_path.as_str());
        append_entry(&mut out, Key::TrafficPeriod, period_str(self.config.traffic_period));
        append_entry(&mut out, Key::TrafficResetDay, self.config.traffic_reset_day.as_str());
        append_entry(&mut out, Key::BootId, self.boot_id.as_str());
        append_number_entry(&mut out, Key::CycleTotalTx, self.cycle_total_tx);
        append_number_entry(&mut out, Key::CycleTotalRx, self.cycle_total_rx);
        append_signed_entry(&mut out, Key::NextResetTimestamp, self.next_reset_timestamp);
        append_signed_entry(&mut out, Key::OffsetTx, self.offset_tx);
        append_signed_entry(&mut out, Key::OffsetRx, self.offset_rx);
        out
    }

    /// Reads a record from its text form.
    ///
    /// Fails with `FormatError` or `InvalidValue` at the first line in error,
    /// else with `MissingField` for the first required key that no line
    /// gives.
    pub fn decode(input: &str) -> (r: Result<NetworkInfo, DecodeError>)
        ensures
            match r {
                Ok(info) => decoded(input@) == Ok::<NetworkInfoView, DecodeError>(info@),
                Err(e) => decoded(input@) == Err::<NetworkInfoView, DecodeError>(e),
            },
    {
        let chars = chars_of(input);
        let len = chars.len();
        let mut fields = Fields::new();
        let mut start: usize = 0;
        let mut done = false;
        assert(input@.skip(0) == input@);
        while !done
            invariant
                chars@ == input@,
                len == chars.len(),
                start <= len,
                !done ==> read_lines(no_fields(), input@) == read_lines(
                    fields@,
                    input@.skip(start as int),
                ),
                done ==> read_lines(no_fields(), input@) == Ok::<FieldsView, DecodeError>(fields@),
            decreases len - start + (if done { 0int } else { 1int }),
        {
            let end = find_char(&chars, start, len, '\n');
            proof {
                let rest = input@.skip(start as int);
                assert(rest == chars@.subrange(start as int, len as int));
                assert(rest.take(end - start) == chars@.subrange(start as int, end as int));
                if end < len {
                    assert(rest.skip(end - start + 1) == input@.skip(end + 1));
                }
            }
            match fields.store_line(input, &chars, start, end) {
                Ok(()) => {},
                Err(e) => {
                    return Err(e);
                },
            }
            if end == len {
                done = true;
            } else {
                start = end + 1;
            }
        }
        fields.finish()
    }
}

/// The order of two entries with different keys does not matter: where
/// both are taken in without error, either order leaves the same fields.
pub proof fn lemma_entries_commute(
    fields: FieldsView,
    key_a: Seq<char>,
    value_a: Seq<char>,
    key_b: Seq<char>,
    value_b: Seq<char>,
)
    requires
        key_named(key_a) != key_named(key_b) || key_named(key_a) is None,
        read_entry(fields, key_a, value_a) is Ok,
        read_entry(fields, key_b, value_b) is Ok,
    ensures
        read_entry(read_entry(fields, key_a, value_a)->Ok_0, key_b, value_b) == read_entry(
            read_entry(fields, key_b, value_b)->Ok_0,
            key_a,
            value_a,
        ),
        read_entry(read_entry(fields, key_a, value_a)->Ok_0, key_b, value_b) is Ok,
{
}

/// Blank lines, comments and entries with unknown keys change nothing.
pub proof fn lemma_ignored_lines(fields: FieldsView, line: Seq<char>)
    ensures
        trim(line).len() == 0 ==> read_line(fields, line) == Ok::<FieldsView, DecodeError>(fields),
        trim(line).len() > 0 && trim(line)[0] == '#' ==> read_line(fields, line) == Ok::<
            FieldsView,
            DecodeError,
        >(fields),
        forall|key: Seq<char>, value: Seq<char>|
            key_named(key) is None ==> #[trigger] read_entry(fields, key, value) == Ok::<
                FieldsView,
                DecodeError,
            >(fields),
{
}

/// A text that the text form keeps as it is: it has no line feed, and no
/// white space at its ends.
pub open spec fn storable_text(s: Seq<char>) -> bool {
    &&& is_trimmed(s)
    &&& forall|i: int| 0 <= i < s.len() ==> #[trigger] s[i] != '\n'
}

/// A record whose three texts the text form keeps as they are.
pub open spec fn storable(info: NetworkInfoView) -> bool {
    &&& storable_text(info.config.network_save_path)
    &&& storable_text(info.config.traffic_reset_day)
    &&& storable_text(info.boot_id)
}

/// A small letter or an underscore.
pub open spec fn is_key_char(c: char) -> bool {
    0x61 <= c as u32 <= 0x7A || c as u32 == 0x5F
}

/// Every key is written in small letters and underscores, and names itself.
pub proof fn lemma_key_names(key: Key)
    ensures
        key.name().len() > 0,
        forall|i: int| 0 <= i < key.name().len() ==> is_key_char(#[trigger] key.name()[i]),
        key_named(key.name()) == Some(key),
{
    reveal_strlit("disable_network_statistics");
    reveal_strlit("network_interval");
    reveal_strlit("network_save_path");
    reveal_strlit("traffic_period");
    reveal_strlit("traffic_reset_day");
    reveal_strlit("boot_id");
    reveal_strlit("cycle_total_tx");
    reveal_strlit("cycle_total_rx");
    reveal_strlit("next_reset_timestamp");
    reveal_strlit("offset_tx");
    reveal_strlit("offset_rx");
    let name = key.name();
    assert(Key::DisableNetworkStatistics.name().len() == 26);
    assert(Key::NetworkInterval.name().len() == 16);
    assert(Key::NetworkSavePath.name().len() == 17);
    assert(Key::TrafficPeriod.name().len() == 14);
    assert(Key::TrafficResetDay.name().len() == 17);
    assert(Key::BootId.name().len() == 7);
    assert(Key::CycleTotalTx.name().len() == 14);
    assert(Key::CycleTotalRx.name().len() == 14);
    assert(Key::NextResetTimestamp.name().len() == 20);
    assert(Key::OffsetTx.name().len() == 9);
    assert(Key::OffsetRx.name().len() == 9);
    match key {
        Key::TrafficResetDay => {
            assert(name[0] != Key::NetworkSavePath.name()[0]);
        },
        Key::CycleTotalTx => {
            assert(name[0] != Key::TrafficPeriod.name()[0]);
        },
        Key::CycleTotalRx => {
            assert(name[0] != Key::TrafficPeriod.name()[0]);
            assert(name[12] != Key::CycleTotalTx.name()[12]);
        },
        Key::OffsetRx => {
            assert(name[7] != Key::OffsetTx.name()[7]);
        },
        _ => {},
    }
}

/// Reading a text that starts with the line of a key goes on, after that
/// line, with the entry taken in.
pub proof fn lemma_read_entry_line(
    fields: FieldsView,
    key: Key,
    value: Seq<char>,
    rest: Seq<char>,
)
    requires
        storable_text(value),
    ensures
        read_lines(fields, entry_line(key, value) + rest) == match read_entry(
            fields,
            key.name(),
            value,
        ) {
            Err(e) => Err(e),
            Ok(more) => read_lines(more, rest),
        },
{
    lemma_key_names(key);
    let name = key.name();
    let text = entry_line(key, value) + rest;
    let line = name + seq!['='] + value;
    let end: int = (name.len() + 1 + value.len()) as int;
    assert(is_key_char(name[0]));
    assert forall|i: int| 0 <= i < end implies text[i] != '\n' by {
        if i < name.len() {
            assert(is_key_char(name[i]));
        } else if i > name.len() {
            assert(text[i] == value[i - name.len() - 1]);
        }
    }
    lemma_first_index_is(text, '\n', end);
    assert(text.take(end) =~= line);
    assert(is_trimmed(line)) by {
        assert(line[0] == name[0]);
        if value.len() > 0 {
            assert(line.last() == value.last());
        }
    }
    lemma_trim_of_trimmed(line);
    assert forall|i: int| 0 <= i < name.len() implies line[i] != '=' by {
        assert(is_key_char(name[i]));
    }
    lemma_first_index_is(line, '=', name.len() as int);
    assert(line.take(name.len() as int) =~= name);
    assert(line.skip(name.len() as int + 1) =~= value);
    assert(is_trimmed(name)) by {
        assert(is_key_char(name.last()));
    }
    lemma_trim_of_trimmed(name);
    lemma_trim_of_trimmed(value);
    assert(read_line(fields, line) == read_entry(fields, name, value));
    assert(text.skip(end + 1) =~= rest);
}

/// Written numbers and words are kept as they are, and read back as what
/// was written.
pub proof fn lemma_written_values(info: NetworkInfoView)
    ensures
        storable_text(bool_text(info.config.disable_network_statistics)),
        parse_bool(bool_text(info.config.disable_network_statistics)) == Some(
            info.config.disable_network_statistics,
        ),
        storable_text(period_text(info.config.traffic_period)),
        parse_period(period_text(info.config.traffic_period)) == Some(info.config.traffic_period),
        storable_text(decimal(info.config.network_interval as nat)),
        storable_text(decimal(info.cycle_total_tx as nat)),
        storable_text(decimal(info.cycle_total_rx as nat)),
        storable_text(signed_decimal(info.next_reset_timestamp as int)),
        storable_text(signed_decimal(info.offset_tx as int)),
        storable_text(signed_decimal(info.offset_rx as int)),
{
    reveal_strlit("true");
    reveal_strlit("false");
    reveal_strlit("Week");
    reveal_strlit("Month");
    reveal_strlit("Year");
    assert("true"@.len() == 4 && "false"@.len() == 5);
    assert("Week"@.len() == 4 && "Month"@.len() == 5 && "Year"@.len() == 4);
    assert("Week"@[0] != "Year"@[0]);
    lemma_decimal_storable(info.config.network_interval as nat);
    lemma_decimal_storable(info.cycle_total_tx as nat);
    lemma_decimal_storable(info.cycle_total_rx as nat);
    lemma_signed_decimal_storable(info.next_reset_timestamp as int);
    lemma_signed_decimal_storable(info.offset_tx as int);
    lemma_signed_decimal_storable(info.offset_rx as int);
}

/// The digits of a number are kept as they are.
pub proof fn lemma_decimal_storable(n: nat)
    ensures
        storable_text(decimal(n)),
{
    lemma_decimal_denotes(n);
    let s = decimal(n);
    assert(is_digit(s[0]));
    assert(is_digit(s.last()));
    assert forall|i: int| 0 <= i < s.len() implies #[trigger] s[i] != '\n' by {
        assert(is_digit(s[i]));
    }
}

/// A written signed number is kept as it is.
pub proof fn lemma_signed_decimal_storable(n: int)
    ensures
        storable_text(signed_decimal(n)),
{
    if n < 0 {
        lemma_decimal_storable((-n) as nat);
        let digits = decimal((-n) as nat);
        let s = signed_decimal(n);
        assert(s.last() == digits.last());
        assert forall|i: int| 0 <= i < s.len() implies #[trigger] s[i] != '\n' by {
            if i > 0 {
                assert(s[i] == digits[i - 1]);
            }
        }
    } else {
        lemma_decimal_storable(n as nat);
    }
}

/// The lines of the text form, from line `from` (1..=12) to the last.
pub open spec fn encoded_from(info: NetworkInfoView, from: int) -> Seq<char>
    decreases 12 - from,
{
    if from < 1 || from >= 12 {
        Seq::empty()
    } else {
        encoded_line(info, from) + encoded_from(info, from + 1)
    }
}

/// Line `index` (1..=11) of the text form.
pub open spec fn encoded_line(info: NetworkInfoView, index: int) -> Seq<char> {
    entry_line(encoded_key(index), encoded_value(info, index))
}

/// The key of line `index` (1..=11) of the text form.
pub open spec fn encoded_key(index: int) -> Key {
    if index == 1 {
        Key::DisableNetworkStatistics
    } else if index == 2 {
        Key::NetworkInterval
    } else if index == 3 {
        Key::NetworkSavePath
    } else if index == 4 {
        Key::TrafficPeriod
    } else if index == 5 {
        Key::TrafficResetDay
    } else if index == 6 {
        Key::BootId
    } else if index == 7 {
        Key::CycleTotalTx
    } else if index == 8 {
        Key::CycleTotalRx
    } else if index == 9 {
        Key::NextResetTimestamp
    } else if index == 10 {
        Key::OffsetTx
    } else {
        Key::OffsetRx
    }
}

/// The value of line `index` (1..=11) of the text form.
pub open spec fn encoded_value(info: NetworkInfoView, index: int) -> Seq<char> {
    if index == 1 {
        bool_text(info.config.disable_network_statistics)
    } else if index == 2 {
        decimal(info.config.network_interval as nat)
    } else if index == 3 {
        info.config.network_save_path
    } else if index == 4 {
        period_text(info.config.traffic_period)
    } else if index == 5 {
        info.config.traffic_reset_day
    } else if index == 6 {
        info.boot_id
    } else if index == 7 {
        decimal(info.cycle_total_tx as nat)
    } else if index == 8 {
        decimal(info.cycle_total_rx as nat)
    } else if index == 9 {
        signed_decimal(info.next_reset_timestamp as int)
    } else if index == 10 {
        signed_decimal(info.offset_tx as int)
    } else {
        signed_decimal(info.offset_rx as int)
    }
}

/// Lines 1 to `count` (1..=11) of the text form.
pub open spec fn encoded_up_to(info: NetworkInfoView, count: int) -> Seq<char>
    decreases count,
{
    if count <= 1 {
        encoded_line(info, 1)
    } else {
        encoded_up_to(info, count - 1) + encoded_line(info, count)
    }
}

/// The first lines of the text form followed by the others are all of them.
pub proof fn lemma_encoded_split(info: NetworkInfoView, count: int)
    requires
        1 <= count <= 11,
    ensures
        encoded_up_to(info, count) + encoded_from(info, count + 1) == encoded_from(info, 1),
    decreases count,
{
    let first = encoded_up_to(info, count);
    let rest = encoded_from(info, count + 1);
    if count == 1 {
        assert(first + rest == encoded_from(info, 1));
    } else {
        lemma_encoded_split(info, count - 1);
        let before = encoded_up_to(info, count - 1);
        let line = encoded_line(info, count);
        assert((before + line) + rest =~= before + (line + rest));
        assert(encoded_from(info, count) == line + rest);
    }
}

/// The text form is its eleven lines, one after the other.
pub proof fn lemma_encoded_lines(info: NetworkInfoView)
    ensures
        encoded(info) == encoded_from(info, 1),
{
    reveal_with_fuel(encoded_up_to, 12);
    assert(encoded(info) == encoded_up_to(info, 11));
    lemma_encoded_split(info, 11);
    assert(encoded_from(info, 12) == Seq::<char>::empty());
    assert(encoded_up_to(info, 11) + Seq::<char>::empty() =~= encoded_up_to(info, 11));
}

/// What has been read when lines 1 to `count` of the text form of `info`
/// have been taken in.
pub open spec fn fields_after(info: NetworkInfoView, count: int) -> FieldsView {
    FieldsView {
        disable_network_statistics: if count >= 1 {
            Some(info.config.disable_network_statistics)
        } else {
            None
        },
        network_interval: if count >= 2 {
            Some(info.config.network_interval)
        } else {
            None
        },
        network_save_path: if count >= 3 {
            Some(info.config.network_save_path)
        } else {
            None
        },
        traffic_period: if count >= 4 {
            Some(info.config.traffic_period)
        } else {
            None
        },
        traffic_reset_day: if count >= 5 {
            Some(info.config.traffic_reset_day)
        } else {
            None
        },
        boot_id: if count >= 6 {
            Some(info.boot_id)
        } else {
            None
        },
        cycle_total_tx: if count >= 7 {
            Some(info.cycle_total_tx)
        } else {
            None
        },
        cycle_total_rx: if count >= 8 {
            Some(info.cycle_total_rx)
        } else {
            None
        },
        next_reset_timestamp: if count >= 9 {
            Some(info.next_reset_timestamp)
        } else {
            None
        },
        offset_tx: if count >= 10 {
            Some(info.offset_tx)
        } else {
            None
        },
        offset_rx: if count >= 11 {
            Some(info.offset_rx)
        } else {
            None
        },
    }
}

/// Taking in line `index` of the text form sets the field of that line.
pub proof fn lemma_read_encoded_line(info: NetworkInfoView, index: int)
    requires
        storable(info),
        1 <= index <= 11,
    ensures
        read_lines(fields_after(info, index - 1), encoded_from(info, index)) == read_lines(
            fields_after(info, index),
            encoded_from(info, index + 1),
        ),
{
    lemma_written_values(info);
    lemma_key_names(encoded_key(index));
    lemma_parse_unsigned_decimal(info.config.network_interval as nat, u32::MAX as int);
    lemma_parse_unsigned_decimal(info.cycle_total_tx as nat, u64::MAX as int);
    lemma_parse_unsigned_decimal(info.cycle_total_rx as nat, u64::MAX as int);
    lemma_parse_signed_decimal(info.next_reset_timestamp as int, i64::MIN as int, i64::MAX as int);
    lemma_parse_signed_decimal(info.offset_tx as int, i64::MIN as int, i64::MAX as int);
    lemma_parse_signed_decimal(info.offset_rx as int, i64::MIN as int, i64::MAX as int);
    lemma_read_entry_line(
        fields_after(info, index - 1),
        encoded_key(index),
        encoded_value(info, index),
        encoded_from(info, index + 1),
    );
    assert(read_entry(
        fields_after(info, index - 1),
        encoded_key(index).name(),
        encoded_value(info, index),
    ) == Ok::<FieldsView, DecodeError>(fields_after(info, index)));
}

/// Reading what `encode` wrote gives the record back, for every record
/// whose path, reset day and boot identifier have no line feed and no white
/// space at their ends. The three offset marks are values like any other.
pub proof fn lemma_decode_encode(info: NetworkInfoView)
    requires
        storable(info),
    ensures
        decoded(encoded(info)) == Ok::<NetworkInfoView, DecodeError>(info),
{
    lemma_encoded_lines(info);
    assert(fields_after(info, 0) == no_fields());
    assert(read_lines(fields_after(info, 11), encoded_from(info, 12)) == Ok::<
        FieldsView,
        DecodeError,
    >(fields_after(info, 11))) by {
        assert(encoded_from(info, 12).take(0) =~= Seq::<char>::empty());
    }
    assert(assemble(fields_after(info, 11)) == Ok::<NetworkInfoView, DecodeError>(info));
    lemma_read_encoded_line(info, 1);
    lemma_read_encoded_line(info, 2);
    lemma_read_encoded_line(info, 3);
    lemma_read_encoded_line(info, 4);
    lemma_read_encoded_line(info, 5);
    lemma_read_encoded_line(info, 6);
    lemma_read_encoded_line(info, 7);
    lemma_read_encoded_line(info, 8);
    lemma_read_encoded_line(info, 9);
    lemma_read_encoded_line(info, 10);
    lemma_read_encoded_line(info, 11);
}

} // verus!
