//! OpenTelemetry Logs data model accepted at the ingest boundary: the shape
//! of a decoded OTLP-JSON log payload, and the validity rules for trace and
//! span identifiers, the severity enumeration and the flags bitmask.
//!
//! Validation never aborts a batch: an invalid optional sub-field degrades to
//! "absent". Only a structurally undecodable payload is rejected, with
//! [`PayloadError::MalformedPayload`]; decoding itself happens outside this
//! crate, which receives the already decoded structures below.

use vstd::prelude::*;
use vstd::string::StringSliceAdditionalSpecFns;

verus! {

/// A typed attribute value. Free-form bodies and attributes are carried as
/// one of these closed variants.
pub enum AnyValue {
    StringValue(String),
    BoolValue(bool),
    IntValue(i64),
    BytesValue(Vec<u8>),
}

/// A key-value pair used for attributes. Key uniqueness is a MUST of the
/// protocol but is not enforced here: duplicate keys pass through unchanged.
pub struct KeyValue {
    pub key: String,
    pub value: Option<AnyValue>,
}

/// The instrumentation scope that produced a batch of log records.
pub struct InstrumentationScope {
    pub name: Option<String>,
    pub version: Option<String>,
    pub attributes: Option<Vec<KeyValue>>,
    pub dropped_attributes_count: Option<u32>,
}

/// Resource information: the entity producing telemetry.
pub struct Resource {
    /// Set of attributes that describe the resource. Attribute keys MUST be
    /// unique per the protocol; duplicates are passed through unchanged.
    pub attributes: Option<Vec<KeyValue>>,
    /// Number of dropped attributes; 0 means none were dropped.
    pub dropped_attributes_count: Option<u32>,
}

/// A log record according to the OpenTelemetry Log Data Model.
pub struct LogRecord {
    /// Time the event occurred, in nanoseconds since the UNIX epoch, carried
    /// as a decimal string to survive transports with 53-bit integer limits.
    /// 0 means unknown or missing timestamp.
    pub time_unix_nano: Option<String>,
    /// Time the event was observed by the collection system; same encoding
    /// and "0 means unknown" convention as `time_unix_nano`.
    pub observed_time_unix_nano: Option<String>,
    /// Numerical severity, normalized to the Log Data Model values.
    pub severity_number: Option<i32>,
    /// The severity text (log level) as known at the source.
    pub severity_text: Option<String>,
    pub name: Option<String>,
    /// The body of the log record.
    pub body: Option<AnyValue>,
    /// Additional attributes describing the event.
    pub attributes: Option<Vec<KeyValue>>,
    pub dropped_attributes_count: Option<u32>,
    /// Bit field: the 8 least significant bits are the W3C trace flags; the
    /// 24 most significant bits are reserved and must be masked off by
    /// readers even when non-zero.
    pub flags: Option<u32>,
    /// Identifier of the trace, hex-encoded on the wire. An identifier of
    /// all zeroes or of length other than 16 raw bytes is invalid.
    pub trace_id: Option<String>,
    /// Identifier of the span, hex-encoded on the wire. An identifier of all
    /// zeroes or of length other than 8 raw bytes is invalid.
    pub span_id: Option<String>,
}

/// A collection of log records produced by one scope.
pub struct ScopeLogs {
    pub scope: Option<InstrumentationScope>,
    pub log_records: Vec<LogRecord>,
    pub schema_url: Option<String>,
}

/// A collection of [`ScopeLogs`] from one resource.
pub struct ResourceLogs {
    pub resource: Option<Resource>,
    pub scope_logs: Option<Vec<ScopeLogs>>,
    pub schema_url: Option<String>,
}

/// The decoded logs payload: an array of [`ResourceLogs`].
pub struct LogsData {
    pub resource_logs: Option<Vec<ResourceLogs>>,
}

/// Rejection of a structurally malformed (undecodable) payload. The record
/// is fatal for itself only; the surrounding batch continues.
pub enum PayloadError {
    MalformedPayload,
}

/// Compares two string slices by their character sequences.
pub(crate) fn str_eq(a: &str, b: &str) -> (r: bool)
    ensures
        r == (a@ == b@),
{
    let x: String = a.to_owned();
    let y: String = b.to_owned();
    x == y
}

/// Severity of a log record, ordered TRACE < DEBUG < INFO < WARN < ERROR <
/// FATAL with four fine-grained levels each, plus the default `Unspecified`,
/// which MUST NOT drive severity-based logic.
#[derive(Clone, Copy, Debug, PartialEq, Eq, Structural)]
pub enum SeverityNumber {
    Unspecified,
    Trace,
    Trace2,
    Trace3,
    Trace4,
    Debug,
    Debug2,
    Debug3,
    Debug4,
    Info,
    Info2,
    Info3,
    Info4,
    Warn,
    Warn2,
    Warn3,
    Warn4,
    Error,
    Error2,
    Error3,
    Error4,
    Fatal,
    Fatal2,
    Fatal3,
    Fatal4,
}

impl SeverityNumber {
    /// Severity denoted by a raw severity number: 1 to 24 map onto the
    /// ordered scale, 0 and every out-of-range value mean `Unspecified`.
    pub open spec fn spec_from_number(n: int) -> SeverityNumber {
        if n == 1 {
            SeverityNumber::Trace
        } else if n == 2 {
            SeverityNumber::Trace2
        } else if n == 3 {
            SeverityNumber::Trace3
        } else if n == 4 {
            SeverityNumber::Trace4
        } else if n == 5 {
            SeverityNumber::Debug
        } else if n == 6 {
            SeverityNumber::Debug2
        } else if n == 7 {
            SeverityNumber::Debug3
        } else if n == 8 {
            SeverityNumber::Debug4
        } else if n == 9 {
            SeverityNumber::Info
        } else if n == 10 {
            SeverityNumber::Info2
        } else if n == 11 {
            SeverityNumber::Info3
        } else if n == 12 {
            SeverityNumber::Info4
        } else if n == 13 {
            SeverityNumber::Warn
        } else if n == 14 {
            SeverityNumber::Warn2
        } else if n == 15 {
            SeverityNumber::Warn3
        } else if n == 16 {
            SeverityNumber::Warn4
        } else if n == 17 {
            SeverityNumber::Error
        } else if n == 18 {
            SeverityNumber::Error2
        } else if n == 19 {
            SeverityNumber::Error3
        } else if n == 20 {
            SeverityNumber::Error4
        } else if n == 21 {
            SeverityNumber::Fatal
        } else if n == 22 {
            SeverityNumber::Fatal2
        } else if n == 23 {
            SeverityNumber::Fatal3
        } else if n == 24 {
            SeverityNumber::Fatal4
        } else {
            SeverityNumber::Unspecified
        }
    }

    /// Normalizes a raw severity number: values 1-24 select the ordered
    /// scale, 0 and out-of-range values become `Unspecified`.
    pub fn from_number(n: i32) -> (r: SeverityNumber)
        ensures
            r == Self::spec_from_number(n as int),
    {
        match n {
            1 => SeverityNumber::Trace,
            2 => SeverityNumber::Trace2,
            3 => SeverityNumber::Trace3,
            4 => SeverityNumber::Trace4,
            5 => SeverityNumber::Debug,
            6 => SeverityNumber::Debug2,
            7 => SeverityNumber::Debug3,
            8 => SeverityNumber::Debug4,
            9 => SeverityNumber::Info,
            10 => SeverityNumber::Info2,
            11 => SeverityNumber::Info3,
            12 => SeverityNumber::Info4,
            13 => SeverityNumber::Warn,
            14 => SeverityNumber::Warn2,
            15 => SeverityNumber::Warn3,
            16 => SeverityNumber::Warn4,
            17 => SeverityNumber::Error,
            18 => SeverityNumber::Error2,
            19 => SeverityNumber::Error3,
            20 => SeverityNumber::Error4,
            21 => SeverityNumber::Fatal,
            22 => SeverityNumber::Fatal2,
            23 => SeverityNumber::Fatal3,
            24 => SeverityNumber::Fatal4,
            _ => SeverityNumber::Unspecified,
        }
    }

    /// The stable ProtoBuf field name of a raw severity number.
    pub open spec fn spec_as_str_name(n: int) -> Seq<char> {
        if n == 0 {
            "SEVERITY_NUMBER_UNSPECIFIED"@
        } else if n == 1 {
            "SEVERITY_NUMBER_TRACE"@
        } else if n == 2 {
            "SEVERITY_NUMBER_TRACE2"@
        } else if n == 3 {
            "SEVERITY_NUMBER_TRACE3"@
        } else if n == 4 {
            "SEVERITY_NUMBER_TRACE4"@
        } else if n == 5 {
            "SEVERITY_NUMBER_DEBUG"@
        } else if n == 6 {
            "SEVERITY_NUMBER_DEBUG2"@
        } else if n == 7 {
            "SEVERITY_NUMBER_DEBUG3"@
        } else if n == 8 {
            "SEVERITY_NUMBER_DEBUG4"@
        } else if n == 9 {
            "SEVERITY_NUMBER_INFO"@
        } else if n == 10 {
            "SEVERITY_NUMBER_INFO2"@
        } else if n == 11 {
            "SEVERITY_NUMBER_INFO3"@
        } else if n == 12 {
            "SEVERITY_NUMBER_INFO4"@
        } else if n == 13 {
            "SEVERITY_NUMBER_WARN"@
        } else if n == 14 {
            "SEVERITY_NUMBER_WARN2"@
        } else if n == 15 {
            "SEVERITY_NUMBER_WARN3"@
        } else if n == 16 {
            "SEVERITY_NUMBER_WARN4"@
        } else if n == 17 {
            "SEVERITY_NUMBER_ERROR"@
        } else if n == 18 {
            "SEVERITY_NUMBER_ERROR2"@
        } else if n == 19 {
            "SEVERITY_NUMBER_ERROR3"@
        } else if n == 20 {
            "SEVERITY_NUMBER_ERROR4"@
        } else if n == 21 {
            "SEVERITY_NUMBER_FATAL"@
        } else if n == 22 {
            "SEVERITY_NUMBER_FATAL2"@
        } else if n == 23 {
            "SEVERITY_NUMBER_FATAL3"@
        } else if n == 24 {
            "SEVERITY_NUMBER_FATAL4"@
        } else {
            "Invalid severity number"@
        }
    }

    /// String value of the enum field names used in the ProtoBuf definition.
    /// The values are not transformed in any way and are considered stable.
    pub fn as_str_name(severity_number: i32) -> (r: &'static str)
        ensures
            r@ == Self::spec_as_str_name(severity_number as int),
    {
        match severity_number {
            0 => "SEVERITY_NUMBER_UNSPECIFIED",
            1 => "SEVERITY_NUMBER_TRACE",
            2 => "SEVERITY_NUMBER_TRACE2",
            3 => "SEVERITY_NUMBER_TRACE3",
            4 => "SEVERITY_NUMBER_TRACE4",
            5 => "SEVERITY_NUMBER_DEBUG",
            6 => "SEVERITY_NUMBER_DEBUG2",
            7 => "SEVERITY_NUMBER_DEBUG3",
            8 => "SEVERITY_NUMBER_DEBUG4",
            9 => "SEVERITY_NUMBER_INFO",
            10 => "SEVERITY_NUMBER_INFO2",
            11 => "SEVERITY_NUMBER_INFO3",
            12 => "SEVERITY_NUMBER_INFO4",
            13 => "SEVERITY_NUMBER_WARN",
            14 => "SEVERITY_NUMBER_WARN2",
            15 => "SEVERITY_NUMBER_WARN3",
            16 => "SEVERITY_NUMBER_WARN4",
            17 => "SEVERITY_NUMBER_ERROR",
            18 => "SEVERITY_NUMBER_ERROR2",
            19 => "SEVERITY_NUMBER_ERROR3",
            20 => "SEVERITY_NUMBER_ERROR4",
            21 => "SEVERITY_NUMBER_FATAL",
            22 => "SEVERITY_NUMBER_FATAL2",
            23 => "SEVERITY_NUMBER_FATAL3",
            24 => "SEVERITY_NUMBER_FATAL4",
            _ => "Invalid severity number",
        }
    }

    /// The severity denoted by a ProtoBuf field name, if the name is one of
    /// the defined severity names.
    pub open spec fn spec_from_str_name(s: Seq<char>) -> Option<SeverityNumber> {
        if s == "SEVERITY_NUMBER_UNSPECIFIED"@ {
            Some(SeverityNumber::Unspecified)
        } else if s == "SEVERITY_NUMBER_TRACE"@ {
            Some(SeverityNumber::Trace)
        } else if s == "SEVERITY_NUMBER_TRACE2"@ {
            Some(SeverityNumber::Trace2)
        } else if s == "SEVERITY_NUMBER_TRACE3"@ {
            Some(SeverityNumber::Trace3)
        } else if s == "SEVERITY_NUMBER_TRACE4"@ {
            Some(SeverityNumber::Trace4)
        } else if s == "SEVERITY_NUMBER_DEBUG"@ {
            Some(SeverityNumber::Debug)
        } else if s == "SEVERITY_NUMBER_DEBUG2"@ {
            Some(SeverityNumber::Debug2)
        } else if s == "SEVERITY_NUMBER_DEBUG3"@ {
            Some(SeverityNumber::Debug3)
        } else if s == "SEVERITY_NUMBER_DEBUG4"@ {
            Some(SeverityNumber::Debug4)
        } else if s == "SEVERITY_NUMBER_INFO"@ {
            Some(SeverityNumber::Info)
        } else if s == "SEVERITY_NUMBER_INFO2"@ {
            Some(SeverityNumber::Info2)
        } else if s == "SEVERITY_NUMBER_INFO3"@ {
            Some(SeverityNumber::Info3)
        } else if s == "SEVERITY_NUMBER_INFO4"@ {
            Some(SeverityNumber::Info4)
        } else if s == "SEVERITY_NUMBER_WARN"@ {
            Some(SeverityNumber::Warn)
        } else if s == "SEVERITY_NUMBER_WARN2"@ {
            Some(SeverityNumber::Warn2)
        } else if s == "SEVERITY_NUMBER_WARN3"@ {
            Some(SeverityNumber::Warn3)
        } else if s == "SEVERITY_NUMBER_WARN4"@ {
            Some(SeverityNumber::Warn4)
        } else if s == "SEVERITY_NUMBER_ERROR"@ {
            Some(SeverityNumber::Error)
        } else if s == "SEVERITY_NUMBER_ERROR2"@ {
            Some(SeverityNumber::Error2)
        } else if s == "SEVERITY_NUMBER_ERROR3"@ {
            Some(SeverityNumber::Error3)
        } else if s == "SEVERITY_NUMBER_ERROR4"@ {
            Some(SeverityNumber::Error4)
        } else if s == "SEVERITY_NUMBER_FATAL"@ {
            Some(SeverityNumber::Fatal)
        } else if s == "SEVERITY_NUMBER_FATAL2"@ {
            Some(SeverityNumber::Fatal2)
        } else if s == "SEVERITY_NUMBER_FATAL3"@ {
            Some(SeverityNumber::Fatal3)
        } else if s == "SEVERITY_NUMBER_FATAL4"@ {
            Some(SeverityNumber::Fatal4)
        } else {
            None
        }
    }

    /// Creates the severity from a field name used in the ProtoBuf
    /// definition.
    pub fn from_str_name(value: &str) -> (r: Option<SeverityNumber>)
        ensures
            r == Self::spec_from_str_name(value@),
    {
        if str_eq(value, "SEVERITY_NUMBER_UNSPECIFIED") {
            Some(SeverityNumber::Unspecified)
        } else if str_eq(value, "SEVERITY_NUMBER_TRACE") {
            Some(SeverityNumber::Trace)
        } else if str_eq(value, "SEVERITY_NUMBER_TRACE2") {
            Some(SeverityNumber::Trace2)
        } else if str_eq(value, "SEVERITY_NUMBER_TRACE3") {
            Some(SeverityNumber::Trace3)
        } else if str_eq(value, "SEVERITY_NUMBER_TRACE4") {
            Some(SeverityNumber::Trace4)
        } else if str_eq(value, "SEVERITY_NUMBER_DEBUG") {
            Some(SeverityNumber::Debug)
        } else if str_eq(value, "SEVERITY_NUMBER_DEBUG2") {
            Some(SeverityNumber::Debug2)
        } else if str_eq(value, "SEVERITY_NUMBER_DEBUG3") {
            Some(SeverityNumber::Debug3)
        } else if str_eq(value, "SEVERITY_NUMBER_DEBUG4") {
            Some(SeverityNumber::Debug4)
        } else if str_eq(value, "SEVERITY_NUMBER_INFO") {
            Some(SeverityNumber::Info)
        } else if str_eq(value, "SEVERITY_NUMBER_INFO2") {
            Some(SeverityNumber::Info2)
        } else if str_eq(value, "SEVERITY_NUMBER_INFO3") {
            Some(SeverityNumber::Info3)
        } else if str_eq(value, "SEVERITY_NUMBER_INFO4") {
            Some(SeverityNumber::Info4)
        } else if str_eq(value, "SEVERITY_NUMBER_WARN") {
            Some(SeverityNumber::Warn)
        } else if str_eq(value, "SEVERITY_NUMBER_WARN2") {
            Some(SeverityNumber::Warn2)
        } else if str_eq(value, "SEVERITY_NUMBER_WARN3") {
            Some(SeverityNumber::Warn3)
        } else if str_eq(value, "SEVERITY_NUMBER_WARN4") {
            Some(SeverityNumber::Warn4)
        } else if str_eq(value, "SEVERITY_NUMBER_ERROR") {
            Some(SeverityNumber::Error)
        } else if str_eq(value, "SEVERITY_NUMBER_ERROR2") {
            Some(SeverityNumber::Error2)
        } else if str_eq(value, "SEVERITY_NUMBER_ERROR3") {
            Some(SeverityNumber::Error3)
        } else if str_eq(value, "SEVERITY_NUMBER_ERROR4") {
            Some(SeverityNumber::Error4)
        } else if str_eq(value, "SEVERITY_NUMBER_FATAL") {
            Some(SeverityNumber::Fatal)
        } else if str_eq(value, "SEVERITY_NUMBER_FATAL2") {
            Some(SeverityNumber::Fatal2)
        } else if str_eq(value, "SEVERITY_NUMBER_FATAL3") {
            Some(SeverityNumber::Fatal3)
        } else if str_eq(value, "SEVERITY_NUMBER_FATAL4") {
            Some(SeverityNumber::Fatal4)
        } else {
            None
        }
    }
}

/// Flag masks of the log-record `flags` bit field. Only the trace-flags mask
/// is defined; readers must mask with it rather than compare whole values.
#[derive(Clone, Copy, Debug, PartialEq, Eq, Structural)]
pub enum LogRecordFlags {
    /// The zero value of the enumeration; not meant for comparisons.
    DoNotUse,
    /// Mask of the 8 low bits that carry the W3C trace flags.
    TraceFlagsMask,
}

impl LogRecordFlags {
    /// The stable ProtoBuf field name of a raw flag value.
    pub open spec fn spec_as_str_name(flag: int) -> Seq<char> {
        if flag == 0 {
            "LOG_RECORD_FLAGS_DO_NOT_USE"@
        } else if flag == 255 {
            "LOG_RECORD_FLAGS_TRACE_FLAGS_MASK"@
        } else {
            "Invalid flag"@
        }
    }

    /// String value of the enum field names used in the ProtoBuf definition.
    pub fn as_str_name(flag: u32) -> (r: &'static str)
        ensures
            r@ == Self::spec_as_str_name(flag as int),
    {
        match flag {
            0 => "LOG_RECORD_FLAGS_DO_NOT_USE",
            255 => "LOG_RECORD_FLAGS_TRACE_FLAGS_MASK",
            _ => "Invalid flag",
        }
    }

    /// The flag mask denoted by a ProtoBuf field name, if any.
    pub open spec fn spec_from_str_name(s: Seq<char>) -> Option<LogRecordFlags> {
        if s == "LOG_RECORD_FLAGS_DO_NOT_USE"@ {
            Some(LogRecordFlags::DoNotUse)
        } else if s == "LOG_RECORD_FLAGS_TRACE_FLAGS_MASK"@ {
            Some(LogRecordFlags::TraceFlagsMask)
        } else {
            None
        }
    }

    /// Creates the flag mask from a field name used in the ProtoBuf
    /// definition.
    pub fn from_str_name(value: &str) -> (r: Option<LogRecordFlags>)
        ensures
            r == Self::spec_from_str_name(value@),
    {
        if str_eq(value, "LOG_RECORD_FLAGS_DO_NOT_USE") {
            Some(LogRecordFlags::DoNotUse)
        } else if str_eq(value, "LOG_RECORD_FLAGS_TRACE_FLAGS_MASK") {
            Some(LogRecordFlags::TraceFlagsMask)
        } else {
            None
        }
    }
}

/// The 8 low (trace-flag) bits of a raw `flags` field; the 24 reserved high
/// bits are ignored even when non-zero.
pub fn trace_flags(flags: u32) -> (r: u32)
    ensures
        r == flags & 0xFF,
        r < 256,
{
    proof {
        assert(flags & 0xFF < 256) by (bit_vector);
    }
    flags & 0xFF
}

/// A trace identifier is valid only as exactly 16 raw bytes, not all zero.
pub open spec fn spec_valid_trace_id(b: Seq<u8>) -> bool {
    b.len() == 16 && exists|i: int| 0 <= i < b.len() && b[i] != 0
}

/// A span identifier is valid only as exactly 8 raw bytes, not all zero.
pub open spec fn spec_valid_span_id(b: Seq<u8>) -> bool {
    b.len() == 8 && exists|i: int| 0 <= i < b.len() && b[i] != 0
}

/// Normalization of a trace identifier: a valid one is kept unchanged, any
/// other is treated as absent, never as an error.
pub open spec fn spec_normalize_trace_id(b: Seq<u8>) -> Option<Seq<u8>> {
    if spec_valid_trace_id(b) {
        Some(b)
    } else {
        None
    }
}

/// Normalization of a span identifier, with the same absent-on-invalid
/// policy as trace identifiers.
pub open spec fn spec_normalize_span_id(b: Seq<u8>) -> Option<Seq<u8>> {
    if spec_valid_span_id(b) {
        Some(b)
    } else {
        None
    }
}

/// Whether some byte in the identifier is non-zero.
fn has_nonzero_byte(b: &Vec<u8>) -> (r: bool)
    ensures
        r == exists|i: int| 0 <= i < b@.len() && b@[i] != 0,
{
    let mut k: usize = 0;
    while k < b.len()
        invariant
            0 <= k <= b@.len(),
            forall|i: int| 0 <= i < k ==> b@[i] == 0,
        decreases b@.len() - k,
    {
        if b[k] != 0 {
            return true;
        }
        k = k + 1;
    }
    false
}

/// Checks the validity rule for trace identifiers: exactly 16 raw bytes and
/// not all zero.
pub fn validate_trace_id(b: &Vec<u8>) -> (r: bool)
    ensures
        r == spec_valid_trace_id(b@),
{
    b.len() == 16 && has_nonzero_byte(b)
}

/// Checks the validity rule for span identifiers: exactly 8 raw bytes and
/// not all zero.
pub fn validate_span_id(b: &Vec<u8>) -> (r: bool)
    ensures
        r == spec_valid_span_id(b@),
{
    b.len() == 8 && has_nonzero_byte(b)
}

/// Normalizes a trace identifier: a valid one is returned as given, an
/// invalid one becomes `None` (downstream trace association is dropped).
pub fn normalize_trace_id(b: Vec<u8>) -> (r: Option<Vec<u8>>)
    ensures
        match r {
            Some(v) => spec_normalize_trace_id(b@) == Some(v@) && v@ == b@,
            None => spec_normalize_trace_id(b@) is None,
        },
{
    if validate_trace_id(&b) {
        Some(b)
    } else {
        None
    }
}

/// Normalizes a span identifier with the same absent-on-invalid policy.
pub fn normalize_span_id(b: Vec<u8>) -> (r: Option<Vec<u8>>)
    ensures
        match r {
            Some(v) => spec_normalize_span_id(b@) == Some(v@) && v@ == b@,
            None => spec_normalize_span_id(b@) is None,
        },
{
    if validate_span_id(&b) {
        Some(b)
    } else {
        None
    }
}

/// A valid trace identifier round-trips: normalization keeps it unchanged
/// and the result is still valid, so normalizing again changes nothing.
pub proof fn lemma_trace_id_round_trip(b: Seq<u8>)
    requires
        spec_valid_trace_id(b),
    ensures
        spec_normalize_trace_id(b) == Some(b),
        spec_normalize_trace_id(spec_normalize_trace_id(b)->Some_0) == Some(b),
{
}

/// A valid span identifier round-trips under normalization the same way.
pub proof fn lemma_span_id_round_trip(b: Seq<u8>)
    requires
        spec_valid_span_id(b),
    ensures
        spec_normalize_span_id(b) == Some(b),
        spec_normalize_span_id(spec_normalize_span_id(b)->Some_0) == Some(b),
{
}

/// Whether a byte is an ASCII decimal digit.
pub open spec fn spec_is_digit(b: u8) -> bool {
    48 <= b <= 57
}

/// The number denoted by a sequence of ASCII digit bytes, most significant
/// first.
pub open spec fn spec_digits_value(s: Seq<u8>) -> int
    decreases s.len(),
{
    if s.len() == 0 {
        0
    } else {
        spec_digits_value(s.drop_last()) * 10 + (s.last() - 48)
    }
}

/// Whether a byte sequence is a well-formed decimal number: non-empty, all
/// digits, and within the 64-bit range.
pub open spec fn spec_decimal_u64(s: Seq<u8>) -> bool {
    s.len() > 0 && (forall|i: int| 0 <= i < s.len() ==> spec_is_digit(s[i]))
        && spec_digits_value(s) <= u64::MAX
}

/// The timestamp denoted by a decimal string, read from its bytes: `None`
/// when the text is not a decimal number that fits 64 bits.
pub open spec fn spec_parse_timestamp(s: Seq<u8>) -> Option<u64> {
    if spec_decimal_u64(s) {
        Some(spec_digits_value(s) as u64)
    } else {
        None
    }
}

/// Parses a nanosecond epoch timestamp carried as a decimal string.
pub fn parse_timestamp(s: &str) -> (r: Option<u64>)
    ensures
        r == spec_parse_timestamp(s.spec_bytes()),
{
    let bytes: &[u8] = s.as_bytes();
    if bytes.len() == 0 {
        return None;
    }
    let ghost bs: Seq<u8> = bytes@;
    let mut acc: u64 = 0;
    let mut k: usize = 0;
    while k < bytes.len()
        invariant
            bytes@ == bs,
            bs == s.spec_bytes(),
            0 <= k <= bs.len(),
            forall|i: int| 0 <= i < k ==> spec_is_digit(bs[i]),
            acc == spec_digits_value(bs.subrange(0, k as int)),
        decreases bs.len() - k,
    {
        let b: u8 = bytes[k];
        if b < 48 || b > 57 {
            proof {
                assert(!spec_is_digit(bs[k as int]));
                assert(!spec_decimal_u64(bs));
            }
            return None;
        }
        let d: u64 = (b - 48) as u64;
        proof {
            assert(bs.subrange(0, (k + 1) as int).drop_last() =~= bs.subrange(0, k as int));
            assert(bs.subrange(0, (k + 1) as int).last() == bs[k as int]);
        }
        let stepped: Option<u64> = acc.checked_mul(10);
        match stepped {
            Some(p) => {
                let summed: Option<u64> = p.checked_add(d);
                match summed {
                    Some(v) => {
                        acc = v;
                        k = k + 1;
                    },
                    None => {
                        proof {
                            if spec_decimal_u64(bs) {
                                lemma_digits_prefix_le(bs, k + 1);
                            }
                        }
                        return None;
                    },
                }
            },
            None => {
                proof {
                    if spec_decimal_u64(bs) {
                        lemma_digits_prefix_le(bs, k + 1);
                    }
                }
                return None;
            },
        }
    }
    proof {
        assert(bs.subrange(0, k as int) =~= bs);
    }
    Some(acc)
}

/// A sequence of digit bytes denotes a non-negative number.
proof fn lemma_digits_nonneg(s: Seq<u8>)
    requires
        forall|i: int| 0 <= i < s.len() ==> spec_is_digit(s[i]),
    ensures
        spec_digits_value(s) >= 0,
    decreases s.len(),
{
    if s.len() > 0 {
        assert(forall|i: int|
            0 <= i < s.drop_last().len() ==> spec_is_digit(#[trigger] s.drop_last()[i]));
        lemma_digits_nonneg(s.drop_last());
    }
}

/// The number denoted by a digit sequence is at least the number denoted by
/// any of its prefixes: appending digits never shrinks the value.
proof fn lemma_digits_prefix_le(s: Seq<u8>, n: int)
    requires
        0 <= n <= s.len(),
        forall|i: int| 0 <= i < s.len() ==> spec_is_digit(s[i]),
    ensures
        0 <= spec_digits_value(s.subrange(0, n)),
        spec_digits_value(s.subrange(0, n)) <= spec_digits_value(s),
    decreases s.len() - n,
{
    assert(forall|i: int|
        0 <= i < s.subrange(0, n).len() ==> spec_is_digit(#[trigger] s.subrange(0, n)[i]));
    lemma_digits_nonneg(s.subrange(0, n));
    if n == s.len() {
        assert(s.subrange(0, n) =~= s);
    } else {
        assert(s.subrange(0, n + 1).drop_last() =~= s.subrange(0, n));
        assert(s.subrange(0, n + 1).last() == s[n]);
        lemma_digits_prefix_le(s, n + 1);
    }
}

/// The timestamp denoted by an optional decimal-string field: 0 (unknown)
/// when the field is absent or not a well-formed decimal number.
pub open spec fn spec_ts_value(t: Option<String>) -> u64 {
    match t {
        Some(s) => match spec_parse_timestamp(vstd::utf8::encode_utf8(s@)) {
            Some(v) => v,
            None => 0,
        },
        None => 0,
    }
}

/// The resolved single timestamp of a record: `time_unix_nano` when present
/// and non-zero, else `observed_time_unix_nano`, else 0 (unknown).
pub open spec fn spec_resolved_timestamp(time: Option<String>, observed: Option<String>) -> u64 {
    if spec_ts_value(time) != 0 {
        spec_ts_value(time)
    } else {
        spec_ts_value(observed)
    }
}

/// Reads an optional decimal-string timestamp field; absent or malformed
/// fields degrade to 0 (unknown), never to an error.
pub fn ts_value(t: &Option<String>) -> (r: u64)
    ensures
        r == spec_ts_value(*t),
{
    match t {
        Some(s) => match parse_timestamp(s.as_str()) {
            Some(v) => v,
            None => 0,
        },
        None => 0,
    }
}

/// Resolves the one timestamp of a record, preferring `time_unix_nano` when
/// it is present and non-zero.
pub fn resolve_timestamp(time: &Option<String>, observed: &Option<String>) -> (r: u64)
    ensures
        r == spec_resolved_timestamp(*time, *observed),
{
    let t: u64 = ts_value(time);
    if t != 0 {
        t
    } else {
        ts_value(observed)
    }
}

/// Whether a byte is an ASCII hexadecimal digit.
pub open spec fn spec_is_hex_digit(b: u8) -> bool {
    (48 <= b <= 57) || (97 <= b <= 102) || (65 <= b <= 70)
}

/// The value of one hexadecimal digit byte.
pub open spec fn spec_hex_value(b: u8) -> int {
    if 48 <= b <= 57 {
        b - 48
    } else if 97 <= b <= 102 {
        b - 87
    } else {
        b - 55
    }
}

/// Whether a byte sequence is a well-formed hexadecimal string: an even
/// number of hexadecimal digits.
pub open spec fn spec_hex_ok(s: Seq<u8>) -> bool {
    s.len() % 2 == 0 && (forall|i: int| 0 <= i < s.len() ==> spec_is_hex_digit(#[trigger] s[i]))
}

/// The raw bytes a well-formed hexadecimal string denotes, two digits per
/// byte, most significant first.
pub open spec fn spec_hex_bytes(s: Seq<u8>) -> Seq<u8> {
    Seq::new((s.len() / 2) as nat, |i: int| (spec_hex_value(s[2 * i]) * 16 + spec_hex_value(s[2 * i + 1])) as u8)
}

/// Decodes a hex-encoded identifier, as trace and span identifiers arrive
/// on the wire; text that is not an even run of hexadecimal digits yields
/// `None` (the identifier then counts as absent).
pub fn decode_hex(s: &str) -> (r: Option<Vec<u8>>)
    ensures
        match r {
            Some(v) => spec_hex_ok(s.spec_bytes()) && v@ == spec_hex_bytes(s.spec_bytes()),
            None => !spec_hex_ok(s.spec_bytes()),
        },
{
    let bytes: &[u8] = s.as_bytes();
    if bytes.len() % 2 != 0 {
        return None;
    }
    let ghost bs: Seq<u8> = bytes@;
    let mut out: Vec<u8> = Vec::new();
    let mut k: usize = 0;
    while k < bytes.len()
        invariant
            bytes@ == bs,
            bs == s.spec_bytes(),
            bs.len() % 2 == 0,
            0 <= k <= bs.len(),
            k % 2 == 0,
            forall|i: int| 0 <= i < k ==> spec_is_hex_digit(#[trigger] bs[i]),
            out@.len() == k / 2,
            forall|j: int|
                0 <= j < out@.len() ==> #[trigger] out@[j] == (spec_hex_value(bs[2 * j]) * 16
                    + spec_hex_value(bs[2 * j + 1])) as u8,
        decreases bs.len() - k,
    {
        let hi: u8 = bytes[k];
        let lo: u8 = bytes[k + 1];
        let hv: u8 = if 48 <= hi && hi <= 57 {
            hi - 48
        } else if 97 <= hi && hi <= 102 {
            hi - 87
        } else if 65 <= hi && hi <= 70 {
            hi - 55
        } else {
            proof {
                assert(!spec_is_hex_digit(bs[k as int]));
            }
            return None;
        };
        let lv: u8 = if 48 <= lo && lo <= 57 {
            lo - 48
        } else if 97 <= lo && lo <= 102 {
            lo - 87
        } else if 65 <= lo && lo <= 70 {
            lo - 55
        } else {
            proof {
                assert(!spec_is_hex_digit(bs[k + 1]));
            }
            return None;
        };
        out.push(hv * 16 + lv);
        k = k + 2;
    }
    proof {
        assert(out@ =~= spec_hex_bytes(bs));
    }
    Some(out)
}

/// A normalized ingest event: what the accounting manager counts. Emitted by
/// the validator from a decoded log record and its envelope.
pub struct IngestEvent {
    /// The logical stream the event is ingested into.
    pub stream: String,
    /// The ingestion encoding tag of the stream.
    pub format: String,
    /// Size of the event in bytes, as accounted by the ingest boundary.
    pub size_bytes: u64,
    /// Resolved event timestamp in nanoseconds since the UNIX epoch; 0 means
    /// unknown.
    pub timestamp_unix_nano: u64,
    /// Normalized severity; `Unspecified` must not drive severity logic.
    pub severity: SeverityNumber,
    /// The 8 defined trace-flag bits; reserved bits already masked off.
    pub trace_flags: u32,
    /// Validated trace identifier, absent when invalid.
    pub trace_id: Option<Vec<u8>>,
    /// Validated span identifier, absent when invalid.
    pub span_id: Option<Vec<u8>>,
}

impl IngestEvent {
    /// Validates a decoded log record and emits the normalized event.
    ///
    /// The stream target, the accounted size and the raw identifier bytes
    /// come from the enclosing envelope, which also hex-decodes the
    /// identifiers; an absent or undecodable identifier arrives as `None`.
    /// Invalid optional sub-fields degrade to absent, never to an error.
    pub fn from_record(
        record: &LogRecord,
        stream: &str,
        format: &str,
        size_bytes: u64,
        trace_id_bytes: Option<Vec<u8>>,
        span_id_bytes: Option<Vec<u8>>,
    ) -> (e: IngestEvent)
        ensures
            e.stream@ == stream@,
            e.format@ == format@,
            e.size_bytes == size_bytes,
            e.timestamp_unix_nano == spec_resolved_timestamp(
                record.time_unix_nano,
                record.observed_time_unix_nano,
            ),
            e.severity == SeverityNumber::spec_from_number(
                match record.severity_number {
                    Some(n) => n as int,
                    None => 0,
                },
            ),
            e.trace_flags == (match record.flags {
                Some(f) => f,
                None => 0,
            } & 0xFF),
            e.trace_id matches Some(v) ==> trace_id_bytes matches Some(b) && v@ == b@
                && spec_valid_trace_id(v@),
            (match trace_id_bytes {
                Some(b) => spec_valid_trace_id(b@),
                None => false,
            }) <==> e.trace_id is Some,
            e.span_id matches Some(v) ==> span_id_bytes matches Some(b) && v@ == b@
                && spec_valid_span_id(v@),
            (match span_id_bytes {
                Some(b) => spec_valid_span_id(b@),
                None => false,
            }) <==> e.span_id is Some,
    {
        let severity_raw: i32 = match record.severity_number {
            Some(n) => n,
            None => 0,
        };
        let flags_raw: u32 = match record.flags {
            Some(f) => f,
            None => 0,
        };
        let trace_id: Option<Vec<u8>> = match trace_id_bytes {
            Some(b) => normalize_trace_id(b),
            None => None,
        };
        let span_id: Option<Vec<u8>> = match span_id_bytes {
            Some(b) => normalize_span_id(b),
            None => None,
        };
        IngestEvent {
            stream: stream.to_owned(),
            format: format.to_owned(),
            size_bytes,
            timestamp_unix_nano: resolve_timestamp(
                &record.time_unix_nano,
                &record.observed_time_unix_nano,
            ),
            severity: SeverityNumber::from_number(severity_raw),
            trace_flags: trace_flags(flags_raw),
            trace_id,
            span_id,
        }
    }
}

} // verus!
