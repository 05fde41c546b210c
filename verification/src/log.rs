//! Structured device log messages.

use vstd::prelude::*;
use vstd::utf8::valid_utf8;

use crate::bytes::{le16, le32, lemma_le16_round_trip, lemma_le32_round_trip};
use crate::error::ProtocolError;
use crate::wire::{
    rd_finish, rd_u16, rd_u32, rd_u8, rd_utf8, str_bytes, wr_utf8, WireDecode, WireEncode,
    WireReader, WireWriter,
};

verus! {

/// Longest log text, in bytes.
pub const MAX_LOG_TEXT_LEN: usize = 192;

/// How severe a log message is.
#[derive(Clone, Copy, Debug, PartialEq, Eq, Structural)]
pub enum LogSeverity {
    Trace,
    Debug,
    Info,
    Warn,
    Error,
}

/// The wire code of a severity.
pub open spec fn severity_code(s: LogSeverity) -> u8 {
    match s {
        LogSeverity::Trace => 0,
        LogSeverity::Debug => 1,
        LogSeverity::Info => 2,
        LogSeverity::Warn => 3,
        LogSeverity::Error => 4,
    }
}

/// The severity a wire code names; codes above 4 are `InvalidValue`.
pub open spec fn severity_from_code(v: u8) -> Result<LogSeverity, ProtocolError> {
    if v == 0 {
        Ok(LogSeverity::Trace)
    } else if v == 1 {
        Ok(LogSeverity::Debug)
    } else if v == 2 {
        Ok(LogSeverity::Info)
    } else if v == 3 {
        Ok(LogSeverity::Warn)
    } else if v == 4 {
        Ok(LogSeverity::Error)
    } else {
        Err(ProtocolError::InvalidValue)
    }
}

impl LogSeverity {
    /// The wire code of this severity.
    pub fn as_u8(self) -> (v: u8)
        ensures
            v == severity_code(self),
    {
        match self {
            LogSeverity::Trace => 0,
            LogSeverity::Debug => 1,
            LogSeverity::Info => 2,
            LogSeverity::Warn => 3,
            LogSeverity::Error => 4,
        }
    }

    /// The severity a wire code names; see `severity_from_code`.
    pub fn try_from_u8(value: u8) -> (r: Result<LogSeverity, ProtocolError>)
        ensures
            r == severity_from_code(value),
    {
        match value {
            0 => Ok(LogSeverity::Trace),
            1 => Ok(LogSeverity::Debug),
            2 => Ok(LogSeverity::Info),
            3 => Ok(LogSeverity::Warn),
            4 => Ok(LogSeverity::Error),
            _ => Err(ProtocolError::InvalidValue),
        }
    }
}

/// One structured log line from a device.
#[derive(Clone, Debug, PartialEq, Eq)]
pub struct LogMessage {
    pub timestamp_us: u32,
    pub severity: LogSeverity,
    pub module_id: u16,
    pub text: String,
}

/// A `LogMessage` with its text as UTF-8 bytes.
pub struct LogMessageView {
    pub timestamp_us: u32,
    pub severity: LogSeverity,
    pub module_id: u16,
    pub text: Seq<u8>,
}

impl View for LogMessage {
    type V = LogMessageView;

    open spec fn view(&self) -> LogMessageView {
        LogMessageView {
            timestamp_us: self.timestamp_us,
            severity: self.severity,
            module_id: self.module_id,
            text: str_bytes(self.text),
        }
    }
}

/// A log message on the wire; text over 192 bytes is `StringTooLong`.
pub open spec fn log_to_wire(v: LogMessageView) -> Result<Seq<u8>, ProtocolError> {
    if v.text.len() > MAX_LOG_TEXT_LEN {
        Err(ProtocolError::StringTooLong)
    } else {
        Ok(le32(v.timestamp_us) + seq![severity_code(v.severity)] + le16(v.module_id) + wr_utf8(
            v.text,
        ))
    }
}

/// Fields in order: timestamp, severity, module, text.
pub open spec fn log_from_wire(b: Seq<u8>) -> Result<LogMessageView, ProtocolError> {
    match rd_u32(b, 0) {
        Err(e) => Err(e),
        Ok((timestamp_us, o1)) => match rd_u8(b, o1) {
            Err(e) => Err(e),
            Ok((s, o2)) => match severity_from_code(s) {
                Err(e) => Err(e),
                Ok(severity) => match rd_u16(b, o2) {
                    Err(e) => Err(e),
                    Ok((module_id, o3)) => match rd_utf8(b, o3, MAX_LOG_TEXT_LEN as int) {
                        Err(e) => Err(e),
                        Ok((text, o4)) => match rd_finish(b, o4) {
                            Err(e) => Err(e),
                            Ok(_) => Ok(LogMessageView { timestamp_us, severity, module_id, text }),
                        },
                    },
                },
            },
        },
    }
}

impl WireEncode for LogMessage {
    open spec fn spec_wire_encode(v: LogMessageView) -> Result<Seq<u8>, ProtocolError> {
        log_to_wire(v)
    }

    fn encode(&self) -> (r: Result<Vec<u8>, ProtocolError>) {
        let text = self.text.as_str();
        if text.as_bytes().len() > MAX_LOG_TEXT_LEN {
            return Err(ProtocolError::StringTooLong);
        }
        let mut writer = WireWriter::new();
        writer.put_u32(self.timestamp_us);
        writer.put_u8(self.severity.as_u8());
        writer.put_u16(self.module_id);
        writer.put_utf8_u8_len(text, MAX_LOG_TEXT_LEN)?;
        proof {
            assert(writer@ =~= log_to_wire(self@)->Ok_0);
        }
        Ok(writer.into_inner())
    }
}

impl WireDecode for LogMessage {
    open spec fn spec_wire_decode(b: Seq<u8>) -> Result<LogMessageView, ProtocolError> {
        log_from_wire(b)
    }

    fn decode(bytes: &[u8]) -> (r: Result<LogMessage, ProtocolError>) {
        let mut reader = WireReader::new(bytes);
        let timestamp_us = reader.read_u32()?;
        let severity = LogSeverity::try_from_u8(reader.read_u8()?)?;
        let module_id = reader.read_u16()?;
        let text = reader.read_utf8_u8_len(MAX_LOG_TEXT_LEN)?;
        reader.finish()?;
        Ok(LogMessage { timestamp_us, severity, module_id, text })
    }
}

/// Every log message that encodes decodes back from its encoding.
pub proof fn lemma_log_round_trip(v: LogMessageView)
    requires
        log_to_wire(v) is Ok,
        valid_utf8(v.text),
    ensures
        log_from_wire(log_to_wire(v)->Ok_0) == Ok::<LogMessageView, ProtocolError>(v),
{
    let b = log_to_wire(v)->Ok_0;
    lemma_le32_round_trip(v.timestamp_us);
    lemma_le16_round_trip(v.module_id);
    assert(b.subrange(8, 8 + v.text.len() as int) =~= v.text);
    assert(b[0] == le32(v.timestamp_us)[0] && b[1] == le32(v.timestamp_us)[1]);
    assert(b[2] == le32(v.timestamp_us)[2] && b[3] == le32(v.timestamp_us)[3]);
    assert(b[4] == severity_code(v.severity));
    assert(b[5] == le16(v.module_id)[0] && b[6] == le16(v.module_id)[1]);
    assert(b[7] == v.text.len() as u8);
}

} // verus!
