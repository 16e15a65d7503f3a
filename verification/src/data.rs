//! The command message: a request line, ten `Key=Value` header lines, a
//! blank line and a JSON body, all lines ending in CRLF.

use std::time::{Duration, SystemTime, SystemTimeError, UNIX_EPOCH};
use vstd::prelude::*;
use vstd::string::*;
use vstd::utf8::encode_utf8;
use crate::error::ProtocolError;
use crate::frame::{build_frame, escape, frame_of, MAX_PAYLOAD};
use crate::text::{
    decimal, digits_value, is_digit, lemma_decimal_value, lemma_signed_decimal_one_line,
    push_decimal, push_signed_decimal, signed_decimal,
};

verus! {

/// The kinds of body that a command can carry.
#[derive(Debug)]
pub enum ContentType {
    Json,
}

impl ContentType {
    /// The value of the `ContentType` header.
    pub open spec fn text(&self) -> Seq<char> {
        match self {
            ContentType::Json => "json"@,
        }
    }

    /// The value of the `ContentType` header.
    pub fn as_str(&self) -> (s: &'static str)
        ensures
            s@ == self.text(),
    {
        match self {
            ContentType::Json => "json",
        }
    }
}

/// One command as it goes on the wire. Made for one send and then dropped.
#[derive(Debug)]
pub struct CommandMessage<'a> {
    pub cmd_type: &'a str,
    pub seq_number: i64,
    pub ack_number: i64,
    pub content_type: ContentType,
    pub body: &'a str,
    pub date: i64,
    pub file_name: i64,
    pub file_size: i64,
    pub content_range: i64,
    pub counter: i64,
    pub msg_id: i64,
}

/// One header line: `name=value` and CRLF.
pub open spec fn header_line(name: Seq<char>, value: Seq<char>) -> Seq<char> {
    name + "="@ + value + "\r\n"@
}

/// A point in time as std's clock gives it, held and never looked into.
#[verifier::external_type_specification]
#[verifier::external_body]
pub struct ExSystemTime(std::time::SystemTime);

/// The error of std for a time that lies before the one it is measured
/// from, held and never looked into.
#[verifier::external_type_specification]
#[verifier::external_body]
pub struct ExSystemTimeError(std::time::SystemTimeError);

/// `SystemTime::now` of std: the time that the clock shows. Nothing is
/// claimed of it: two readings may differ.
pub assume_specification[ SystemTime::now ]() -> SystemTime;

/// `SystemTime::duration_since` of std: the time elapsed since `earlier`, or
/// an error where `earlier` is the later of the two. Nothing is claimed of
/// the result.
pub assume_specification[ SystemTime::duration_since ](
    time: &SystemTime,
    earlier: SystemTime,
) -> Result<Duration, SystemTimeError>;

/// `Duration::as_millis` of std: the whole milliseconds that the duration
/// holds. The number is named, not written out: it is fixed by the duration.
pub assume_specification[ Duration::as_millis ](duration: &Duration) -> (ms: u128)
    ensures
        ms == whole_millis(*duration),
;

/// The time for a new message, in milliseconds since the Unix epoch.
///
/// The clock is read once, against the epoch, and the result is what that
/// reading stands for: the whole milliseconds elapsed since the epoch, or
/// 0, the epoch itself, where the clock reads a time before it. Which
/// reading the clock gives is not claimed: two calls may differ.
fn now_millis() -> (ms: u128)
    ensures
        exists|reading: Result<Duration, SystemTimeError>| ms == #[trigger] millis_of(reading),
{
    millis_since_epoch(SystemTime::now().duration_since(unix_epoch()))
}

/// The constant `UNIX_EPOCH` of std: the start of 1970 in UTC.
#[verifier::external_body]
fn unix_epoch() -> SystemTime {
    UNIX_EPOCH
}

/// The whole milliseconds that a duration holds: what `Duration::as_millis`
/// of std gives for it. It depends on the duration alone.
pub uninterp spec fn whole_millis(duration: Duration) -> u128;

/// The time that a reading of the clock against the Unix epoch stands for,
/// in milliseconds: the whole milliseconds of the time elapsed, and 0, the
/// epoch itself, for a clock that reads a time before it.
pub open spec fn millis_of(reading: Result<Duration, SystemTimeError>) -> u128 {
    match reading {
        Ok(elapsed) => whole_millis(elapsed),
        Err(_) => 0,
    }
}

/// The time that a reading of the clock against the Unix epoch stands for,
/// in milliseconds since the epoch.
pub fn millis_since_epoch(reading: Result<Duration, SystemTimeError>) -> (ms: u128)
    ensures
        ms == millis_of(reading),
{
    match reading {
        Ok(elapsed) => elapsed.as_millis(),
        Err(_) => 0,
    }
}

/// A command message as plain text and numbers.
pub struct CommandMessageView {
    pub cmd_type: Seq<char>,
    pub seq_number: i64,
    pub ack_number: i64,
    pub content_type: ContentType,
    pub body: Seq<char>,
    pub date: i64,
    pub file_name: i64,
    pub file_size: i64,
    pub content_range: i64,
    pub counter: i64,
    pub msg_id: i64,
}

impl<'a> View for CommandMessage<'a> {
    type V = CommandMessageView;

    open spec fn view(&self) -> CommandMessageView {
        CommandMessageView {
            cmd_type: self.cmd_type@,
            seq_number: self.seq_number,
            ack_number: self.ack_number,
            content_type: self.content_type,
            body: self.body@,
            date: self.date,
            file_name: self.file_name,
            file_size: self.file_size,
            content_range: self.content_range,
            counter: self.counter,
            msg_id: self.msg_id,
        }
    }
}

/// The message for `cmd_type` and `body` made `now_ms` milliseconds after
/// the epoch: the sequence number is the time modulo 100,000, the date is
/// the time, and every reserved field is -1.
pub open spec fn stamped(cmd_type: Seq<char>, body: Seq<char>, now_ms: u128) -> CommandMessageView {
    CommandMessageView {
        cmd_type,
        seq_number: (now_ms % 100_000) as i64,
        ack_number: -1i64,
        content_type: ContentType::Json,
        body,
        date: now_ms as i64,
        file_name: -1i64,
        file_size: -1i64,
        content_range: -1i64,
        counter: -1i64,
        msg_id: -1i64,
    }
}

impl CommandMessageView {
    /// The request line: `POST`, the command name and the version.
    pub open spec fn request_line(&self) -> Seq<char> {
        "POST "@ + self.cmd_type + " 1\r\n"@
    }

    /// The length of the body in bytes, as the `ContentLength` header
    /// gives it.
    pub open spec fn content_length(&self) -> nat {
        encode_utf8(self.body).len()
    }

    /// The ten header lines, in the order in which the device reads them.
    pub open spec fn header_block(&self) -> Seq<char> {
        header_line("SeqNumber"@, signed_decimal(self.seq_number as int)) + header_line(
            "AckNumber"@,
            signed_decimal(self.ack_number as int),
        ) + header_line("ContentLength"@, decimal(self.content_length())) + header_line(
            "ContentType"@,
            self.content_type.text(),
        ) + header_line("FileName"@, signed_decimal(self.file_name as int)) + header_line(
            "FileSize"@,
            signed_decimal(self.file_size as int),
        ) + header_line("ContentRange"@, signed_decimal(self.content_range as int)) + header_line(
            "Counter"@,
            signed_decimal(self.counter as int),
        ) + header_line("Date"@, signed_decimal(self.date as int)) + header_line(
            "msgId"@,
            signed_decimal(self.msg_id as int),
        )
    }

    /// The whole message as text: request line, header lines, a blank line,
    /// then the body as it is.
    pub open spec fn text(&self) -> Seq<char> {
        self.request_line() + self.header_block() + "\r\n"@ + self.body
    }

    /// The bytes of the message: its text in UTF-8.
    pub open spec fn wire(&self) -> Seq<u8> {
        encode_utf8(self.text())
    }
}

impl<'a> CommandMessage<'a> {
    /// The message for `cmd_type` and `body` at the time `now_ms`, in
    /// milliseconds since the epoch.
    pub fn at(cmd_type: &'a str, body: &'a str, now_ms: u128) -> (message: Self)
        ensures
            message@ == stamped(cmd_type@, body@, now_ms),
    {
        let seq: i64 = (now_ms % 100_000) as i64;
        let ts: i64 = #[verifier::truncate]
        (now_ms as i64);
        CommandMessage {
            cmd_type,
            seq_number: seq,
            ack_number: -1,
            content_type: ContentType::Json,
            body,
            date: ts,
            file_name: -1,
            file_size: -1,
            content_range: -1,
            counter: -1,
            msg_id: -1,
        }
    }

    /// The message for `cmd_type` and `body` at the time the clock shows. A
    /// clock that reads before the epoch counts as the epoch.
    pub fn new(cmd_type: &'a str, body: &'a str) -> (message: Self)
        ensures
            exists|now_ms: u128| message@ == #[trigger] stamped(cmd_type@, body@, now_ms),
    {
        Self::at(cmd_type, body, now_millis())
    }

    /// Appends the header line `name=value` to `out`.
    pub fn write_header(out: &mut String, name: &str, value: &str)
        ensures
            final(out)@ == old(out)@ + header_line(name@, value@),
    {
        out.append(name);
        out.append("=");
        out.append(value);
        out.append("\r\n");
        assert(final(out)@ =~= old(out)@ + header_line(name@, value@));
    }

    /// Appends the header line `name=value` for a length or a count.
    fn write_count(out: &mut String, name: &str, value: usize)
        ensures
            final(out)@ == old(out)@ + header_line(name@, decimal(value as nat)),
    {
        out.append(name);
        out.append("=");
        push_decimal(out, value as u64);
        out.append("\r\n");
        assert(final(out)@ =~= old(out)@ + header_line(name@, decimal(value as nat)));
    }

    /// Appends the header line `name=value` for an integer value.
    fn write_number(out: &mut String, name: &str, value: i64)
        ensures
            final(out)@ == old(out)@ + header_line(name@, signed_decimal(value as int)),
    {
        out.append(name);
        out.append("=");
        push_signed_decimal(out, value);
        out.append("\r\n");
        assert(final(out)@ =~= old(out)@ + header_line(name@, signed_decimal(value as int)));
    }

    /// The message as the bytes that are framed and sent.
    pub fn to_bytes(&self) -> (bytes: Vec<u8>)
        ensures
            bytes@ == self@.wire(),
    {
        let mut msg = String::new();
        msg.append("POST ");
        msg.append(self.cmd_type);
        msg.append(" 1\r\n");
        assert(msg@ =~= self@.request_line());
        Self::write_number(&mut msg, "SeqNumber", self.seq_number);
        Self::write_number(&mut msg, "AckNumber", self.ack_number);
        Self::write_count(&mut msg, "ContentLength", self.body.as_bytes().len());
        Self::write_header(&mut msg, "ContentType", self.content_type.as_str());
        Self::write_number(&mut msg, "FileName", self.file_name);
        Self::write_number(&mut msg, "FileSize", self.file_size);
        Self::write_number(&mut msg, "ContentRange", self.content_range);
        Self::write_number(&mut msg, "Counter", self.counter);
        Self::write_number(&mut msg, "Date", self.date);
        Self::write_number(&mut msg, "msgId", self.msg_id);
        assert(msg@ =~= self@.request_line() + self@.header_block());
        msg.append("\r\n");
        msg.append(self.body);
        assert(msg@ =~= self@.text());
        msg.as_str().as_bytes_vec()
    }
}

/// Whether `s` holds neither a carriage return nor a line feed.
pub open spec fn one_line(s: Seq<char>) -> bool {
    forall|i: int| 0 <= i < s.len() ==> #[trigger] s[i] != '\r' && s[i] != '\n'
}

/// The text of `lines`, each followed by CRLF.
pub open spec fn join_lines(lines: Seq<Seq<char>>) -> Seq<char>
    decreases lines.len(),
{
    if lines.len() == 0 {
        Seq::empty()
    } else {
        join_lines(lines.drop_last()) + (lines.last() + "\r\n"@)
    }
}

impl CommandMessageView {
    /// The header lines without their line ends.
    pub open spec fn header_lines(&self) -> Seq<Seq<char>> {
        seq![
            "SeqNumber"@ + "="@ + signed_decimal(self.seq_number as int),
            "AckNumber"@ + "="@ + signed_decimal(self.ack_number as int),
            "ContentLength"@ + "="@ + decimal(self.content_length()),
            "ContentType"@ + "="@ + self.content_type.text(),
            "FileName"@ + "="@ + signed_decimal(self.file_name as int),
            "FileSize"@ + "="@ + signed_decimal(self.file_size as int),
            "ContentRange"@ + "="@ + signed_decimal(self.content_range as int),
            "Counter"@ + "="@ + signed_decimal(self.counter as int),
            "Date"@ + "="@ + signed_decimal(self.date as int),
            "msgId"@ + "="@ + signed_decimal(self.msg_id as int),
        ]
    }

    /// The header block is exactly ten lines, none of which holds a line
    /// break of its own, and the message is the request line, these ten
    /// lines, one blank line and the body. The third of them gives the
    /// length of the body in bytes, in decimal digits that write that
    /// number and no other.
    pub proof fn lemma_header_block(&self)
        ensures
            self.header_lines().len() == 10,
            forall|k: int| 0 <= k < 10 ==> one_line(#[trigger] self.header_lines()[k]),
            self.header_block() == join_lines(self.header_lines()),
            self.text() == self.request_line() + join_lines(self.header_lines()) + "\r\n"@
                + self.body,
            self.header_lines()[2] == "ContentLength="@ + decimal(self.content_length()),
            digits_value(decimal(self.content_length())) == self.content_length(),
    {
        let lines = self.header_lines();
        reveal_strlit("SeqNumber");
        reveal_strlit("AckNumber");
        reveal_strlit("ContentLength");
        reveal_strlit("ContentLength=");
        reveal_strlit("ContentType");
        reveal_strlit("FileName");
        reveal_strlit("FileSize");
        reveal_strlit("ContentRange");
        reveal_strlit("Counter");
        reveal_strlit("Date");
        reveal_strlit("msgId");
        reveal_strlit("=");
        reveal_strlit("json");
        lemma_signed_decimal_one_line(self.seq_number as int);
        lemma_signed_decimal_one_line(self.ack_number as int);
        lemma_signed_decimal_one_line(self.file_name as int);
        lemma_signed_decimal_one_line(self.file_size as int);
        lemma_signed_decimal_one_line(self.content_range as int);
        lemma_signed_decimal_one_line(self.counter as int);
        lemma_signed_decimal_one_line(self.date as int);
        lemma_signed_decimal_one_line(self.msg_id as int);
        lemma_decimal_value(self.content_length());
        lemma_decimal_one_line(self.content_length());
        assert forall|k: int| 0 <= k < 10 implies one_line(#[trigger] lines[k]) by {
            lemma_name_value_one_line("SeqNumber"@, signed_decimal(self.seq_number as int));
            lemma_name_value_one_line("AckNumber"@, signed_decimal(self.ack_number as int));
            lemma_name_value_one_line("ContentLength"@, decimal(self.content_length()));
            lemma_name_value_one_line("ContentType"@, self.content_type.text());
            lemma_name_value_one_line("FileName"@, signed_decimal(self.file_name as int));
            lemma_name_value_one_line("FileSize"@, signed_decimal(self.file_size as int));
            lemma_name_value_one_line("ContentRange"@, signed_decimal(self.content_range as int));
            lemma_name_value_one_line("Counter"@, signed_decimal(self.counter as int));
            lemma_name_value_one_line("Date"@, signed_decimal(self.date as int));
            lemma_name_value_one_line("msgId"@, signed_decimal(self.msg_id as int));
        }
        assert(lines[2] =~= "ContentLength="@ + decimal(self.content_length()));
        lemma_join_ten(lines);
        assert(self.header_block() =~= join_lines(lines));
    }
}

/// The digits of a number hold no line break.
proof fn lemma_decimal_one_line(n: nat)
    ensures
        one_line(decimal(n)),
{
    lemma_decimal_value(n);
    assert forall|i: int| 0 <= i < decimal(n).len() implies #[trigger] decimal(n)[i] != '\r'
        && decimal(n)[i] != '\n' by {
        assert(is_digit(decimal(n)[i]));
    }
}

/// A name and a value without line breaks make a header line without one.
proof fn lemma_name_value_one_line(name: Seq<char>, value: Seq<char>)
    requires
        one_line(name),
        one_line(value),
    ensures
        one_line(name + "="@ + value),
{
    reveal_strlit("=");
    let line = name + "="@ + value;
    assert forall|i: int| 0 <= i < line.len() implies #[trigger] line[i] != '\r' && line[i]
        != '\n' by {
        if i < name.len() {
            assert(line[i] == name[i]);
        } else if i == name.len() {
            assert(line[i] == '=');
        } else {
            assert(line[i] == value[i - name.len() - 1]);
        }
    }
}

/// Ten lines joined, written out.
proof fn lemma_join_ten(lines: Seq<Seq<char>>)
    requires
        lines.len() == 10,
    ensures
        join_lines(lines) == (lines[0] + "\r\n"@) + (lines[1] + "\r\n"@) + (lines[2] + "\r\n"@) + (
        lines[3] + "\r\n"@) + (lines[4] + "\r\n"@) + (lines[5] + "\r\n"@) + (lines[6] + "\r\n"@)
            + (lines[7] + "\r\n"@) + (lines[8] + "\r\n"@) + (lines[9] + "\r\n"@),
{
    let l9 = lines.drop_last();
    let l8 = l9.drop_last();
    let l7 = l8.drop_last();
    let l6 = l7.drop_last();
    let l5 = l6.drop_last();
    let l4 = l5.drop_last();
    let l3 = l4.drop_last();
    let l2 = l3.drop_last();
    let l1 = l2.drop_last();
    let l0 = l1.drop_last();
    assert(join_lines(l0) =~= Seq::<char>::empty());
    assert(join_lines(l1) =~= lines[0] + "\r\n"@);
    assert(join_lines(l2) == join_lines(l1) + (lines[1] + "\r\n"@));
    assert(join_lines(l3) == join_lines(l2) + (lines[2] + "\r\n"@));
    assert(join_lines(l4) == join_lines(l3) + (lines[3] + "\r\n"@));
    assert(join_lines(l5) == join_lines(l4) + (lines[4] + "\r\n"@));
    assert(join_lines(l6) == join_lines(l5) + (lines[5] + "\r\n"@));
    assert(join_lines(l7) == join_lines(l6) + (lines[6] + "\r\n"@));
    assert(join_lines(l8) == join_lines(l7) + (lines[7] + "\r\n"@));
    assert(join_lines(l9) == join_lines(l8) + (lines[8] + "\r\n"@));
    assert(join_lines(lines) == join_lines(l9) + (lines[9] + "\r\n"@));
}

/// The bytes of the message for `cmd_type` and `json_content` at the time
/// the clock shows.
pub fn build_message(cmd_type: &str, json_content: &str) -> (bytes: Vec<u8>)
    ensures
        exists|now_ms: u128| bytes@ == (#[trigger] stamped(cmd_type@, json_content@, now_ms)).wire(),
{
    CommandMessage::new(cmd_type, json_content).to_bytes()
}

/// What framing the message for `cmd_type` and `body` at the time `now_ms`
/// gives: its frame, or the error where the escaped message does not fit in
/// one.
pub open spec fn framed_at(cmd_type: Seq<char>, body: Seq<char>, now_ms: u128) -> Result<
    Seq<u8>,
    ProtocolError,
> {
    let wire = stamped(cmd_type, body, now_ms).wire();
    if escape(wire).len() <= MAX_PAYLOAD {
        Ok(frame_of(wire))
    } else {
        Err(ProtocolError::PayloadTooLong)
    }
}

/// A frame or an error, the frame taken as its bytes.
pub open spec fn frame_view(result: Result<Vec<u8>, ProtocolError>) -> Result<
    Seq<u8>,
    ProtocolError,
> {
    match result {
        Ok(frame) => Ok(frame@),
        Err(e) => Err(e),
    }
}

/// The frame of the message for `cmd_type` and `json_content` at the time
/// `now_ms`. Fails where the escaped message does not fit in a frame, and
/// only there.
pub fn command_frame_at(cmd_type: &str, json_content: &str, now_ms: u128) -> (result: Result<
    Vec<u8>,
    ProtocolError,
>)
    ensures
        frame_view(result) == framed_at(cmd_type@, json_content@, now_ms),
{
    let message = CommandMessage::at(cmd_type, json_content, now_ms).to_bytes();
    build_frame(message.as_slice())
}

/// The frame of the message for `cmd_type` and `json_content` at the time
/// the clock shows: what is written to the device for one command.
pub fn command_frame(cmd_type: &str, json_content: &str) -> (result: Result<
    Vec<u8>,
    ProtocolError,
>)
    ensures
        exists|now_ms: u128|
            frame_view(result) == #[trigger] framed_at(cmd_type@, json_content@, now_ms),
{
    command_frame_at(cmd_type, json_content, now_millis())
}

} // verus!
