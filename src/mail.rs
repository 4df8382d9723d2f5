//! Decoding commands out of mail messages, and the decisions of the loop that
//! fetches the messages of a mailbox one sequence number after the other.
use vstd::prelude::*;
use vstd::utf8::valid_utf8;
use mailparse::MailHeaderMap;
use crate::command::{command_views, CommandView, CsvCommand};

verus! {

#[verifier::external_type_specification]
#[verifier::external_body]
pub struct ExMailParseError(mailparse::MailParseError);

#[verifier::external_type_specification]
#[verifier::external_body]
pub struct ExCsvError(csv::Error);

/// What parsing the message `raw` and looking up its first header named `key`
/// gives: `Err(())` where the message does not parse, `Ok(None)` where it has
/// no such header, else the header's decoded value.
pub uninterp spec fn mail_header(raw: Seq<u8>, key: Seq<char>) -> Result<Option<Seq<char>>, ()>;

/// What reading the first record of `text`, fields split by `delimiter`, no
/// header row, gives: `Err(())` where the reader reports an error, `Ok(None)`
/// where there is no record, else the record's fields.
pub uninterp spec fn delimited_record(text: Seq<char>, delimiter: u8) -> Result<Option<Seq<Seq<char>>>, ()>;

pub open spec fn text_views(v: Seq<String>) -> Seq<Seq<char>> {
    v.map_values(|s: String| s@)
}

/// Relies on std::str::from_utf8: it succeeds exactly on well-formed UTF-8.
#[verifier::external_body]
fn is_utf8(bytes: &[u8]) -> (r: bool)
    ensures
        r == valid_utf8(bytes@),
{
    std::str::from_utf8(bytes).is_ok()
}

/// Relies on mailparse::parse_mail, to parse the message, and on
/// `MailHeaderMap::get_first_value` over its headers, to find the first
/// header named `key` (case-insensitively) and decode its value.
#[verifier::external_body]
fn first_header(raw: &[u8], key: &str) -> (r: Result<Option<String>, mailparse::MailParseError>)
    ensures
        match r {
            Ok(Some(v)) => mail_header(raw@, key@) == Ok::<Option<Seq<char>>, ()>(Some(v@)),
            Ok(None) => mail_header(raw@, key@) == Ok::<Option<Seq<char>>, ()>(None),
            Err(_) => mail_header(raw@, key@) == Err::<Option<Seq<char>>, ()>(()),
        },
{
    match mailparse::parse_mail(raw) {
        Ok(m) => Ok(m.headers.get_first_value(key)),
        Err(e) => Err(e),
    }
}

/// Relies on csv's `Reader::read_record`, on a reader built with no header
/// row and the given delimiter, to read the first record of `text`.
#[verifier::external_body]
fn first_record(text: &str, delimiter: u8) -> (r: Result<Option<Vec<String>>, csv::Error>)
    ensures
        match r {
            Ok(Some(v)) => delimited_record(text@, delimiter) == Ok::<Option<Seq<Seq<char>>>, ()>(
                Some(text_views(v@)),
            ),
            Ok(None) => delimited_record(text@, delimiter) == Ok::<Option<Seq<Seq<char>>>, ()>(None),
            Err(_) => delimited_record(text@, delimiter) == Err::<Option<Seq<Seq<char>>>, ()>(()),
        },
{
    let mut reader = csv::ReaderBuilder::new().has_headers(false).delimiter(delimiter).from_reader(
        text.as_bytes(),
    );
    let mut record = csv::StringRecord::new();
    match reader.read_record(&mut record) {
        Ok(true) => Ok(Some(record.iter().map(|f| f.to_string()).collect())),
        Ok(false) => Ok(None),
        Err(e) => Err(e),
    }
}

/// Why a message could not be turned into a command.
#[derive(PartialEq, Eq, Structural, Debug, Clone, Copy)]
pub enum MailError {
    /// The message has no body.
    MissingBody,
    /// The body is not UTF-8 text.
    InvalidUtf8,
    /// The body does not parse as a mail message.
    UnparsableMessage,
    /// The message has no `Subject` header.
    MissingSubject,
    /// The subject does not decode as a command record.
    Decode,
    /// The sequence numbers ran out before the mailbox did.
    SequenceExhausted,
}

/// The field delimiter of a subject line, `;`.
pub const SUBJECT_DELIMITER: u8 = 0x3b;

/// The number of fields of a command record.
pub const COMMAND_FIELDS: usize = 5;

/// The sequence number of the first message of a mailbox.
pub const FIRST_MESSAGE: u32 = 1;

/// The command that a record's leading fields spell, in order.
pub open spec fn command_of_fields(fields: Seq<Seq<char>>) -> CommandView {
    CommandView {
        command: fields[0],
        operation: fields[1],
        category: fields[2],
        subcategory: fields[3],
        url: fields[4],
    }
}

/// A record decodes into a command when it has at least five fields; any
/// fields after the fifth are ignored.
pub open spec fn decode_fields(fields: Seq<Seq<char>>) -> Result<CommandView, MailError> {
    if fields.len() < COMMAND_FIELDS {
        Err(MailError::Decode)
    } else {
        Ok(command_of_fields(fields))
    }
}

/// What a subject line decodes to: no command where it holds no record.
pub open spec fn decode_subject(subject: Seq<char>) -> Result<Option<CommandView>, MailError> {
    match delimited_record(subject, SUBJECT_DELIMITER) {
        Err(_) => Err(MailError::Decode),
        Ok(None) => Ok(None),
        Ok(Some(fields)) => match decode_fields(fields) {
            Ok(c) => Ok(Some(c)),
            Err(e) => Err(e),
        },
    }
}

/// What a message body decodes to.
pub open spec fn decode_body(body: Seq<u8>) -> Result<Option<CommandView>, MailError> {
    if !valid_utf8(body) {
        Err(MailError::InvalidUtf8)
    } else {
        match mail_header(body, "Subject"@) {
            Err(_) => Err(MailError::UnparsableMessage),
            Ok(None) => Err(MailError::MissingSubject),
            Ok(Some(subject)) => decode_subject(subject),
        }
    }
}

pub open spec fn opt_command_view(o: Option<CsvCommand>) -> Option<CommandView> {
    match o {
        Some(c) => Some(c@),
        None => None,
    }
}

/// Builds the command that the leading fields of a record spell.
pub fn command_from_fields(fields: Vec<String>) -> (r: Result<CsvCommand, MailError>)
    ensures
        match (r, decode_fields(text_views(fields@))) {
            (Ok(c), Ok(v)) => c@ == v,
            (Err(e), Err(f)) => e == f,
            _ => false,
        },
{
    if fields.len() < COMMAND_FIELDS {
        return Err(MailError::Decode);
    }
    let ghost views = text_views(fields@);
    let mut fields = fields;
    fields.truncate(COMMAND_FIELDS);
    let url = fields.pop().unwrap();
    let subcategory = fields.pop().unwrap();
    let category = fields.pop().unwrap();
    let operation = fields.pop().unwrap();
    let command = fields.pop().unwrap();
    let r = CsvCommand { command, operation, category, subcategory, url };
    assert(r@ == command_of_fields(views));
    Ok(r)
}

/// Decodes a subject line into a command.
pub fn decode_subject_line(subject: &str) -> (r: Result<Option<CsvCommand>, MailError>)
    ensures
        match (r, decode_subject(subject@)) {
            (Ok(c), Ok(v)) => opt_command_view(c) == v,
            (Err(e), Err(f)) => e == f,
            _ => false,
        },
{
    match first_record(subject, SUBJECT_DELIMITER) {
        Err(_) => Err(MailError::Decode),
        Ok(None) => Ok(None),
        Ok(Some(fields)) => match command_from_fields(fields) {
            Ok(c) => Ok(Some(c)),
            Err(e) => Err(e),
        },
    }
}

/// Decodes the body of a message into the command its subject carries.
pub fn decode_message(body: &[u8]) -> (r: Result<Option<CsvCommand>, MailError>)
    ensures
        match (r, decode_body(body@)) {
            (Ok(c), Ok(v)) => opt_command_view(c) == v,
            (Err(e), Err(f)) => e == f,
            _ => false,
        },
{
    if !is_utf8(body) {
        return Err(MailError::InvalidUtf8);
    }
    match first_header(body, "Subject") {
        Err(_) => Err(MailError::UnparsableMessage),
        Ok(None) => Err(MailError::MissingSubject),
        Ok(Some(subject)) => decode_subject_line(subject.as_str()),
    }
}

/// What fetching one sequence number of the mailbox gave.
pub enum Fetched {
    /// No message has that number: the mailbox has been read to its end.
    NoMessage,
    /// A message, with its full body where it had one.
    Message(Option<Vec<u8>>),
}

/// What the fetch loop does next.
#[derive(PartialEq, Eq, Structural, Debug, Clone, Copy)]
pub enum MailStep {
    /// Fetch the message with this sequence number.
    Fetch(u32),
    /// Every message was read: log out.
    Finish,
    /// Stop reading, log out and fail with this error.
    Abort(MailError),
}

/// The commands read from a mailbox, in the order of its messages.
pub struct MailCommands {
    pub commands: Vec<CsvCommand>,
}

impl View for MailCommands {
    type V = Seq<CommandView>;

    open spec fn view(&self) -> Seq<CommandView> {
        command_views(self.commands@)
    }
}

/// The commands after a message decoded to `decoded`, and the next step of
/// the loop, for the message with sequence number `seq`.
pub open spec fn after_message(
    commands: Seq<CommandView>,
    seq: u32,
    decoded: Result<Option<CommandView>, MailError>,
) -> (Seq<CommandView>, MailStep) {
    match decoded {
        Err(e) => (commands, MailStep::Abort(e)),
        Ok(found) => {
            let kept = match found {
                Some(c) => commands.push(c),
                None => commands,
            };
            if seq < u32::MAX {
                (kept, MailStep::Fetch((seq + 1) as u32))
            } else {
                (kept, MailStep::Abort(MailError::SequenceExhausted))
            }
        },
    }
}

/// The commands and the next step after fetching sequence number `seq` gave
/// `fetched`.
pub open spec fn after_fetch(commands: Seq<CommandView>, seq: u32, fetched: Fetched) -> (
    Seq<CommandView>,
    MailStep,
) {
    match fetched {
        Fetched::NoMessage => (commands, MailStep::Finish),
        Fetched::Message(None) => (commands, MailStep::Abort(MailError::MissingBody)),
        Fetched::Message(Some(body)) => after_message(commands, seq, decode_body(body@)),
    }
}

impl MailCommands {
    pub fn new() -> (r: MailCommands)
        ensures
            r@ == Seq::<CommandView>::empty(),
    {
        MailCommands { commands: Vec::new() }
    }

    /// The first step of the loop: fetch the first message.
    pub fn first_step(&self) -> (r: MailStep)
        ensures
            r == MailStep::Fetch(FIRST_MESSAGE),
    {
        MailStep::Fetch(FIRST_MESSAGE)
    }

    /// Takes what fetching sequence number `seq` gave, keeps the command that
    /// its message carries, and says what the loop does next.
    pub fn on_fetch(&mut self, seq: u32, fetched: Fetched) -> (r: MailStep)
        ensures
            (final(self)@, r) == after_fetch(old(self)@, seq, fetched),
    {
        let decoded = match &fetched {
            Fetched::NoMessage => {
                return MailStep::Finish;
            },
            Fetched::Message(None) => {
                return MailStep::Abort(MailError::MissingBody);
            },
            Fetched::Message(Some(body)) => decode_message(body.as_slice()),
        };
        match decoded {
            Err(e) => MailStep::Abort(e),
            Ok(found) => {
                match found {
                    Some(c) => {
                        let ghost prior = self.commands@;
                        self.commands.push(c);
                        assert(self@ =~= command_views(prior).push(c@));
                    },
                    None => {},
                }
                if seq < u32::MAX {
                    MailStep::Fetch(seq + 1)
                } else {
                    MailStep::Abort(MailError::SequenceExhausted)
                }
            },
        }
    }
}

} // verus!
