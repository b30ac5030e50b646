//! From stored message records to messages: the derived fields, the rows of
//! the tabular variant, and the two shapes of the JSON variant.

use crate::error::{ExtractError, ParseError};
use crate::models::discord_models::DMessage;
use crate::models::message::Message;
use crate::parser::Parser;
use crate::text::{byte_len, byte_length, pieces, split_on, texts, whitespace_tokens};
use vstd::prelude::*;

verus! {

/// Whether `message` is what `record` decodes to: id, timestamp and content
/// are the record's; the attachments are the pieces of the record's
/// space-delimited list; the length is the content's byte length, cut to 32
/// bits; the words are the content's whitespace-separated tokens.
pub open spec fn decodes_to(record: DMessage, message: Message) -> bool {
    &&& message.id == record.id
    &&& message.timestamp == record.timestamp
    &&& message.content == record.contents
    &&& texts(message.attachments@) == pieces(record.attachments@, ' ')
    &&& message.length == byte_len(record.contents@) as u32
    &&& texts(message.words@) == whitespace_tokens(record.contents@)
}

/// Whether `messages` are what `records` decode to, one for one and in
/// order.
pub open spec fn all_decode_to(records: Seq<DMessage>, messages: Seq<Message>) -> bool {
    &&& messages.len() == records.len()
    &&& forall|i: int| 0 <= i < records.len() ==> decodes_to(#[trigger] records[i], messages[i])
}

/// The test for a row that has content.
pub open spec fn has_content() -> spec_fn(DMessage) -> bool {
    |record: DMessage| record.contents@.len() > 0
}

/// What the two shapes of a JSON message file give: the array if the
/// content decoded as one; else the single object, as the only message; else
/// the error of the attempt at a single object.
pub open spec fn shape_chosen(
    array: Result<Vec<DMessage>, ParseError>,
    single: Result<DMessage, ParseError>,
) -> Result<Seq<DMessage>, ParseError> {
    match array {
        Ok(records) => Ok(records@),
        Err(_) => match single {
            Ok(record) => Ok(seq![record]),
            Err(e) => Err(e),
        },
    }
}

impl<'a> Parser<'a> {
    /// The message a record decodes to.
    pub fn to_message(record: DMessage) -> (message: Message)
        ensures
            decodes_to(record, message),
    {
        let words = Parser::process_words(record.contents.as_str());
        let attachments = split_on(record.attachments.as_str(), ' ');
        let length = #[verifier::truncate]
        (byte_length(record.contents.as_str()) as u32);
        Message {
            id: record.id,
            timestamp: record.timestamp,
            content: record.contents,
            attachments,
            length,
            words,
        }
    }

    /// The messages that records decode to, in order.
    pub fn to_messages(records: Vec<DMessage>) -> (messages: Vec<Message>)
        ensures
            all_decode_to(records@, messages@),
    {
        let mut messages: Vec<Message> = Vec::new();
        let ghost all = records@;
        for record in it: records
            invariant
                it.seq() == all,
                all_decode_to(all.take(it.index() as int), messages@),
        {
            messages.push(Parser::to_message(record));
        }
        assert(all.take(all.len() as int) =~= all);
        messages
    }

    /// The messages of the tabular variant, given its decoded rows: rows
    /// without content are skipped. Cancellation is checked once per row, so
    /// that without rows there is no error.
    pub fn parse_csv(&self, rows: Vec<DMessage>) -> (r: Result<Vec<Message>, ExtractError>)
        ensures
            rows@.len() == 0 ==> r is Ok,
            match r {
                Ok(messages) => all_decode_to(rows@.filter(has_content()), messages@),
                Err(e) => e is Cancelled,
            },
    {
        let mut messages: Vec<Message> = Vec::new();
        let ghost all = rows@;
        proof {
            crate::sequences::lemma_filter_none(all.take(0), has_content());
        }
        for row in it: rows
            invariant
                it.seq() == all,
                all_decode_to(all.take(it.index() as int).filter(has_content()), messages@),
        {
            let ghost before = all.take(it.index() as int);
            proof {
                assert(all.take(it.index() + 1) =~= before.push(row));
                before.lemma_filter_push(row, has_content());
            }
            match self.check_cancellation_token() {
                Err(e) => {
                    return Err(e);
                },
                Ok(()) => {},
            }
            if !row.contents.as_str().is_empty() {
                messages.push(Parser::to_message(row));
            }
        }
        assert(all.take(all.len() as int) =~= all);
        Ok(messages)
    }

    /// The messages of the JSON variant, given what decoding the content as
    /// an array of records and as a single record gave. The single record is
    /// not looked at when the array decoded.
    pub fn parse_json_messages(
        array: Result<Vec<DMessage>, ParseError>,
        single: Result<DMessage, ParseError>,
    ) -> (r: Result<Vec<Message>, ParseError>)
        ensures
            match r {
                Ok(messages) => shape_chosen(array, single) is Ok && all_decode_to(
                    shape_chosen(array, single)->Ok_0,
                    messages@,
                ),
                Err(e) => shape_chosen(array, single) == Err::<Seq<DMessage>, ParseError>(e),
            },
    {
        match array {
            Ok(records) => Ok(Parser::to_messages(records)),
            Err(_) => match single {
                Ok(record) => {
                    let mut records: Vec<DMessage> = Vec::new();
                    records.push(record);
                    assert(records@ =~= seq![record]);
                    Ok(Parser::to_messages(records))
                },
                Err(e) => Err(e),
            },
        }
    }
}

} // verus!
