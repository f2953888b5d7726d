//! Tokens: the commands of a score, one per line, as the processors receive them.
use crate::bms::command::{Channel, Track};
use crate::bms::error::SourceRange;
use vstd::prelude::*;

verus! {

/// One command line of a score.
#[derive(Debug, PartialEq, Eq)]
pub enum Token {
    /// `#NAME args`: a header command.
    Header {
        /// The command's name, without `#`.
        name: String,
        /// The rest of the line after the name and the blank that follows it.
        args: String,
    },
    /// `#XXXYY:message`: objects of channel `YY` in track `XXX`.
    Message {
        /// The track.
        track: Track,
        /// The channel.
        channel: Channel,
        /// The object text after `:`.
        message: String,
    },
    /// A line that is no command, such as a comment.
    NotACommand(String),
}

/// A token with the place of the source it was read from.
#[derive(Debug, PartialEq, Eq)]
pub struct TokenWithRange {
    /// The token.
    pub content: Token,
    /// Where it stands in the source.
    pub range: SourceRange,
}

impl Clone for Token {
    fn clone(&self) -> (r: Self)
        ensures
            r == *self,
    {
        match self {
            Token::Header { name, args } => Token::Header { name: name.clone(), args: args.clone() },
            Token::Message { track, channel, message } => Token::Message {
                track: *track,
                channel: *channel,
                message: message.clone(),
            },
            Token::NotACommand(line) => Token::NotACommand(line.clone()),
        }
    }
}

impl Clone for TokenWithRange {
    fn clone(&self) -> (r: Self)
        ensures
            r == *self,
    {
        TokenWithRange { content: self.content.clone(), range: self.range }
    }
}

impl TokenWithRange {
    /// Pairs a token with its place.
    pub fn new(content: Token, range: SourceRange) -> (r: Self)
        ensures
            r.content == content,
            r.range == range,
    {
        TokenWithRange { content, range }
    }

    /// The token.
    pub fn content(&self) -> (r: &Token)
        ensures
            *r == self.content,
    {
        &self.content
    }

    /// Where it stands in the source.
    pub fn range(&self) -> (r: SourceRange)
        ensures
            r == self.range,
    {
        self.range
    }
}

} // verus!
