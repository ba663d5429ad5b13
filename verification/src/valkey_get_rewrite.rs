//! The stage that answers every Valkey `GET` command with a configured
//! text, whatever the key and whatever the backend returned.
use crate::get_rewrite::{
    is_get_request, is_literal, marks_gets, rewrite_forwarded, scan_requests, transform_outcome,
    KeyValueProtocol, PendingMatchSet, TransformError,
};
use crate::message::{DownChainProtocol, Frame, Message, MessageType, UpChainProtocol};
use vstd::prelude::*;
use vstd::string::StringSliceAdditionalSpecFns;
use vstd::utf8::encode_utf8;

verus! {

/// The name under which the stage is configured.
pub const NAME: &'static str = "ValkeyGetRewrite";

/// Configuration of the stage: the text that takes the place of every
/// response to a `GET` command.
#[derive(Clone, Debug, PartialEq, Eq)]
pub struct ValkeyGetRewriteConfig {
    pub result: String,
}

/// Builds one [`ValkeyGetRewrite`] per connection.
#[derive(Clone, Debug)]
pub struct ValkeyGetRewriteBuilder {
    result: String,
}

/// The stage itself, as it serves one connection.
#[derive(Debug)]
pub struct ValkeyGetRewrite {
    result: String,
}

/// Whether the frame is a Valkey `GET` command, whatever the case of the
/// command's name.
pub fn is_get(frame: &Frame) -> (out: bool)
    ensures
        out == is_get_request(KeyValueProtocol::Valkey, *frame),
{
    crate::get_rewrite::is_get(KeyValueProtocol::Valkey, frame)
}

/// Puts a Valkey bulk string that holds the UTF-8 bytes of `result` in the
/// place of the frame.
pub fn rewrite_get(frame: &mut Frame, result: &str)
    ensures
        is_literal(KeyValueProtocol::Valkey, *final(frame), result.spec_bytes()),
{
    crate::get_rewrite::rewrite_get(KeyValueProtocol::Valkey, frame, result)
}

impl ValkeyGetRewriteConfig {
    /// The builder of the stage that this configuration describes.
    pub fn get_builder(&self) -> (out: ValkeyGetRewriteBuilder)
        ensures
            out.replacement() == self.result@,
    {
        ValkeyGetRewriteBuilder { result: self.result.clone() }
    }

    /// The stage accepts Valkey messages only.
    pub fn up_chain_protocol(&self) -> (out: UpChainProtocol)
        ensures
            out matches UpChainProtocol::MustBeOneOf(accepted) && accepted@ == seq![
                MessageType::Valkey,
            ],
    {
        let mut accepted: Vec<MessageType> = Vec::new();
        accepted.push(MessageType::Valkey);
        UpChainProtocol::MustBeOneOf(accepted)
    }

    /// The stage hands on the protocol that it was given.
    pub fn down_chain_protocol(&self) -> (out: DownChainProtocol)
        ensures
            out == DownChainProtocol::SameAsUpChain,
    {
        DownChainProtocol::SameAsUpChain
    }
}

impl ValkeyGetRewriteBuilder {
    /// The text that takes the place of the responses.
    pub closed spec fn replacement(&self) -> Seq<char> {
        self.result@
    }

    /// A stage for one connection.
    pub fn build(&self) -> (out: ValkeyGetRewrite)
        ensures
            out.replacement() == self.replacement(),
    {
        ValkeyGetRewrite { result: self.result.clone() }
    }

    /// The name of the stage.
    pub fn get_name(&self) -> (out: &'static str)
        ensures
            out@ == NAME@,
    {
        NAME
    }
}

impl ValkeyGetRewrite {
    /// The text that takes the place of the responses.
    pub closed spec fn replacement(&self) -> Seq<char> {
        self.result@
    }

    /// The name of the stage.
    pub fn get_name(&self) -> (out: &'static str)
        ensures
            out@ == NAME@,
    {
        NAME
    }

    /// First half of an invocation, before the requests are forwarded:
    /// notes the places of the requests that are `GET` commands. The
    /// requests themselves are not changed.
    pub fn scan_requests(&self, requests: &Vec<Message>) -> (out: PendingMatchSet)
        ensures
            out.requests() == requests@.len(),
            marks_gets(out.positions(), KeyValueProtocol::Valkey, requests@),
    {
        scan_requests(KeyValueProtocol::Valkey, requests)
    }

    /// Second half of an invocation: takes what the next stage returned. A
    /// failure is handed on as it is, and nothing is rewritten. Otherwise
    /// the responses at the places noted in `pending` become bulk strings
    /// that hold the configured text; the other responses, and number and
    /// order of all, stay as they are.
    pub fn transform<E>(&self, pending: &PendingMatchSet, forwarded: Result<Vec<Message>, E>) -> (out:
        Result<Vec<Message>, TransformError<E>>)
        ensures
            transform_outcome(
                KeyValueProtocol::Valkey,
                *pending,
                forwarded,
                encode_utf8(self.replacement()),
                out,
            ),
    {
        rewrite_forwarded(KeyValueProtocol::Valkey, pending, forwarded, self.result.as_str())
    }
}

} // verus!
