//! The proxy's view of one request or response.
use crate::fetch::FetchResponse;
use crate::resp::RespFrame;
use vstd::prelude::*;

verus! {

/// The protocols a stage can be placed in front of.
#[derive(Clone, Copy, Debug, PartialEq, Eq, Structural)]
pub enum MessageType {
    Kafka,
    Redis,
    Valkey,
}

/// Which protocols a stage accepts from the stage before it.
#[derive(Clone, Debug, PartialEq, Eq)]
pub enum UpChainProtocol {
    /// Messages of any protocol.
    Any,
    /// Messages of one of the listed protocols only.
    MustBeOneOf(Vec<MessageType>),
}

/// Which protocol a stage hands to the stage after it.
#[derive(Clone, Copy, Debug, PartialEq, Eq, Structural)]
pub enum DownChainProtocol {
    /// The stage turns its messages into those of the given protocol.
    TransformedTo(MessageType),
    /// The stage hands on what it was given.
    SameAsUpChain,
    /// The stage ends the chain.
    Terminating,
}

/// A decoded Kafka frame, as far as the stages look into it.
#[derive(Debug, PartialEq, Eq)]
pub enum KafkaFrame {
    /// The response to a fetch request.
    FetchResponse(FetchResponse),
    /// Any other request or response.
    Other,
}

/// A decoded frame of one of the protocols that pass through the proxy.
#[derive(Debug, PartialEq, Eq)]
pub enum Frame {
    Kafka(KafkaFrame),
    Redis(RespFrame),
    Valkey(RespFrame),
    /// A frame of a protocol that the stages do not look into.
    Other,
}

/// One request or response. The frame is absent where the message could not
/// be decoded. `cache_valid` says whether the serialized bytes that the
/// owner of the message may keep still agree with the frame.
#[derive(Debug, PartialEq, Eq)]
pub struct Message {
    pub frame: Option<Frame>,
    pub cache_valid: bool,
}

impl Message {
    /// A message with the given frame whose serialized bytes are current.
    pub fn new(frame: Option<Frame>) -> (out: Message)
        ensures
            out.frame == frame,
            out.cache_valid,
    {
        Message { frame, cache_valid: true }
    }

    /// The decoded frame, if the message could be decoded.
    pub fn frame(&self) -> (out: Option<&Frame>)
        ensures
            match out {
                Some(frame) => self.frame == Some(*frame),
                None => self.frame is None,
            },
    {
        self.frame.as_ref()
    }

    /// Marks the serialized bytes as stale, so that they are derived from
    /// the frame again when they are next needed.
    pub fn invalidate_cache(&mut self)
        ensures
            final(self).frame == old(self).frame,
            !final(self).cache_valid,
    {
        self.cache_valid = false;
    }
}

} // verus!
