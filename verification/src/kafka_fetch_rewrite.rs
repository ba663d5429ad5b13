//! The stage that replaces the value of every record that a Kafka fetch
//! returns.
use crate::fetch::{rewrite_fetch_response, rewritten_fetch};
use crate::message::{DownChainProtocol, Frame, KafkaFrame, Message, MessageType, UpChainProtocol};
use vstd::prelude::*;
use vstd::utf8::encode_utf8;

verus! {

/// The name under which the stage is configured.
pub const NAME: &'static str = "KafkaFetchRewrite";

/// Configuration of the stage: the text that takes the place of every
/// record value.
#[derive(Clone, Debug, PartialEq, Eq)]
pub struct KafkaFetchRewriteConfig {
    pub result: String,
}

/// Builds one [`KafkaFetchRewrite`] per connection.
#[derive(Clone, Debug)]
pub struct KafkaFetchRewriteBuilder {
    result: String,
}

/// The stage itself, as it serves one connection.
#[derive(Debug)]
pub struct KafkaFetchRewrite {
    result: String,
}

/// `after` is `before` as the stage leaves it. A response that decodes to a
/// fetch response has its record values replaced and its serialized bytes
/// marked stale; any other message is not touched.
pub open spec fn fetch_rewritten(before: Message, after: Message, replacement: Seq<u8>) -> bool {
    match before.frame {
        Some(Frame::Kafka(KafkaFrame::FetchResponse(fetch))) => {
            &&& after.frame matches Some(Frame::Kafka(KafkaFrame::FetchResponse(rewritten)))
            &&& rewritten@ == rewritten_fetch(fetch@, replacement)
            &&& !after.cache_valid
        },
        _ => after == before,
    }
}

/// Each response is the response at the same place as the stage leaves it.
pub open spec fn all_fetch_rewritten(
    before: Seq<Message>,
    after: Seq<Message>,
    replacement: Seq<u8>,
) -> bool {
    &&& after.len() == before.len()
    &&& forall|i: int|
        0 <= i < before.len() ==> fetch_rewritten(before[i], #[trigger] after[i], replacement)
}

/// Rewrites one response in place.
pub fn rewrite_message(message: &mut Message, replacement: &[u8])
    ensures
        fetch_rewritten(*old(message), *final(message), replacement@),
{
    let mut is_fetch: bool = false;
    match &mut message.frame {
        Some(Frame::Kafka(KafkaFrame::FetchResponse(fetch))) => {
            rewrite_fetch_response(fetch, replacement);
            is_fetch = true;
        },
        _ => {},
    }
    if is_fetch {
        message.invalidate_cache();
    }
}

/// Rewrites every response in place, in order.
pub fn rewrite_messages(responses: &mut Vec<Message>, replacement: &[u8])
    ensures
        all_fetch_rewritten(old(responses)@, final(responses)@, replacement@),
{
    let n: usize = responses.len();
    let mut i: usize = 0;
    while i < n
        invariant
            i <= n,
            n == responses@.len(),
            n == old(responses)@.len(),
            forall|k: int|
                0 <= k < i ==> fetch_rewritten(
                    old(responses)@[k],
                    #[trigger] responses@[k],
                    replacement@,
                ),
            forall|k: int| i <= k < n ==> responses@[k] == old(responses)@[k],
        decreases n - i,
    {
        rewrite_message(&mut responses[i], replacement);
        i += 1;
    }
}

impl KafkaFetchRewriteConfig {
    /// The builder of the stage that this configuration describes.
    pub fn get_builder(&self) -> (out: KafkaFetchRewriteBuilder)
        ensures
            out.replacement() == self.result@,
    {
        KafkaFetchRewriteBuilder { result: self.result.clone() }
    }

    /// The stage accepts Kafka messages only.
    pub fn up_chain_protocol(&self) -> (out: UpChainProtocol)
        ensures
            out matches UpChainProtocol::MustBeOneOf(accepted) && accepted@ == seq![
                MessageType::Kafka,
            ],
    {
        let mut accepted: Vec<MessageType> = Vec::new();
        accepted.push(MessageType::Kafka);
        UpChainProtocol::MustBeOneOf(accepted)
    }

    /// The stage hands on the protocol that it was given.
    pub fn down_chain_protocol(&self) -> (out: DownChainProtocol)
        ensures
            out == DownChainProtocol::SameAsUpChain,
    {
        DownChainProtocol::SameAsUpChain
    }
}

impl KafkaFetchRewriteBuilder {
    /// The text that takes the place of every record value.
    pub closed spec fn replacement(&self) -> Seq<char> {
        self.result@
    }

    /// A stage for one connection.
    pub fn build(&self) -> (out: KafkaFetchRewrite)
        ensures
            out.replacement() == self.replacement(),
    {
        KafkaFetchRewrite { result: self.result.clone() }
    }

    /// The name of the stage.
    pub fn get_name(&self) -> (out: &'static str)
        ensures
            out@ == NAME@,
    {
        NAME
    }
}

impl KafkaFetchRewrite {
    /// The text that takes the place of every record value.
    pub closed spec fn replacement(&self) -> Seq<char> {
        self.result@
    }

    /// The name of the stage.
    pub fn get_name(&self) -> (out: &'static str)
        ensures
            out@ == NAME@,
    {
        NAME
    }

    /// Takes what the next stage returned for the requests of one
    /// invocation. A failure is handed on as it is, and nothing is
    /// rewritten. Otherwise every fetch response among the responses has
    /// the values of its records replaced by the UTF-8 bytes of the
    /// configured text; number and order of the responses stay as they are.
    pub fn transform<E>(&self, forwarded: Result<Vec<Message>, E>) -> (out: Result<Vec<Message>, E>)
        ensures
            match forwarded {
                Ok(responses) => out matches Ok(rewritten) && all_fetch_rewritten(
                    responses@,
                    rewritten@,
                    encode_utf8(self.replacement()),
                ),
                Err(failure) => out == Err::<Vec<Message>, E>(failure),
            },
    {
        match forwarded {
            Ok(responses) => {
                let mut responses = responses;
                rewrite_messages(&mut responses, self.result.as_str().as_bytes());
                Ok(responses)
            },
            Err(failure) => Err(failure),
        }
    }
}

} // verus!
