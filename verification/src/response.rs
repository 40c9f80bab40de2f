//! What a call hands back to the chain: attributes to record and messages to send.

use vstd::prelude::*;
use vstd::string::StringExecFns;

verus! {

/// A key and a value recorded with a call.
#[derive(Debug, PartialEq, Eq)]
pub struct Attribute {
    pub key: String,
    pub value: String,
}

impl View for Attribute {
    type V = (Seq<char>, Seq<char>);

    open spec fn view(&self) -> (Seq<char>, Seq<char>) {
        (self.key@, self.value@)
    }
}

impl DeepView for Attribute {
    type V = (Seq<char>, Seq<char>);

    open spec fn deep_view(&self) -> (Seq<char>, Seq<char>) {
        self@
    }
}

/// A message that the chain is asked to deliver after the call.
#[derive(Debug, PartialEq, Eq)]
pub enum SubMsg {
    /// Ask the rewards module to pay out, and to answer under `reply_id`. A limit of zero
    /// records leaves the number of records to the module.
    WithdrawRewards { reply_id: u64, records_limit: u64 },
    /// Tell `contract` that it has received the token `token_id` from `sender`.
    ReceiveNft { contract: String, sender: String, token_id: String, msg: Vec<u8> },
}

/// What a `SubMsg` holds.
pub enum SubMsgView {
    WithdrawRewards { reply_id: u64, records_limit: u64 },
    ReceiveNft { contract: Seq<char>, sender: Seq<char>, token_id: Seq<char>, msg: Seq<u8> },
}

impl View for SubMsg {
    type V = SubMsgView;

    open spec fn view(&self) -> SubMsgView {
        match self {
            SubMsg::WithdrawRewards { reply_id, records_limit } => SubMsgView::WithdrawRewards {
                reply_id: *reply_id,
                records_limit: *records_limit,
            },
            SubMsg::ReceiveNft { contract, sender, token_id, msg } => SubMsgView::ReceiveNft {
                contract: contract@,
                sender: sender@,
                token_id: token_id@,
                msg: msg@,
            },
        }
    }
}

impl DeepView for SubMsg {
    type V = SubMsgView;

    open spec fn deep_view(&self) -> SubMsgView {
        self@
    }
}

/// The outcome of a call that succeeded.
#[derive(Debug, PartialEq, Eq)]
pub struct Response {
    pub messages: Vec<SubMsg>,
    pub attributes: Vec<Attribute>,
}

/// What a `Response` holds.
pub struct ResponseView {
    pub messages: Seq<SubMsgView>,
    pub attributes: Seq<(Seq<char>, Seq<char>)>,
}

impl View for Response {
    type V = ResponseView;

    open spec fn view(&self) -> ResponseView {
        ResponseView {
            messages: self.messages.deep_view(),
            attributes: self.attributes.deep_view(),
        }
    }
}

impl Response {
    /// A response without messages or attributes.
    pub fn new() -> (response: Response)
        ensures
            response@ == (ResponseView { messages: Seq::empty(), attributes: Seq::empty() }),
    {
        let response = Response { messages: Vec::new(), attributes: Vec::new() };
        assert(response@.messages =~= Seq::empty());
        assert(response@.attributes =~= Seq::empty());
        response
    }

    /// The response with one more attribute at its end.
    pub fn add_attribute(self, key: &str, value: String) -> (response: Response)
        ensures
            response@ == (ResponseView {
                attributes: self@.attributes.push((key@, value@)),
                ..self@
            }),
    {
        let mut response = self;
        response.attributes.push(Attribute { key: String::from_str(key), value });
        assert(response@.attributes =~= self@.attributes.push((key@, value@)));
        response
    }

    /// The response with one more message at its end.
    pub fn add_submessage(self, message: SubMsg) -> (response: Response)
        ensures
            response@ == (ResponseView { messages: self@.messages.push(message@), ..self@ }),
    {
        let mut response = self;
        response.messages.push(message);
        assert(response@.messages =~= self@.messages.push(message@));
        response
    }
}

} // verus!
