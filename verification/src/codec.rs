//! The two entry points: a `Chat` to JSON text, and JSON text back to a
//! `Chat` or one named error.

use vstd::prelude::*;

use crate::decode::dec_chat;
use crate::decode::DecodeError;
use crate::decode::DecodeErrorV;
use crate::encode::enc_chat;
use crate::json::Json;
use crate::model::Chat;
use crate::model::ChatV;
use crate::parse::sp_json;
use crate::ser::ser_json;

verus! {

impl Chat {
    /// The canonical JSON text of this node: its encoding, serialized.
    pub fn encode(&self) -> (r: String)
        ensures
            r@ == ser_json(enc_chat(self@)),
    {
        self.to_json().to_text()
    }

    /// Decode a node from JSON text: text that is not JSON is malformed,
    /// and a parsed value decodes exactly as `dec_chat` states.
    pub fn decode(text: &str) -> (r: Result<Chat, DecodeError>)
        ensures
            match sp_json(text@) {
                Option::None => r matches Err(e) && e@ == DecodeErrorV::MalformedJson,
                Option::Some(jv) => match r {
                    Result::Ok(c) => dec_chat(jv) == Result::Ok::<ChatV, DecodeErrorV>(c@),
                    Result::Err(e) => dec_chat(jv) == Result::Err::<ChatV, DecodeErrorV>(e@),
                },
            },
    {
        match Json::parse(text) {
            Option::None => Result::Err(DecodeError::MalformedJson),
            Option::Some(j) => Chat::from_json(&j),
        }
    }
}

} // verus!
