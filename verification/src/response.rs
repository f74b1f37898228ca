//! Effect descriptors. The engine never moves an asset itself: every
//! operation returns an ordered batch of effects that the host executes as
//! one atomic unit together with the state change.

use vstd::prelude::*;
use crate::error::{ContractError, ErrorV};
use crate::util::push_dv;

verus! {

/// One state-changing action for the host to execute.
pub enum EffectMsg {
    /// Transfer native funds held by the contract to `to_address`.
    BankSend { to_address: String, denom: String, amount: u128 },
    /// Pull `amount` of the fungible token at `contract_address` from
    /// `owner`'s pre-granted allowance over to `recipient`.
    Cw20TransferFrom { contract_address: String, owner: String, recipient: String, amount: u128 },
    /// Transfer the NFT `token_id` of the collection at `contract_address`
    /// to `recipient`, using the approval granted to this contract.
    Cw721TransferNft { contract_address: String, recipient: String, token_id: String },
    /// Mint `token_id` in the collection at `contract_address` for `owner`.
    Cw721Mint { contract_address: String, token_id: String, owner: String, token_uri: String },
    /// Spawn a new collection instance; its completion is reported back
    /// under `reply_id`.
    InstantiateCollection {
        code_id: u64,
        reply_id: u64,
        admin: String,
        label: String,
        name: String,
        symbol: String,
        minter: String,
    },
}

/// Mathematical image of [`EffectMsg`].
#[verifier::ext_equal]
pub enum EffectV {
    BankSend { to_address: Seq<char>, denom: Seq<char>, amount: u128 },
    Cw20TransferFrom {
        contract_address: Seq<char>,
        owner: Seq<char>,
        recipient: Seq<char>,
        amount: u128,
    },
    Cw721TransferNft { contract_address: Seq<char>, recipient: Seq<char>, token_id: Seq<char> },
    Cw721Mint {
        contract_address: Seq<char>,
        token_id: Seq<char>,
        owner: Seq<char>,
        token_uri: Seq<char>,
    },
    InstantiateCollection {
        code_id: u64,
        reply_id: u64,
        admin: Seq<char>,
        label: Seq<char>,
        name: Seq<char>,
        symbol: Seq<char>,
        minter: Seq<char>,
    },
}

impl DeepView for EffectMsg {
    type V = EffectV;

    open spec fn deep_view(&self) -> EffectV {
        match self {
            EffectMsg::BankSend { to_address, denom, amount } => (EffectV::BankSend {
                to_address: to_address@,
                denom: denom@,
                amount: *amount,
            }),
            EffectMsg::Cw20TransferFrom {
                contract_address,
                owner,
                recipient,
                amount,
            } => (EffectV::Cw20TransferFrom {
                contract_address: contract_address@,
                owner: owner@,
                recipient: recipient@,
                amount: *amount,
            }),
            EffectMsg::Cw721TransferNft {
                contract_address,
                recipient,
                token_id,
            } => (EffectV::Cw721TransferNft {
                contract_address: contract_address@,
                recipient: recipient@,
                token_id: token_id@,
            }),
            EffectMsg::Cw721Mint {
                contract_address,
                token_id,
                owner,
                token_uri,
            } => (EffectV::Cw721Mint {
                contract_address: contract_address@,
                token_id: token_id@,
                owner: owner@,
                token_uri: token_uri@,
            }),
            EffectMsg::InstantiateCollection {
                code_id,
                reply_id,
                admin,
                label,
                name,
                symbol,
                minter,
            } => (EffectV::InstantiateCollection {
                code_id: *code_id,
                reply_id: *reply_id,
                admin: admin@,
                label: label@,
                name: name@,
                symbol: symbol@,
                minter: minter@,
            }),
        }
    }
}

/// A key/value pair describing what an operation did.
pub struct Attribute {
    pub key: String,
    pub value: String,
}

impl DeepView for Attribute {
    type V = (Seq<char>, Seq<char>);

    open spec fn deep_view(&self) -> (Seq<char>, Seq<char>) {
        (self.key@, self.value@)
    }
}

/// What a successful operation hands back to the host: effect messages to
/// execute atomically, and descriptive attributes.
pub struct Response {
    pub messages: Vec<EffectMsg>,
    pub attributes: Vec<Attribute>,
}

/// Mathematical image of [`Response`].
#[verifier::ext_equal]
pub struct ResponseV {
    pub messages: Seq<EffectV>,
    pub attributes: Seq<(Seq<char>, Seq<char>)>,
}

impl DeepView for Response {
    type V = ResponseV;

    open spec fn deep_view(&self) -> ResponseV {
        ResponseV {
            messages: self.messages.deep_view(),
            attributes: self.attributes.deep_view(),
        }
    }
}

/// The mathematical image of an operation's outcome.
pub open spec fn result_dv(r: Result<Response, ContractError>) -> Result<ResponseV, ErrorV> {
    match r {
        Ok(resp) => Ok(resp.deep_view()),
        Err(e) => Err(e.deep_view()),
    }
}

impl Response {
    /// An empty response.
    pub fn new() -> (r: Response)
        ensures
            r.deep_view() == (ResponseV { messages: Seq::empty(), attributes: Seq::empty() }),
    {
        let r = Response { messages: Vec::new(), attributes: Vec::new() };
        proof {
            assert(r.deep_view().messages =~= Seq::<EffectV>::empty());
            assert(r.deep_view().attributes =~= Seq::<(Seq<char>, Seq<char>)>::empty());
            assert(r.deep_view() =~= (ResponseV {
                messages: Seq::empty(),
                attributes: Seq::empty(),
            }));
        }
        r
    }

    /// Appends an effect message.
    pub fn add_message(&mut self, msg: EffectMsg)
        ensures
            final(self).deep_view() == (ResponseV {
                messages: old(self).deep_view().messages.push(msg.deep_view()),
                attributes: old(self).deep_view().attributes,
            }),
    {
        push_dv(&mut self.messages, msg);
        proof {
            assert(self.deep_view() =~= (ResponseV {
                messages: old(self).deep_view().messages.push(msg.deep_view()),
                attributes: old(self).deep_view().attributes,
            }));
        }
    }

    /// Appends an attribute.
    pub fn add_attribute(&mut self, key: &str, value: String)
        ensures
            final(self).deep_view() == (ResponseV {
                messages: old(self).deep_view().messages,
                attributes: old(self).deep_view().attributes.push((key@, value@)),
            }),
    {
        push_dv(&mut self.attributes, Attribute { key: key.to_owned(), value });
        proof {
            assert(self.deep_view() =~= (ResponseV {
                messages: old(self).deep_view().messages,
                attributes: old(self).deep_view().attributes.push((key@, value@)),
            }));
        }
    }
}

} // verus!
