//! Call context supplied by the host: block information, caller identity and
//! attached funds. Addresses are carried as plain strings; the host validates
//! their encoding before a call reaches this core.

use vstd::prelude::*;

verus! {

/// The block in which the current call executes. `time` is in nanoseconds.
#[derive(Clone, Copy, PartialEq, Eq, Structural)]
pub struct BlockInfo {
    pub height: u64,
    pub time: u64,
}

/// Where this contract instance runs: its own address and the current block.
pub struct Env {
    pub contract_address: String,
    pub block: BlockInfo,
}

/// Mathematical image of [`Env`].
#[verifier::ext_equal]
pub struct EnvV {
    pub contract_address: Seq<char>,
    pub block: BlockInfo,
}

impl DeepView for Env {
    type V = EnvV;

    open spec fn deep_view(&self) -> EnvV {
        EnvV { contract_address: self.contract_address@, block: self.block }
    }
}

/// A quantity of a native currency.
pub struct Coin {
    pub denom: String,
    pub amount: u128,
}

/// Mathematical image of [`Coin`].
#[verifier::ext_equal]
pub struct CoinV {
    pub denom: Seq<char>,
    pub amount: u128,
}

impl DeepView for Coin {
    type V = CoinV;

    open spec fn deep_view(&self) -> CoinV {
        CoinV { denom: self.denom@, amount: self.amount }
    }
}

impl Clone for Coin {
    fn clone(&self) -> (r: Self)
        ensures
            r.deep_view() == self.deep_view(),
    {
        Coin { denom: self.denom.clone(), amount: self.amount }
    }
}

/// The identity of the caller and the native funds attached to the call.
pub struct MessageInfo {
    pub sender: String,
    pub funds: Vec<Coin>,
}

/// Mathematical image of [`MessageInfo`].
#[verifier::ext_equal]
pub struct MessageInfoV {
    pub sender: Seq<char>,
    pub funds: Seq<CoinV>,
}

impl DeepView for MessageInfo {
    type V = MessageInfoV;

    open spec fn deep_view(&self) -> MessageInfoV {
        MessageInfoV { sender: self.sender@, funds: self.funds.deep_view() }
    }
}

} // verus!
