//! The networks that a message can belong to, told apart by a magic number.
use vstd::prelude::*;

verus! {

#[derive(Debug, Clone, Copy, PartialEq, Eq, Structural)]
pub enum Network {
    Main,
    Testnet,
    Testnet3,
    Namecoin,
}

impl View for Network {
    type V = Network;

    open spec fn view(&self) -> Network {
        *self
    }
}

pub const MAIN: u32 = 0xD9B4BEF9;

pub const TESTNET: u32 = 0xDAB5BFFA;

pub const TESTNET3: u32 = 0x0709110B;

pub const NAMECOIN: u32 = 0xFEB4BEF9;

impl Network {
    /// The magic number of the network.
    pub open spec fn spec_value(self) -> u32 {
        match self {
            Network::Main => MAIN,
            Network::Testnet => TESTNET,
            Network::Testnet3 => TESTNET3,
            Network::Namecoin => NAMECOIN,
        }
    }

    /// The network with magic number `magic`, if any.
    pub open spec fn spec_new(magic: u32) -> Option<Network> {
        if magic == MAIN {
            Some(Network::Main)
        } else if magic == TESTNET {
            Some(Network::Testnet)
        } else if magic == TESTNET3 {
            Some(Network::Testnet3)
        } else if magic == NAMECOIN {
            Some(Network::Namecoin)
        } else {
            None
        }
    }

    pub fn new(magic: u32) -> (r: Option<Network>)
        ensures
            r == Network::spec_new(magic),
    {
        if magic == MAIN {
            Some(Network::Main)
        } else if magic == TESTNET {
            Some(Network::Testnet)
        } else if magic == TESTNET3 {
            Some(Network::Testnet3)
        } else if magic == NAMECOIN {
            Some(Network::Namecoin)
        } else {
            None
        }
    }

    pub fn value(&self) -> (r: u32)
        ensures
            r == self.spec_value(),
    {
        match *self {
            Network::Main => MAIN,
            Network::Testnet => TESTNET,
            Network::Testnet3 => TESTNET3,
            Network::Namecoin => NAMECOIN,
        }
    }
}

/// The magic number of a network names the network again, and a magic number
/// that names a network is that network's number.
pub proof fn lemma_network_value_names_network(n: Network, magic: u32)
    ensures
        Network::spec_new(n.spec_value()) == Some(n),
        Network::spec_new(magic) matches Some(m) ==> m.spec_value() == magic,
{
}

/// The magic numbers of the networks: main `0xD9B4BEF9` (bytes `F9 BE B4 D9`
/// on the wire), testnet `0xDAB5BFFA`, testnet3 `0x0709110B` and namecoin
/// `0xFEB4BEF9`; no two networks share one.
pub proof fn lemma_network_magic_numbers()
    ensures
        Network::Main.spec_value() == 0xD9B4BEF9u32,
        Network::Testnet.spec_value() == 0xDAB5BFFAu32,
        Network::Testnet3.spec_value() == 0x0709110Bu32,
        Network::Namecoin.spec_value() == 0xFEB4BEF9u32,
        forall|a: Network, b: Network| a.spec_value() == b.spec_value() ==> a == b,
{
}

} // verus!
