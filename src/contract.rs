use vstd::prelude::*;

verus! {

/// The contracts whose addresses are tracked.
#[derive(Clone, Copy, Debug, PartialEq, Eq, Structural, Hash)]
pub enum Contract {
    HotShot,
    PlonkVerifier,
    StateUpdateVK,
    LightClient,
    LightClientProxy,
}

/// The fixed display name of each contract, used as its key in the exported file.
pub open spec fn name_of(c: Contract) -> &'static str {
    match c {
        Contract::HotShot => "ESPRESSO_SEQUENCER_HOTSHOT_ADDRESS",
        Contract::PlonkVerifier => "ESPRESSO_SEQUENCER_PLONK_VERIFIER_ADDRESS",
        Contract::StateUpdateVK => "ESPRESSO_SEQUENCER_LIGHT_CLIENT_STATE_UPDATE_VK_ADDRESS",
        Contract::LightClient => "ESPRESSO_SEQUENCER_LIGHT_CLIENT_ADDRESS",
        Contract::LightClientProxy => "ESPRESSO_SEQUENCER_LIGHT_CLIENT_PROXY_ADDRESS",
    }
}

impl Contract {
    /// The display name of this contract.
    pub fn name(&self) -> (r: &'static str)
        ensures
            r == name_of(*self),
    {
        match self {
            Contract::HotShot => "ESPRESSO_SEQUENCER_HOTSHOT_ADDRESS",
            Contract::PlonkVerifier => "ESPRESSO_SEQUENCER_PLONK_VERIFIER_ADDRESS",
            Contract::StateUpdateVK => "ESPRESSO_SEQUENCER_LIGHT_CLIENT_STATE_UPDATE_VK_ADDRESS",
            Contract::LightClient => "ESPRESSO_SEQUENCER_LIGHT_CLIENT_ADDRESS",
            Contract::LightClientProxy => "ESPRESSO_SEQUENCER_LIGHT_CLIENT_PROXY_ADDRESS",
        }
    }
}

} // verus!
