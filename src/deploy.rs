use vstd::prelude::*;
use crate::address::Address;
use crate::cache::Contracts;
use crate::contract::Contract;
use crate::link::{LinkError, Template, link_libraries, link_result_ok};

verus! {

/// Where a light client deployment stands.
#[derive(Clone, Copy, Debug, PartialEq, Eq, Structural)]
pub enum Stage {
    /// Waiting for the verifier library.
    Verifier,
    /// Waiting for the state update verification key library.
    Vk,
    /// Waiting for the light client itself.
    Client,
    /// Finished, with an address or an error.
    Over,
}

/// The outcome of a creation transaction, as reported by the backend.
#[derive(Clone, Debug)]
pub enum Event {
    Deployed(Address),
    Failed(String),
}

/// A failed deployment, with the contract whose step failed.
#[derive(Clone, Debug)]
pub enum DeployError {
    /// The contract's code could not be linked against its libraries.
    Link(Contract, LinkError),
    /// The contract's creation transaction failed.
    Backend(Contract, String),
}

/// What the caller must do next.
#[derive(Clone, Debug)]
pub enum Action {
    /// Send the creation transaction of this library and report the outcome.
    Library(Contract),
    /// Send the creation transaction of the light client with this linked
    /// code and report the outcome.
    Create(Vec<u8>),
    /// The light client is deployed at this address.
    Done(Address),
    /// The deployment failed.
    Failed(DeployError),
}

/// The contract that each waiting stage deploys.
pub open spec fn stage_contract(s: Stage) -> Contract {
    match s {
        Stage::Verifier => Contract::PlonkVerifier,
        Stage::Vk => Contract::StateUpdateVK,
        _ => Contract::LightClient,
    }
}

/// The fully qualified name of the verifier library.
pub open spec fn verifier_library() -> Seq<char> {
    "contracts/src/libraries/PlonkVerifier.sol:PlonkVerifier"@
}

/// The fully qualified name of the verification key library of each variant.
pub open spec fn vk_library(mock: bool) -> Seq<char> {
    if mock {
        "contracts/tests/mocks/LightClientStateUpdateVKMock.sol:LightClientStateUpdateVKMock"@
    } else {
        "contracts/src/libraries/LightClientStateUpdateVK.sol:LightClientStateUpdateVK"@
    }
}

/// The constructor arguments of the mock light client: those given, or the
/// genesis state with the largest `u32` as a disabled bound.
pub fn constructor_args_or_default<S>(given: Option<(S, u32)>, genesis: S) -> (r: (S, u32))
    ensures
        r == (match given {
            Some(args) => args,
            None => (genesis, u32::MAX),
        }),
{
    match given {
        Some(args) => args,
        None => (genesis, u32::MAX),
    }
}

/// A deployment of the light client and of the two libraries it links
/// against, each deployed only where the cache does not know it yet.
#[derive(Clone, Debug)]
pub struct LightClientDeployment {
    mock: bool,
    template: Template,
    stage: Stage,
    verifier: Address,
    vk: Address,
}

/// Starts the deployment of the production light client from its unlinked
/// template. The light client is upgradable and still needs its
/// initialization call once deployed.
pub fn deploy_light_client_contract(template: Template) -> (r: LightClientDeployment)
    ensures
        r.stage() == Stage::Verifier,
        !r.mock(),
        r.template() == template,
{
    LightClientDeployment::new(false, template)
}

/// Starts the deployment of the mock light client from its unlinked template.
/// Its constructor initializes it fully.
pub fn deploy_mock_light_client_contract(template: Template) -> (r: LightClientDeployment)
    ensures
        r.stage() == Stage::Verifier,
        r.mock(),
        r.template() == template,
{
    LightClientDeployment::new(true, template)
}

impl LightClientDeployment {
    pub closed spec fn stage(&self) -> Stage {
        self.stage
    }

    pub closed spec fn mock(&self) -> bool {
        self.mock
    }

    pub closed spec fn template(&self) -> Template {
        self.template
    }

    /// The address of the verifier library, once known.
    pub closed spec fn verifier_address(&self) -> Address {
        self.verifier
    }

    /// The address of the verification key library, once known.
    pub closed spec fn vk_address(&self) -> Address {
        self.vk
    }

    /// The libraries that the template is linked against.
    pub open spec fn libs(&self) -> Seq<(Seq<char>, Address)> {
        seq![(verifier_library(), self.verifier_address()), (vk_library(self.mock()), self.vk_address())]
    }

    /// The cache holds the addresses of the libraries that the stage has
    /// passed, and not the one it waits for.
    pub open spec fn inv(&self, m: Map<Contract, Address>) -> bool {
        &&& (self.stage() == Stage::Vk || self.stage() == Stage::Client) ==> m.contains_key(
            Contract::PlonkVerifier,
        ) && m[Contract::PlonkVerifier] == self.verifier_address()
        &&& self.stage() == Stage::Client ==> m.contains_key(Contract::StateUpdateVK)
            && m[Contract::StateUpdateVK] == self.vk_address()
        &&& (self.stage() == Stage::Verifier || self.stage() == Stage::Vk) ==> !m.contains_key(
            stage_contract(self.stage()),
        )
    }

    /// What an action handed out while the stage waits must be.
    pub open spec fn waiting_action(&self, m: Map<Contract, Address>, r: Action) -> bool {
        &&& self.stage() != Stage::Over ==> self.inv(m)
        &&& match r {
            Action::Library(c) => (self.stage() == Stage::Verifier || self.stage() == Stage::Vk)
                && c == stage_contract(self.stage()),
            Action::Create(code) => self.stage() == Stage::Client && link_result_ok(
                self.template(),
                self.libs(),
                Ok(code),
            ),
            Action::Failed(DeployError::Link(c, e)) => {
                &&& self.stage() == Stage::Over
                &&& c == Contract::LightClient
                &&& link_result_ok(self.template(), self.libs(), Err(e))
                &&& m.contains_key(Contract::PlonkVerifier)
                &&& m[Contract::PlonkVerifier] == self.verifier_address()
                &&& m.contains_key(Contract::StateUpdateVK)
                &&& m[Contract::StateUpdateVK] == self.vk_address()
            },
            _ => false,
        }
    }

    fn new(mock: bool, template: Template) -> (r: LightClientDeployment)
        ensures
            r.stage() == Stage::Verifier,
            r.mock() == mock,
            r.template() == template,
    {
        let zero = Address::new([0u8; 20]);
        LightClientDeployment { mock, template, stage: Stage::Verifier, verifier: zero, vk: zero }
    }

    /// The current stage.
    pub fn current_stage(&self) -> (r: Stage)
        ensures
            r == self.stage(),
    {
        self.stage
    }

    /// Whether this is the mock variant.
    pub fn is_mock(&self) -> (r: bool)
        ensures
            r == self.mock(),
    {
        self.mock
    }

    /// Skips the libraries that the cache knows, then hands out the next
    /// deployment, or links the light client once both libraries are known.
    fn advance(&mut self, contracts: &Contracts) -> (r: Action)
        requires
            contracts.wf(),
            old(self).stage() != Stage::Over,
            old(self).stage() == Stage::Vk ==> contracts.map().contains_key(Contract::PlonkVerifier)
                && contracts.map()[Contract::PlonkVerifier] == old(self).verifier_address(),
            old(self).stage() == Stage::Client ==> old(self).inv(contracts.map()),
        ensures
            final(self).waiting_action(contracts.map(), r),
            final(self).mock() == old(self).mock(),
            final(self).template() == old(self).template(),
            old(self).stage() != Stage::Verifier ==> final(self).verifier_address() == old(self).verifier_address(),
            old(self).stage() == Stage::Client ==> final(self).vk_address() == old(self).vk_address(),
            contracts.map().contains_key(Contract::PlonkVerifier) ==> final(self).verifier_address()
                == contracts.map()[Contract::PlonkVerifier],
    {
        if self.stage == Stage::Verifier {
            match contracts.lookup(Contract::PlonkVerifier) {
                Some(a) => {
                    self.verifier = a;
                    self.stage = Stage::Vk;
                },
                None => {
                    return Action::Library(Contract::PlonkVerifier);
                },
            }
        }
        if self.stage == Stage::Vk {
            match contracts.lookup(Contract::StateUpdateVK) {
                Some(a) => {
                    self.vk = a;
                    self.stage = Stage::Client;
                },
                None => {
                    return Action::Library(Contract::StateUpdateVK);
                },
            }
        }
        let vk_name = if self.mock {
            "contracts/tests/mocks/LightClientStateUpdateVKMock.sol:LightClientStateUpdateVKMock"
        } else {
            "contracts/src/libraries/LightClientStateUpdateVK.sol:LightClientStateUpdateVK"
        };
        let mut libs: Vec<(String, Address)> = Vec::new();
        libs.push(("contracts/src/libraries/PlonkVerifier.sol:PlonkVerifier".to_owned(), self.verifier));
        libs.push((vk_name.to_owned(), self.vk));
        proof {
            assert(crate::link::libs_view(libs@) =~= self.libs());
        }
        match link_libraries(&self.template, &libs) {
            Ok(code) => Action::Create(code),
            Err(e) => {
                self.stage = Stage::Over;
                Action::Failed(DeployError::Link(Contract::LightClient, e))
            },
        }
    }

    /// Begins the deployment. Where the cache knows the light client already,
    /// nothing is deployed and its address is returned.
    pub fn start(&mut self, contracts: &Contracts) -> (r: Action)
        requires
            contracts.wf(),
            old(self).stage() == Stage::Verifier,
        ensures
            final(self).mock() == old(self).mock(),
            final(self).template() == old(self).template(),
            contracts.map().contains_key(Contract::LightClient) ==> r == Action::Done(
                contracts.map()[Contract::LightClient],
            ) && final(self).stage() == Stage::Over,
            !contracts.map().contains_key(Contract::LightClient) ==> final(self).waiting_action(
                contracts.map(),
                r,
            ),
    {
        match contracts.lookup(Contract::LightClient) {
            Some(a) => {
                self.stage = Stage::Over;
                Action::Done(a)
            },
            None => self.advance(contracts),
        }
    }

    /// Takes the outcome of the creation transaction that the last action
    /// asked for, records a deployed address in the cache, and returns the
    /// next action.
    pub fn step(&mut self, contracts: &mut Contracts, event: Event) -> (r: Action)
        requires
            old(contracts).wf(),
            old(self).stage() != Stage::Over,
            old(self).inv(old(contracts).map()),
        ensures
            final(contracts).wf(),
            final(self).mock() == old(self).mock(),
            final(self).template() == old(self).template(),
            match event {
                Event::Deployed(a) => final(contracts).map() == old(contracts).map().insert(
                    stage_contract(old(self).stage()),
                    a,
                ),
                Event::Failed(e) => final(contracts).map() == old(contracts).map() && r
                    == Action::Failed(DeployError::Backend(stage_contract(old(self).stage()), e))
                    && final(self).stage() == Stage::Over,
            },
            event is Deployed && old(self).stage() == Stage::Verifier ==> final(self).verifier_address()
                == event->Deployed_0,
            event is Deployed && old(self).stage() == Stage::Vk ==> final(self).vk_address()
                == event->Deployed_0 && final(self).verifier_address() == old(self).verifier_address(),
            event is Deployed && old(self).stage() != Stage::Client ==> final(self).waiting_action(
                final(contracts).map(),
                r,
            ),
            event is Deployed && old(self).stage() == Stage::Client ==> r == Action::Done(
                event->Deployed_0,
            ) && final(self).stage() == Stage::Over,
            event is Deployed && old(self).stage() == Stage::Client ==> {
                let m = final(contracts).map();
                &&& m.contains_key(Contract::PlonkVerifier)
                &&& m[Contract::PlonkVerifier] == old(self).verifier_address()
                &&& m.contains_key(Contract::StateUpdateVK)
                &&& m[Contract::StateUpdateVK] == old(self).vk_address()
                &&& m.contains_key(Contract::LightClient)
                &&& m[Contract::LightClient] == event->Deployed_0
            },
            event is Failed && old(self).stage() == Stage::Client ==> {
                let m = final(contracts).map();
                &&& m.contains_key(Contract::PlonkVerifier)
                &&& m[Contract::PlonkVerifier] == old(self).verifier_address()
                &&& r == Action::Failed(DeployError::Backend(Contract::LightClient, event->Failed_0))
            },
    {
        match event {
            Event::Failed(e) => {
                let c = match self.stage {
                    Stage::Verifier => Contract::PlonkVerifier,
                    Stage::Vk => Contract::StateUpdateVK,
                    _ => Contract::LightClient,
                };
                self.stage = Stage::Over;
                Action::Failed(DeployError::Backend(c, e))
            },
            Event::Deployed(a) => match self.stage {
                Stage::Verifier => {
                    contracts.record(Contract::PlonkVerifier, a);
                    self.verifier = a;
                    self.stage = Stage::Vk;
                    self.advance(contracts)
                },
                Stage::Vk => {
                    contracts.record(Contract::StateUpdateVK, a);
                    self.vk = a;
                    self.stage = Stage::Client;
                    self.advance(contracts)
                },
                _ => {
                    contracts.record(Contract::LightClient, a);
                    self.stage = Stage::Over;
                    Action::Done(a)
                },
            },
        }
    }
}

} // verus!
