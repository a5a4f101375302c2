use deployer::address::Address;
use deployer::cache::{Contracts, DeployStep, DeployedContracts};
use deployer::contract::Contract;
use deployer::deploy::{
    constructor_args_or_default, deploy_light_client_contract, deploy_mock_light_client_contract,
    Action, DeployError, Event, Stage,
};
use deployer::link::{link_libraries, LinkError, Template};
use ethers::solc::utils::library_hash_placeholder;

const VERIFIER_LIB: &str = "contracts/src/libraries/PlonkVerifier.sol:PlonkVerifier";
const VK_LIB: &str = "contracts/src/libraries/LightClientStateUpdateVK.sol:LightClientStateUpdateVK";
const VK_MOCK_LIB: &str =
    "contracts/tests/mocks/LightClientStateUpdateVKMock.sol:LightClientStateUpdateVKMock";

fn addr(b: u8) -> Address {
    Address::new([b; 20])
}

fn hex_text(a: &Address) -> String {
    let mut out = Vec::new();
    a.write_hex(&mut out);
    String::from_utf8(out).unwrap()
}

fn placeholder(name: &str) -> String {
    format!("__{}__", library_hash_placeholder(name))
}

/// Code `60 <lib1> 61 <lib2> 62` with placeholders for the two libraries.
fn two_lib_template(lib1: &str, lib2: &str) -> Template {
    Template::Unlinked(
        format!("60{}61{}62", placeholder(lib1), placeholder(lib2)),
        vec![lib1.to_string(), lib2.to_string()],
    )
}

fn expected_code(a: u8, b: u8) -> Vec<u8> {
    let mut code = vec![0x60];
    code.extend([a; 20]);
    code.push(0x61);
    code.extend([b; 20]);
    code.push(0x62);
    code
}

#[test]
fn address_hex_is_lowercase_with_prefix() {
    assert_eq!(hex_text(&addr(0xAB)), format!("0x{}", "ab".repeat(20)));
    let mut bytes = [0u8; 20];
    bytes[0] = 0x01;
    bytes[19] = 0xf0;
    let text = hex_text(&Address::new(bytes));
    assert_eq!(text.len(), 42);
    assert_eq!(text, format!("0x01{}f0", "00".repeat(18)));
}

#[test]
fn contract_names() {
    assert_eq!(Contract::HotShot.name(), "ESPRESSO_SEQUENCER_HOTSHOT_ADDRESS");
    assert_eq!(Contract::PlonkVerifier.name(), "ESPRESSO_SEQUENCER_PLONK_VERIFIER_ADDRESS");
    assert_eq!(
        Contract::StateUpdateVK.name(),
        "ESPRESSO_SEQUENCER_LIGHT_CLIENT_STATE_UPDATE_VK_ADDRESS"
    );
    assert_eq!(Contract::LightClient.name(), "ESPRESSO_SEQUENCER_LIGHT_CLIENT_ADDRESS");
    assert_eq!(
        Contract::LightClientProxy.name(),
        "ESPRESSO_SEQUENCER_LIGHT_CLIENT_PROXY_ADDRESS"
    );
}

#[test]
fn cache_lookup_and_record() {
    let mut c = Contracts::new();
    assert_eq!(c.lookup(Contract::HotShot), None);
    c.record(Contract::HotShot, addr(1));
    c.record(Contract::LightClient, addr(2));
    assert_eq!(c.lookup(Contract::HotShot), Some(addr(1)));
    assert_eq!(c.lookup(Contract::LightClient), Some(addr(2)));
    assert_eq!(c.lookup(Contract::PlonkVerifier), None);
    c.record(Contract::HotShot, addr(3));
    assert_eq!(c.lookup(Contract::HotShot), Some(addr(3)));
    assert_eq!(c.entries().len(), 2);
}

#[test]
fn cache_seeded_from_predeployed() {
    let d = DeployedContracts {
        hotshot: None,
        plonk_verifier: Some(addr(7)),
        light_client_state_update_vk: None,
        light_client: Some(addr(8)),
        light_client_proxy: None,
    };
    let c = Contracts::from_deployed(d);
    assert_eq!(c.entries(), vec![(Contract::PlonkVerifier, addr(7)), (Contract::LightClient, addr(8))]);
    assert_eq!(c.lookup(Contract::HotShot), None);
}

#[test]
fn export_two_entries() {
    let mut c = Contracts::new();
    c.record(Contract::PlonkVerifier, addr(0xAA));
    c.record(Contract::StateUpdateVK, addr(0xBB));
    let mut out = Vec::new();
    c.write(&mut out);
    let text = String::from_utf8(out).unwrap();
    let expected = format!(
        "ESPRESSO_SEQUENCER_PLONK_VERIFIER_ADDRESS=0x{}\nESPRESSO_SEQUENCER_LIGHT_CLIENT_STATE_UPDATE_VK_ADDRESS=0x{}\n",
        "aa".repeat(20),
        "bb".repeat(20)
    );
    assert_eq!(text, expected);
    assert_eq!(text.lines().count(), 2);
}

#[test]
fn export_empty_cache() {
    let mut out = vec![b'x'];
    Contracts::new().write(&mut out);
    assert_eq!(out, vec![b'x']);
}

#[test]
fn deploy_fn_skips_cached() {
    let mut c = Contracts::new();
    assert_eq!(c.deploy_fn(Contract::PlonkVerifier), DeployStep::Run);
    c.record(Contract::PlonkVerifier, addr(5));
    assert_eq!(c.deploy_fn(Contract::PlonkVerifier), DeployStep::Skip(addr(5)));
}

#[test]
fn record_outcome_records_success_only() {
    let mut c = Contracts::new();
    let r = c.record_outcome(Contract::HotShot, Ok(addr(4)));
    assert_eq!(r.unwrap(), addr(4));
    assert_eq!(c.lookup(Contract::HotShot), Some(addr(4)));
    let r = c.record_outcome(Contract::LightClient, Err("reverted".to_string()));
    assert!(matches!(r, Err(DeployError::Backend(Contract::LightClient, ref m)) if m == "reverted"));
    assert_eq!(c.lookup(Contract::LightClient), None);
    assert_eq!(c.entries().len(), 1);
}

#[test]
fn link_both_libraries() {
    let t = two_lib_template(VERIFIER_LIB, VK_LIB);
    let libs = vec![(VERIFIER_LIB.to_string(), addr(0x11)), (VK_LIB.to_string(), addr(0x22))];
    assert_eq!(link_libraries(&t, &libs).unwrap(), expected_code(0x11, 0x22));
}

#[test]
fn link_missing_library_is_named() {
    let t = two_lib_template(VERIFIER_LIB, VK_LIB);
    let libs = vec![(VERIFIER_LIB.to_string(), addr(0x11))];
    let r = link_libraries(&t, &libs);
    assert!(matches!(r, Err(LinkError::Unresolved(ref n)) if n == VK_LIB));
    let libs = vec![(VK_LIB.to_string(), addr(0x22))];
    let r = link_libraries(&t, &libs);
    assert!(matches!(r, Err(LinkError::Unresolved(ref n)) if n == VERIFIER_LIB));
}

#[test]
fn link_names_first_unresolved_reference() {
    let t = two_lib_template(VK_LIB, VERIFIER_LIB);
    let r = link_libraries(&t, &vec![]);
    assert!(matches!(r, Err(LinkError::Unresolved(ref n)) if n == VK_LIB));
}

#[test]
fn link_unknown_placeholder_is_malformed() {
    let text = format!("60{}", placeholder(VK_MOCK_LIB));
    let t = Template::Unlinked(text, vec![VERIFIER_LIB.to_string()]);
    let libs = vec![(VERIFIER_LIB.to_string(), addr(0x11))];
    assert!(matches!(link_libraries(&t, &libs), Err(LinkError::Malformed)));
}

#[test]
fn link_ignores_other_libraries() {
    let t = two_lib_template(VERIFIER_LIB, VK_LIB);
    let libs = vec![
        (VERIFIER_LIB.to_string(), addr(0x11)),
        (VK_MOCK_LIB.to_string(), addr(0x22)),
        (VK_LIB.to_string(), addr(0x33)),
    ];
    assert_eq!(link_libraries(&t, &libs).unwrap(), expected_code(0x11, 0x33));
}

#[test]
fn link_malformed_code() {
    let t = Template::Unlinked("6z".to_string(), vec![]);
    assert!(matches!(link_libraries(&t, &vec![]), Err(LinkError::Malformed)));
    let t = Template::Unlinked("abc".to_string(), vec![]);
    assert!(matches!(link_libraries(&t, &vec![]), Err(LinkError::Malformed)));
}

#[test]
fn link_plain_hex_and_linked_template() {
    let t = Template::Unlinked("0x6001FF".to_string(), vec![]);
    assert_eq!(link_libraries(&t, &vec![]).unwrap(), vec![0x60, 0x01, 0xff]);
    let t = Template::Linked(vec![1, 2, 3]);
    let libs = vec![(VK_LIB.to_string(), addr(1))];
    assert_eq!(link_libraries(&t, &libs).unwrap(), vec![1, 2, 3]);
}

#[test]
fn full_deployment_fills_cache() {
    let mut c = Contracts::new();
    let mut d = deploy_light_client_contract(two_lib_template(VERIFIER_LIB, VK_LIB));
    assert!(!d.is_mock());
    assert!(matches!(d.start(&c), Action::Library(Contract::PlonkVerifier)));
    assert!(matches!(d.step(&mut c, Event::Deployed(addr(0x11))), Action::Library(Contract::StateUpdateVK)));
    match d.step(&mut c, Event::Deployed(addr(0x22))) {
        Action::Create(code) => assert_eq!(code, expected_code(0x11, 0x22)),
        other => panic!("unexpected action {:?}", other),
    }
    assert_eq!(d.current_stage(), Stage::Client);
    assert!(matches!(d.step(&mut c, Event::Deployed(addr(0x33))), Action::Done(a) if a == addr(0x33)));
    assert_eq!(d.current_stage(), Stage::Over);
    assert_eq!(c.lookup(Contract::PlonkVerifier), Some(addr(0x11)));
    assert_eq!(c.lookup(Contract::StateUpdateVK), Some(addr(0x22)));
    assert_eq!(c.lookup(Contract::LightClient), Some(addr(0x33)));
    assert_eq!(c.entries().len(), 3);
}

#[test]
fn predeployed_light_client_is_not_deployed() {
    let mut c = Contracts::new();
    c.record(Contract::LightClient, addr(9));
    let mut d = deploy_light_client_contract(two_lib_template(VERIFIER_LIB, VK_LIB));
    assert!(matches!(d.start(&c), Action::Done(a) if a == addr(9)));
    assert_eq!(d.current_stage(), Stage::Over);
    assert_eq!(c.entries().len(), 1);
}

#[test]
fn predeployed_libraries_are_skipped() {
    let mut c = Contracts::new();
    c.record(Contract::PlonkVerifier, addr(0x11));
    c.record(Contract::StateUpdateVK, addr(0x22));
    let mut d = deploy_mock_light_client_contract(two_lib_template(VERIFIER_LIB, VK_MOCK_LIB));
    assert!(d.is_mock());
    match d.start(&c) {
        Action::Create(code) => assert_eq!(code, expected_code(0x11, 0x22)),
        other => panic!("unexpected action {:?}", other),
    }
}

#[test]
fn client_failure_keeps_libraries() {
    let mut c = Contracts::new();
    let mut d = deploy_mock_light_client_contract(two_lib_template(VERIFIER_LIB, VK_MOCK_LIB));
    d.start(&c);
    d.step(&mut c, Event::Deployed(addr(0x11)));
    d.step(&mut c, Event::Deployed(addr(0x22)));
    let r = d.step(&mut c, Event::Failed("out of gas".to_string()));
    assert!(matches!(r, Action::Failed(DeployError::Backend(Contract::LightClient, ref m)) if m == "out of gas"));
    assert_eq!(c.lookup(Contract::PlonkVerifier), Some(addr(0x11)));
    assert_eq!(c.lookup(Contract::StateUpdateVK), Some(addr(0x22)));
    assert_eq!(c.lookup(Contract::LightClient), None);
}

#[test]
fn library_failure_names_library() {
    let mut c = Contracts::new();
    let mut d = deploy_light_client_contract(two_lib_template(VERIFIER_LIB, VK_LIB));
    d.start(&c);
    let r = d.step(&mut c, Event::Failed("rejected".to_string()));
    assert!(matches!(r, Action::Failed(DeployError::Backend(Contract::PlonkVerifier, _))));
    assert_eq!(c.entries().len(), 0);
}

#[test]
fn other_reference_is_named() {
    let other = "contracts/src/libraries/Other.sol:Other";
    let text = format!(
        "60{}61{}62{}",
        placeholder(VERIFIER_LIB),
        placeholder(VK_LIB),
        placeholder(other)
    );
    let refs = vec![VERIFIER_LIB.to_string(), VK_LIB.to_string(), other.to_string()];
    let mut c = Contracts::new();
    let mut d = deploy_light_client_contract(Template::Unlinked(text, refs));
    d.start(&c);
    d.step(&mut c, Event::Deployed(addr(0x11)));
    let r = d.step(&mut c, Event::Deployed(addr(0x22)));
    assert!(matches!(
        r,
        Action::Failed(DeployError::Link(Contract::LightClient, LinkError::Unresolved(ref n))) if n == other
    ));
    assert_eq!(d.current_stage(), Stage::Over);
    assert_eq!(c.lookup(Contract::PlonkVerifier), Some(addr(0x11)));
    assert_eq!(c.lookup(Contract::StateUpdateVK), Some(addr(0x22)));
    assert_eq!(c.lookup(Contract::LightClient), None);
}

#[test]
fn mock_other_reference_is_named() {
    let text = format!("60{}61{}", placeholder(VERIFIER_LIB), placeholder(VK_LIB));
    let refs = vec![VERIFIER_LIB.to_string(), VK_LIB.to_string()];
    let mut c = Contracts::new();
    c.record(Contract::PlonkVerifier, addr(0x11));
    c.record(Contract::StateUpdateVK, addr(0x22));
    let mut d = deploy_mock_light_client_contract(Template::Unlinked(text, refs));
    let r = d.start(&c);
    assert!(matches!(
        r,
        Action::Failed(DeployError::Link(Contract::LightClient, LinkError::Unresolved(ref n))) if n == VK_LIB
    ));
}

#[test]
fn default_constructor_args() {
    assert_eq!(constructor_args_or_default(None, "genesis"), ("genesis", u32::MAX));
    assert_eq!(constructor_args_or_default(Some(("given", 7)), "genesis"), ("given", 7));
}
