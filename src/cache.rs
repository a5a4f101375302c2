use vstd::prelude::*;
use crate::address::{Address, address_text};
use crate::contract::{Contract, name_of};
use crate::deploy::DeployError;
use vstd::string::{StringSliceAdditionalSpecFns, is_ascii, is_ascii_spec_bytes};
use crate::address::{hex_digit, hex_of};

verus! {

/// Addresses supplied by the caller for contracts that are already deployed.
#[derive(Clone, Copy, Debug)]
pub struct DeployedContracts {
    pub hotshot: Option<Address>,
    pub plonk_verifier: Option<Address>,
    pub light_client_state_update_vk: Option<Address>,
    pub light_client: Option<Address>,
    pub light_client_proxy: Option<Address>,
}

/// The predeployed address given for `c`, if any.
pub open spec fn predeployed(d: DeployedContracts, c: Contract) -> Option<Address> {
    match c {
        Contract::HotShot => d.hotshot,
        Contract::PlonkVerifier => d.plonk_verifier,
        Contract::StateUpdateVK => d.light_client_state_update_vk,
        Contract::LightClient => d.light_client,
        Contract::LightClientProxy => d.light_client_proxy,
    }
}

/// No contract occurs twice among the entries.
pub open spec fn keys_unique(s: Seq<(Contract, Address)>) -> bool {
    forall|i: int, j: int| 0 <= i < j < s.len() ==> s[i].0 != s[j].0
}

/// The mapping that a list of entries describes; a later entry wins.
pub open spec fn map_of(s: Seq<(Contract, Address)>) -> Map<Contract, Address>
    decreases s.len(),
{
    if s.len() == 0 {
        Map::empty()
    } else {
        map_of(s.drop_last()).insert(s.last().0, s.last().1)
    }
}

/// One exported line: `<NAME>=0x<40 hex digits>` and a newline.
pub open spec fn line_of(e: (Contract, Address)) -> Seq<u8> {
    name_of(e.0).spec_bytes() + seq![61u8] + address_text(e.1) + seq![10u8]
}

/// The exported text of a list of entries, one line each, in order.
pub open spec fn export_text(s: Seq<(Contract, Address)>) -> Seq<u8>
    decreases s.len(),
{
    if s.len() == 0 {
        Seq::empty()
    } else {
        export_text(s.drop_last()) + line_of(s.last())
    }
}

pub proof fn lemma_map_of_keys(s: Seq<(Contract, Address)>, c: Contract)
    ensures
        map_of(s).contains_key(c) <==> exists|i: int| 0 <= i < s.len() && s[i].0 == c,
    decreases s.len(),
{
    if s.len() > 0 {
        lemma_map_of_keys(s.drop_last(), c);
        if map_of(s.drop_last()).contains_key(c) {
            let i = choose|i: int| 0 <= i < s.len() - 1 && s.drop_last()[i].0 == c;
            assert(s[i].0 == c);
        }
        if exists|i: int| 0 <= i < s.len() && s[i].0 == c {
            let i = choose|i: int| 0 <= i < s.len() && s[i].0 == c;
            if i < s.len() - 1 {
                assert(s.drop_last()[i].0 == c);
            }
        }
    }
}

pub proof fn lemma_map_of_value(s: Seq<(Contract, Address)>, i: int)
    requires
        keys_unique(s),
        0 <= i < s.len(),
    ensures
        map_of(s).contains_key(s[i].0),
        map_of(s)[s[i].0] == s[i].1,
    decreases s.len(),
{
    if i < s.len() - 1 {
        lemma_map_of_value(s.drop_last(), i);
    }
}

pub proof fn lemma_map_of_update(s: Seq<(Contract, Address)>, i: int, a: Address)
    requires
        keys_unique(s),
        0 <= i < s.len(),
    ensures
        map_of(s.update(i, (s[i].0, a))) =~= map_of(s).insert(s[i].0, a),
    decreases s.len(),
{
    let t = s.update(i, (s[i].0, a));
    if i == s.len() - 1 {
        assert(t.drop_last() =~= s.drop_last());
        lemma_map_of_keys(s.drop_last(), s[i].0);
    } else {
        lemma_map_of_update(s.drop_last(), i, a);
        assert(t.drop_last() =~= s.drop_last().update(i, (s[i].0, a)));
    }
}

/// How many times byte `x` occurs in `b`.
pub open spec fn count_byte(b: Seq<u8>, x: u8) -> nat
    decreases b.len(),
{
    if b.len() == 0 {
        0
    } else {
        count_byte(b.drop_last(), x) + if b.last() == x {
            1nat
        } else {
            0nat
        }
    }
}

proof fn lemma_count_concat(a: Seq<u8>, b: Seq<u8>, x: u8)
    ensures
        count_byte(a + b, x) == count_byte(a, x) + count_byte(b, x),
    decreases b.len(),
{
    if b.len() == 0 {
        assert(a + b =~= a);
    } else {
        lemma_count_concat(a, b.drop_last(), x);
        assert((a + b).drop_last() =~= a + b.drop_last());
    }
}

proof fn lemma_count_absent(b: Seq<u8>, x: u8)
    requires
        forall|i: int| 0 <= i < b.len() ==> b[i] != x,
    ensures
        count_byte(b, x) == 0,
    decreases b.len(),
{
    if b.len() > 0 {
        lemma_count_absent(b.drop_last(), x);
    }
}

/// Every byte of `hex_of(s)` is a lowercase hex digit.
pub proof fn lemma_hex_digits(s: Seq<u8>)
    ensures
        forall|i: int|
            0 <= i < hex_of(s).len() ==> ((48 <= #[trigger] hex_of(s)[i] <= 57) || (97 <= hex_of(s)[i]
                <= 102)),
        hex_of(s).len() == 2 * s.len(),
    decreases s.len(),
{
    if s.len() > 0 {
        lemma_hex_digits(s.drop_last());
        let h = hex_of(s.drop_last());
        let t = seq![hex_digit(s.last() / 16), hex_digit(s.last() % 16)];
        assert forall|i: int| 0 <= i < hex_of(s).len() implies ((48 <= #[trigger] hex_of(s)[i] <= 57)
            || (97 <= hex_of(s)[i] <= 102)) by {
            if i >= h.len() {
                assert(hex_of(s)[i] == t[i - h.len()]);
            } else {
                assert(hex_of(s)[i] == h[i]);
            }
        }
    }
}

/// A display name is ASCII text made of capital letters and underscores.
pub proof fn lemma_name_bytes(c: Contract)
    ensures
        forall|i: int|
            0 <= i < name_of(c).spec_bytes().len() ==> ((65 <= #[trigger] name_of(c).spec_bytes()[i]
                <= 90) || name_of(c).spec_bytes()[i] == 95),
{
    broadcast use is_ascii_spec_bytes;

    reveal_strlit("ESPRESSO_SEQUENCER_HOTSHOT_ADDRESS");
    reveal_strlit("ESPRESSO_SEQUENCER_PLONK_VERIFIER_ADDRESS");
    reveal_strlit("ESPRESSO_SEQUENCER_LIGHT_CLIENT_STATE_UPDATE_VK_ADDRESS");
    reveal_strlit("ESPRESSO_SEQUENCER_LIGHT_CLIENT_ADDRESS");
    reveal_strlit("ESPRESSO_SEQUENCER_LIGHT_CLIENT_PROXY_ADDRESS");
    let n = name_of(c);
    assert(forall|i: int| 0 <= i < n@.len() ==> ('A' <= #[trigger] n@[i] <= 'Z') || n@[i] == '_');
    assert(is_ascii(n));
}

/// Each exported line is `NAME=0x` and 40 lowercase hex digits, and holds one
/// newline, at its end.
pub proof fn lemma_line_shape(e: (Contract, Address))
    ensures
        line_of(e) == name_of(e.0).spec_bytes() + seq![61u8, 48u8, 120u8] + hex_of(e.1.bytes@) + seq![10u8],
        hex_of(e.1.bytes@).len() == 40,
        forall|i: int|
            0 <= i < 40 ==> ((48 <= #[trigger] hex_of(e.1.bytes@)[i] <= 57) || (97 <= hex_of(e.1.bytes@)[i]
                <= 102)),
        line_of(e).last() == 10u8,
        count_byte(line_of(e), 10u8) == 1,
{
    let name = name_of(e.0).spec_bytes();
    let h = hex_of(e.1.bytes@);
    lemma_name_bytes(e.0);
    lemma_hex_digits(e.1.bytes@);
    let body = name + seq![61u8, 48u8, 120u8] + h;
    assert(line_of(e) =~= body + seq![10u8]);
    lemma_count_absent(name, 10u8);
    lemma_count_absent(seq![61u8, 48u8, 120u8], 10u8);
    lemma_count_absent(h, 10u8);
    lemma_count_concat(name, seq![61u8, 48u8, 120u8], 10u8);
    lemma_count_concat(name + seq![61u8, 48u8, 120u8], h, 10u8);
    lemma_count_concat(body, seq![10u8], 10u8);
    assert(seq![10u8].drop_last() =~= Seq::<u8>::empty());
    assert(count_byte(Seq::<u8>::empty(), 10u8) == 0);
    assert(count_byte(seq![10u8], 10u8) == 1);
}

/// The export holds exactly one line per entry: as many newlines as entries,
/// and, unless there are none, it ends with a newline.
pub proof fn lemma_export_one_line_per_entry(s: Seq<(Contract, Address)>)
    ensures
        count_byte(export_text(s), 10u8) == s.len(),
        s.len() > 0 ==> export_text(s).last() == 10u8,
        s.len() == 0 ==> export_text(s).len() == 0,
    decreases s.len(),
{
    if s.len() > 0 {
        lemma_export_one_line_per_entry(s.drop_last());
        lemma_line_shape(s.last());
        lemma_count_concat(export_text(s.drop_last()), line_of(s.last()), 10u8);
    }
}

/// Cache of the contracts predeployed or deployed during the current run.
#[derive(Clone, Debug)]
pub struct Contracts {
    entries: Vec<(Contract, Address)>,
}

/// Whether a deployment goes ahead or is skipped.
#[derive(Clone, Copy, Debug, PartialEq, Eq)]
pub enum DeployStep {
    /// Already deployed at this address: nothing is sent.
    Skip(Address),
    /// Not known yet: the deployment must be performed.
    Run,
}

impl View for Contracts {
    type V = Seq<(Contract, Address)>;

    closed spec fn view(&self) -> Seq<(Contract, Address)> {
        self.entries@
    }
}

impl Contracts {
    pub open spec fn wf(&self) -> bool {
        keys_unique(self@)
    }

    /// The cache as a mapping from contract to address.
    pub open spec fn map(&self) -> Map<Contract, Address> {
        map_of(self@)
    }

    /// The empty cache.
    pub fn new() -> (r: Contracts)
        ensures
            r.wf(),
            r@ == Seq::<(Contract, Address)>::empty(),
            r.map() == Map::<Contract, Address>::empty(),
    {
        let r = Contracts { entries: Vec::new() };
        proof {
            assert(r.map() =~= Map::<Contract, Address>::empty());
        }
        r
    }

    fn position(&self, c: Contract) -> (r: Option<usize>)
        ensures
            match r {
                Some(i) => i < self@.len() && self@[i as int].0 == c,
                None => forall|i: int| 0 <= i < self@.len() ==> self@[i].0 != c,
            },
    {
        let mut i: usize = 0;
        while i < self.entries.len()
            invariant
                i <= self.entries@.len(),
                self@ == self.entries@,
                forall|k: int| 0 <= k < i ==> self@[k].0 != c,
            decreases self.entries@.len() - i,
        {
            if self.entries[i].0 == c {
                return Some(i);
            }
            i = i + 1;
        }
        None
    }

    /// The address recorded for `c`, if any.
    pub fn lookup(&self, c: Contract) -> (r: Option<Address>)
        requires
            self.wf(),
        ensures
            r == (if self.map().contains_key(c) {
                Some(self.map()[c])
            } else {
                None::<Address>
            }),
    {
        proof {
            lemma_map_of_keys(self@, c);
        }
        match self.position(c) {
            Some(i) => {
                proof {
                    lemma_map_of_value(self@, i as int);
                }
                Some(self.entries[i].1)
            },
            None => None,
        }
    }

    /// Records `a` as the address of `c`, replacing an earlier entry for `c`.
    pub fn record(&mut self, c: Contract, a: Address)
        requires
            old(self).wf(),
        ensures
            final(self).wf(),
            final(self).map() == old(self).map().insert(c, a),
    {
        match self.position(c) {
            Some(i) => {
                proof {
                    lemma_map_of_update(self@, i as int, a);
                }
                self.entries.set(i, (c, a));
            },
            None => {
                let ghost s = self@;
                self.entries.push((c, a));
                proof {
                    assert(self@.drop_last() =~= s);
                }
            },
        }
    }

    /// Seeds a cache with the predeployed addresses.
    pub fn from_deployed(d: DeployedContracts) -> (r: Contracts)
        ensures
            r.wf(),
            forall|c: Contract|
                #![trigger r.map().contains_key(c)]
                (r.map().contains_key(c) <==> predeployed(d, c) is Some),
            forall|c: Contract|
                r.map().contains_key(c) ==> predeployed(d, c) == Some(#[trigger] r.map()[c]),
    {
        let mut m = Contracts::new();
        if let Some(a) = d.hotshot {
            m.record(Contract::HotShot, a);
        }
        if let Some(a) = d.plonk_verifier {
            m.record(Contract::PlonkVerifier, a);
        }
        if let Some(a) = d.light_client_state_update_vk {
            m.record(Contract::StateUpdateVK, a);
        }
        if let Some(a) = d.light_client {
            m.record(Contract::LightClient, a);
        }
        if let Some(a) = d.light_client_proxy {
            m.record(Contract::LightClientProxy, a);
        }
        m
    }

    /// The entries of the cache, in the order in which they are exported.
    pub fn entries(&self) -> (r: Vec<(Contract, Address)>)
        ensures
            r@ == self@,
    {
        let mut r: Vec<(Contract, Address)> = Vec::new();
        let mut i: usize = 0;
        while i < self.entries.len()
            invariant
                i <= self.entries@.len(),
                self@ == self.entries@,
                r@ == self@.take(i as int),
            decreases self.entries@.len() - i,
        {
            r.push(self.entries[i]);
            proof {
                assert(self@.take(i + 1) =~= self@.take(i as int).push(self@[i as int]));
            }
            i = i + 1;
        }
        proof {
            assert(self@.take(i as int) =~= self@);
        }
        r
    }

    /// Decides whether contract `name` must be deployed: a cached address
    /// short-circuits the deployment.
    pub fn deploy_fn(&self, name: Contract) -> (r: DeployStep)
        requires
            self.wf(),
        ensures
            r == (if self.map().contains_key(name) {
                DeployStep::Skip(self.map()[name])
            } else {
                DeployStep::Run
            }),
    {
        match self.lookup(name) {
            Some(a) => DeployStep::Skip(a),
            None => DeployStep::Run,
        }
    }

    /// Takes the outcome of the deployment of `name` that `deploy_fn` asked
    /// for: a deployed address is recorded and returned, a failure is
    /// returned with the contract's identifier and leaves the cache as it was.
    pub fn record_outcome(&mut self, name: Contract, outcome: Result<Address, String>) -> (r: Result<
        Address,
        DeployError,
    >)
        requires
            old(self).wf(),
        ensures
            final(self).wf(),
            match outcome {
                Ok(a) => r == Ok::<Address, DeployError>(a) && final(self).map() == old(
                    self,
                ).map().insert(name, a),
                Err(e) => r == Err::<Address, DeployError>(DeployError::Backend(name, e))
                    && final(self).map() == old(self).map(),
            },
    {
        match outcome {
            Ok(a) => {
                self.record(name, a);
                Ok(a)
            },
            Err(e) => Err(DeployError::Backend(name, e)),
        }
    }

    /// Appends the exported text of the cache to `out`: one line
    /// `<NAME>=0x<address>` per entry.
    pub fn write(&self, out: &mut Vec<u8>)
        ensures
            final(out)@ == old(out)@ + export_text(self@),
    {
        let ghost start = out@;
        let mut i: usize = 0;
        while i < self.entries.len()
            invariant
                i <= self.entries@.len(),
                self@ == self.entries@,
                out@ == start + export_text(self@.take(i as int)),
            decreases self.entries@.len() - i,
        {
            let (c, a) = self.entries[i];
            let name = c.name().as_bytes();
            let ghost before = out@;
            let mut k: usize = 0;
            while k < name.len()
                invariant
                    k <= name@.len(),
                    name@ == name_of(c).spec_bytes(),
                    out@ == before + name@.take(k as int),
                decreases name@.len() - k,
            {
                out.push(name[k]);
                proof {
                    assert(name@.take(k + 1) =~= name@.take(k as int).push(name@[k as int]));
                }
                k = k + 1;
            }
            proof {
                assert(name@.take(k as int) =~= name@);
            }
            out.push(61u8);
            a.write_hex(out);
            out.push(10u8);
            proof {
                assert(self@.take(i + 1).drop_last() =~= self@.take(i as int));
                assert(out@ =~= start + export_text(self@.take(i + 1)));
            }
            i = i + 1;
        }
        proof {
            assert(self@.take(i as int) =~= self@);
        }
    }
}

} // verus!
