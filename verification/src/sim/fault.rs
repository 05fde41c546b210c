//! Deterministic fault injection on packets, chosen by direction and packet
//! index.

use vstd::prelude::*;

use crate::bytes::copy_range;
use crate::error::ProtocolError;

verus! {

/// Most rules a fault injector accepts.
pub const MAX_FAULT_RULES: usize = 64;

/// Which way a packet travels.
#[derive(Clone, Copy, Debug, PartialEq, Eq, Structural)]
pub enum Direction {
    HostToDevice,
    DeviceToHost,
}

/// What happens to a packet.
#[derive(Clone, Copy, Debug, PartialEq, Eq, Structural)]
pub enum FaultAction {
    Pass,
    Drop,
    Duplicate,
    CorruptByte { offset: usize, mask: u8 },
}

/// An action for the packet at one index in one direction.
#[derive(Clone, Copy, Debug, PartialEq, Eq, Structural)]
pub struct FaultRule {
    pub direction: Direction,
    pub packet_index: u64,
    pub action: FaultAction,
}

/// No two rules name the same packet of the same direction.
pub open spec fn rules_unique(rules: Seq<FaultRule>) -> bool {
    forall|i: int, j: int|
        0 <= i < j < rules.len() ==> !(rules[i].direction == rules[j].direction
            && rules[i].packet_index == rules[j].packet_index)
}

/// The action of the first rule for packet `index` of `direction`; `Pass`
/// when there is none.
pub open spec fn rule_action(rules: Seq<FaultRule>, direction: Direction, index: u64) -> FaultAction
    decreases rules.len(),
{
    if rules.len() == 0 {
        FaultAction::Pass
    } else if rules[0].direction == direction && rules[0].packet_index == index {
        rules[0].action
    } else {
        rule_action(rules.drop_first(), direction, index)
    }
}

/// With rules that name each packet at most once, packet `index` of
/// `direction` gets the action of the one rule naming it, and passes
/// untouched when no rule names it; the order of the rules plays no part.
pub proof fn lemma_rule_action_is_the_naming_rule(rules: Seq<FaultRule>, direction: Direction, index: u64)
    requires
        rules_unique(rules),
    ensures
        forall|i: int|
            0 <= i < rules.len() && #[trigger] rules[i].direction == direction && rules[i].packet_index == index
                ==> rule_action(rules, direction, index) == rules[i].action,
        (forall|i: int|
            0 <= i < rules.len() ==> !(#[trigger] rules[i].direction == direction && rules[i].packet_index
                == index)) ==> rule_action(rules, direction, index) == FaultAction::Pass,
    decreases rules.len(),
{
    if rules.len() > 0 {
        let rest = rules.drop_first();
        assert forall|i: int, j: int| 0 <= i < j < rest.len() implies !(rest[i].direction == rest[j].direction
            && rest[i].packet_index == rest[j].packet_index) by {
            assert(rest[i] == rules[i + 1] && rest[j] == rules[j + 1]);
        }
        lemma_rule_action_is_the_naming_rule(rest, direction, index);
        assert forall|i: int|
            0 <= i < rules.len() && #[trigger] rules[i].direction == direction && rules[i].packet_index == index
                implies rule_action(rules, direction, index) == rules[i].action by {
            if i > 0 {
                assert(rest[i - 1] == rules[i]);
            }
        }
        if forall|i: int|
            0 <= i < rules.len() ==> !(#[trigger] rules[i].direction == direction && rules[i].packet_index
                == index) {
            assert forall|i: int| 0 <= i < rest.len() implies !(#[trigger] rest[i].direction == direction
                && rest[i].packet_index == index) by {
                assert(rest[i] == rules[i + 1]);
            }
            assert(!(rules[0].direction == direction && rules[0].packet_index == index));
        }
    }
}

/// The packets an action lets through: the packet, none, the packet twice,
/// or the packet with the byte at `offset` XORed with `mask` (unchanged when
/// `offset` is past its end).
pub open spec fn fault_output(action: FaultAction, packet: Seq<u8>) -> Seq<Seq<u8>> {
    match action {
        FaultAction::Pass => seq![packet],
        FaultAction::Drop => Seq::empty(),
        FaultAction::Duplicate => seq![packet, packet],
        FaultAction::CorruptByte { offset, mask } => if offset < packet.len() {
            seq![packet.update(offset as int, packet[offset as int] ^ mask)]
        } else {
            seq![packet]
        },
    }
}

/// The contents of a list of packets.
pub open spec fn packets_view(v: Seq<Vec<u8>>) -> Seq<Seq<u8>> {
    v.map_values(|p: Vec<u8>| p@)
}

/// A fault injector's rules and how many packets it has seen each way.
pub struct FaultInjectorView {
    pub rules: Seq<FaultRule>,
    pub host_to_device_index: u64,
    pub device_to_host_index: u64,
}

/// Applies fault rules to packets as they pass, counting packets in each
/// direction.
pub struct FaultInjector {
    rules: Vec<FaultRule>,
    host_to_device_index: u64,
    device_to_host_index: u64,
}

impl View for FaultInjector {
    type V = FaultInjectorView;

    closed spec fn view(&self) -> FaultInjectorView {
        FaultInjectorView {
            rules: self.rules@,
            host_to_device_index: self.host_to_device_index,
            device_to_host_index: self.device_to_host_index,
        }
    }
}

impl FaultInjector {
    /// An injector with `rules` and no packet seen; more than 64 rules, or
    /// two for the same packet, is `InvalidValue`.
    pub fn new(rules: Vec<FaultRule>) -> (r: Result<FaultInjector, ProtocolError>)
        ensures
            (rules@.len() > MAX_FAULT_RULES || !rules_unique(rules@)) ==> r == Err::<
                FaultInjector,
                ProtocolError,
            >(ProtocolError::InvalidValue),
            !(rules@.len() > MAX_FAULT_RULES || !rules_unique(rules@)) ==> (r matches Ok(f) && f@
                == (FaultInjectorView {
                rules: rules@,
                host_to_device_index: 0,
                device_to_host_index: 0,
            })),
    {
        if rules.len() > MAX_FAULT_RULES {
            return Err(ProtocolError::InvalidValue);
        }
        let mut i: usize = 0;
        while i < rules.len()
            invariant
                i <= rules@.len(),
                forall|a: int, c: int|
                    0 <= a < c < i ==> !(rules@[a].direction == rules@[c].direction
                        && rules@[a].packet_index == rules@[c].packet_index),
            decreases rules@.len() - i,
        {
            let mut j: usize = 0;
            while j < i
                invariant
                    j <= i < rules@.len(),
                    forall|a: int|
                        0 <= a < j ==> !(rules@[a].direction == rules@[i as int].direction
                            && rules@[a].packet_index == rules@[i as int].packet_index),
                decreases i - j,
            {
                if rules[j].direction == rules[i].direction && rules[j].packet_index
                    == rules[i].packet_index {
                    return Err(ProtocolError::InvalidValue);
                }
                j = j + 1;
            }
            i = i + 1;
        }
        Ok(FaultInjector { rules, host_to_device_index: 0, device_to_host_index: 0 })
    }

    /// Passes one packet: it takes the next index of its direction (the
    /// count wraps), and the rule for that index decides what comes out;
    /// see `fault_output`.
    pub fn apply(&mut self, direction: Direction, packet: &[u8]) -> (out: Vec<Vec<u8>>)
        ensures
            final(self)@.rules == old(self)@.rules,
            final(self)@ == after_packets(old(self)@, seq![direction]),
            direction == Direction::HostToDevice ==> final(self)@.host_to_device_index
                == old(self)@.host_to_device_index.wrapping_add(1) && final(self)@.device_to_host_index
                == old(self)@.device_to_host_index && packets_view(out@) == fault_output(
                rule_action(old(self)@.rules, direction, old(self)@.host_to_device_index),
                packet@,
            ),
            direction == Direction::DeviceToHost ==> final(self)@.device_to_host_index
                == old(self)@.device_to_host_index.wrapping_add(1) && final(self)@.host_to_device_index
                == old(self)@.host_to_device_index && packets_view(out@) == fault_output(
                rule_action(old(self)@.rules, direction, old(self)@.device_to_host_index),
                packet@,
            ),
    {
        let packet_index = match direction {
            Direction::HostToDevice => {
                let index = self.host_to_device_index;
                self.host_to_device_index = self.host_to_device_index.wrapping_add(1);
                index
            },
            Direction::DeviceToHost => {
                let index = self.device_to_host_index;
                self.device_to_host_index = self.device_to_host_index.wrapping_add(1);
                index
            },
        };
        let action = find_action(&self.rules, direction, packet_index);
        let mut out: Vec<Vec<u8>> = Vec::new();
        match action {
            FaultAction::Pass => {
                out.push(copy_range(packet, 0, packet.len()));
            },
            FaultAction::Drop => {},
            FaultAction::Duplicate => {
                out.push(copy_range(packet, 0, packet.len()));
                out.push(copy_range(packet, 0, packet.len()));
            },
            FaultAction::CorruptByte { offset, mask } => {
                let mut corrupted = copy_range(packet, 0, packet.len());
                if offset < corrupted.len() {
                    let byte = corrupted[offset] ^ mask;
                    corrupted.set(offset, byte);
                    proof {
                        assert(corrupted@ =~= packet@.update(offset as int, packet@[offset as int] ^ mask));
                    }
                }
                out.push(corrupted);
            },
        }
        proof {
            let expected = fault_output(action, packet@);
            assert(packets_view(out@).len() == expected.len());
            assert forall|k: int| 0 <= k < expected.len() implies #[trigger] packets_view(out@)[k]
                == expected[k] by {
                assert(packets_view(out@)[k] == out@[k]@);
            }
            assert(packets_view(out@) =~= expected);
            let one = seq![direction];
            assert(one.drop_last() =~= Seq::<Direction>::empty());
            assert(one.last() == direction);
            assert(after_packets(old(self)@, one.drop_last()) == old(self)@);
        }
        out
    }
}

/// The action of the first rule for packet `index` of `direction`; see
/// `rule_action`.
fn find_action(rules: &Vec<FaultRule>, direction: Direction, index: u64) -> (a: FaultAction)
    ensures
        a == rule_action(rules@, direction, index),
{
    let mut i: usize = 0;
    proof {
        assert(rules@.subrange(0, rules@.len() as int) =~= rules@);
    }
    while i < rules.len()
        invariant
            i <= rules@.len(),
            rule_action(rules@, direction, index) == rule_action(
                rules@.subrange(i as int, rules@.len() as int),
                direction,
                index,
            ),
        decreases rules@.len() - i,
    {
        let ghost rest = rules@.subrange(i as int, rules@.len() as int);
        proof {
            assert(rest[0] == rules@[i as int]);
            assert(rest.drop_first() =~= rules@.subrange(i + 1, rules@.len() as int));
        }
        if rules[i].direction == direction && rules[i].packet_index == index {
            return rules[i].action;
        }
        i = i + 1;
    }
    FaultAction::Pass
}

impl Default for FaultInjector {
    fn default() -> (f: FaultInjector)
        ensures
            f@ == (FaultInjectorView {
                rules: Seq::empty(),
                host_to_device_index: 0,
                device_to_host_index: 0,
            }),
    {
        FaultInjector { rules: Vec::new(), host_to_device_index: 0, device_to_host_index: 0 }
    }
}


/// How many of `dirs` travel in direction `d`.
pub open spec fn seen(dirs: Seq<Direction>, d: Direction) -> nat
    decreases dirs.len(),
{
    if dirs.len() == 0 {
        0
    } else {
        seen(dirs.drop_last(), d) + if dirs.last() == d {
            1nat
        } else {
            0nat
        }
    }
}

/// The packet counter of direction `d`.
pub open spec fn counter(v: FaultInjectorView, d: Direction) -> u64 {
    match d {
        Direction::HostToDevice => v.host_to_device_index,
        Direction::DeviceToHost => v.device_to_host_index,
    }
}

/// An injector after packets have passed in the directions `dirs`, in
/// order, as `apply` counts them.
pub open spec fn after_packets(v: FaultInjectorView, dirs: Seq<Direction>) -> FaultInjectorView
    decreases dirs.len(),
{
    if dirs.len() == 0 {
        v
    } else {
        let w = after_packets(v, dirs.drop_last());
        match dirs.last() {
            Direction::HostToDevice => FaultInjectorView {
                host_to_device_index: w.host_to_device_index.wrapping_add(1),
                ..w
            },
            Direction::DeviceToHost => FaultInjectorView {
                device_to_host_index: w.device_to_host_index.wrapping_add(1),
                ..w
            },
        }
    }
}

/// Over any run of packets through a fresh injector, the packet at
/// position `j` is the `k`-th of its direction (counting from 0, with `k`
/// the number of earlier packets that way) and meets the rule for that
/// direction and `k`, or passes when no rule names it. Stated for fewer
/// than 2^64 packets, before a counter could wrap.
pub proof fn lemma_kth_packet_meets_its_rule(rules: Seq<FaultRule>, dirs: Seq<Direction>)
    requires
        dirs.len() < 0x1_0000_0000_0000_0000,
    ensures
        forall|j: int|
            #![trigger dirs[j]]
            0 <= j < dirs.len() ==> {
                let start = FaultInjectorView { rules, host_to_device_index: 0, device_to_host_index: 0 };
                let before = after_packets(start, dirs.take(j));
                &&& counter(before, dirs[j]) == seen(dirs.take(j), dirs[j])
                &&& before.rules == rules
                &&& rule_action(before.rules, dirs[j], counter(before, dirs[j])) == rule_action(
                    rules,
                    dirs[j],
                    seen(dirs.take(j), dirs[j]) as u64,
                )
            },
{
    let start = FaultInjectorView { rules, host_to_device_index: 0, device_to_host_index: 0 };
    assert forall|j: int| #![trigger dirs[j]] 0 <= j < dirs.len() implies {
        let before = after_packets(start, dirs.take(j));
        &&& counter(before, dirs[j]) == seen(dirs.take(j), dirs[j])
        &&& before.rules == rules
    } by {
        lemma_counters_count(start, dirs.take(j));
    }
}

proof fn lemma_counters_count(start: FaultInjectorView, dirs: Seq<Direction>)
    requires
        start.host_to_device_index == 0,
        start.device_to_host_index == 0,
        dirs.len() < 0x1_0000_0000_0000_0000,
    ensures
        after_packets(start, dirs).rules == start.rules,
        counter(after_packets(start, dirs), Direction::HostToDevice) == seen(dirs, Direction::HostToDevice),
        counter(after_packets(start, dirs), Direction::DeviceToHost) == seen(dirs, Direction::DeviceToHost),
        seen(dirs, Direction::HostToDevice) + seen(dirs, Direction::DeviceToHost) == dirs.len(),
    decreases dirs.len(),
{
    if dirs.len() > 0 {
        lemma_counters_count(start, dirs.drop_last());
    }
}

} // verus!
