//! Messages of the cluster broker and what the node does on each.
use vstd::prelude::*;
use crate::registry::Node;

verus! {

/// Operations carried by broker messages.
#[allow(non_camel_case_types)]
#[derive(Debug, Clone, Copy, PartialEq, Eq, Structural)]
pub enum Operation {
    START_EMERGENCY,
    STOP_EMERGENCY,
    ADD_NODES,
    ANNOUNCE,
    END,
    WRITE_STATS,
}

/// What the node's broker consumer does with one message.
#[derive(Debug, Clone, Copy, PartialEq, Eq, Structural)]
pub enum ControllerAction {
    /// Activate the emergency the message carries.
    StartEmergency,
    /// End the active emergency.
    StopEmergency,
    /// Write the statistics of the period the message carries.
    WriteStats,
    /// Stop consuming.
    Stop,
    /// Nothing to do.
    Ignore,
}

/// The action for a message with operation `op`; `has_emergency` and
/// `has_period` tell whether it carries an emergency or a period.
pub fn controller_action(op: Operation, has_emergency: bool, has_period: bool) -> (r: ControllerAction)
    ensures
        r == (match op {
            Operation::START_EMERGENCY => if has_emergency {
                ControllerAction::StartEmergency
            } else {
                ControllerAction::Ignore
            },
            Operation::STOP_EMERGENCY => ControllerAction::StopEmergency,
            Operation::END => ControllerAction::Stop,
            Operation::WRITE_STATS => if has_period {
                ControllerAction::WriteStats
            } else {
                ControllerAction::Ignore
            },
            _ => ControllerAction::Ignore,
        }),
{
    match op {
        Operation::START_EMERGENCY => if has_emergency {
            ControllerAction::StartEmergency
        } else {
            ControllerAction::Ignore
        },
        Operation::STOP_EMERGENCY => ControllerAction::StopEmergency,
        Operation::END => ControllerAction::Stop,
        Operation::WRITE_STATS => if has_period {
            ControllerAction::WriteStats
        } else {
            ControllerAction::Ignore
        },
        _ => ControllerAction::Ignore,
    }
}

/// Take the first node at `address` out of the announced `nodes`: it is
/// this worker's own identity; the others, in order, are its peers.
pub fn split_identity(nodes: Vec<Node>, address: &String) -> (r: Option<(Node, Vec<Node>)>)
    ensures
        r is None ==> forall|i: int| 0 <= i < nodes@.len() ==> (#[trigger] nodes@[i]).address@ != address@,
        r matches Some((me, rest)) ==> exists|i: int| {
            &&& 0 <= i < nodes@.len()
            &&& #[trigger] nodes@[i] == me
            &&& me.address@ == address@
            &&& forall|j: int| 0 <= j < i ==> (#[trigger] nodes@[j]).address@ != address@
            &&& rest@ == nodes@.remove(i)
        },
{
    let mut k: usize = 0;
    while k < nodes.len()
        invariant
            0 <= k <= nodes@.len(),
            forall|j: int| 0 <= j < k ==> (#[trigger] nodes@[j]).address@ != address@,
        decreases nodes@.len() - k,
    {
        if nodes[k].address == *address {
            let mut rest = nodes;
            let me = rest.remove(k);
            return Some((me, rest));
        }
        k = k + 1;
    }
    None
}

} // verus!
