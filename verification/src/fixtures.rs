//! What the contract fixtures make of the input that the host hands them.

use vstd::prelude::*;

verus! {

/// What the dependency fixture is asked to do before it delegates its
/// call.
#[derive(Clone, Copy, Debug, PartialEq, Eq, Structural)]
pub enum Action {
    /// Nothing.
    Noop,
    /// Lock the code it is about to call as a dependency.
    AddDelegateDependency,
    /// Unlock that dependency.
    RemoveDelegateDependency,
    /// Terminate the contract.
    Terminate,
}

/// The action with the given number; actions are numbered from zero in the
/// order in which they are declared.
pub open spec fn action_of(code: u32) -> Option<Action> {
    if code == 0 {
        Some(Action::Noop)
    } else if code == 1 {
        Some(Action::AddDelegateDependency)
    } else if code == 2 {
        Some(Action::RemoveDelegateDependency)
    } else if code == 3 {
        Some(Action::Terminate)
    } else {
        None
    }
}

/// The number that four bytes spell, lowest byte first.
pub open spec fn le_u32(bytes: Seq<u8>) -> int
    recommends
        bytes.len() == 4,
{
    bytes[0] + 0x100 * bytes[1] + 0x1_0000 * bytes[2] + 0x100_0000 * bytes[3]
}

/// What the dependency fixture reads from `input`: an action, as four
/// bytes with the lowest first, and after it a code hash of 32 bytes.
/// Nothing where `input` is shorter than that or names no action.
pub open spec fn loaded(input: Seq<u8>) -> Option<(Action, Seq<u8>)> {
    if input.len() < 36 {
        None
    } else {
        match action_of(le_u32(input.subrange(0, 4)) as u32) {
            Some(action) => Some((action, input.subrange(4, 36))),
            None => None,
        }
    }
}

impl Action {
    /// The action with the given number.
    pub fn from_code(code: u32) -> (action: Option<Action>)
        ensures
            action == action_of(code),
    {
        if code == 0 {
            Some(Action::Noop)
        } else if code == 1 {
            Some(Action::AddDelegateDependency)
        } else if code == 2 {
            Some(Action::RemoveDelegateDependency)
        } else if code == 3 {
            Some(Action::Terminate)
        } else {
            None
        }
    }
}

/// Reads the action and the code hash that the dependency fixture is
/// called with.
pub fn load_input(input: &[u8]) -> (decoded: Option<(Action, [u8; 32])>)
    ensures
        match decoded {
            Some((action, code_hash)) => loaded(input@) == Some((action, code_hash@)),
            None => loaded(input@) is None,
        },
{
    if input.len() < 36 {
        return None;
    }
    let code: u32 = (input[0] as u32) + 0x100 * (input[1] as u32) + 0x1_0000 * (input[2] as u32)
        + 0x100_0000 * (input[3] as u32);
    let action = match Action::from_code(code) {
        None => {
            return None;
        },
        Some(action) => action,
    };
    let mut code_hash = [0u8;32];
    let mut i: usize = 0;
    while i < 32
        invariant
            0 <= i <= 32,
            input.len() >= 36,
            forall|j: int| 0 <= j < i ==> code_hash@[j] == input@[4 + j],
        decreases 32 - i,
    {
        code_hash.set(i, input[4 + i]);
        i += 1;
    }
    Some((action, code_hash))
}

/// What the returning fixture hands back for `input`: whether to revert,
/// which the first byte says as zero or one, and everything after the
/// fourth byte as output. Nothing where `input` is shorter than four bytes
/// or its first byte is neither.
pub open spec fn returned(input: Seq<u8>) -> Option<(bool, Seq<u8>)> {
    if input.len() < 4 || input[0] > 1 {
        None
    } else {
        Some((input[0] == 1, input.subrange(4, input.len() as int)))
    }
}

/// Reads the exit status and the output that the returning fixture is
/// called with.
pub fn return_data(input: &[u8]) -> (decoded: Option<(bool, &[u8])>)
    ensures
        match decoded {
            Some((revert, output)) => returned(input@) == Some((revert, output@)),
            None => returned(input@) is None,
        },
{
    if input.len() < 4 || input[0] > 1 {
        return None;
    }
    let (_head, output) = input.split_at(4);
    Some((input[0] == 1, output))
}

} // verus!
