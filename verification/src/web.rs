//! What the gateway needs before it talks to a device: the request that a
//! URL path stands for.

use crate::codec::Message;
use crate::codec::Msg;
use crate::parser::OperationStatus;
use crate::parser::RegisterValue;
use crate::parser::Value;
use crate::usb::same_text;
use vstd::prelude::*;
use vstd::string::StringExecFns;

verus! {

/// The first `n` segments of `arr` as a register path: each segment behind a
/// slash.
pub open spec fn joined(arr: Seq<String>, n: int) -> Seq<char>
    decreases n,
{
    if n <= 0 {
        Seq::<char>::empty()
    } else {
        joined(arr, n - 1) + seq!['/'] + arr[n - 1]@
    }
}

/// Whether `path` is one of `commands`.
pub open spec fn known_command(commands: Seq<String>, path: Seq<char>) -> bool {
    exists|i: int| 0 <= i < commands.len() && (#[trigger] commands[i])@ == path
}

/// The path of the request that stands for an unknown command.
pub open spec fn wrong_command() -> Seq<char> {
    "Wrong command"@
}

/// The read request for the register that the URL segments `arr` name.
/// Where the path they spell is none of `commands`, the request's path is
/// `Wrong command` instead, which no device is asked for.
pub fn commands_parse(arr: Vec<String>, commands: Vec<String>) -> (msg: Msg)
    ensures
        msg@ == (Message {
            code: OperationStatus::Read,
            path: if known_command(commands@, joined(arr@, arr@.len() as int)) {
                joined(arr@, arr@.len() as int)
            } else {
                wrong_command()
            },
            value: Value::Unit,
        }),
{
    proof {
        reveal_strlit("/");
    }
    let mut command = String::new();
    let mut i: usize = 0;
    while i < arr.len()
        invariant
            i <= arr@.len(),
            command@ == joined(arr@, i as int),
            "/"@ == seq!['/'],
        decreases arr@.len() - i,
    {
        command.append("/");
        command.append(arr[i].as_str());
        i += 1;
        assert(command@ =~= joined(arr@, i as int));
    }
    let mut k: usize = 0;
    while k < commands.len()
        invariant
            k <= commands@.len(),
            command@ == joined(arr@, arr@.len() as int),
            forall|j: int| 0 <= j < k ==> (#[trigger] commands@[j])@ != command@,
        decreases commands@.len() - k,
    {
        if same_text(commands[k].as_str(), command.as_str()) {
            assert(commands@[k as int]@ == command@);
            return Msg(OperationStatus::Read, command, RegisterValue::UNIT);
        }
        k += 1;
    }
    Msg(OperationStatus::Read, String::from_str("Wrong command"), RegisterValue::UNIT)
}

} // verus!
