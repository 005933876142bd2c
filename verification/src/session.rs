//! The session core: the controller directory, the selection semantics of
//! every color-set call, the load-sequence steps that do not touch the
//! network, and the bounded retry-with-reconnect policy. The I/O layer
//! around the library drives the socket and hands every received payload
//! to these functions as plain bytes.

use vstd::prelude::*;

verus! {

use vstd::bytes::{spec_u32_from_le_bytes, spec_u32_to_le_bytes, u32_from_le_bytes, u32_to_le_bytes};
use vstd::slice::slice_to_vec;
use vstd::utf8::encode_utf8;

use crate::command::ControllerLedSetCommand;
use crate::controller::{ControllerData, ControllerDataView, spec_unpack};
use crate::error::ProtocolError;
use crate::wire::PROTOCOL_VERSION;

/// The fixed name under which the client registers itself.
pub const CLIENT_NAME: &'static str = "rgbmon";

/// The client's version string, sent at registration.
pub const VERSION: &'static str = "0.0.1";

/// The registration payload: client name, a space, the version string and
/// a terminating zero byte.
pub open spec fn spec_client_name_payload() -> Seq<u8> {
    encode_utf8(CLIENT_NAME@) + seq![32u8] + encode_utf8(VERSION@) + seq![0u8]
}

/// Builds the registration payload.
pub fn client_name_payload() -> (r: Vec<u8>)
    ensures
        r@ == spec_client_name_payload(),
{
    let mut buf = slice_to_vec(CLIENT_NAME.as_bytes());
    buf.push(32);
    let mut ver = slice_to_vec(VERSION.as_bytes());
    buf.append(&mut ver);
    buf.push(0);
    assert(buf@ =~= spec_client_name_payload());
    buf
}

/// Builds the version-negotiation request payload: the client's own
/// protocol version, little-endian.
pub fn version_payload() -> (r: Vec<u8>)
    ensures
        r@ == spec_u32_to_le_bytes(PROTOCOL_VERSION),
{
    u32_to_le_bytes(PROTOCOL_VERSION)
}

/// Checks the version-negotiation response. Anything but exactly four
/// bytes is malformed; a version other than the client's own is a fatal
/// protocol mismatch, reported with the server's version — retrying cannot
/// change the server, so the caller must not retry it.
pub fn check_version(resp: &[u8]) -> (r: Result<u32, ProtocolError>)
    ensures
        match r {
            Ok(v) => {
                &&& resp@.len() == 4
                &&& v == spec_u32_from_le_bytes(resp@)
                &&& v == PROTOCOL_VERSION
            },
            Err(e) => match e {
                ProtocolError::MalformedResponse => resp@.len() != 4,
                ProtocolError::ProtocolMismatch(v) => {
                    &&& resp@.len() == 4
                    &&& v == spec_u32_from_le_bytes(resp@)
                    &&& v != PROTOCOL_VERSION
                },
                _ => false,
            },
        },
{
    if resp.len() != 4 {
        return Err(ProtocolError::MalformedResponse);
    }
    let v = u32_from_le_bytes(resp);
    if v != PROTOCOL_VERSION {
        return Err(ProtocolError::ProtocolMismatch(v));
    }
    Ok(v)
}

/// Reads the controller-count response: four little-endian bytes.
pub fn parse_controller_count(resp: &[u8]) -> (r: Result<u32, ProtocolError>)
    ensures
        match r {
            Ok(n) => resp@.len() == 4 && n == spec_u32_from_le_bytes(resp@),
            Err(e) => e == ProtocolError::MalformedResponse && resp@.len() != 4,
        },
{
    if resp.len() != 4 {
        return Err(ProtocolError::MalformedResponse);
    }
    Ok(u32_from_le_bytes(resp))
}

/// What the retry policy orders next.
#[derive(PartialEq, Eq, Structural, Copy, Clone, Debug)]
pub enum RetryDecision {
    /// Reconnect and attempt the operation once more.
    Retry,
    /// Surface the last error to the caller.
    Fail,
}

/// The bounded retry policy: after `failed_attempts` failures of one
/// logical operation, another attempt follows exactly while the failure
/// count has not passed the budget of `retries`.
pub open spec fn spec_retry_decision(failed_attempts: u32, retries: u8) -> RetryDecision {
    if failed_attempts <= retries as u32 {
        RetryDecision::Retry
    } else {
        RetryDecision::Fail
    }
}

/// The exec mirror of [`spec_retry_decision`], consulted by the I/O loop
/// after each failed attempt.
pub fn retry_decision(failed_attempts: u32, retries: u8) -> (r: RetryDecision)
    ensures
        r == spec_retry_decision(failed_attempts, retries),
{
    if failed_attempts <= retries as u32 {
        RetryDecision::Retry
    } else {
        RetryDecision::Fail
    }
}

/// With a budget of `retries`, an operation that fails on every attempt is
/// attempted exactly `retries + 1` times: each of the first `retries`
/// failures is answered with a retry, and failure number `retries + 1` is
/// the one surfaced to the caller.
pub proof fn lemma_retry_attempt_count(retries: u8)
    ensures
        forall|k: u32| 1 <= k <= retries as u32 ==> spec_retry_decision(k, retries) is Retry,
        spec_retry_decision((retries + 1) as u32, retries) is Fail,
{
}

/// The command for one directory entry: its id, and all of its LEDs.
pub open spec fn spec_command_for(c: ControllerDataView) -> ControllerLedSetCommand {
    ControllerLedSetCommand { controller_id: c.id, led_count: c.leds.len() as u16 }
}

/// The commands for every entry whose name matches, in directory order.
pub open spec fn spec_commands_by_name(
    dir: Seq<ControllerDataView>,
    name: Seq<char>,
) -> Seq<ControllerLedSetCommand>
    decreases dir.len(),
{
    if dir.len() == 0 {
        Seq::<ControllerLedSetCommand>::empty()
    } else {
        spec_commands_by_name(dir.drop_last(), name) + (if dir.last().name == name {
            seq![spec_command_for(dir.last())]
        } else {
            Seq::<ControllerLedSetCommand>::empty()
        })
    }
}

/// The commands for every entry of the given device type, in directory
/// order.
pub open spec fn spec_commands_by_type(
    dir: Seq<ControllerDataView>,
    device_type: u32,
) -> Seq<ControllerLedSetCommand>
    decreases dir.len(),
{
    if dir.len() == 0 {
        Seq::<ControllerLedSetCommand>::empty()
    } else {
        spec_commands_by_type(dir.drop_last(), device_type) + (if dir.last().device_type
            == device_type {
            seq![spec_command_for(dir.last())]
        } else {
            Seq::<ControllerLedSetCommand>::empty()
        })
    }
}

/// The concatenation of the per-type commands, one batch per type in the
/// order the types are given.
pub open spec fn spec_commands_by_types(
    dir: Seq<ControllerDataView>,
    types: Seq<u32>,
) -> Seq<ControllerLedSetCommand>
    decreases types.len(),
{
    if types.len() == 0 {
        Seq::<ControllerLedSetCommand>::empty()
    } else {
        spec_commands_by_types(dir, types.drop_last()) + spec_commands_by_type(dir, types.last())
    }
}

/// The commands for the whole directory, one per entry in order.
pub open spec fn spec_commands_all(dir: Seq<ControllerDataView>) -> Seq<ControllerLedSetCommand> {
    dir.map_values(|c: ControllerDataView| spec_command_for(c))
}

/// The batch unit for one directory entry.
fn command_for(c: &ControllerData) -> (cmd: ControllerLedSetCommand)
    ensures
        cmd == spec_command_for(c@),
{
    ControllerLedSetCommand {
        controller_id: c.id,
        led_count: #[verifier::truncate] (c.leds.len() as u16),
    }
}

/// The session state that survives between operations: the retry budget,
/// the negotiated server protocol version, and the controller directory —
/// the in-memory snapshot of all controllers as of the last successful
/// load. The socket itself lives in the I/O layer around the library.
pub struct Session {
    pub retries: u8,
    pub controllers: Vec<ControllerData>,
    pub server_protocol: Option<u32>,
}

impl Session {
    /// The directory as mathematics: the views of its entries in order.
    pub open spec fn directory(&self) -> Seq<ControllerDataView> {
        self.controllers@.map_values(|c: ControllerData| c@)
    }

    /// A fresh session: empty directory, no negotiated version, and the
    /// default budget of three retries.
    pub fn new() -> (s: Session)
        ensures
            s.retries == 3,
            s.directory() == Seq::<ControllerDataView>::empty(),
            s.server_protocol is None,
    {
        let s = Session { retries: 3, controllers: Vec::new(), server_protocol: None };
        proof {
            assert(s.directory() =~= Seq::<ControllerDataView>::empty());
        }
        s
    }

    /// Decodes one descriptor payload per enumerated controller and
    /// replaces the directory wholesale, ids assigned by enumeration
    /// order. On any decode failure the session — directory included — is
    /// left exactly as it was: a failed load never applies a partial
    /// directory.
    pub fn load_directory(&mut self, payloads: &Vec<Vec<u8>>) -> (r: Result<(), ProtocolError>)
        requires
            payloads@.len() <= 0xffff_ffff,
        ensures
            match r {
                Ok(()) => {
                    &&& final(self).directory().len() == payloads@.len()
                    &&& forall|i: int|
                        0 <= i < payloads@.len() ==> Some(#[trigger] final(self).directory()[i])
                            == spec_unpack(i as u32, payloads@[i]@)
                    &&& final(self).retries == old(self).retries
                    &&& final(self).server_protocol == old(self).server_protocol
                },
                Err(e) => {
                    &&& *final(self) == *old(self)
                    &&& e == ProtocolError::MalformedResponse
                    &&& exists|i: int|
                        0 <= i < payloads@.len() && spec_unpack(
                            i as u32,
                            #[trigger] payloads@[i]@,
                        ) is None
                },
            },
    {
        let n = payloads.len();
        let mut fresh: Vec<ControllerData> = Vec::new();
        let mut i: usize = 0;
        while i < n
            invariant
                n == payloads@.len() <= 0xffff_ffff,
                i <= n,
                fresh@.len() == i,
                forall|j: int|
                    0 <= j < i ==> Some((#[trigger] fresh@[j])@) == spec_unpack(
                        j as u32,
                        payloads@[j]@,
                    ),
            decreases n - i,
        {
            let c = match ControllerData::unpack(i as u32, payloads[i].as_slice()) {
                Ok(c) => c,
                Err(e) => {
                    return Err(e);
                },
            };
            fresh.push(c);
            i = i + 1;
        }
        self.controllers = fresh;
        proof {
            assert forall|j: int| 0 <= j < payloads@.len() implies Some(
                #[trigger] final(self).directory()[j],
            ) == spec_unpack(j as u32, payloads@[j]@) by {
                assert(final(self).directory()[j] == final(self).controllers@[j]@);
            }
        }
        Ok(())
    }

    /// Selects the first directory entry with the given id — ids are
    /// unique by construction after a load, so at most one entry matches —
    /// or reports not-found when no entry carries the id.
    pub fn select_by_id(&self, controller_id: u32) -> (r: Result<
        Vec<ControllerLedSetCommand>,
        ProtocolError,
    >)
        ensures
            match r {
                Ok(cmds) => exists|i: int|
                    {
                        &&& 0 <= i < self.directory().len()
                        &&& (#[trigger] self.directory()[i]).id == controller_id
                        &&& forall|j: int|
                            0 <= j < i ==> (#[trigger] self.directory()[j]).id != controller_id
                        &&& cmds@ == seq![spec_command_for(self.directory()[i])]
                    },
                Err(e) => {
                    &&& e == ProtocolError::NotFound
                    &&& forall|i: int|
                        0 <= i < self.directory().len() ==> (#[trigger] self.directory()[i]).id
                            != controller_id
                },
            },
    {
        let n = self.controllers.len();
        let mut i: usize = 0;
        while i < n
            invariant
                n == self.controllers@.len(),
                i <= n,
                forall|j: int|
                    0 <= j < i ==> (#[trigger] self.directory()[j]).id != controller_id,
            decreases n - i,
        {
            if self.controllers[i].id == controller_id {
                let mut cmds: Vec<ControllerLedSetCommand> = Vec::new();
                cmds.push(command_for(&self.controllers[i]));
                proof {
                    assert(self.directory()[i as int] == self.controllers@[i as int]@);
                    assert(cmds@ =~= seq![spec_command_for(self.directory()[i as int])]);
                }
                return Ok(cmds);
            }
            proof {
                assert(self.directory()[i as int] == self.controllers@[i as int]@);
            }
            i = i + 1;
        }
        Err(ProtocolError::NotFound)
    }

    /// Selects every directory entry with the given name, in directory
    /// order; not-found when no entry matches.
    pub fn select_by_name(&self, controller_name: &str) -> (r: Result<
        Vec<ControllerLedSetCommand>,
        ProtocolError,
    >)
        ensures
            match r {
                Ok(cmds) => {
                    &&& cmds@ == spec_commands_by_name(self.directory(), controller_name@)
                    &&& cmds@.len() > 0
                },
                Err(e) => {
                    &&& e == ProtocolError::NotFound
                    &&& spec_commands_by_name(self.directory(), controller_name@).len() == 0
                },
            },
    {
        let target = controller_name.to_owned();
        let n = self.controllers.len();
        let mut cmds: Vec<ControllerLedSetCommand> = Vec::new();
        let mut i: usize = 0;
        while i < n
            invariant
                n == self.controllers@.len(),
                i <= n,
                target@ == controller_name@,
                cmds@ == spec_commands_by_name(self.directory().take(i as int), controller_name@),
            decreases n - i,
        {
            let ghost prefix = self.directory().take(i as int);
            if self.controllers[i].name == target {
                cmds.push(command_for(&self.controllers[i]));
            }
            i = i + 1;
            proof {
                let cur = self.directory().take(i as int);
                assert(cur.drop_last() =~= prefix);
                assert(cur.last() == self.controllers@[i - 1]@);
            }
        }
        proof {
            assert(self.directory().take(n as int) =~= self.directory());
        }
        if cmds.len() == 0 {
            Err(ProtocolError::NotFound)
        } else {
            Ok(cmds)
        }
    }

    /// Selects every directory entry of the given device type, in
    /// directory order; not-found when no entry matches.
    pub fn select_by_device_type(&self, device_type: u32) -> (r: Result<
        Vec<ControllerLedSetCommand>,
        ProtocolError,
    >)
        ensures
            match r {
                Ok(cmds) => {
                    &&& cmds@ == spec_commands_by_type(self.directory(), device_type)
                    &&& cmds@.len() > 0
                },
                Err(e) => {
                    &&& e == ProtocolError::NotFound
                    &&& spec_commands_by_type(self.directory(), device_type).len() == 0
                },
            },
    {
        let n = self.controllers.len();
        let mut cmds: Vec<ControllerLedSetCommand> = Vec::new();
        let mut i: usize = 0;
        while i < n
            invariant
                n == self.controllers@.len(),
                i <= n,
                cmds@ == spec_commands_by_type(self.directory().take(i as int), device_type),
            decreases n - i,
        {
            let ghost prefix = self.directory().take(i as int);
            if self.controllers[i].device_type == device_type {
                cmds.push(command_for(&self.controllers[i]));
            }
            i = i + 1;
            proof {
                let cur = self.directory().take(i as int);
                assert(cur.drop_last() =~= prefix);
                assert(cur.last() == self.controllers@[i - 1]@);
            }
        }
        proof {
            assert(self.directory().take(n as int) =~= self.directory());
        }
        if cmds.len() == 0 {
            Err(ProtocolError::NotFound)
        } else {
            Ok(cmds)
        }
    }

    /// Tries every given device type and collects the matching entries,
    /// one batch per type in the given order. The call succeeds when at
    /// least one type matched at least one controller; only when every
    /// type came up empty is not-found reported.
    pub fn select_by_device_types(&self, device_types: &Vec<u32>) -> (r: Result<
        Vec<ControllerLedSetCommand>,
        ProtocolError,
    >)
        ensures
            match r {
                Ok(cmds) => {
                    &&& cmds@ == spec_commands_by_types(self.directory(), device_types@)
                    &&& cmds@.len() > 0
                },
                Err(e) => {
                    &&& e == ProtocolError::NotFound
                    &&& spec_commands_by_types(self.directory(), device_types@).len() == 0
                },
            },
    {
        let n = device_types.len();
        let mut cmds: Vec<ControllerLedSetCommand> = Vec::new();
        let mut t: usize = 0;
        while t < n
            invariant
                n == device_types@.len(),
                t <= n,
                cmds@ == spec_commands_by_types(self.directory(), device_types@.take(t as int)),
            decreases n - t,
        {
            let ghost prefix = device_types@.take(t as int);
            match self.select_by_device_type(device_types[t]) {
                Ok(mut batch) => {
                    cmds.append(&mut batch);
                },
                Err(_) => {},
            }
            t = t + 1;
            proof {
                let cur = device_types@.take(t as int);
                assert(cur.drop_last() =~= prefix);
                assert(cur.last() == device_types@[t - 1]);
            }
        }
        proof {
            assert(device_types@.take(n as int) =~= device_types@);
        }
        if cmds.len() == 0 {
            Err(ProtocolError::NotFound)
        } else {
            Ok(cmds)
        }
    }

    /// Selects the entire directory, one command per entry in order. An
    /// empty directory is a no-op, not an error: the selection is
    /// vacuously satisfied.
    pub fn select_all(&self) -> (cmds: Vec<ControllerLedSetCommand>)
        ensures
            cmds@ == spec_commands_all(self.directory()),
    {
        let n = self.controllers.len();
        let mut cmds: Vec<ControllerLedSetCommand> = Vec::new();
        let mut i: usize = 0;
        while i < n
            invariant
                n == self.controllers@.len(),
                i <= n,
                cmds@ == spec_commands_all(self.directory().take(i as int)),
            decreases n - i,
        {
            cmds.push(command_for(&self.controllers[i]));
            i = i + 1;
            proof {
                assert(cmds@ =~= spec_commands_all(self.directory().take(i as int)));
            }
        }
        proof {
            assert(self.directory().take(n as int) =~= self.directory());
        }
        cmds
    }
}

} // verus!
