//! The capability contract between generated message types and the
//! transport, and the two control-ping messages the transport uses for
//! request/reply correlation.

use vstd::prelude::*;
use vstd::string::StringExecFns;

verus! {

/// The minimal operation set every generated message type implements for
/// the transport layer: produce the stable name-and-CRC identifier the
/// transport resolves to a run-time message id, and accept the context
/// and client-index values it correlates requests and replies with.
pub trait VppApiMessage {
    /// The message's stable wire identifier, "name_crc".
    fn get_message_name_and_crc() -> String;

    /// Accepts the context value for this message.
    fn set_context(&mut self, context: u32);

    /// Accepts the client-index value for this message.
    fn set_client_index(&mut self, client_index: u32);
}

/// The liveness probe the transport sends to mark the end of a bulk
/// reply stream.
#[derive(Debug, Clone)]
pub struct ControlPing {
    pub client_index: u32,
    pub context: u32,
}

/// The reply to a control ping.
#[derive(Debug, Clone)]
pub struct ControlPingReply {
    pub context: u32,
    pub retval: i32,
    pub client_index: u32,
    pub vpe_pid: u32,
}

impl VppApiMessage for ControlPing {
    fn get_message_name_and_crc() -> (r: String)
        ensures
            r@ == "control_ping_51077d14"@,
    {
        String::from_str("control_ping_51077d14")
    }

    fn set_context(&mut self, context: u32)
        ensures
            final(self).context == context,
            final(self).client_index == old(self).client_index,
    {
        self.context = context;
    }

    fn set_client_index(&mut self, client_index: u32)
        ensures
            final(self).client_index == client_index,
            final(self).context == old(self).context,
    {
        self.client_index = client_index;
    }
}

impl VppApiMessage for ControlPingReply {
    fn get_message_name_and_crc() -> (r: String)
        ensures
            r@ == "control_ping_reply_f6b0b8ca"@,
    {
        String::from_str("control_ping_reply_f6b0b8ca")
    }

    fn set_context(&mut self, context: u32)
        ensures
            final(self).context == context,
            final(self).client_index == old(self).client_index,
            final(self).retval == old(self).retval,
            final(self).vpe_pid == old(self).vpe_pid,
    {
        self.context = context;
    }

    fn set_client_index(&mut self, client_index: u32)
        ensures
            final(self).client_index == client_index,
            final(self).context == old(self).context,
            final(self).retval == old(self).retval,
            final(self).vpe_pid == old(self).vpe_pid,
    {
        self.client_index = client_index;
    }
}

/// The error numbers the native shared-memory client library reports.
#[derive(Debug, Clone, Copy, PartialEq, Eq, Structural)]
pub enum VacErrorNo {
    VacSvmQueueSub1,
    VacSvmQueueSub2,
    VacNotConnected,
    VacShmNotReady,
    VacTimeout,
}

/// The numeric code of each error as the native library returns it.
pub open spec fn spec_vac_code(e: VacErrorNo) -> i32 {
    match e {
        VacErrorNo::VacSvmQueueSub1 => -1i32,
        VacErrorNo::VacSvmQueueSub2 => -2i32,
        VacErrorNo::VacNotConnected => -3i32,
        VacErrorNo::VacShmNotReady => -4i32,
        VacErrorNo::VacTimeout => -5i32,
    }
}

impl VacErrorNo {
    /// The numeric code the native library returns for this error.
    pub fn code(&self) -> (r: i32)
        ensures
            r == spec_vac_code(*self),
    {
        match self {
            VacErrorNo::VacSvmQueueSub1 => -1,
            VacErrorNo::VacSvmQueueSub2 => -2,
            VacErrorNo::VacNotConnected => -3,
            VacErrorNo::VacShmNotReady => -4,
            VacErrorNo::VacTimeout => -5,
        }
    }

    /// The error carried by a negative return code, if it names one.
    pub fn from_code(code: i32) -> (r: Option<VacErrorNo>)
        ensures
            match r {
                Some(e) => spec_vac_code(e) == code,
                None => forall|e: VacErrorNo| spec_vac_code(e) != code,
            },
    {
        if code == -1 {
            Some(VacErrorNo::VacSvmQueueSub1)
        } else if code == -2 {
            Some(VacErrorNo::VacSvmQueueSub2)
        } else if code == -3 {
            Some(VacErrorNo::VacNotConnected)
        } else if code == -4 {
            Some(VacErrorNo::VacShmNotReady)
        } else if code == -5 {
            Some(VacErrorNo::VacTimeout)
        } else {
            assert forall|e: VacErrorNo| spec_vac_code(e) != code by {}
            None
        }
    }
}

} // verus!
