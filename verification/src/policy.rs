//! The access policy this core asks the host to install at startup.
//!
//! The receive-side operations are deliberately open: any peer may invoke
//! them, since the engine itself reconciles and deduplicates whatever
//! arrives. The policy is an explicit configuration object enumerating each
//! granted operation with its access level, built once at initialization
//! and handed to the host to install.

use vstd::prelude::*;

verus! {

/// The operations of this core a grant can open to peers.
#[derive(Clone, Copy, PartialEq, Eq, Structural, Debug)]
pub enum OperationName {
    ReceiveMessage,
    NotifyDelivery,
    IsTyping,
    RecvRemoteSignal,
    ReceiveReadReceipt,
}

/// The tag under which a grant is recorded, used to query it later.
#[derive(Clone, Copy, PartialEq, Eq, Structural, Debug)]
pub enum GrantTag {
    Receive,
    Notify,
    Untagged,
    CreateGroupCapGrant,
    Receipt,
}

/// How widely a granted operation may be called.
#[derive(Clone, Copy, PartialEq, Eq, Structural, Debug)]
pub enum AccessLevel {
    /// Any external agent may call the granted operation.
    Unrestricted,
}

/// One grant: an operation opened at an access level, under a tag.
#[derive(Clone, Copy, PartialEq, Eq, Structural, Debug)]
pub struct CapGrant {
    pub tag: GrantTag,
    pub access: AccessLevel,
    pub operation: OperationName,
}

/// The grants to install, in installation order.
#[derive(Clone, Debug)]
pub struct AccessPolicy {
    pub grants: Vec<CapGrant>,
}

/// The grants `init` installs.
pub open spec fn spec_init_grants() -> Seq<CapGrant> {
    seq![
        CapGrant {
            tag: GrantTag::Receive,
            access: AccessLevel::Unrestricted,
            operation: OperationName::ReceiveMessage,
        },
        CapGrant {
            tag: GrantTag::Notify,
            access: AccessLevel::Unrestricted,
            operation: OperationName::NotifyDelivery,
        },
        CapGrant {
            tag: GrantTag::Untagged,
            access: AccessLevel::Unrestricted,
            operation: OperationName::IsTyping,
        },
        CapGrant {
            tag: GrantTag::CreateGroupCapGrant,
            access: AccessLevel::Unrestricted,
            operation: OperationName::RecvRemoteSignal,
        },
        CapGrant {
            tag: GrantTag::Receipt,
            access: AccessLevel::Unrestricted,
            operation: OperationName::ReceiveReadReceipt,
        },
    ]
}

/// Builds the startup access policy: unrestricted grants for receiving
/// messages, delivery notices, typing notices, remote signals and read
/// receipts, each under its tag, in installation order. The host installs
/// each grant in turn.
pub fn init() -> (p: AccessPolicy)
    ensures
        p.grants@ == spec_init_grants(),
{
    let mut grants: Vec<CapGrant> = Vec::new();
    grants.push(
        CapGrant {
            tag: GrantTag::Receive,
            access: AccessLevel::Unrestricted,
            operation: OperationName::ReceiveMessage,
        },
    );
    grants.push(
        CapGrant {
            tag: GrantTag::Notify,
            access: AccessLevel::Unrestricted,
            operation: OperationName::NotifyDelivery,
        },
    );
    grants.push(
        CapGrant {
            tag: GrantTag::Untagged,
            access: AccessLevel::Unrestricted,
            operation: OperationName::IsTyping,
        },
    );
    grants.push(
        CapGrant {
            tag: GrantTag::CreateGroupCapGrant,
            access: AccessLevel::Unrestricted,
            operation: OperationName::RecvRemoteSignal,
        },
    );
    grants.push(
        CapGrant {
            tag: GrantTag::Receipt,
            access: AccessLevel::Unrestricted,
            operation: OperationName::ReceiveReadReceipt,
        },
    );
    proof {
        assert(grants@ =~= spec_init_grants());
    }
    AccessPolicy { grants }
}

} // verus!
