use vstd::prelude::*;

verus! {

/// The ways in which a channel operation can fail.
#[derive(Debug, Clone, Copy, PartialEq, Eq)]
pub enum CommChannelError {
    InvalidOperation,
    IoError,
    Timeout,
    NoLeftSpace,
    BlockOperation,
    ShmChannelLocked,
    RestoreEof,
}

/// The text that an error is reported with.
pub open spec fn error_text(e: CommChannelError) -> Seq<char> {
    match e {
        CommChannelError::InvalidOperation => "Channel Error: InvalidOperation"@,
        CommChannelError::IoError => "Channel Error: IoError"@,
        CommChannelError::Timeout => "Channel Error: Timeout"@,
        CommChannelError::NoLeftSpace => "Channel Error: NoLeftSpace"@,
        CommChannelError::BlockOperation => "Channel Error: BlockOperation"@,
        CommChannelError::ShmChannelLocked => "Channel Error: ShmChannelLocked"@,
        CommChannelError::RestoreEof => "Channel Error: RestoreEof"@,
    }
}

impl CommChannelError {
    /// The message that describes the error, as the channel reports it.
    pub fn message(&self) -> (s: String)
        ensures
            s@ == error_text(*self),
    {
        match self {
            CommChannelError::InvalidOperation => String::from_str("Channel Error: InvalidOperation"),
            CommChannelError::IoError => String::from_str("Channel Error: IoError"),
            CommChannelError::Timeout => String::from_str("Channel Error: Timeout"),
            CommChannelError::NoLeftSpace => String::from_str("Channel Error: NoLeftSpace"),
            CommChannelError::BlockOperation => String::from_str("Channel Error: BlockOperation"),
            CommChannelError::ShmChannelLocked => String::from_str("Channel Error: ShmChannelLocked"),
            CommChannelError::RestoreEof => String::from_str("Channel Error: RestoreEof"),
        }
    }
}

} // verus!
