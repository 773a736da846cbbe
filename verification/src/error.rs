use vstd::prelude::*;

verus! {

/// Errors surfaced by the aggregation core.
///
/// `Config` marks a malformed or unusable configuration (fatal for the
/// one chain concerned, never for the whole process), `Transport` a
/// failed RPC or block-explorer call (recoverable: downgraded to an
/// empty or zero result at the aggregation boundary), and `NotFound` a
/// chain key that is absent from the registry.
#[derive(Debug)]
pub enum ClientError {
    Config(String),
    Transport(String),
    NotFound(String),
}

impl Clone for ClientError {
    fn clone(&self) -> (r: Self)
        ensures
            r == *self,
    {
        match self {
            ClientError::Config(m) => ClientError::Config(m.clone()),
            ClientError::Transport(m) => ClientError::Transport(m.clone()),
            ClientError::NotFound(m) => ClientError::NotFound(m.clone()),
        }
    }
}

impl ClientError {
    /// The diagnostic message carried by the error.
    pub fn message(&self) -> (r: &String)
        ensures
            r == self.spec_message(),
    {
        match self {
            ClientError::Config(m) => m,
            ClientError::Transport(m) => m,
            ClientError::NotFound(m) => m,
        }
    }

    pub open spec fn spec_message(&self) -> &String {
        match self {
            ClientError::Config(m) => m,
            ClientError::Transport(m) => m,
            ClientError::NotFound(m) => m,
        }
    }

    pub open spec fn is_config(&self) -> bool {
        matches!(self, ClientError::Config(_))
    }

    pub open spec fn is_transport(&self) -> bool {
        matches!(self, ClientError::Transport(_))
    }

    pub open spec fn is_not_found(&self) -> bool {
        matches!(self, ClientError::NotFound(_))
    }
}

} // verus!
