use vstd::prelude::*;

use crate::channel_manager::error::ChannelError;
use crate::text::utf8_len;

verus! {

/// A channel as the channel book describes it on its own: its id, username,
/// description, ONFT and the addresses of its collaborators.
#[derive(Debug, PartialEq, Eq, Clone)]
pub struct ChannelDetails {
    pub channel_id: String,
    pub user_name: String,
    pub description: String,
    pub onft_id: String,
    pub collaborators: Vec<String>,
}

/// Why a channel with username `user_name` and description `description` is
/// refused, if it is: a username outside 3 to 32 bytes, then a description
/// outside 3 to 256 bytes.
pub open spec fn details_problem(user_name: Seq<char>, description: Seq<char>) -> Option<ChannelError> {
    let n = utf8_len(user_name) as usize;
    let m = utf8_len(description) as usize;
    if n < 3 || n > 32 {
        Some(ChannelError::InvalidUserName {})
    } else if m < 3 || m > 256 {
        Some(ChannelError::InvalidDescription {})
    } else {
        None
    }
}

impl ChannelDetails {
    pub fn new(
        channel_id: String,
        user_name: String,
        description: String,
        onft_id: String,
        collaborators: Vec<String>,
    ) -> (r: Self)
        ensures
            r == (ChannelDetails { channel_id, user_name, description, onft_id, collaborators }),
    {
        ChannelDetails { channel_id, user_name, description, onft_id, collaborators }
    }

    /// Checks the lengths, in bytes, of the username (3 to 32) and of the
    /// description (3 to 256).
    pub fn validate(&self) -> (r: Result<(), ChannelError>)
        ensures
            match details_problem(self.user_name@, self.description@) {
                None => r is Ok,
                Some(e) => r == Err::<(), ChannelError>(e),
            },
    {
        let n = self.user_name.as_str().len();
        if n < 3 || n > 32 {
            return Err(ChannelError::InvalidUserName {});
        }
        let d = self.description.as_str().len();
        if d < 3 || d > 256 {
            return Err(ChannelError::InvalidDescription {});
        }
        Ok(())
    }
}

} // verus!
