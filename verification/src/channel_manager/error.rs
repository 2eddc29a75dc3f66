use vstd::prelude::*;

verus! {

/// Errors of channel bookkeeping.
#[derive(Debug, PartialEq, Eq, Clone, Copy)]
pub enum ChannelError {
    ChannelIdNotFound {},
    ChannelIdAlreadyExists {},
    UserNameNotFound {},
    UserNameAlreadyTaken {},
    SaveChannelDetailsFailed {},
    SaveReservedUsernamesFailed {},
    UsernameNotReserved {},
    CollaboratorExists {},
    InvalidSharePercentage {},
    CollaboratorNotFound {},
    CollaboratorExpired {},
    TotalUniqueCollaboratorsLimitExceeded {},
    FollowerNotFound {},
    AlreadyFollowing {},
    InvalidUserName {},
    InvalidDescription {},
}

} // verus!
