use vstd::prelude::*;

use crate::types::coin::Decimal;

verus! {

/// A copy of an optional string.
pub fn copy_opt_string(s: &Option<String>) -> (r: Option<String>)
    ensures
        r == *s,
{
    match s {
        Some(t) => Some(t.clone()),
        None => None,
    }
}

/// The identity of a channel.
#[derive(Debug, PartialEq, Eq, Clone)]
pub struct ChannelDetails {
    pub channel_id: String,
    pub user_name: String,
    pub onft_id: String,
    pub payment_address: String,
}

impl ChannelDetails {
    /// A copy of these details.
    pub fn duplicate(&self) -> (r: ChannelDetails)
        ensures
            r == *self,
    {
        ChannelDetails {
            channel_id: self.channel_id.clone(),
            user_name: self.user_name.clone(),
            onft_id: self.onft_id.clone(),
            payment_address: self.payment_address.clone(),
        }
    }
}

/// The presentation of a channel.
#[derive(Debug, PartialEq, Eq, Clone)]
pub struct ChannelMetadata {
    pub channel_name: String,
    pub description: Option<String>,
    pub profile_picture: Option<String>,
    pub banner_picture: Option<String>,
}

impl ChannelMetadata {
    /// A copy of this presentation.
    pub fn duplicate(&self) -> (r: ChannelMetadata)
        ensures
            r == *self,
    {
        ChannelMetadata {
            channel_name: self.channel_name.clone(),
            description: copy_opt_string(&self.description),
            profile_picture: copy_opt_string(&self.profile_picture),
            banner_picture: copy_opt_string(&self.banner_picture),
        }
    }
}

/// The data that the channel's ONFT carries.
#[derive(Debug, PartialEq, Eq, Clone)]
pub struct ChannelOnftData {
    pub onft_id: String,
    pub channel_id: String,
    pub user_name: String,
}

/// What a collaborator may do in a channel.
#[derive(Debug, PartialEq, Eq, Clone, Copy)]
pub enum Role {
    Admin,
    Publisher,
    Moderator,
}

/// The rank of a role: admin above moderator above publisher.
pub open spec fn role_level(r: Role) -> u8 {
    match r {
        Role::Admin => 3,
        Role::Moderator => 2,
        Role::Publisher => 1,
    }
}

/// Whether holding `actual` allows what `required` allows: an admin may do
/// anything, a moderator what a moderator or a publisher may, a publisher what a
/// publisher may.
pub open spec fn role_allows(actual: Role, required: Role) -> bool {
    match (actual, required) {
        (Role::Admin, _) => true,
        (Role::Moderator, Role::Moderator) => true,
        (Role::Moderator, Role::Publisher) => true,
        (Role::Publisher, Role::Publisher) => true,
        _ => false,
    }
}

/// The name of a role.
pub open spec fn role_name(r: Role) -> Seq<char> {
    match r {
        Role::Admin => seq!['A', 'd', 'm', 'i', 'n'],
        Role::Publisher => seq!['P', 'u', 'b', 'l', 'i', 's', 'h', 'e', 'r'],
        Role::Moderator => seq!['M', 'o', 'd', 'e', 'r', 'a', 't', 'o', 'r'],
    }
}

impl Role {
    /// The rank of this role.
    pub fn privilege_level(&self) -> (r: u8)
        ensures
            r == role_level(*self),
    {
        match self {
            Role::Admin => 3,
            Role::Moderator => 2,
            Role::Publisher => 1,
        }
    }

    /// Whether this role ranks at least as high as `required_role`.
    pub fn has_sufficient_privileges(&self, required_role: &Role) -> (r: bool)
        ensures
            r == (role_level(*self) >= role_level(*required_role)),
    {
        self.privilege_level() >= required_role.privilege_level()
    }

    /// The name of this role.
    pub fn name(&self) -> (r: String)
        ensures
            r@ == role_name(*self),
    {
        proof {
            reveal_strlit("Admin");
            reveal_strlit("Publisher");
            reveal_strlit("Moderator");
        }
        match self {
            Role::Admin => "Admin".to_owned(),
            Role::Publisher => "Publisher".to_owned(),
            Role::Moderator => "Moderator".to_owned(),
        }
    }
}

/// Comparing ranks and the explicit table of what each role allows agree.
pub proof fn lemma_rank_agrees_with_table(actual: Role, required: Role)
    ensures
        (role_level(actual) >= role_level(required)) == role_allows(actual, required),
{
}

/// Ranks order roles: every role allows itself, admin allows every role, and
/// allowing is transitive.
pub proof fn lemma_role_order(a: Role, b: Role, c: Role)
    ensures
        role_allows(a, a),
        role_allows(Role::Admin, a),
        role_allows(a, b) && role_allows(b, c) ==> role_allows(a, c),
        role_allows(a, b) && role_allows(b, a) ==> a == b,
{
}

/// A collaborator's role and share of tips.
#[derive(Debug, PartialEq, Eq, Clone, Copy)]
pub struct ChannelCollaborator {
    pub role: Role,
    pub share: Decimal,
}

} // verus!
