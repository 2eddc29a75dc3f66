use vstd::prelude::*;

use crate::json::{json_string, push_json_string};
use crate::keys::{key1, Key};
use crate::map::OrderedMap;
use crate::registry::error::ContractError;
use crate::text::utf8_len;

verus! {

/// A registered channel.
#[derive(Debug, PartialEq, Eq, Clone)]
pub struct ChannelDetails {
    pub channel_id: String,
    pub user_name: String,
    pub onft_id: String,
    pub description: String,
}

/// Why a channel with username `user_name` and description `description` is
/// refused, if it is: a username outside 3 to 32 bytes, then a description
/// outside 3 to 256 bytes.
pub open spec fn name_problem(user_name: Seq<char>, description: Seq<char>) -> Option<ContractError> {
    let n = utf8_len(user_name) as usize;
    let m = utf8_len(description) as usize;
    if n < 3 || n > 32 {
        Some(ContractError::InvalidUserName {})
    } else if m < 3 || m > 256 {
        Some(ContractError::InvalidDescription {})
    } else {
        None
    }
}

/// Why `d` is refused, if it is.
pub open spec fn details_problem(d: ChannelDetails) -> Option<ContractError> {
    name_problem(d.user_name@, d.description@)
}

impl ChannelDetails {
    pub fn new(channel_id: String, user_name: String, onft_id: String, description: String) -> (r: Self)
        ensures
            r == (ChannelDetails { channel_id, user_name, onft_id, description }),
    {
        ChannelDetails { channel_id, user_name, onft_id, description }
    }

    /// A copy of these details.
    pub fn duplicate(&self) -> (r: ChannelDetails)
        ensures
            r == *self,
    {
        ChannelDetails {
            channel_id: self.channel_id.clone(),
            user_name: self.user_name.clone(),
            onft_id: self.onft_id.clone(),
            description: self.description.clone(),
        }
    }

    /// Checks the lengths, in bytes, of the username (3 to 32) and of the
    /// description (3 to 256).
    pub fn validate_channel_details(&self) -> (r: Result<(), ContractError>)
        ensures
            match details_problem(*self) {
                None => r is Ok,
                Some(e) => r == Err::<(), ContractError>(e),
            },
    {
        let n = self.user_name.as_str().len();
        if n < 3 || n > 32 {
            return Err(ContractError::InvalidUserName {});
        }
        let d = self.description.as_str().len();
        if d < 3 || d > 256 {
            return Err(ContractError::InvalidDescription {});
        }
        Ok(())
    }
}

/// The data that a channel's ONFT carries.
#[derive(Debug, PartialEq, Eq, Clone)]
pub struct ChannelOnftData {
    pub channel_id: String,
    pub user_name: String,
}

/// The JSON text of a channel ONFT's data, fields in declaration order.
pub open spec fn onft_data_text(channel_id: Seq<char>, user_name: Seq<char>) -> Seq<char> {
    "{\"channel_id\":"@ + json_string(channel_id) + ",\"user_name\":"@ + json_string(user_name) + "}"@
}

impl ChannelOnftData {
    /// The JSON text of this data.
    pub fn to_json(&self) -> (r: String)
        ensures
            r@ == onft_data_text(self.channel_id@, self.user_name@),
    {
        let mut s = String::new();
        s.append("{\"channel_id\":");
        push_json_string(&mut s, self.channel_id.as_str());
        s.append(",\"user_name\":");
        push_json_string(&mut s, self.user_name.as_str());
        s.append("}");
        assert(s@ =~= onft_data_text(self.channel_id@, self.user_name@));
        s
    }
}

/// The registered channels, by id, and the owner names they were registered
/// under.
pub struct Channels {
    pub channel_details: OrderedMap<ChannelDetails>,
    pub username_to_channel_id: OrderedMap<String>,
    pub channel_id_to_username: OrderedMap<String>,
}

impl Channels {
    pub open spec fn wf(&self) -> bool {
        &&& self.channel_details.wf()
        &&& self.username_to_channel_id.wf()
        &&& self.channel_id_to_username.wf()
    }

    /// No channels.
    pub fn new() -> (r: Self)
        ensures
            r.wf(),
            r.channel_details.view() == Map::<Seq<Seq<char>>, ChannelDetails>::empty(),
            r.username_to_channel_id.view() == Map::<Seq<Seq<char>>, String>::empty(),
            r.channel_id_to_username.view() == Map::<Seq<Seq<char>>, String>::empty(),
    {
        Channels {
            channel_details: OrderedMap::new(),
            username_to_channel_id: OrderedMap::new(),
            channel_id_to_username: OrderedMap::new(),
        }
    }

    /// Why channel `channel_id` cannot be registered under `user_name`, if it
    /// cannot: the id is taken, then the name is.
    pub open spec fn add_problem(&self, channel_id: Seq<char>, user_name: Seq<char>) -> Option<ContractError> {
        if self.channel_details.view().contains_key(key1(channel_id)) {
            Some(ContractError::ChannelIdAlreadyExists {})
        } else if self.username_to_channel_id.view().contains_key(key1(user_name)) {
            Some(ContractError::UserNameAlreadyTaken {})
        } else {
            None
        }
    }

    /// Registers channel `channel_id` with `channel_details` under `user_name`,
    /// when neither the id nor the name is taken.
    pub fn add_channel(
        &mut self,
        channel_id: String,
        user_name: String,
        onft_id: String,
        channel_details: ChannelDetails,
    ) -> (r: Result<(), ContractError>)
        requires
            old(self).wf(),
        ensures
            final(self).wf(),
            match old(self).add_problem(channel_id@, user_name@) {
                Some(e) => r == Err::<(), ContractError>(e) && *final(self) == *old(self),
                None => r is Ok && {
                    &&& final(self).channel_details.view() == old(self).channel_details.view().insert(
                        key1(channel_id@),
                        channel_details,
                    )
                    &&& final(self).username_to_channel_id.view() == old(self).username_to_channel_id.view().insert(
                        key1(user_name@),
                        channel_id,
                    )
                    &&& final(self).channel_id_to_username.view() == old(self).channel_id_to_username.view().insert(
                        key1(channel_id@),
                        user_name,
                    )
                },
            },
    {
        if self.channel_details.contains(&Key::one(channel_id.as_str())) {
            return Err(ContractError::ChannelIdAlreadyExists {});
        }
        if self.username_to_channel_id.contains(&Key::one(user_name.as_str())) {
            return Err(ContractError::UserNameAlreadyTaken {});
        }
        self.channel_details.insert(Key::one(channel_id.as_str()), channel_details);
        self.username_to_channel_id.insert(Key::one(user_name.as_str()), channel_id.clone());
        self.channel_id_to_username.insert(Key::one(channel_id.as_str()), user_name);
        Ok(())
    }

    /// The details of channel `channel_id`.
    pub fn get_channel_details(&self, channel_id: String) -> (r: Result<ChannelDetails, ContractError>)
        requires
            self.wf(),
        ensures
            r is Ok <==> self.channel_details.view().contains_key(key1(channel_id@)),
            r is Err ==> r == Err::<ChannelDetails, ContractError>(ContractError::ChannelIdNotFound {}),
            r matches Ok(d) ==> d == self.channel_details.view()[key1(channel_id@)],
    {
        match self.channel_details.get(&Key::one(channel_id.as_str())) {
            Some(d) => Ok(d.duplicate()),
            None => Err(ContractError::ChannelIdNotFound {}),
        }
    }

    /// Replaces the details of channel `channel_id`, which must be registered.
    pub fn set_channel_details(&mut self, channel_id: String, channel_details: ChannelDetails) -> (r: Result<
        (),
        ContractError,
    >)
        requires
            old(self).wf(),
        ensures
            final(self).wf(),
            !old(self).channel_details.view().contains_key(key1(channel_id@)) ==> r == Err::<(), ContractError>(
                ContractError::ChannelIdNotFound {},
            ) && *final(self) == *old(self),
            old(self).channel_details.view().contains_key(key1(channel_id@)) ==> {
                &&& r is Ok
                &&& final(self).channel_details.view() == old(self).channel_details.view().insert(
                    key1(channel_id@),
                    channel_details,
                )
                &&& final(self).username_to_channel_id == old(self).username_to_channel_id
                &&& final(self).channel_id_to_username == old(self).channel_id_to_username
            },
    {
        if !self.channel_details.contains(&Key::one(channel_id.as_str())) {
            return Err(ContractError::ChannelIdNotFound {});
        }
        self.channel_details.insert(Key::one(channel_id.as_str()), channel_details);
        Ok(())
    }
}

} // verus!
