use vstd::prelude::*;

verus! {

/// Mathematical image of a [`Player`] record: every field as a plain
/// value, for use in contracts and in the registry's model.
#[verifier::ext_equal]
pub ghost struct PlayerView {
    pub remote_address: Seq<char>,
    pub remote_port: u16,
    pub nickname: Seq<char>,
    pub id: Seq<char>,
    pub current_veh_id: Seq<char>,
}

/// One connected (or connecting) client.
///
/// Identity for registry purposes is the session `id` alone (see
/// [`Player::eq`]); the other fields are descriptive.  The vehicle id
/// defaults to `"0"` on admission and is only changed by the dispatcher.
pub struct Player {
    pub remote_address: String,
    pub remote_port: u16,
    pub nickname: String,
    pub id: String,
    pub current_veh_id: String,
}

impl View for Player {
    type V = PlayerView;

    open spec fn view(&self) -> PlayerView {
        PlayerView {
            remote_address: self.remote_address@,
            remote_port: self.remote_port,
            nickname: self.nickname@,
            id: self.id@,
            current_veh_id: self.current_veh_id@,
        }
    }
}

impl Player {
    pub fn new(
        remote_address: String,
        remote_port: u16,
        nickname: String,
        id: String,
        current_veh_id: String,
    ) -> (p: Player)
        ensures
            p@ == (PlayerView {
                remote_address: remote_address@,
                remote_port: remote_port,
                nickname: nickname@,
                id: id@,
                current_veh_id: current_veh_id@,
            }),
    {
        Player { remote_address, remote_port, nickname, id, current_veh_id }
    }

    /// A field-for-field duplicate of `other`.
    pub fn copy(other: &Player) -> (p: Player)
        ensures
            p@ == other@,
    {
        Player {
            remote_address: other.remote_address.clone(),
            remote_port: other.remote_port,
            nickname: other.nickname.clone(),
            id: other.id.clone(),
            current_veh_id: other.current_veh_id.clone(),
        }
    }

    /// Session identity: two records denote the same session exactly when
    /// their ids match, whatever the remaining fields hold.
    pub fn eq(this: &Player, other: &Player) -> (r: bool)
        ensures
            r == (this@.id == other@.id),
    {
        this.id == other.id
    }
}

} // verus!
