use vstd::prelude::*;

use crate::json::json_string_field_of;
use crate::player::{Player, PlayerView};
use crate::text::{frame_payload, opcode_is, spec_strip_eol};

verus! {

/// The protocol/version string announced in the `VCHK` frame.
pub open spec fn protocol_version() -> Seq<char> {
    "0.0.3"@
}

/// How many inbound lines the handshake will read while waiting for a
/// `USER` frame before giving up.
pub const MAX_USER_ATTEMPTS: u8 = 10;

/// Why a handshake was aborted.  An aborted handshake is terminal for
/// its connection: nothing was registered, the socket is to be closed.
#[derive(PartialEq, Eq, Structural, Clone, Copy, Debug)]
pub enum HandshakeError {
    /// The peer closed the connection before sending a `USER` frame.
    Disconnected,
    /// The attempt budget ran out without a `USER` frame.
    NoUserFrame,
    /// A `USER` frame arrived, but its payload held no parsable nickname.
    MalformedIdentity,
}

/// What one inbound handshake line led to.
pub enum HandshakeStep {
    /// A valid `USER` frame: this player may be admitted.
    Admit(Player),
    /// Not a `USER` frame; keep reading.
    Retry,
    /// The handshake is over without an admission.
    Fail(HandshakeError),
}

/// Whether a line (already stripped of its terminator) is a `USER`
/// frame: its first four characters spell the opcode.
pub open spec fn is_user_line(line: Seq<char>) -> bool {
    opcode_is(line, "USER"@)
}

/// The nickname carried by a `USER` payload, when there is one.
pub open spec fn spec_nickname(payload: Seq<char>) -> Option<Seq<char>> {
    json_string_field_of(payload, "nickname"@)
}

/// The per-connection handshake state machine: it runs before the
/// connection may be admitted to the registry.  The caller emits the
/// greeting frames of [`Handshake::begin`], then feeds every inbound
/// line to [`Handshake::on_line`] until that admits a player or fails;
/// an end of stream before either is [`HandshakeError::Disconnected`].
pub struct Handshake {
    /// The session id generated for this connection.
    pub id: String,
    /// How many non-`USER` lines have been consumed so far.
    pub attempts: u8,
}

/// Relies on `uuid::Uuid::new_v4` and its `Display` impl: a freshly
/// drawn random version-4 UUID in the standard hyphenated form.  The
/// value is random; nothing is promised of it, and the registry is
/// proved correct whatever id comes back.
#[verifier::external_body]
fn fresh_session_id() -> String {
    uuid::Uuid::new_v4().to_string()
}

impl Handshake {
    /// Starts a handshake: generates the session id and lays out the
    /// three greeting frames the server owes the peer, in order: the id
    /// announcement, the current map (`MAPS` when none is selected,
    /// `MAPC<name>` otherwise), and the version check.
    pub fn begin(map: &str) -> (r: (Handshake, Vec<String>))
        ensures
            r.0.attempts == 0,
            r.1@.len() == 3,
            r.1@[0]@ == "HOLA"@ + r.0.id@,
            r.1@[1]@ == (if map@.len() == 0 {
                "MAPS"@
            } else {
                "MAPC"@ + map@
            }),
            r.1@[2]@ == "VCHK"@ + protocol_version(),
    {
        let id = fresh_session_id();
        let mut frames: Vec<String> = Vec::new();
        let mut hola = "HOLA".to_owned();
        hola.append(id.as_str());
        frames.push(hola);
        if map.is_empty() {
            frames.push("MAPS".to_owned());
        } else {
            let mut mapc = "MAPC".to_owned();
            mapc.append(map);
            frames.push(mapc);
        }
        let mut vchk = "VCHK".to_owned();
        vchk.append("0.0.3");
        frames.push(vchk);
        (Handshake { id, attempts: 0 }, frames)
    }

    /// Consumes one inbound line.  A `USER` line either admits a player
    /// built from the connection's remote address and port, the parsed
    /// nickname, the generated session id and the default vehicle id
    /// `"0"`, or fails with [`HandshakeError::MalformedIdentity`] when
    /// its payload holds no nickname.  Any other line spends one of the
    /// [`MAX_USER_ATTEMPTS`] attempts; the last one fails the handshake
    /// with [`HandshakeError::NoUserFrame`].
    pub fn on_line(&mut self, line: &str, remote_address: &str, remote_port: u16) -> (r:
        HandshakeStep)
        requires
            old(self).attempts < MAX_USER_ATTEMPTS,
        ensures
            final(self).id@ == old(self).id@,
            ({
                let l = spec_strip_eol(line@);
                if is_user_line(l) {
                    final(self).attempts == old(self).attempts && (match spec_nickname(
                        frame_payload(l),
                    ) {
                        Some(nick) => r matches HandshakeStep::Admit(p) && p@ == (PlayerView {
                            remote_address: remote_address@,
                            remote_port: remote_port,
                            nickname: nick,
                            id: old(self).id@,
                            current_veh_id: "0"@,
                        }),
                        None => r matches HandshakeStep::Fail(e) && e
                            == HandshakeError::MalformedIdentity,
                    })
                } else {
                    final(self).attempts == old(self).attempts + 1 && (if old(self).attempts + 1
                        < MAX_USER_ATTEMPTS {
                        r matches HandshakeStep::Retry
                    } else {
                        r matches HandshakeStep::Fail(e) && e == HandshakeError::NoUserFrame
                    })
                }
            }),
    {
        let stripped = crate::text::strip_line_ending(line);
        let n = stripped.unicode_len();
        let is_user = if n >= 4 {
            crate::text::str_eq(stripped.substring_char(0, 4), "USER")
        } else {
            false
        };
        if is_user {
            let payload = stripped.substring_char(4, n);
            match crate::json::json_string_field(payload, "nickname") {
                Some(nick) => HandshakeStep::Admit(
                    Player::new(
                        remote_address.to_owned(),
                        remote_port,
                        nick,
                        self.id.clone(),
                        "0".to_owned(),
                    ),
                ),
                None => HandshakeStep::Fail(HandshakeError::MalformedIdentity),
            }
        } else {
            self.attempts = self.attempts + 1;
            if self.attempts < MAX_USER_ATTEMPTS {
                HandshakeStep::Retry
            } else {
                HandshakeStep::Fail(HandshakeError::NoUserFrame)
            }
        }
    }
}

} // verus!
