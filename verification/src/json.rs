use vstd::prelude::*;

use crate::player::{Player, PlayerView};

verus! {

/// The JSON string literal (opening quote, escapes, closing quote) that
/// `serde_json` produces for a given sequence of characters.  The exact
/// escaping rules are the serializer's own; the encoding depends on the
/// characters alone.
pub uninterp spec fn json_str_of(s: Seq<char>) -> Seq<char>;

/// The string held under `key` when `s` parses as a JSON object whose
/// `key` field is a string; `None` when `s` does not parse, is no object,
/// lacks the field, or holds a non-string there.  The outcome depends on
/// `s` and `key` alone.
pub uninterp spec fn json_string_field_of(s: Seq<char>, key: Seq<char>) -> Option<Seq<char>>;

/// Relies on `serde_json::to_string::<str>`: it encodes `s` as a JSON
/// string literal, a pure function of the characters of `s`, and cannot
/// fail for a `str` (only a failing `Serialize` impl or a non-string map
/// key can make it fail).
#[verifier::external_body]
fn json_string(s: &str) -> (r: String)
    ensures
        r@ == json_str_of(s@),
{
    serde_json::to_string(s).unwrap()
}

/// Relies on `serde_json::from_str::<Value>` together with `Value::get`
/// and `Value::as_str` (the latter two are one map lookup and one
/// variant test): the string field named `key` of the JSON document `s`,
/// a pure function of `s` and `key`.
#[verifier::external_body]
pub(crate) fn json_string_field(s: &str, key: &str) -> (r: Option<String>)
    ensures
        r is Some <==> json_string_field_of(s@, key@) is Some,
        r is Some ==> r->0@ == json_string_field_of(s@, key@)->0,
{
    match serde_json::from_str::<serde_json::Value>(s) {
        Ok(v) => match v.get(key) {
            Some(f) => match f.as_str() {
                Some(n) => Some(n.to_owned()),
                None => None,
            },
            None => None,
        },
        Err(_) => None,
    }
}

/// The single character that writes a decimal digit.
pub open spec fn spec_digit(d: nat) -> Seq<char> {
    if d == 0 {
        "0"@
    } else if d == 1 {
        "1"@
    } else if d == 2 {
        "2"@
    } else if d == 3 {
        "3"@
    } else if d == 4 {
        "4"@
    } else if d == 5 {
        "5"@
    } else if d == 6 {
        "6"@
    } else if d == 7 {
        "7"@
    } else if d == 8 {
        "8"@
    } else {
        "9"@
    }
}

/// The usual decimal writing of `n`, most significant digit first, no
/// leading zeros (except for `n == 0` itself).
pub open spec fn spec_decimal(n: nat) -> Seq<char>
    decreases n,
{
    if n < 10 {
        spec_digit(n)
    } else {
        spec_decimal(n / 10) + spec_digit(n % 10)
    }
}

fn digit_str(d: u16) -> (r: &'static str)
    requires
        d < 10,
    ensures
        r@ == spec_digit(d as nat),
{
    if d == 0 {
        "0"
    } else if d == 1 {
        "1"
    } else if d == 2 {
        "2"
    } else if d == 3 {
        "3"
    } else if d == 4 {
        "4"
    } else if d == 5 {
        "5"
    } else if d == 6 {
        "6"
    } else if d == 7 {
        "7"
    } else if d == 8 {
        "8"
    } else {
        "9"
    }
}

/// Writes `n` in decimal.
pub fn u16_decimal(n: u16) -> (r: String)
    ensures
        r@ == spec_decimal(n as nat),
    decreases n,
{
    if n < 10 {
        digit_str(n).to_owned()
    } else {
        let prefix = u16_decimal(n / 10);
        prefix.concat(digit_str(n % 10))
    }
}

/// The JSON object that describes one player in a roster frame: the five
/// public fields of the record, under the wire protocol's key names.
pub open spec fn spec_player_json(p: PlayerView) -> Seq<char> {
    "{\"remoteAddress\":"@ + json_str_of(p.remote_address) + ",\"remotePort\":"@ + spec_decimal(
        p.remote_port as nat,
    ) + ",\"nickname\":"@ + json_str_of(p.nickname) + ",\"id\":"@ + json_str_of(p.id)
        + ",\"currentVehID\":"@ + json_str_of(p.current_veh_id) + "}"@
}

/// Serializes one player as a JSON object.
pub fn player_json(p: &Player) -> (r: String)
    ensures
        r@ == spec_player_json(p@),
{
    let mut r = "{\"remoteAddress\":".to_owned();
    let addr = json_string(p.remote_address.as_str());
    r.append(addr.as_str());
    r.append(",\"remotePort\":");
    let port = u16_decimal(p.remote_port);
    r.append(port.as_str());
    r.append(",\"nickname\":");
    let nick = json_string(p.nickname.as_str());
    r.append(nick.as_str());
    r.append(",\"id\":");
    let id = json_string(p.id.as_str());
    r.append(id.as_str());
    r.append(",\"currentVehID\":");
    let veh = json_string(p.current_veh_id.as_str());
    r.append(veh.as_str());
    r.append("}");
    proof {
        assert(r@ =~= spec_player_json(p@));
    }
    r
}

/// The comma-separated body of a JSON array of player objects.
pub open spec fn spec_roster_items(ps: Seq<PlayerView>) -> Seq<char>
    decreases ps.len(),
{
    if ps.len() == 0 {
        Seq::empty()
    } else if ps.len() == 1 {
        spec_player_json(ps[0])
    } else {
        spec_roster_items(ps.drop_last()) + ","@ + spec_player_json(ps.last())
    }
}

/// The JSON array of player objects that a roster frame carries.
pub open spec fn spec_roster_json(ps: Seq<PlayerView>) -> Seq<char> {
    "["@ + spec_roster_items(ps) + "]"@
}

/// Serializes the roster as a JSON array, in the order given.
pub fn roster_json(players: &Vec<Player>) -> (r: String)
    ensures
        r@ == spec_roster_json(players@.map_values(|p: Player| p@)),
{
    let ghost ps = players@.map_values(|p: Player| p@);
    let mut r = "[".to_owned();
    let mut i: usize = 0;
    while i < players.len()
        invariant
            i <= players.len(),
            ps == players@.map_values(|p: Player| p@),
            ps.len() == players@.len(),
            r@ == "["@ + spec_roster_items(ps.take(i as int)),
        decreases players.len() - i,
    {
        if i > 0 {
            r.append(",");
        }
        let pj = player_json(&players[i]);
        r.append(pj.as_str());
        proof {
            let taken = ps.take(i as int + 1);
            assert(taken.drop_last() =~= ps.take(i as int));
            assert(taken.last() == ps[i as int]);
            assert(r@ =~= "["@ + spec_roster_items(taken));
        }
        i += 1;
    }
    r.append("]");
    proof {
        assert(ps.take(ps.len() as int) =~= ps);
        assert(r@ =~= spec_roster_json(ps));
    }
    r
}

} // verus!
