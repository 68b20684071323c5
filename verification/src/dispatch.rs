use vstd::prelude::*;

use crate::json::spec_roster_json;
use crate::player::{Player, PlayerView};
use crate::registry::{
    all_deliveries, contains_id, deliveries_view, except_deliveries, register_reg, remove_reg,
    sink_of, Connections, Delivery, DeliveryView, EntryView,
};
use crate::text::{frame_payload, opcode_is, spec_strip_eol};

verus! {

/// The players of a registry, in registry order.
pub open spec fn players_of(r: Seq<EntryView>) -> Seq<PlayerView> {
    r.map_values(|e: EntryView| e.player)
}

/// The roster frame that announces the registry's current contents.
pub open spec fn roster_message(r: Seq<EntryView>) -> Seq<char> {
    "PLST"@ + spec_roster_json(players_of(r))
}

/// One roster frame to every registered sink.
pub open spec fn roster_deliveries(r: Seq<EntryView>) -> Seq<DeliveryView> {
    all_deliveries(r, roster_message(r))
}

/// What dispatching one inbound line amounts to: the registry, the
/// shared map name and the sender's record afterwards, the writes that
/// are owed, and whether the connection stays up.
#[verifier::ext_equal]
pub ghost struct DispatchModel {
    pub registry: Seq<EntryView>,
    pub map: Seq<char>,
    pub sender: PlayerView,
    pub deliveries: Seq<DeliveryView>,
    pub online: bool,
}

/// The dispatch table of the wire protocol, one branch per opcode, in
/// the order the dispatcher tries them.  `raw` is the inbound line as
/// read (its terminator is stripped here); unrecognized opcodes and
/// lines shorter than an opcode change nothing and keep the connection
/// open.
pub open spec fn dispatch_spec(
    raw: Seq<char>,
    reg: Seq<EntryView>,
    map: Seq<char>,
    sender: PlayerView,
) -> DispatchModel {
    let line = spec_strip_eol(raw);
    let pl = frame_payload(line);
    if opcode_is(line, "QUIT"@) || opcode_is(line, "2001"@) {
        let reg2 = remove_reg(reg, sender.id);
        DispatchModel {
            registry: reg2,
            map,
            sender,
            deliveries: roster_deliveries(reg2),
            online: false,
        }
    } else if opcode_is(line, "PING"@) {
        DispatchModel {
            registry: reg,
            map,
            sender,
            deliveries: if contains_id(reg, sender.id) {
                seq![DeliveryView { sink: sink_of(reg, sender.id), message: "PONG"@ }]
            } else {
                Seq::empty()
            },
            online: true,
        }
    } else if opcode_is(line, "CHAT"@) {
        DispatchModel { registry: reg, map, sender, deliveries: all_deliveries(reg, pl), online: true }
    } else if opcode_is(line, "MAPS"@) {
        DispatchModel { registry: reg, map: pl, sender, deliveries: Seq::empty(), online: true }
    } else if opcode_is(line, "U-VI"@) || opcode_is(line, "U-VE"@) || opcode_is(line, "U-VN"@)
        || opcode_is(line, "U-VP"@) || opcode_is(line, "U-VL"@) || opcode_is(line, "U-VR"@) {
        DispatchModel {
            registry: reg,
            map,
            sender,
            deliveries: except_deliveries(reg, sender.id, pl),
            online: true,
        }
    } else if opcode_is(line, "U-VC"@) {
        DispatchModel { registry: reg, map, sender, deliveries: all_deliveries(reg, pl), online: true }
    } else if opcode_is(line, "U-NV"@) {
        DispatchModel { registry: reg, map, sender, deliveries: Seq::empty(), online: true }
    } else if opcode_is(line, "C-VS"@) {
        DispatchModel {
            registry: reg,
            map,
            sender: (PlayerView { current_veh_id: pl, ..sender }),
            deliveries: Seq::empty(),
            online: true,
        }
    } else {
        DispatchModel { registry: reg, map, sender, deliveries: Seq::empty(), online: true }
    }
}

/// The writes owed after one dispatched line, and whether the sender's
/// connection survives it.
pub struct Dispatch {
    pub deliveries: Vec<Delivery>,
    pub online: bool,
}

/// Mutates the registry and plans the roster rebroadcast that follows:
/// with `op` true the player is admitted (with `sink` as its outbound
/// handle), with `op` false it is deregistered; either way every sink
/// registered afterwards is owed one fresh roster frame.
pub fn update_players_list_and_send(
    player: &Player,
    connections: &mut Connections,
    sink: Option<u64>,
    op: bool,
) -> (r: Vec<Delivery>)
    requires
        old(connections).wf(),
        op ==> sink is Some,
    ensures
        final(connections).wf(),
        final(connections)@ == (if op {
            register_reg(old(connections)@, (EntryView { player: player@, sink: sink->0 }))
        } else {
            remove_reg(old(connections)@, player@.id)
        }),
        deliveries_view(r@) == roster_deliveries(final(connections)@),
{
    if op {
        match sink {
            Some(s) => connections.add_player(Player::copy(player), s),
            None => vstd::pervasive::unreached(),
        }
    } else {
        connections.remove_player(player);
    }
    let list = connections.get_list_of_players();
    proof {
        assert(list@.map_values(|p: Player| p@) =~= players_of(connections@));
    }
    let json = crate::json::roster_json(&list);
    let mut msg = "PLST".to_owned();
    msg.append(json.as_str());
    connections.broadcast(msg)
}

/// Deregisters the player (exactly once) and plans the one roster
/// rebroadcast owed to everyone still registered.  This is the single
/// teardown path, shared by the `QUIT`/`2001` opcodes and by an end of
/// stream.
pub fn on_close(connections: &mut Connections, player: &Player) -> (r: Vec<Delivery>)
    requires
        old(connections).wf(),
    ensures
        final(connections).wf(),
        final(connections)@ == remove_reg(old(connections)@, player@.id),
        deliveries_view(r@) == roster_deliveries(final(connections)@),
{
    update_players_list_and_send(player, connections, None, false)
}

/// Dispatches one inbound line against the registry, the shared map
/// name and the sender's record, exactly as [`dispatch_spec`] lays it
/// down, and returns the owed writes together with whether the
/// connection stays up.
pub fn handle_client_msg(
    line: &str,
    connections: &mut Connections,
    player: &mut Player,
    map: &mut String,
) -> (r: Dispatch)
    requires
        old(connections).wf(),
    ensures
        final(connections).wf(),
        ({
            let m = dispatch_spec(line@, old(connections)@, old(map)@, old(player)@);
            final(connections)@ == m.registry && final(map)@ == m.map && final(player)@ == m.sender
                && deliveries_view(r.deliveries@) == m.deliveries && r.online == m.online
        }),
{
    let ghost m = dispatch_spec(line@, old(connections)@, old(map)@, old(player)@);
    let stripped = crate::text::strip_line_ending(line);
    let n = stripped.unicode_len();
    if n < 4 {
        let r = Dispatch { deliveries: Vec::new(), online: true };
        proof {
            assert(deliveries_view(r.deliveries@) =~= m.deliveries);
        }
        return r;
    }
    let op = stripped.substring_char(0, 4);
    let payload = stripped.substring_char(4, n).to_owned();
    if crate::text::str_eq(op, "QUIT") || crate::text::str_eq(op, "2001") {
        let ds = on_close(connections, player);
        return Dispatch { deliveries: ds, online: false };
    }
    if crate::text::str_eq(op, "PING") {
        let mut ds: Vec<Delivery> = Vec::new();
        match connections.send_private("PONG".to_owned(), player) {
            Ok(d) => {
                ds.push(d);
                proof {
                    assert(deliveries_view(ds@) =~= m.deliveries);
                }
            },
            Err(_) => {
                proof {
                    assert(deliveries_view(ds@) =~= m.deliveries);
                }
            },
        }
        return Dispatch { deliveries: ds, online: true };
    }
    if crate::text::str_eq(op, "CHAT") {
        let ds = connections.broadcast(payload);
        return Dispatch { deliveries: ds, online: true };
    }
    if crate::text::str_eq(op, "MAPS") {
        *map = payload;
        let r = Dispatch { deliveries: Vec::new(), online: true };
        proof {
            assert(deliveries_view(r.deliveries@) =~= m.deliveries);
        }
        return r;
    }
    if crate::text::str_eq(op, "U-VI") || crate::text::str_eq(op, "U-VE") || crate::text::str_eq(
        op,
        "U-VN",
    ) || crate::text::str_eq(op, "U-VP") || crate::text::str_eq(op, "U-VL")
        || crate::text::str_eq(op, "U-VR") {
        let ds = connections.broadcast_to_everyone_else(payload, player);
        return Dispatch { deliveries: ds, online: true };
    }
    if crate::text::str_eq(op, "U-VC") {
        let ds = connections.broadcast(payload);
        return Dispatch { deliveries: ds, online: true };
    }
    if crate::text::str_eq(op, "U-NV") {
        // Intentionally not relayed: a placeholder of the protocol.
        let r = Dispatch { deliveries: Vec::new(), online: true };
        proof {
            assert(deliveries_view(r.deliveries@) =~= m.deliveries);
        }
        return r;
    }
    if crate::text::str_eq(op, "C-VS") {
        if !(player.current_veh_id == payload) {
            player.current_veh_id = payload;
        }
        let r = Dispatch { deliveries: Vec::new(), online: true };
        proof {
            assert(player@ =~= m.sender);
            assert(deliveries_view(r.deliveries@) =~= m.deliveries);
        }
        return r;
    }
    let r = Dispatch { deliveries: Vec::new(), online: true };
    proof {
        assert(deliveries_view(r.deliveries@) =~= m.deliveries);
    }
    r
}

} // verus!
